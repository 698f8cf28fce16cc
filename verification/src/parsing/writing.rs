//! The frames of the hot path as text, and the law that reading what was
//! written gives back what was written.

use vstd::prelude::*;
use vstd::string::StringSliceAdditionalSpecFns;
use vstd::utf8::valid_utf8;
use crate::decimal::Decimal;
use crate::market_data_type::TradeEvent;
use crate::parsing::bytes::first_at;
use crate::parsing::bytes::holds_at;
use crate::parsing::bytes::occurs_before;
use crate::parsing::keys::lemma_channel_keys;
use crate::parsing::keys::lemma_directions;
use crate::parsing::keys::lemma_envelope_prefix;
use crate::parsing::keys::lemma_keys_behind_numbers;
use crate::parsing::keys::lemma_keys_behind_strings;
use crate::parsing::keys::lemma_timestamp_key;
use crate::parsing::parsing_fast::channel_type_of;
use crate::parsing::parsing_fast::data_at;
use crate::parsing::parsing_fast::direction_at;
use crate::parsing::parsing_fast::instrument_at;
use crate::parsing::parsing_fast::on_channel;
use crate::parsing::parsing_fast::tick_direction_at;
use crate::parsing::parsing_fast::trade_at;
use crate::parsing::parsing_fast::trade_head_at;
use crate::parsing::parsing_fast::trade_lead_at;
use crate::parsing::parsing_fast::trade_middle_at;
use crate::parsing::parsing_fast::trade_tail_at;
use crate::parsing::parsing_fast::trades_from;
use crate::parsing::parsing_fast::trades_in;
use crate::parsing::parsing_fast::ChannelType;
use crate::parsing::parsing_fast::AMOUNT_KEY;
use crate::parsing::parsing_fast::BUY;
use crate::parsing::parsing_fast::COMMA;
use crate::parsing::parsing_fast::CONTRACTS_KEY;
use crate::parsing::parsing_fast::DATA_PATTERN;
use crate::parsing::parsing_fast::DIRECTION_KEY;
use crate::parsing::parsing_fast::ENVELOPE_PREFIX;
use crate::parsing::parsing_fast::INDEX_PRICE_KEY;
use crate::parsing::parsing_fast::INSTRUMENT_NAME_KEY;
use crate::parsing::parsing_fast::LIST_CLOSE;
use crate::parsing::parsing_fast::LIST_OPEN;
use crate::parsing::parsing_fast::MARK_PRICE_KEY;
use crate::parsing::parsing_fast::MIN_FRAME_LEN;
use crate::parsing::parsing_fast::OBJECT_CLOSE;
use crate::parsing::parsing_fast::PRICE_KEY;
use crate::parsing::parsing_fast::SELL;
use crate::parsing::parsing_fast::TICK_DIRECTION_KEY;
use crate::parsing::parsing_fast::TIMESTAMP_KEY;
use crate::parsing::parsing_fast::TRADES_PATTERN;
use crate::parsing::parsing_fast::TRADE_ID_KEY;
use crate::parsing::parsing_fast::TRADE_SEQ_KEY;
use crate::parsing::scan::trade_id_of;
use crate::parsing::scan::after_literal;
use crate::parsing::scan::decimal_at;
use crate::parsing::scan::digits_end;
use crate::parsing::scan::digits_value;
use crate::parsing::scan::exponent_at;
use crate::parsing::scan::is_digit;
use crate::parsing::scan::is_space;
use crate::parsing::scan::lemma_digits_value_push;
use crate::parsing::scan::mantissa_at;
use crate::parsing::scan::string_at;
use crate::parsing::scan::string_end;
use crate::parsing::scan::u64_at;
use crate::parsing::scan::whitespace_end;
use crate::parsing::scan::BACKSLASH;
use crate::parsing::scan::DIGIT_ZERO;
use crate::parsing::scan::LOWER_E;
use crate::parsing::scan::UPPER_E;
use crate::parsing::scan::MINUS;
use crate::parsing::scan::PLUS;
use crate::parsing::scan::POINT;
use crate::parsing::scan::QUOTE;
use crate::parsing::Field;
use crate::parsing::ParseError;

verus! {

/// The decimal digits of a number, without leading zeros.
pub open spec fn decimal_bytes(n: nat) -> Seq<u8>
    decreases n,
{
    if n < 10 {
        seq![(DIGIT_ZERO + n) as u8]
    } else {
        decimal_bytes(n / 10).push((DIGIT_ZERO + n % 10) as u8)
    }
}

/// A `-` for a negative number, nothing for any other.
pub open spec fn sign_bytes(negative: bool) -> Seq<u8> {
    if negative {
        seq![MINUS]
    } else {
        Seq::empty()
    }
}

/// The size of a power of ten.
pub open spec fn magnitude(scale: i32) -> nat {
    if scale < 0 {
        (-scale) as nat
    } else {
        scale as nat
    }
}

/// A decimal as text: its sign, the digits of its mantissa, an `e`, and its
/// power of ten with its sign.
pub open spec fn number_text(d: Decimal) -> Seq<u8> {
    sign_bytes(d.negative) + (decimal_bytes(d.mantissa as nat) + (seq![LOWER_E] + (sign_bytes(
        d.scale < 0,
    ) + decimal_bytes(magnitude(d.scale)))))
}

/// Whether the text can stand between two quotes as it is.
pub open spec fn plain_text(text: Seq<u8>) -> bool {
    forall|i: int| 0 <= i < text.len() ==> #[trigger] text[i] != QUOTE && text[i] != BACKSLASH
}

/// Whether the byte behind the text at `pos + len` ends a run of digits: it
/// is no digit, or the buffer ends there.
pub open spec fn digits_stop(buf: Seq<u8>, at: int) -> bool {
    at >= buf.len() || !is_digit(buf[at])
}

/// The digits of a number are digits, at least one, and write the number.
pub proof fn lemma_decimal_bytes(n: nat)
    ensures
        decimal_bytes(n).len() >= 1,
        forall|i: int| 0 <= i < decimal_bytes(n).len() ==> is_digit(#[trigger] decimal_bytes(n)[i]),
        digits_value(decimal_bytes(n)) == n,
    decreases n,
{
    if n < 10 {
        let d = (DIGIT_ZERO + n) as u8;
        assert(seq![d] =~= Seq::<u8>::empty().push(d));
        lemma_digits_value_push(Seq::<u8>::empty(), d);
    } else {
        lemma_decimal_bytes(n / 10);
        lemma_digits_value_push(decimal_bytes(n / 10), (DIGIT_ZERO + n % 10) as u8);
    }
}

/// Where a buffer holds two texts one behind the other, it holds each.
pub proof fn lemma_holds_split(buf: Seq<u8>, pos: int, first: Seq<u8>, rest: Seq<u8>)
    requires
        holds_at(buf, pos, first + rest),
    ensures
        holds_at(buf, pos, first),
        holds_at(buf, pos + first.len(), rest),
        pos + first.len() + rest.len() <= buf.len(),
{
    let whole = buf.subrange(pos, pos + (first + rest).len());
    assert(buf.subrange(pos, pos + first.len()) =~= first) by {
        assert forall|i: int| 0 <= i < first.len() implies buf[pos + i] == first[i] by {
            assert(whole[i] == (first + rest)[i]);
        }
    }
    assert(buf.subrange(pos + first.len(), pos + first.len() + rest.len()) =~= rest) by {
        assert forall|i: int| 0 <= i < rest.len() implies buf[pos + first.len() + i] == rest[i] by {
            assert(whole[first.len() + i] == (first + rest)[first.len() + i]);
        }
    }
}

/// Where a buffer holds a text, each byte of the text stands in the buffer.
pub proof fn lemma_holds_bytes(buf: Seq<u8>, pos: int, text: Seq<u8>)
    requires
        holds_at(buf, pos, text),
    ensures
        forall|i: int| 0 <= i < text.len() ==> buf[pos + i] == #[trigger] text[i],
{
    assert forall|i: int| 0 <= i < text.len() implies buf[pos + i] == #[trigger] text[i] by {
        assert(buf.subrange(pos, pos + text.len())[i] == text[i]);
    }
}

/// A run of `count` digits that stops behind them ends there.
pub proof fn lemma_digits_end_framed(buf: Seq<u8>, pos: int, count: nat)
    requires
        0 <= pos,
        pos + count <= buf.len(),
        forall|i: int| pos <= i < pos + count ==> is_digit(#[trigger] buf[i]),
        digits_stop(buf, pos + count),
    ensures
        digits_end(buf, pos) == pos + count,
    decreases count,
{
    if count > 0 {
        lemma_digits_end_framed(buf, pos + 1, (count - 1) as nat);
    }
}

/// The digits of a number in a buffer, with no digit behind them, are read as
/// the number.
pub proof fn lemma_digits_framed(buf: Seq<u8>, pos: int, n: nat)
    requires
        holds_at(buf, pos, decimal_bytes(n)),
        digits_stop(buf, pos + decimal_bytes(n).len()),
    ensures
        digits_end(buf, pos) == pos + decimal_bytes(n).len(),
        digits_value(buf.subrange(pos, digits_end(buf, pos))) == n,
        pos < digits_end(buf, pos) <= buf.len(),
        is_digit(buf[pos]),
{
    lemma_decimal_bytes(n);
    lemma_holds_bytes(buf, pos, decimal_bytes(n));
    assert(is_digit(buf[pos])) by {
        assert(buf[pos + 0] == decimal_bytes(n)[0]);
    }
    assert forall|i: int| pos <= i < pos + decimal_bytes(n).len() implies is_digit(
        #[trigger] buf[i],
    ) by {
        assert(buf[pos + (i - pos)] == decimal_bytes(n)[i - pos]);
    }
    lemma_digits_end_framed(buf, pos, decimal_bytes(n).len());
}

/// A whole number that was written is read back.
pub proof fn lemma_u64_framed(buf: Seq<u8>, pos: usize, n: u64)
    requires
        buf.len() <= usize::MAX,
        holds_at(buf, pos as int, decimal_bytes(n as nat)),
        digits_stop(buf, pos + decimal_bytes(n as nat).len()),
    ensures
        u64_at(buf, pos) == Ok::<(u64, usize), ParseError>(
            (n, (pos + decimal_bytes(n as nat).len()) as usize),
        ),
{
    lemma_digits_framed(buf, pos as int, n as nat);
    assert(!is_space(buf[pos as int]));
}

/// A decimal that was written is read back. The smallest power of ten that a
/// decimal can hold cannot be written this way.
pub proof fn lemma_number_framed(buf: Seq<u8>, pos: usize, d: Decimal)
    requires
        buf.len() <= usize::MAX,
        d.scale > i32::MIN,
        holds_at(buf, pos as int, number_text(d)),
        digits_stop(buf, pos + number_text(d).len()),
    ensures
        decimal_at(buf, pos) == Ok::<(Decimal, usize), ParseError>(
            (d, (pos + number_text(d).len()) as usize),
        ),
{
    let sign = sign_bytes(d.negative);
    let digits = decimal_bytes(d.mantissa as nat);
    let exp_sign = sign_bytes(d.scale < 0);
    let exp_digits = decimal_bytes(magnitude(d.scale));
    lemma_decimal_bytes(d.mantissa as nat);
    lemma_decimal_bytes(magnitude(d.scale));
    lemma_holds_split(buf, pos as int, sign, digits + (seq![LOWER_E] + (exp_sign + exp_digits)));
    let int_start = pos + sign.len();
    lemma_holds_split(buf, int_start, digits, seq![LOWER_E] + (exp_sign + exp_digits));
    let int_end = int_start + digits.len();
    lemma_holds_split(buf, int_end, seq![LOWER_E], exp_sign + exp_digits);
    let sign_at = int_end + 1;
    lemma_holds_split(buf, sign_at, exp_sign, exp_digits);
    let exp_start = sign_at + exp_sign.len();
    let end = exp_start + exp_digits.len();
    lemma_holds_bytes(buf, pos as int, sign);
    lemma_holds_bytes(buf, int_end, seq![LOWER_E]);
    lemma_holds_bytes(buf, sign_at, exp_sign);
    assert(buf[int_end] == LOWER_E) by {
        assert(buf[int_end + 0] == seq![LOWER_E][0]);
    }
    // the mantissa
    assert(digits_stop(buf, int_end));
    lemma_digits_framed(buf, int_start, d.mantissa as nat);
    if d.negative {
        assert(buf[pos as int] == MINUS) by {
            assert(buf[pos + 0] == sign[0]);
        }
    } else {
        assert(is_digit(buf[pos as int]));
    }
    assert(digits_end(buf, int_end) == int_end);
    assert(buf.subrange(int_start, int_end) + buf.subrange(int_end, int_end) =~= buf.subrange(
        int_start,
        int_end,
    ));
    let m = mantissa_at(buf, pos as int);
    assert(m.negative == d.negative);
    assert(m.end == int_end);
    assert(m.places == 0);
    assert(m.digits == d.mantissa);
    // the power of ten
    lemma_digits_framed(buf, exp_start, magnitude(d.scale));
    if d.scale < 0 {
        assert(buf[sign_at] == MINUS) by {
            assert(buf[sign_at + 0] == exp_sign[0]);
        }
    } else {
        assert(is_digit(buf[sign_at]));
    }
    let e = exponent_at(buf, int_end);
    assert(e.negative == (d.scale < 0));
    assert(e.end == end);
    assert(e.magnitude == magnitude(d.scale));
    assert(number_text(d).len() == end - pos);
}

/// A text without quote or backslash, written before a quote, is read back
/// as the body of a string.
pub proof fn lemma_string_framed(buf: Seq<u8>, pos: usize, text: Seq<u8>)
    requires
        buf.len() <= usize::MAX,
        holds_at(buf, pos as int, text),
        plain_text(text),
        pos + text.len() < buf.len(),
        buf[pos + text.len()] == QUOTE,
    ensures
        string_at(buf, pos) == Ok::<(usize, usize), ParseError>(
            (pos, (pos + text.len()) as usize),
        ),
        buf.subrange(pos as int, pos + text.len()) == text,
{
    lemma_holds_bytes(buf, pos as int, text);
    assert forall|i: int| pos <= i < pos + text.len() implies #[trigger] buf[i] != QUOTE && buf[i]
        != BACKSLASH by {
        assert(buf[pos + (i - pos)] == text[i - pos]);
    }
    lemma_string_end_framed(buf, pos as int, text.len());
}

/// A run of `count` bytes that are neither quote nor backslash, before a
/// quote, ends at the quote.
proof fn lemma_string_end_framed(buf: Seq<u8>, pos: int, count: nat)
    requires
        0 <= pos,
        pos + count < buf.len(),
        forall|i: int| pos <= i < pos + count ==> #[trigger] buf[i] != QUOTE && buf[i] != BACKSLASH,
        buf[pos + count] == QUOTE,
    ensures
        string_end(buf, pos) == pos + count,
    decreases count,
{
    if count > 0 {
        lemma_string_end_framed(buf, pos + 1, (count - 1) as nat);
    }
}

/// Where no whitespace stands, none is passed over.
pub proof fn lemma_no_whitespace(buf: Seq<u8>, pos: int)
    requires
        0 <= pos < buf.len(),
        !is_space(buf[pos]),
    ensures
        whitespace_end(buf, pos) == pos,
{
}

/// Whether the byte can stand behind a number: it is no digit, no point, no
/// `e`, and no sign.
pub open spec fn ends_number(b: u8) -> bool {
    !is_digit(b) && b != POINT && b != LOWER_E && b != UPPER_E && b != PLUS && b != MINUS
}

/// Whether a number that ends before `at` ends there: the buffer ends, or a
/// byte stands there that can stand behind a number.
pub open spec fn number_stops(buf: Seq<u8>, at: int) -> bool {
    at >= buf.len() || ends_number(buf[at])
}

/// The decimal that the text writes: what the scanner reads from the text
/// where it stands alone, if it reads all of it.
pub open spec fn number_of(text: Seq<u8>) -> Option<Decimal> {
    if text.len() > usize::MAX {
        None
    } else {
        match decimal_at(text, 0) {
            Ok((d, end)) => if end == text.len() {
                Some(d)
            } else {
                None
            },
            Err(_) => None,
        }
    }
}

/// The whole number that the text writes: what the scanner reads from the
/// text where it stands alone, if it reads all of it.
pub open spec fn whole_of(text: Seq<u8>) -> Option<u64> {
    if text.len() > usize::MAX {
        None
    } else {
        match u64_at(text, 0) {
            Ok((n, end)) => if end == text.len() {
                Some(n)
            } else {
                None
            },
            Err(_) => None,
        }
    }
}

/// A part of a text that stands in a buffer is that part of the buffer.
pub proof fn lemma_subrange_shift(buf: Seq<u8>, pos: int, text: Seq<u8>, from: int, to: int)
    requires
        holds_at(buf, pos, text),
        0 <= from <= to <= text.len(),
    ensures
        buf.subrange(pos + from, pos + to) == text.subrange(from, to),
{
    lemma_holds_bytes(buf, pos, text);
    let part = text.subrange(from, to);
    assert forall|i: int| 0 <= i < to - from implies buf.subrange(pos + from, pos + to)[i]
        == #[trigger] part[i] by {
        assert(buf[pos + (from + i)] == text[from + i]);
    }
    assert(buf.subrange(pos + from, pos + to) =~= part);
}

/// A run of digits in a text that stands in a buffer, with no digit behind
/// the text, ends in the buffer where it ends in the text.
pub proof fn lemma_digits_end_shift(buf: Seq<u8>, pos: int, text: Seq<u8>, from: int)
    requires
        holds_at(buf, pos, text),
        0 <= from <= text.len(),
        digits_stop(buf, pos + text.len()),
    ensures
        digits_end(buf, pos + from) == pos + digits_end(text, from),
        from <= digits_end(text, from) <= text.len(),
    decreases text.len() - from,
{
    lemma_holds_bytes(buf, pos, text);
    if from < text.len() {
        assert(buf[pos + from] == text[from]);
        if is_digit(text[from]) {
            lemma_digits_end_shift(buf, pos, text, from + 1);
        }
    }
}

/// Whitespace in a text that stands in a buffer ends in the buffer where it
/// ends in the text, if it ends inside the text.
pub proof fn lemma_whitespace_end_shift(buf: Seq<u8>, pos: int, text: Seq<u8>, from: int)
    requires
        holds_at(buf, pos, text),
        0 <= from <= text.len(),
        whitespace_end(text, from) < text.len(),
    ensures
        whitespace_end(buf, pos + from) == pos + whitespace_end(text, from),
        from <= whitespace_end(text, from),
    decreases text.len() - from,
{
    lemma_holds_bytes(buf, pos, text);
    if from < text.len() {
        assert(buf[pos + from] == text[from]);
        if is_space(text[from]) {
            lemma_whitespace_end_shift(buf, pos, text, from + 1);
        }
    }
}

/// The digits of a number in a text that stands in a buffer are read in the
/// buffer as in the text.
pub proof fn lemma_mantissa_shift(buf: Seq<u8>, pos: int, text: Seq<u8>)
    requires
        holds_at(buf, pos, text),
        text.len() > 0,
        number_stops(buf, pos + text.len()),
    ensures
        mantissa_at(buf, pos).negative == mantissa_at(text, 0).negative,
        mantissa_at(buf, pos).digits == mantissa_at(text, 0).digits,
        mantissa_at(buf, pos).places == mantissa_at(text, 0).places,
        mantissa_at(buf, pos).end == pos + mantissa_at(text, 0).end,
        0 <= mantissa_at(text, 0).end <= text.len(),
{
    lemma_holds_bytes(buf, pos, text);
    assert(buf[pos + 0] == text[0]);
    let negative = text[0] == MINUS;
    let int_start: int = if negative {
        1
    } else {
        0
    };
    lemma_digits_end_shift(buf, pos, text, int_start);
    let int_end = digits_end(text, int_start);
    if int_end < text.len() {
        assert(buf[pos + int_end] == text[int_end]);
    }
    let has_point = int_end < text.len() && text[int_end] == POINT;
    let frac_start = if has_point {
        int_end + 1
    } else {
        int_end
    };
    lemma_digits_end_shift(buf, pos, text, frac_start);
    let frac_end = digits_end(text, frac_start);
    lemma_subrange_shift(buf, pos, text, int_start, int_end);
    lemma_subrange_shift(buf, pos, text, frac_start, frac_end);
}

/// The power of ten of a number in a text that stands in a buffer is read in
/// the buffer as in the text.
pub proof fn lemma_exponent_shift(buf: Seq<u8>, pos: int, text: Seq<u8>, from: int)
    requires
        holds_at(buf, pos, text),
        0 <= from <= text.len(),
        number_stops(buf, pos + text.len()),
    ensures
        exponent_at(buf, pos + from).negative == exponent_at(text, from).negative,
        exponent_at(buf, pos + from).magnitude == exponent_at(text, from).magnitude,
        exponent_at(buf, pos + from).end == pos + exponent_at(text, from).end,
        from <= exponent_at(text, from).end <= text.len(),
{
    lemma_holds_bytes(buf, pos, text);
    if from < text.len() {
        assert(buf[pos + from] == text[from]);
        if text[from] == LOWER_E || text[from] == UPPER_E {
            let sign_at = from + 1;
            if sign_at < text.len() {
                assert(buf[pos + sign_at] == text[sign_at]);
            }
            let signed = sign_at < text.len() && (text[sign_at] == MINUS || text[sign_at]
                == PLUS);
            let start = if signed {
                sign_at + 1
            } else {
                sign_at
            };
            lemma_digits_end_shift(buf, pos, text, start);
            lemma_subrange_shift(buf, pos, text, start, digits_end(text, start));
        }
    }
}

/// A number that stands in a buffer, with a byte behind it that can stand
/// behind a number, is read from the buffer as it is read where it stands
/// alone.
pub proof fn lemma_number_text_framed(buf: Seq<u8>, pos: usize, text: Seq<u8>)
    requires
        buf.len() <= usize::MAX,
        holds_at(buf, pos as int, text),
        number_of(text) is Some,
        number_stops(buf, pos + text.len()),
    ensures
        decimal_at(buf, pos) == Ok::<(Decimal, usize), ParseError>(
            (number_of(text)->Some_0, (pos + text.len()) as usize),
        ),
        text.len() > 0,
{
    let m = mantissa_at(text, 0);
    if text.len() > 0 {
        lemma_mantissa_shift(buf, pos as int, text);
        lemma_exponent_shift(buf, pos as int, text, m.end);
    }
}

/// A whole number that stands in a buffer, with no digit behind it, is read
/// from the buffer as it is read where it stands alone.
pub proof fn lemma_whole_text_framed(buf: Seq<u8>, pos: usize, text: Seq<u8>)
    requires
        buf.len() <= usize::MAX,
        holds_at(buf, pos as int, text),
        whole_of(text) is Some,
        digits_stop(buf, pos + text.len()),
    ensures
        u64_at(buf, pos) == Ok::<(u64, usize), ParseError>(
            (whole_of(text)->Some_0, (pos + text.len()) as usize),
        ),
        text.len() > 0,
{
    let start = whitespace_end(text, 0);
    crate::parsing::scan::lemma_whitespace_end_bounds(text, 0);
    crate::parsing::scan::lemma_digits_end_bounds(text, start);
    lemma_whitespace_end_shift(buf, pos as int, text, 0);
    lemma_digits_end_shift(buf, pos as int, text, start);
    lemma_subrange_shift(buf, pos as int, text, start, digits_end(text, start));
}

/// The written form of a decimal writes the decimal.
pub proof fn lemma_number_text_reads(d: Decimal)
    requires
        d.scale > i32::MIN,
        number_text(d).len() <= usize::MAX,
    ensures
        number_of(number_text(d)) == Some(d),
{
    let text = number_text(d);
    assert(text.subrange(0, text.len() as int) =~= text);
    lemma_number_framed(text, 0, d);
}

/// The digits of a whole number write the number.
pub proof fn lemma_decimal_bytes_reads(n: u64)
    ensures
        whole_of(decimal_bytes(n as nat)) == Some(n),
{
    let text = decimal_bytes(n as nat);
    lemma_decimal_bytes(n as nat);
    assert(text.subrange(0, text.len() as int) =~= text);
    assert(text.len() <= 20) by {
        reveal_with_fuel(tens, 21);
        lemma_decimal_bytes_short(n as nat, 20);
    }
    lemma_u64_framed(text, 0, n);
}

/// Ten to the power of `k`.
pub open spec fn tens(k: nat) -> nat
    decreases k,
{
    if k == 0 {
        1
    } else {
        10 * tens((k - 1) as nat)
    }
}

/// A number below ten to the power of `k` has at most `k` digits.
proof fn lemma_decimal_bytes_short(n: nat, k: nat)
    requires
        k >= 1,
        n < tens(k),
    ensures
        decimal_bytes(n).len() <= k,
    decreases n,
{
    if n >= 10 {
        assert(k >= 2) by {
            reveal_with_fuel(tens, 2);
        }
        lemma_decimal_bytes_short(n / 10, (k - 1) as nat);
    }
}

/// The first byte of a text that stands in the buffer stands in the buffer.
pub proof fn lemma_first_byte(buf: Seq<u8>, pos: int, text: Seq<u8>)
    requires
        holds_at(buf, pos, text),
        text.len() > 0,
    ensures
        0 <= pos < buf.len(),
        buf[pos] == text[0],
{
    lemma_holds_bytes(buf, pos, text);
    assert(buf[pos + 0] == text[0]);
}

/// A trade as the exchange writes it, with all its eleven fields: each
/// number and each string by its text.
pub struct TradeRecord {
    pub timestamp: Seq<u8>,
    pub price: Seq<u8>,
    pub amount: Seq<u8>,
    pub buy: bool,
    pub index_price: Seq<u8>,
    /// The symbol of the instrument.
    pub instrument: Seq<u8>,
    pub trade_seq: Seq<u8>,
    pub mark_price: Seq<u8>,
    pub tick_direction: u8,
    pub trade_id: Seq<u8>,
    pub contracts: Seq<u8>,
}

impl TradeRecord {
    /// Whether the trade is well formed: its time writes a whole number and
    /// its other numbers write decimals, in any form that the scanner reads;
    /// its instrument is known; its strings need no escapes; its tick
    /// direction is one of four; and its trade id ends in a number.
    pub open spec fn writable(self, index: Map<Seq<u8>, usize>) -> bool {
        &&& whole_of(self.timestamp) is Some
        &&& number_of(self.price) is Some
        &&& number_of(self.amount) is Some
        &&& number_of(self.index_price) is Some
        &&& number_of(self.trade_seq) is Some
        &&& number_of(self.mark_price) is Some
        &&& number_of(self.contracts) is Some
        &&& plain_text(self.instrument)
        &&& valid_utf8(self.instrument)
        &&& index.contains_key(self.instrument)
        &&& self.tick_direction <= 3
        &&& plain_text(self.trade_id)
        &&& valid_utf8(self.trade_id)
        &&& trade_id_of(self.trade_id) is Some
    }

    /// The event that the trade is published as: its time, its price, its
    /// amount as the size, its side, the number of its instrument and the
    /// number of its trade id.
    pub open spec fn event(self, index: Map<Seq<u8>, usize>) -> TradeEvent {
        TradeEvent {
            instrument_idx: index[self.instrument] as u8,
            price: number_of(self.price)->Some_0,
            size: number_of(self.amount)->Some_0,
            side: if self.buy {
                1
            } else {
                0
            },
            timestamp_ns: whole_of(self.timestamp)->Some_0,
            trade_id: trade_id_of(self.trade_id)->Some_0,
        }
    }

    /// The direction as text.
    pub open spec fn direction_text(self) -> Seq<u8> {
        if self.buy {
            BUY.spec_bytes()
        } else {
            SELL.spec_bytes()
        }
    }

    /// The trade from its opening brace to its direction, with `rest` behind.
    pub open spec fn head_text(self, rest: Seq<u8>) -> Seq<u8> {
        TIMESTAMP_KEY.spec_bytes() + (self.timestamp + (PRICE_KEY.spec_bytes() + (self.price + (
        AMOUNT_KEY.spec_bytes() + (self.amount + (DIRECTION_KEY.spec_bytes() + (
        self.direction_text() + rest)))))))
    }

    /// The trade from its index price to its mark price, with `rest` behind.
    pub open spec fn middle_text(self, rest: Seq<u8>) -> Seq<u8> {
        INDEX_PRICE_KEY.spec_bytes() + (self.index_price + (INSTRUMENT_NAME_KEY.spec_bytes() + (
        self.instrument + (TRADE_SEQ_KEY.spec_bytes() + (self.trade_seq + (
        MARK_PRICE_KEY.spec_bytes() + (self.mark_price + rest)))))))
    }

    /// The trade from its tick direction to its closing brace, with `rest`
    /// behind.
    pub open spec fn tail_text(self, rest: Seq<u8>) -> Seq<u8> {
        TICK_DIRECTION_KEY.spec_bytes() + (seq![(DIGIT_ZERO + self.tick_direction) as u8] + (
        TRADE_ID_KEY.spec_bytes() + (self.trade_id + (CONTRACTS_KEY.spec_bytes() + (self.contracts
            + (OBJECT_CLOSE.spec_bytes() + rest))))))
    }

    /// The trade as text, with `rest` behind.
    pub open spec fn text(self, rest: Seq<u8>) -> Seq<u8> {
        self.head_text(self.middle_text(self.tail_text(rest)))
    }
}

/// The head of a trade that was written is read back.
proof fn lemma_head_framed(buf: Seq<u8>, pos: usize, r: TradeRecord, rest: Seq<u8>)
    requires
        buf.len() <= usize::MAX,
        whole_of(r.timestamp) is Some,
        number_of(r.price) is Some,
        number_of(r.amount) is Some,
        holds_at(buf, pos as int, r.head_text(rest)),
    ensures
        trade_head_at(buf, pos) matches Ok(head) && head.timestamp == whole_of(
            r.timestamp,
        )->Some_0 && head.price == number_of(r.price)->Some_0 && head.amount == number_of(
            r.amount,
        )->Some_0 && head.side == (if r.buy {
            1u8
        } else {
            0u8
        }) && holds_at(buf, head.end as int, rest),
{
    reveal(trade_lead_at);
    lemma_keys_behind_numbers();
    lemma_directions();
    let k1 = TIMESTAMP_KEY.spec_bytes();
    let t1 = r.timestamp;
    let k2 = PRICE_KEY.spec_bytes();
    let t2 = r.price;
    let k3 = AMOUNT_KEY.spec_bytes();
    let t3 = r.amount;
    let k4 = DIRECTION_KEY.spec_bytes();
    let t4 = r.direction_text();
    lemma_holds_split(buf, pos as int, k1, t1 + (k2 + (t2 + (k3 + (t3 + (k4 + (t4 + rest)))))));
    let p1 = pos + k1.len();
    lemma_holds_split(buf, p1, t1, k2 + (t2 + (k3 + (t3 + (k4 + (t4 + rest))))));
    let p2 = p1 + t1.len();
    lemma_holds_split(buf, p2, k2, t2 + (k3 + (t3 + (k4 + (t4 + rest)))));
    let p3 = p2 + k2.len();
    lemma_holds_split(buf, p3, t2, k3 + (t3 + (k4 + (t4 + rest))));
    let p4 = p3 + t2.len();
    lemma_holds_split(buf, p4, k3, t3 + (k4 + (t4 + rest)));
    let p5 = p4 + k3.len();
    lemma_holds_split(buf, p5, t3, k4 + (t4 + rest));
    let p6 = p5 + t3.len();
    lemma_holds_split(buf, p6, k4, t4 + rest);
    let p7 = p6 + k4.len();
    lemma_holds_split(buf, p7, t4, rest);
    let p8 = p7 + t4.len();
    lemma_first_byte(buf, p2, k2);
    lemma_first_byte(buf, p4, k3);
    lemma_first_byte(buf, p6, k4);
    lemma_whole_text_framed(buf, p1 as usize, r.timestamp);
    lemma_number_text_framed(buf, p3 as usize, r.price);
    lemma_number_text_framed(buf, p5 as usize, r.amount);
    assert(trade_lead_at(buf, pos) == Ok::<(u64, Decimal, Decimal, usize), ParseError>(
        (
            whole_of(r.timestamp)->Some_0,
            number_of(r.price)->Some_0,
            number_of(r.amount)->Some_0,
            p7 as usize,
        ),
    ));
    if !r.buy {
        lemma_first_byte(buf, p7, SELL.spec_bytes());
        if holds_at(buf, p7, BUY.spec_bytes()) {
            lemma_first_byte(buf, p7, BUY.spec_bytes());
        }
    }
    assert(direction_at(buf, p7 as usize) == Ok::<(u8, usize), ParseError>(
        (if r.buy {
            1u8
        } else {
            0u8
        }, p8 as usize),
    ));
}

/// The middle of a trade that was written is read back.
proof fn lemma_middle_framed(
    index: Map<Seq<u8>, usize>,
    buf: Seq<u8>,
    pos: usize,
    r: TradeRecord,
    rest: Seq<u8>,
)
    requires
        buf.len() <= usize::MAX,
        number_of(r.index_price) is Some,
        number_of(r.trade_seq) is Some,
        number_of(r.mark_price) is Some,
        plain_text(r.instrument),
        valid_utf8(r.instrument),
        index.contains_key(r.instrument),
        holds_at(buf, pos as int, r.middle_text(rest)),
        rest.len() > 0,
        ends_number(rest[0]),
    ensures
        trade_middle_at(index, buf, pos) matches Ok((instrument, end)) && instrument
            == index[r.instrument] && holds_at(buf, end as int, rest),
{
    reveal(trade_middle_at);
    lemma_keys_behind_numbers();
    lemma_keys_behind_strings();
    let k1 = INDEX_PRICE_KEY.spec_bytes();
    let t1 = r.index_price;
    let k2 = INSTRUMENT_NAME_KEY.spec_bytes();
    let t2 = r.instrument;
    let k3 = TRADE_SEQ_KEY.spec_bytes();
    let t3 = r.trade_seq;
    let k4 = MARK_PRICE_KEY.spec_bytes();
    let t4 = r.mark_price;
    lemma_holds_split(buf, pos as int, k1, t1 + (k2 + (t2 + (k3 + (t3 + (k4 + (t4 + rest)))))));
    let p1 = pos + k1.len();
    lemma_holds_split(buf, p1, t1, k2 + (t2 + (k3 + (t3 + (k4 + (t4 + rest))))));
    let p2 = p1 + t1.len();
    lemma_holds_split(buf, p2, k2, t2 + (k3 + (t3 + (k4 + (t4 + rest)))));
    let p3 = p2 + k2.len();
    lemma_holds_split(buf, p3, t2, k3 + (t3 + (k4 + (t4 + rest))));
    let p4 = p3 + t2.len();
    lemma_holds_split(buf, p4, k3, t3 + (k4 + (t4 + rest)));
    let p5 = p4 + k3.len();
    lemma_holds_split(buf, p5, t3, k4 + (t4 + rest));
    let p6 = p5 + t3.len();
    lemma_holds_split(buf, p6, k4, t4 + rest);
    let p7 = p6 + k4.len();
    lemma_holds_split(buf, p7, t4, rest);
    let p8 = p7 + t4.len();
    lemma_first_byte(buf, p2, k2);
    lemma_first_byte(buf, p4, k3);
    lemma_first_byte(buf, p6, k4);
    lemma_first_byte(buf, p8, rest);
    lemma_number_text_framed(buf, p1 as usize, r.index_price);
    lemma_string_framed(buf, p3 as usize, r.instrument);
    assert(instrument_at(index, buf, p3 as usize) == Ok::<(usize, usize), ParseError>(
        (index[r.instrument], p4 as usize),
    ));
    lemma_number_text_framed(buf, p5 as usize, r.trade_seq);
    lemma_number_text_framed(buf, p7 as usize, r.mark_price);
}

/// The tail of a trade that was written is read back.
proof fn lemma_tail_framed(buf: Seq<u8>, pos: usize, r: TradeRecord, rest: Seq<u8>)
    requires
        buf.len() <= usize::MAX,
        number_of(r.contracts) is Some,
        r.tick_direction <= 3,
        plain_text(r.trade_id),
        valid_utf8(r.trade_id),
        holds_at(buf, pos as int, r.tail_text(rest)),
    ensures
        trade_tail_at(buf, pos) matches Ok(tail) && buf.subrange(
            tail.id_start as int,
            tail.id_end as int,
        ) == r.trade_id && holds_at(buf, tail.end as int, rest) && tail.end > pos,
{
    reveal(trade_tail_at);
    lemma_keys_behind_numbers();
    lemma_keys_behind_strings();
    let k1 = TICK_DIRECTION_KEY.spec_bytes();
    let t1 = seq![(DIGIT_ZERO + r.tick_direction) as u8];
    let k2 = TRADE_ID_KEY.spec_bytes();
    let t2 = r.trade_id;
    let k3 = CONTRACTS_KEY.spec_bytes();
    let t3 = r.contracts;
    let k4 = OBJECT_CLOSE.spec_bytes();
    lemma_holds_split(buf, pos as int, k1, t1 + (k2 + (t2 + (k3 + (t3 + (k4 + rest))))));
    let p1 = pos + k1.len();
    lemma_holds_split(buf, p1, t1, k2 + (t2 + (k3 + (t3 + (k4 + rest)))));
    let p2 = p1 + 1;
    lemma_holds_split(buf, p2, k2, t2 + (k3 + (t3 + (k4 + rest))));
    let p3 = p2 + k2.len();
    lemma_holds_split(buf, p3, t2, k3 + (t3 + (k4 + rest)));
    let p4 = p3 + t2.len();
    lemma_holds_split(buf, p4, k3, t3 + (k4 + rest));
    let p5 = p4 + k3.len();
    lemma_holds_split(buf, p5, t3, k4 + rest);
    let p6 = p5 + t3.len();
    lemma_holds_split(buf, p6, k4, rest);
    let p7 = p6 + k4.len();
    lemma_first_byte(buf, p1, t1);
    lemma_first_byte(buf, p4, k3);
    lemma_first_byte(buf, p6, k4);
    assert(tick_direction_at(buf, p1 as usize) == Ok::<usize, ParseError>(p2 as usize));
    lemma_string_framed(buf, p3 as usize, r.trade_id);
    lemma_number_text_framed(buf, p5 as usize, r.contracts);
}

/// A trade that was written is read back as the event that it is published
/// as, and what stands behind it is found behind it.
pub proof fn lemma_trade_framed(
    index: Map<Seq<u8>, usize>,
    buf: Seq<u8>,
    pos: usize,
    r: TradeRecord,
    rest: Seq<u8>,
)
    requires
        buf.len() <= usize::MAX,
        r.writable(index),
        holds_at(buf, pos as int, r.text(rest)),
    ensures
        trade_at(index, buf, pos) matches Ok((event, end)) && event == r.event(index) && holds_at(
            buf,
            end as int,
            rest,
        ) && pos < end,
{
    reveal(trade_at);
    lemma_keys_behind_numbers();
    lemma_keys_behind_strings();
    lemma_head_framed(buf, pos, r, r.middle_text(r.tail_text(rest)));
    let head = trade_head_at(buf, pos)->Ok_0;
    assert(r.tail_text(rest)[0] == TICK_DIRECTION_KEY.spec_bytes()[0]);
    lemma_middle_framed(index, buf, head.end, r, r.tail_text(rest));
    let p = trade_middle_at(index, buf, head.end)->Ok_0.1;
    lemma_tail_framed(buf, p, r, rest);
    crate::parsing::parsing_fast::lemma_trade_at_bounds(index, buf, pos);
}

/// What closes the name of the channel and opens the next member: `","`.
pub open spec fn channel_close() -> Seq<u8> {
    seq![QUOTE, COMMA, QUOTE]
}

/// What closes the envelope behind the list: `}}`.
pub open spec fn envelope_close() -> Seq<u8> {
    seq![125u8, 125u8]
}

/// The trades from number `from` on as a list without its opening bracket:
/// the trades with a `,` between two, a `]`, and `closing` behind it.
pub open spec fn list_text(records: Seq<TradeRecord>, from: int, closing: Seq<u8>) -> Seq<u8>
    decreases records.len() - from,
{
    if from < 0 || from >= records.len() {
        seq![LIST_CLOSE] + closing
    } else if from + 1 == records.len() {
        records[from].text(seq![LIST_CLOSE] + closing)
    } else {
        records[from].text(seq![COMMA] + list_text(records, from + 1, closing))
    }
}

/// A trade message on the channel `trades.` + `channel` with these trades.
pub open spec fn trade_envelope(channel: Seq<u8>, records: Seq<TradeRecord>) -> Seq<u8> {
    ENVELOPE_PREFIX.spec_bytes() + (TRADES_PATTERN.spec_bytes() + (channel + (channel_close() + (
    DATA_PATTERN.spec_bytes() + (LIST_OPEN.spec_bytes() + list_text(
        records,
        0,
        envelope_close(),
    ))))))
}

/// Where in a trade envelope the `data` member stands.
pub open spec fn data_position(channel: Seq<u8>) -> int {
    (ENVELOPE_PREFIX.spec_bytes().len() + TRADES_PATTERN.spec_bytes().len() + channel.len()
        + channel_close().len()) as int
}

/// The events that the trades are published as.
pub open spec fn events_of(index: Map<Seq<u8>, usize>, records: Seq<TradeRecord>) -> Seq<
    TradeEvent,
> {
    Seq::new(records.len(), |i: int| records[i].event(index))
}

/// A list starts with the opening brace of its first trade and is longer
/// than the keys around the time of that trade.
proof fn lemma_list_starts(records: Seq<TradeRecord>, from: int, closing: Seq<u8>)
    requires
        0 <= from < records.len(),
        whole_of(records[from].timestamp) is Some,
    ensures
        list_text(records, from, closing).len() >= TIMESTAMP_KEY.spec_bytes().len()
            + 1 + PRICE_KEY.spec_bytes().len(),
        list_text(records, from, closing)[0] == TIMESTAMP_KEY.spec_bytes()[0],
{
    lemma_timestamp_key();
    let text = records[from].timestamp;
    assert(text.len() > 0) by {
        crate::parsing::scan::lemma_whitespace_end_bounds(text, 0);
        crate::parsing::scan::lemma_digits_end_bounds(text, whitespace_end(text, 0));
    }
}

/// Where nothing stands before a position at which a pattern stands, the
/// pattern is first found there.
pub proof fn lemma_first_at_is(text: Seq<u8>, from: int, at: int, pattern: Seq<u8>)
    requires
        0 <= from <= at < text.len(),
        holds_at(text, at, pattern),
        !occurs_before(text, from, at, pattern),
    ensures
        first_at(text, from, pattern) == at,
    decreases at - from,
{
    if from < at {
        assert(!holds_at(text, from, pattern));
        assert forall|p: int| from + 1 <= p < at implies !#[trigger] holds_at(text, p, pattern) by {
            assert(!occurs_before(text, from, at, pattern));
        }
        lemma_first_at_is(text, from + 1, at, pattern);
    }
}

/// A list of trades that was written is read back, behind what was read
/// before.
proof fn lemma_list_framed(
    index: Map<Seq<u8>, usize>,
    buf: Seq<u8>,
    pos: usize,
    records: Seq<TradeRecord>,
    from: int,
    closing: Seq<u8>,
    seen: Seq<TradeEvent>,
)
    requires
        buf.len() <= usize::MAX,
        0 <= from < records.len(),
        forall|i: int| 0 <= i < records.len() ==> (#[trigger] records[i]).writable(index),
        holds_at(buf, pos as int, list_text(records, from, closing)),
        seen == events_of(index, records).subrange(0, from),
    ensures
        trades_from(index, buf, pos, seen) == Ok::<Seq<TradeEvent>, ParseError>(
            events_of(index, records),
        ),
    decreases records.len() - from,
{
    let r = records[from];
    let all = events_of(index, records);
    assert(seen.push(r.event(index)) =~= all.subrange(0, from + 1));
    if from + 1 == records.len() {
        let rest = seq![LIST_CLOSE] + closing;
        lemma_trade_framed(index, buf, pos, r, rest);
        let end = trade_at(index, buf, pos)->Ok_0.1;
        lemma_first_byte(buf, end as int, rest);
        lemma_no_whitespace(buf, end as int);
        assert(all.subrange(0, from + 1) =~= all);
    } else {
        let tail = list_text(records, from + 1, closing);
        let rest = seq![COMMA] + tail;
        lemma_trade_framed(index, buf, pos, r, rest);
        let end = trade_at(index, buf, pos)->Ok_0.1;
        lemma_first_byte(buf, end as int, rest);
        lemma_no_whitespace(buf, end as int);
        lemma_holds_split(buf, end as int, seq![COMMA], tail);
        lemma_list_starts(records, from + 1, closing);
        lemma_timestamp_key();
        lemma_first_byte(buf, end + 1, tail);
        lemma_no_whitespace(buf, end + 1);
        lemma_list_framed(
            index,
            buf,
            (end + 1) as usize,
            records,
            from + 1,
            closing,
            seen.push(r.event(index)),
        );
    }
}

/// Reading what was written gives back what was written: a trade message
/// with at least one well-formed trade, the trades in the fixed order of their
/// fields and without whitespace, is of the hot path, and is read as the
/// events that its trades are published as, as many as were written and in
/// their order. Each number may be written in any form that the scanner
/// reads. The name of the channel must not hold `data`, behind which the list
/// is looked for.
#[verifier::rlimit(60)]
pub proof fn lemma_trades_round_trip(
    index: Map<Seq<u8>, usize>,
    channel: Seq<u8>,
    records: Seq<TradeRecord>,
)
    requires
        records.len() >= 1,
        forall|i: int| 0 <= i < records.len() ==> (#[trigger] records[i]).writable(index),
        trade_envelope(channel, records).len() <= usize::MAX,
        !occurs_before(
            trade_envelope(channel, records),
            ENVELOPE_PREFIX.spec_bytes().len() as int,
            data_position(channel),
            DATA_PATTERN.spec_bytes(),
        ),
    ensures
        channel_type_of(trade_envelope(channel, records)) == ChannelType::Trades,
        trades_in(index, trade_envelope(channel, records)) == Ok::<Seq<TradeEvent>, ParseError>(
            events_of(index, records),
        ),
        events_of(index, records).len() == records.len(),
{
    let buf = trade_envelope(channel, records);
    let k0 = ENVELOPE_PREFIX.spec_bytes();
    let k1 = TRADES_PATTERN.spec_bytes();
    let k2 = channel_close();
    let k3 = DATA_PATTERN.spec_bytes();
    let k4 = LIST_OPEN.spec_bytes();
    let list = list_text(records, 0, envelope_close());
    lemma_envelope_prefix();
    lemma_channel_keys();
    lemma_timestamp_key();
    lemma_keys_behind_numbers();
    lemma_list_starts(records, 0, envelope_close());
    assert(buf.subrange(0, buf.len() as int) =~= buf);
    assert(holds_at(buf, 0, buf));
    lemma_holds_split(buf, 0, k0, k1 + (channel + (k2 + (k3 + (k4 + list)))));
    let p1 = k0.len() as int;
    lemma_holds_split(buf, p1, k1, channel + (k2 + (k3 + (k4 + list))));
    let p2 = p1 + k1.len();
    lemma_holds_split(buf, p2, channel, k2 + (k3 + (k4 + list)));
    let p3 = p2 + channel.len();
    lemma_holds_split(buf, p3, k2, k3 + (k4 + list));
    let p4 = p3 + k2.len();
    lemma_holds_split(buf, p4, k3, k4 + list);
    let p5 = p4 + k3.len();
    lemma_holds_split(buf, p5, k4, list);
    let p6 = p5 + k4.len();
    assert(on_channel(buf, k1));
    assert(buf.len() >= MIN_FRAME_LEN);
    assert(p4 == data_position(channel));
    lemma_first_at_is(buf, p1, p4, k3);
    assert(data_at(buf, p1 as usize) == Ok::<usize, ParseError>(p5 as usize));
    lemma_first_byte(buf, p6, list);
    lemma_no_whitespace(buf, p6);
    assert(events_of(index, records).subrange(0, 0) =~= Seq::<TradeEvent>::empty());
    lemma_list_framed(
        index,
        buf,
        p6 as usize,
        records,
        0,
        envelope_close(),
        Seq::<TradeEvent>::empty(),
    );
}

/// A trade that writes the event `event`: its time in digits, its price and
/// its size in the written form of a decimal, and zero for the numbers that do
/// not enter the event.
pub open spec fn record_of(event: TradeEvent, instrument: Seq<u8>, trade_id: Seq<u8>) -> TradeRecord {
    TradeRecord {
        timestamp: decimal_bytes(event.timestamp_ns as nat),
        price: number_text(event.price),
        amount: number_text(event.size),
        buy: event.side == 1,
        index_price: number_text(Decimal::spec_zero()),
        instrument,
        trade_seq: number_text(Decimal::spec_zero()),
        mark_price: number_text(Decimal::spec_zero()),
        tick_direction: 0,
        trade_id,
        contracts: number_text(event.size),
    }
}

/// The written form of a decimal has at most 53 bytes.
proof fn lemma_number_text_short(d: Decimal)
    ensures
        number_text(d).len() <= 53,
{
    reveal_with_fuel(tens, 40);
    lemma_decimal_bytes_short(d.mantissa as nat, 39);
    lemma_decimal_bytes_short(magnitude(d.scale), 10);
}

/// An event that is written as a trade message and read back is the event:
/// every field of it comes back as it went in. The price and the size must
/// not have the smallest power of ten that a decimal can hold, which the
/// written form cannot hold.
pub proof fn lemma_event_round_trip(
    index: Map<Seq<u8>, usize>,
    channel: Seq<u8>,
    event: TradeEvent,
    instrument: Seq<u8>,
    trade_id: Seq<u8>,
)
    requires
        event.side <= 1,
        event.price.scale > i32::MIN,
        event.size.scale > i32::MIN,
        plain_text(instrument),
        valid_utf8(instrument),
        index.contains_key(instrument),
        index[instrument] as u8 == event.instrument_idx,
        plain_text(trade_id),
        valid_utf8(trade_id),
        trade_id_of(trade_id) == Some(event.trade_id),
        trade_envelope(channel, seq![record_of(event, instrument, trade_id)]).len() <= usize::MAX,
        !occurs_before(
            trade_envelope(channel, seq![record_of(event, instrument, trade_id)]),
            ENVELOPE_PREFIX.spec_bytes().len() as int,
            data_position(channel),
            DATA_PATTERN.spec_bytes(),
        ),
    ensures
        channel_type_of(trade_envelope(channel, seq![record_of(event, instrument, trade_id)]))
            == ChannelType::Trades,
        trades_in(index, trade_envelope(channel, seq![record_of(event, instrument, trade_id)]))
            == Ok::<Seq<TradeEvent>, ParseError>(seq![event]),
{
    let record = record_of(event, instrument, trade_id);
    lemma_decimal_bytes_reads(event.timestamp_ns);
    lemma_number_text_short(event.price);
    lemma_number_text_short(event.size);
    lemma_number_text_short(Decimal::spec_zero());
    lemma_number_text_reads(event.price);
    lemma_number_text_reads(event.size);
    lemma_number_text_reads(Decimal::spec_zero());
    assert(record.writable(index));
    assert(record.event(index) == event);
    lemma_trades_round_trip(index, channel, seq![record]);
    assert(events_of(index, seq![record]) =~= seq![event]);
}

} // verus!
