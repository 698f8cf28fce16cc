//! The scanners of the hot path: whitespace, strings, whole numbers, decimals.

use vstd::prelude::*;
use crate::decimal::Decimal;
use vstd::string::StringSliceAdditionalSpecFns;
use vstd::utf8::valid_utf8;
use crate::parsing::bytes::holds_at;
use crate::parsing::bytes::matches_at;
use crate::parsing::parsing_fast::StreamingParser;
use crate::parsing::Field;
use crate::parsing::FormatIssue;
use crate::parsing::ParseError;

verus! {

/// `"`
pub const QUOTE: u8 = 34;

/// `\`
pub const BACKSLASH: u8 = 92;

/// `-`
pub const MINUS: u8 = 45;

/// `+`
pub const PLUS: u8 = 43;

/// `.`
pub const POINT: u8 = 46;

/// `0`
pub const DIGIT_ZERO: u8 = 48;

/// `9`
pub const DIGIT_NINE: u8 = 57;

/// `e`
pub const LOWER_E: u8 = 101;

/// `E`
pub const UPPER_E: u8 = 69;

/// Space, tab, line feed, carriage return.
pub open spec fn is_space(b: u8) -> bool {
    b == 32 || b == 9 || b == 10 || b == 13
}

/// One of `0` to `9`.
pub open spec fn is_digit(b: u8) -> bool {
    DIGIT_ZERO <= b && b <= DIGIT_NINE
}

/// The first position at or after `pos` that holds no whitespace.
pub open spec fn whitespace_end(buf: Seq<u8>, pos: int) -> int
    decreases buf.len() - pos,
{
    if 0 <= pos < buf.len() && is_space(buf[pos]) {
        whitespace_end(buf, pos + 1)
    } else {
        pos
    }
}

/// The first position at or after `pos` that holds no digit.
pub open spec fn digits_end(buf: Seq<u8>, pos: int) -> int
    decreases buf.len() - pos,
{
    if 0 <= pos < buf.len() && is_digit(buf[pos]) {
        digits_end(buf, pos + 1)
    } else {
        pos
    }
}

/// The number that the digits write, the first digit counting most.
pub open spec fn digits_value(digits: Seq<u8>) -> nat
    decreases digits.len(),
{
    if digits.len() == 0 {
        0
    } else {
        digits_value(digits.drop_last()) * 10 + (digits.last() - DIGIT_ZERO) as nat
    }
}

/// The position of the quote that closes a string body starting at `pos`; a
/// backslash hides the byte behind it. At or past the end of the buffer where
/// no quote closes it.
pub open spec fn string_end(buf: Seq<u8>, pos: int) -> int
    decreases buf.len() + 1 - pos,
{
    if 0 <= pos < buf.len() && buf[pos] != QUOTE {
        if buf[pos] == BACKSLASH {
            string_end(buf, pos + 2)
        } else {
            string_end(buf, pos + 1)
        }
    } else {
        pos
    }
}

/// What `parse_string` returns: the body of the string that starts at `pos`.
pub open spec fn string_at(buf: Seq<u8>, pos: usize) -> Result<(usize, usize), ParseError> {
    if pos >= buf.len() {
        Err(ParseError::InvalidFormat(FormatIssue::ExpectedString))
    } else if string_end(buf, pos as int) >= buf.len() {
        Err(ParseError::InvalidFormat(FormatIssue::UnterminatedString))
    } else {
        Ok((pos, string_end(buf, pos as int) as usize))
    }
}

/// What `parse_u64` returns: the whole number behind any whitespace at `pos`,
/// and the position behind its last digit.
pub open spec fn u64_at(buf: Seq<u8>, pos: usize) -> Result<(u64, usize), ParseError> {
    let start = whitespace_end(buf, pos as int);
    let end = digits_end(buf, start);
    if start == end {
        Err(ParseError::InvalidFormat(FormatIssue::ExpectedNumber))
    } else if digits_value(buf.subrange(start, end)) > u64::MAX {
        Err(ParseError::InvalidFormat(FormatIssue::NumberOutOfRange))
    } else {
        Ok((digits_value(buf.subrange(start, end)) as u64, end as usize))
    }
}

/// The digits of a decimal: an optional `-`, digits, and an optional `.` with
/// digits.
pub struct Mantissa {
    pub negative: bool,
    /// The number that all digits write, those behind the point included.
    pub digits: nat,
    /// The number of digits behind the point.
    pub places: int,
    /// The position behind the last digit, or behind the point where no digit
    /// follows it.
    pub end: int,
}

/// The power of ten of a decimal: an optional `e` or `E` with an optional
/// sign and digits.
pub struct Exponent {
    pub magnitude: nat,
    pub negative: bool,
    /// The position behind the exponent.
    pub end: int,
}

/// The digits of the decimal written at `pos`.
pub open spec fn mantissa_at(buf: Seq<u8>, pos: int) -> Mantissa {
    let negative = 0 <= pos < buf.len() && buf[pos] == MINUS;
    let int_start = if negative {
        pos + 1
    } else {
        pos
    };
    let int_end = digits_end(buf, int_start);
    let has_point = 0 <= int_end < buf.len() && buf[int_end] == POINT;
    let frac_start = if has_point {
        int_end + 1
    } else {
        int_end
    };
    let frac_end = digits_end(buf, frac_start);
    Mantissa {
        negative,
        digits: digits_value(buf.subrange(int_start, int_end) + buf.subrange(frac_start, frac_end)),
        places: frac_end - frac_start,
        end: frac_end,
    }
}

/// The power of ten written at `pos`, behind the digits of a decimal. Where
/// no `e` or `E` stands, none is read.
pub open spec fn exponent_at(buf: Seq<u8>, pos: int) -> Exponent {
    let has_exp = 0 <= pos < buf.len() && (buf[pos] == LOWER_E || buf[pos] == UPPER_E);
    let sign_at = pos + 1;
    let negative = has_exp && sign_at < buf.len() && buf[sign_at] == MINUS;
    let signed = has_exp && sign_at < buf.len() && (buf[sign_at] == MINUS || buf[sign_at] == PLUS);
    let start = if signed {
        sign_at + 1
    } else {
        sign_at
    };
    if has_exp {
        Exponent {
            magnitude: digits_value(buf.subrange(start, digits_end(buf, start))),
            negative,
            end: digits_end(buf, start),
        }
    } else {
        Exponent { magnitude: 0, negative: false, end: pos }
    }
}

/// What the decimal scanner returns: the number written at `pos`, and the
/// position behind it. A number with no byte, or with a `-` and no other byte,
/// is none. One whose digits pass `u128::MAX`, or whose power of ten does not
/// fit in 32 bits, is out of range.
pub open spec fn decimal_at(buf: Seq<u8>, pos: usize) -> Result<
    (Decimal, usize),
    ParseError,
> {
    let m = mantissa_at(buf, pos as int);
    let e = exponent_at(buf, m.end);
    let scale = if e.negative {
        -e.magnitude - m.places
    } else {
        e.magnitude - m.places
    };
    if e.end == pos || (m.negative && e.end == pos + 1) {
        Err(ParseError::InvalidFormat(FormatIssue::ExpectedNumber))
    } else if m.digits > u128::MAX || e.magnitude > i32::MAX || scale < i32::MIN || scale
        > i32::MAX {
        Err(ParseError::InvalidFormat(FormatIssue::NumberOutOfRange))
    } else {
        Ok(
            (
                Decimal { negative: m.negative, mantissa: m.digits as u128, scale: scale as i32 },
                e.end as usize,
            ),
        )
    }
}

/// A run of digits ends at or behind its start, and inside the buffer if it
/// starts there.
pub proof fn lemma_digits_end_bounds(buf: Seq<u8>, pos: int)
    ensures
        pos <= digits_end(buf, pos),
        pos <= buf.len() ==> digits_end(buf, pos) <= buf.len(),
        forall|i: int| pos <= i < digits_end(buf, pos) ==> 0 <= i < buf.len() && is_digit(#[trigger] buf[i]),
        0 <= digits_end(buf, pos) < buf.len() ==> !is_digit(buf[digits_end(buf, pos)]),
    decreases buf.len() - pos,
{
    if 0 <= pos < buf.len() && is_digit(buf[pos]) {
        lemma_digits_end_bounds(buf, pos + 1);
    }
}

/// Whitespace ends at or behind its start, and inside the buffer if it starts
/// there.
pub proof fn lemma_whitespace_end_bounds(buf: Seq<u8>, pos: int)
    ensures
        pos <= whitespace_end(buf, pos),
        pos <= buf.len() ==> whitespace_end(buf, pos) <= buf.len(),
        0 <= whitespace_end(buf, pos) < buf.len() ==> !is_space(buf[whitespace_end(buf, pos)]),
    decreases buf.len() - pos,
{
    if 0 <= pos < buf.len() && is_space(buf[pos]) {
        lemma_whitespace_end_bounds(buf, pos + 1);
    }
}

/// A string body ends at or behind its start.
pub proof fn lemma_string_end_bounds(buf: Seq<u8>, pos: int)
    ensures
        pos <= string_end(buf, pos),
        0 <= string_end(buf, pos) < buf.len() ==> buf[string_end(buf, pos)] == QUOTE,
    decreases buf.len() + 1 - pos,
{
    if 0 <= pos < buf.len() && buf[pos] != QUOTE {
        if buf[pos] == BACKSLASH {
            lemma_string_end_bounds(buf, pos + 2);
        } else {
            lemma_string_end_bounds(buf, pos + 1);
        }
    }
}

/// One more digit multiplies the value by ten and adds the digit.
pub proof fn lemma_digits_value_push(digits: Seq<u8>, d: u8)
    ensures
        digits_value(digits.push(d)) == digits_value(digits) * 10 + (d - DIGIT_ZERO) as nat,
{
    assert(digits.push(d).drop_last() =~= digits);
}

/// More digits behind do not make the value smaller.
pub proof fn lemma_digits_value_grows(head: Seq<u8>, tail: Seq<u8>)
    requires
        forall|i: int| 0 <= i < tail.len() ==> is_digit(#[trigger] tail[i]),
    ensures
        digits_value(head) <= digits_value(head + tail),
    decreases tail.len(),
{
    if tail.len() == 0 {
        assert(head + tail =~= head);
    } else {
        lemma_digits_value_grows(head, tail.drop_last());
        assert((head + tail).drop_last() =~= head + tail.drop_last());
        assert((head + tail).last() == tail.last());
    }
}

/// Reads the digits at `from` behind the digits already read, whose value is
/// `before`. Fails where the value passes `u128::MAX`.
pub(crate) fn read_digits(buffer: &[u8], from: usize, before: u128, Ghost(read): Ghost<Seq<u8>>) -> (out:
    Option<(u128, usize)>)
    requires
        from <= buffer.len(),
        before == digits_value(read),
    ensures
        match out {
            Some((value, end)) => {
                &&& end == digits_end(buffer@, from as int)
                &&& from <= end <= buffer.len()
                &&& value == digits_value(read + buffer@.subrange(from as int, end as int))
            },
            None => digits_value(
                read + buffer@.subrange(from as int, digits_end(buffer@, from as int)),
            ) > u128::MAX,
        },
{
    let mut end: usize = from;
    let mut value: u128 = before;
    assert(read + buffer@.subrange(from as int, from as int) =~= read);
    while end < buffer.len() && buffer[end] >= DIGIT_ZERO && buffer[end] <= DIGIT_NINE
        invariant
            from <= end <= buffer.len(),
            digits_end(buffer@, from as int) == digits_end(buffer@, end as int),
            value == digits_value(read + buffer@.subrange(from as int, end as int)),
        decreases buffer.len() - end,
    {
        let d: u128 = (buffer[end] - DIGIT_ZERO) as u128;
        proof {
            let so_far = read + buffer@.subrange(from as int, end as int);
            let last = digits_end(buffer@, from as int);
            lemma_digits_value_push(so_far, buffer@[end as int]);
            assert(so_far.push(buffer@[end as int]) =~= read + buffer@.subrange(
                from as int,
                end + 1,
            ));
            lemma_digits_end_bounds(buffer@, end + 1);
            lemma_digits_end_bounds(buffer@, from as int);
            let tail = buffer@.subrange(end + 1, last);
            assert(read + buffer@.subrange(from as int, last) =~= (read + buffer@.subrange(
                from as int,
                end + 1,
            )) + tail);
            lemma_digits_value_grows(read + buffer@.subrange(from as int, end + 1), tail);
        }
        if value > (u128::MAX - d) / 10 {
            return None;
        }
        value = value * 10 + d;
        end = end + 1;
    }
    Some((value, end))
}

/// What `expect_literal` returns: the position behind `literal`, which has to
/// stand at `pos`.
pub open spec fn after_literal(buf: Seq<u8>, pos: usize, literal: Seq<u8>, field: Field) -> Result<
    usize,
    ParseError,
> {
    if pos + literal.len() > buf.len() {
        Err(ParseError::BufferTooShort(buf.len() as usize))
    } else if !holds_at(buf, pos as int, literal) {
        Err(ParseError::MissingField(field))
    } else {
        Ok((pos + literal.len()) as usize)
    }
}

/// The position behind the last `-` of `text`; 0 where it holds none.
pub open spec fn behind_last_dash(text: Seq<u8>) -> int
    decreases text.len(),
{
    if text.len() == 0 {
        0
    } else if text.last() == MINUS {
        text.len() as int
    } else {
        behind_last_dash(text.drop_last())
    }
}

/// The number of a trade id: what stands behind its last `-`, which has to be
/// digits, at least one, that write a number below 2^64.
pub open spec fn trade_id_of(text: Seq<u8>) -> Option<u64> {
    let from = behind_last_dash(text);
    let digits = text.subrange(from, text.len() as int);
    if from < text.len() && digits_end(text, from) == text.len() && digits_value(digits)
        <= u64::MAX {
        Some(digits_value(digits) as u64)
    } else {
        None
    }
}

/// A whole number that was read ends behind its start and inside the buffer.
pub proof fn lemma_u64_at_bounds(buf: Seq<u8>, pos: usize)
    requires
        buf.len() <= usize::MAX,
    ensures
        u64_at(buf, pos) matches Ok((_, end)) ==> pos < end <= buf.len(),
{
    lemma_whitespace_end_bounds(buf, pos as int);
    lemma_digits_end_bounds(buf, whitespace_end(buf, pos as int));
}

/// A decimal that was read ends behind its start and inside the buffer.
pub proof fn lemma_decimal_at_bounds(buf: Seq<u8>, pos: usize)
    requires
        buf.len() <= usize::MAX,
    ensures
        decimal_at(buf, pos) matches Ok((_, end)) ==> pos < end <= buf.len(),
{
    let m = mantissa_at(buf, pos as int);
    lemma_digits_end_bounds(buf, pos as int);
    lemma_digits_end_bounds(buf, pos + 1);
    lemma_digits_end_bounds(buf, digits_end(buf, pos as int) + 1);
    lemma_digits_end_bounds(buf, digits_end(buf, pos + 1) + 1);
    lemma_exponent_end(buf, m.end);
    lemma_digits_end_bounds(buf, m.end + 1);
    lemma_digits_end_bounds(buf, m.end + 2);
}

/// A string that was read ends at or behind its start, at a quote inside the
/// buffer.
pub proof fn lemma_string_at_bounds(buf: Seq<u8>, pos: usize)
    requires
        buf.len() <= usize::MAX,
    ensures
        string_at(buf, pos) matches Ok((start, end)) ==> start == pos && pos <= end < buf.len()
            && buf[end as int] == QUOTE,
{
    lemma_string_end_bounds(buf, pos as int);
}

/// `std::str::from_utf8`, of which only success or failure is kept: it
/// succeeds on the byte strings that are valid UTF-8, and on no others.
#[verifier::external_body]
pub(crate) fn is_utf8(bytes: &[u8]) -> (valid: bool)
    ensures
        valid == valid_utf8(bytes@),
{
    std::str::from_utf8(bytes).is_ok()
}

/// The position behind `literal`, which has to stand at `pos`.
pub fn expect_literal(buffer: &[u8], pos: usize, literal: &str, field: Field) -> (after: Result<
    usize,
    ParseError,
>)
    ensures
        after == after_literal(buffer@, pos, literal.spec_bytes(), field),
{
    let bytes = literal.as_bytes();
    if bytes.len() > buffer.len() || pos > buffer.len() - bytes.len() {
        return Err(ParseError::BufferTooShort(buffer.len()));
    }
    if !matches_at(buffer, pos, bytes) {
        return Err(ParseError::MissingField(field));
    }
    Ok(pos + bytes.len())
}

/// The number of a trade id.
pub fn parse_trade_id(text: &[u8]) -> (id: Option<u64>)
    ensures
        id == trade_id_of(text@),
{
    let mut from: usize = text.len();
    assert(text@.take(from as int) =~= text@);
    while from > 0 && text[from - 1] != MINUS
        invariant
            from <= text.len(),
            behind_last_dash(text@) == behind_last_dash(text@.take(from as int)),
        decreases from,
    {
        proof {
            assert(text@.take(from as int).drop_last() =~= text@.take(from - 1));
        }
        from = from - 1;
    }
    proof {
        if from > 0 {
            assert(text@.take(from as int).last() == MINUS);
        }
        lemma_digits_end_bounds(text@, from as int);
    }
    if from >= text.len() {
        return None;
    }
    match read_digits(text, from, 0, Ghost(Seq::empty())) {
        None => {
            assert(Seq::<u8>::empty() + text@.subrange(
                from as int,
                digits_end(text@, from as int),
            ) =~= text@.subrange(from as int, digits_end(text@, from as int)));
            assert(digits_end(text@, from as int) == text.len() ==> digits_value(
                text@.subrange(from as int, text.len() as int),
            ) > u64::MAX);
            None
        },
        Some((value, end)) => {
            assert(Seq::<u8>::empty() + text@.subrange(from as int, end as int) =~= text@.subrange(
                from as int,
                end as int,
            ));
            if end == text.len() && value <= u64::MAX as u128 {
                Some(value as u64)
            } else {
                None
            }
        },
    }
}

/// Reads the digits of the decimal at `pos`: its sign, what its digits write,
/// how many stand behind the point, and where they end. Fails where the digits
/// pass `u128::MAX`.
fn scan_mantissa(buffer: &[u8], pos: usize) -> (out: Option<(bool, u128, usize, usize)>)
    requires
        pos < buffer.len(),
    ensures
        match out {
            Some((negative, digits, places, end)) => {
                &&& mantissa_at(buffer@, pos as int) == (Mantissa {
                    negative,
                    digits: digits as nat,
                    places: places as int,
                    end: end as int,
                })
                &&& pos <= end <= buffer.len()
                &&& negative ==> pos + 1 <= end
            },
            None => {
                &&& mantissa_at(buffer@, pos as int).digits > u128::MAX
                &&& mantissa_at(buffer@, pos as int).end > pos
                &&& mantissa_at(buffer@, pos as int).negative ==> mantissa_at(
                    buffer@,
                    pos as int,
                ).end > pos + 1
            },
        },
{
    let len = buffer.len();
    let negative = buffer[pos] == MINUS;
    let int_start = if negative {
        pos + 1
    } else {
        pos
    };
    let ghost none = Seq::<u8>::empty();
    proof {
        lemma_digits_end_bounds(buffer@, int_start as int);
        let int_end = digits_end(buffer@, int_start as int);
        let frac_start = if int_end < len && buffer@[int_end] == POINT {
            int_end + 1
        } else {
            int_end
        };
        lemma_digits_end_bounds(buffer@, frac_start);
        let frac_end = digits_end(buffer@, frac_start);
        lemma_digits_value_grows(
            buffer@.subrange(int_start as int, int_end),
            buffer@.subrange(frac_start, frac_end),
        );
        assert(none + buffer@.subrange(int_start as int, int_end) =~= buffer@.subrange(
            int_start as int,
            int_end,
        ));
        if int_end == int_start && frac_end == frac_start {
            assert(buffer@.subrange(int_start as int, int_end) + buffer@.subrange(
                frac_start,
                frac_end,
            ) =~= none);
        }
    }
    let (whole, int_end) = match read_digits(buffer, int_start, 0, Ghost(none)) {
        None => {
            return None;
        },
        Some(read) => read,
    };
    let has_point = int_end < len && buffer[int_end] == POINT;
    let frac_start = if has_point {
        int_end + 1
    } else {
        int_end
    };
    match read_digits(
        buffer,
        frac_start,
        whole,
        Ghost(buffer@.subrange(int_start as int, int_end as int)),
    ) {
        None => None,
        Some((digits, frac_end)) => Some((negative, digits, frac_end - frac_start, frac_end)),
    }
}

/// Reads the power of ten at `pos`: its size, its sign, and where it ends.
/// Fails where the size passes `i32::MAX`.
fn scan_exponent(buffer: &[u8], pos: usize) -> (out: Option<
    (u32, bool, usize),
>)
    requires
        pos <= buffer.len(),
    ensures
        match out {
            Some((magnitude, negative, end)) => {
                &&& exponent_at(buffer@, pos as int) == (Exponent {
                    magnitude: magnitude as nat,
                    negative,
                    end: end as int,
                })
                &&& magnitude <= i32::MAX
                &&& pos <= end <= buffer.len()
            },
            None => {
                &&& exponent_at(buffer@, pos as int).magnitude > i32::MAX
                &&& exponent_at(buffer@, pos as int).end > pos
            },
        },
{
    let len = buffer.len();
    let has_exp = pos < len && (buffer[pos] == LOWER_E || buffer[pos] == UPPER_E);
    if !has_exp {
        return Some((0, false, pos));
    }
    let sign_at = pos + 1;
    let mut negative = false;
    let mut start = sign_at;
    if sign_at < len && buffer[sign_at] == MINUS {
        negative = true;
        start = sign_at + 1;
    } else if sign_at < len && buffer[sign_at] == PLUS {
        start = sign_at + 1;
    }
    proof {
        lemma_digits_end_bounds(buffer@, start as int);
        assert(Seq::<u8>::empty() + buffer@.subrange(
            start as int,
            digits_end(buffer@, start as int),
        ) =~= buffer@.subrange(start as int, digits_end(buffer@, start as int)));
    }
    match read_digits(buffer, start, 0, Ghost(Seq::empty())) {
        None => None,
        Some((value, end)) => {
            if value > i32::MAX as u128 {
                None
            } else {
                Some((value as u32, negative, end))
            }
        },
    }
}

/// A power of ten ends at or behind its start.
pub proof fn lemma_exponent_end(buf: Seq<u8>, pos: int)
    ensures
        pos <= exponent_at(buf, pos).end,
{
    lemma_digits_end_bounds(buf, pos + 1);
    lemma_digits_end_bounds(buf, pos + 2);
}

/// The decimal written at `pos`, and the position behind it.
pub fn scan_decimal(buffer: &[u8], pos: usize) -> (out: Result<
    (Decimal, usize),
    ParseError,
>)
    ensures
        out == decimal_at(buffer@, pos),
        out matches Ok((_, end)) ==> pos < end <= buffer.len(),
{
    if pos >= buffer.len() {
        return Err(ParseError::InvalidFormat(FormatIssue::ExpectedNumber));
    }
    let (negative, digits, places, digits_end) = match scan_mantissa(buffer, pos) {
        None => {
            proof {
                lemma_exponent_end(buffer@, mantissa_at(buffer@, pos as int).end);
            }
            return Err(ParseError::InvalidFormat(FormatIssue::NumberOutOfRange));
        },
        Some(read) => read,
    };
    let (magnitude, exp_negative, end) = match scan_exponent(buffer, digits_end) {
        None => {
            return Err(ParseError::InvalidFormat(FormatIssue::NumberOutOfRange));
        },
        Some(read) => read,
    };
    if end == pos || (negative && end == pos + 1) {
        return Err(ParseError::InvalidFormat(FormatIssue::ExpectedNumber));
    }
    let exponent: i128 = if exp_negative {
        -(magnitude as i128)
    } else {
        magnitude as i128
    };
    let scale: i128 = exponent - places as i128;
    if scale < i32::MIN as i128 || scale > i32::MAX as i128 {
        return Err(ParseError::InvalidFormat(FormatIssue::NumberOutOfRange));
    }
    Ok((Decimal { negative, mantissa: digits, scale: scale as i32 }, end))
}

impl StreamingParser {
    /// The decimal written at `pos`, with its power of ten where it has one,
    /// and the position behind it.
    pub fn parse_number(buffer: &[u8], pos: usize) -> (out: Result<(Decimal, usize), ParseError>)
        ensures
            out == decimal_at(buffer@, pos),
            out matches Ok((_, end)) ==> pos < end <= buffer.len(),
    {
        scan_decimal(buffer, pos)
    }

    /// The first position at or after `pos` that holds no whitespace.
    pub fn skip_whitespace(buffer: &[u8], pos: usize) -> (end: usize)
        ensures
            end == whitespace_end(buffer@, pos as int),
            pos <= end,
            pos <= buffer.len() ==> end <= buffer.len(),
    {
        let mut end: usize = pos;
        while end < buffer.len() && (buffer[end] == 32 || buffer[end] == 9 || buffer[end] == 10
            || buffer[end] == 13)
            invariant
                pos <= end,
                pos <= buffer.len() ==> end <= buffer.len(),
                whitespace_end(buffer@, pos as int) == whitespace_end(buffer@, end as int),
            decreases buffer.len() - end,
        {
            end = end + 1;
        }
        end
    }

    /// The body of the string that starts at `pos`, behind its opening quote:
    /// where it starts and where its closing quote stands.
    pub fn parse_string(buffer: &[u8], pos: usize) -> (span: Result<(usize, usize), ParseError>)
        ensures
            span == string_at(buffer@, pos),
            span matches Ok((start, end)) ==> start == pos && pos <= end < buffer.len()
                && buffer@[end as int] == QUOTE,
    {
        if pos >= buffer.len() {
            return Err(ParseError::InvalidFormat(FormatIssue::ExpectedString));
        }
        let mut end: usize = pos;
        while end < buffer.len() && buffer[end] != QUOTE
            invariant
                pos <= end <= buffer.len(),
                string_end(buffer@, pos as int) == string_end(buffer@, end as int),
            decreases buffer.len() - end,
        {
            if buffer[end] == BACKSLASH {
                if buffer.len() - end <= 2 {
                    proof {
                        lemma_string_end_bounds(buffer@, end + 2);
                    }
                    return Err(ParseError::InvalidFormat(FormatIssue::UnterminatedString));
                }
                end = end + 2;
            } else {
                end = end + 1;
            }
        }
        if end >= buffer.len() {
            return Err(ParseError::InvalidFormat(FormatIssue::UnterminatedString));
        }
        Ok((pos, end))
    }

    /// The whole number behind any whitespace at `pos`, and the position behind
    /// its last digit.
    pub fn parse_u64(buffer: &[u8], pos: usize) -> (out: Result<(u64, usize), ParseError>)
        ensures
            out == u64_at(buffer@, pos),
            out matches Ok((_, end)) ==> pos < end <= buffer.len(),
    {
        let start = Self::skip_whitespace(buffer, pos);
        proof {
            lemma_digits_end_bounds(buffer@, start as int);
        }
        if start >= buffer.len() {
            return Err(ParseError::InvalidFormat(FormatIssue::ExpectedNumber));
        }
        match read_digits(buffer, start, 0, Ghost(Seq::empty())) {
            None => {
                assert(Seq::<u8>::empty() + buffer@.subrange(
                    start as int,
                    digits_end(buffer@, start as int),
                ) =~= buffer@.subrange(start as int, digits_end(buffer@, start as int)));
                assert(digits_end(buffer@, start as int) != start) by {
                    if digits_end(buffer@, start as int) == start {
                        assert(buffer@.subrange(start as int, start as int) =~= Seq::<u8>::empty());
                    }
                }
                Err(ParseError::InvalidFormat(FormatIssue::NumberOutOfRange))
            },
            Some((value, end)) => {
                assert(Seq::<u8>::empty() + buffer@.subrange(start as int, end as int)
                    =~= buffer@.subrange(start as int, end as int));
                if start == end {
                    Err(ParseError::InvalidFormat(FormatIssue::ExpectedNumber))
                } else if value > u64::MAX as u128 {
                    Err(ParseError::InvalidFormat(FormatIssue::NumberOutOfRange))
                } else {
                    Ok((value as u64, end))
                }
            },
        }
    }
}

} // verus!
