//! What the literals of the hot path hold: their lengths and their first
//! bytes, as far as the laws of the wire format need them.

use vstd::prelude::*;
use vstd::string::StringSliceAdditionalSpecFns;
use vstd::utf8::is_ascii_chars_encode_utf8;
use crate::parsing::parsing_fast::AMOUNT_KEY;
use crate::parsing::parsing_fast::BUY;
use crate::parsing::parsing_fast::CONTRACTS_KEY;
use crate::parsing::parsing_fast::DATA_PATTERN;
use crate::parsing::parsing_fast::DIRECTION_KEY;
use crate::parsing::parsing_fast::ENVELOPE_PREFIX;
use crate::parsing::parsing_fast::INDEX_PRICE_KEY;
use crate::parsing::parsing_fast::INSTRUMENT_NAME_KEY;
use crate::parsing::parsing_fast::LIST_OPEN;
use crate::parsing::parsing_fast::MARK_PRICE_KEY;
use crate::parsing::parsing_fast::OBJECT_CLOSE;
use crate::parsing::parsing_fast::PRICE_KEY;
use crate::parsing::parsing_fast::SELL;
use crate::parsing::parsing_fast::TICK_DIRECTION_KEY;
use crate::parsing::parsing_fast::TIMESTAMP_KEY;
use crate::parsing::parsing_fast::TRADES_PATTERN;
use crate::parsing::parsing_fast::TRADE_ID_KEY;
use crate::parsing::parsing_fast::TRADE_SEQ_KEY;

verus! {

/// The envelope prefix has 62 bytes.
pub proof fn lemma_envelope_prefix()
    ensures
        ENVELOPE_PREFIX.spec_bytes().len() == 62,
{
    reveal_strlit("{\"jsonrpc\":\"2.0\",\"method\":\"subscription\",\"params\":{\"channel\":\"");
    is_ascii_chars_encode_utf8(ENVELOPE_PREFIX@);
}

/// `trades.` has 7 bytes, `data` has 4, and what opens the list has 3.
pub proof fn lemma_channel_keys()
    ensures
        TRADES_PATTERN.spec_bytes().len() == 7,
        DATA_PATTERN.spec_bytes().len() == 4,
        LIST_OPEN.spec_bytes().len() == 3,
{
    reveal_strlit("trades.");
    reveal_strlit("data");
    reveal_strlit("\":[");
    is_ascii_chars_encode_utf8(TRADES_PATTERN@);
    is_ascii_chars_encode_utf8(DATA_PATTERN@);
    is_ascii_chars_encode_utf8(LIST_OPEN@);
}

/// A trade starts with 13 bytes, the first a `{`.
pub proof fn lemma_timestamp_key()
    ensures
        TIMESTAMP_KEY.spec_bytes().len() == 13,
        TIMESTAMP_KEY.spec_bytes()[0] == 123,
{
    reveal_strlit("{\"timestamp\":");
    is_ascii_chars_encode_utf8(TIMESTAMP_KEY@);
}

/// The keys behind a number start with a `,`.
pub proof fn lemma_keys_behind_numbers()
    ensures
        PRICE_KEY.spec_bytes().len() == 9,
        PRICE_KEY.spec_bytes()[0] == 44,
        AMOUNT_KEY.spec_bytes().len() > 0,
        AMOUNT_KEY.spec_bytes()[0] == 44,
        DIRECTION_KEY.spec_bytes().len() > 0,
        DIRECTION_KEY.spec_bytes()[0] == 44,
        INSTRUMENT_NAME_KEY.spec_bytes().len() > 0,
        INSTRUMENT_NAME_KEY.spec_bytes()[0] == 44,
        MARK_PRICE_KEY.spec_bytes().len() > 0,
        MARK_PRICE_KEY.spec_bytes()[0] == 44,
        TICK_DIRECTION_KEY.spec_bytes().len() > 0,
        TICK_DIRECTION_KEY.spec_bytes()[0] == 44,
        TRADE_ID_KEY.spec_bytes().len() > 0,
        TRADE_ID_KEY.spec_bytes()[0] == 44,
        OBJECT_CLOSE.spec_bytes().len() == 1,
        OBJECT_CLOSE.spec_bytes()[0] == 125,
{
    reveal_strlit(",\"price\":");
    reveal_strlit(",\"amount\":");
    reveal_strlit(",\"direction\":\"");
    reveal_strlit(",\"instrument_name\":\"");
    reveal_strlit(",\"mark_price\":");
    reveal_strlit(",\"tick_direction\":");
    reveal_strlit(",\"trade_id\":\"");
    reveal_strlit("}");
    is_ascii_chars_encode_utf8(PRICE_KEY@);
    is_ascii_chars_encode_utf8(AMOUNT_KEY@);
    is_ascii_chars_encode_utf8(DIRECTION_KEY@);
    is_ascii_chars_encode_utf8(INSTRUMENT_NAME_KEY@);
    is_ascii_chars_encode_utf8(MARK_PRICE_KEY@);
    is_ascii_chars_encode_utf8(TICK_DIRECTION_KEY@);
    is_ascii_chars_encode_utf8(TRADE_ID_KEY@);
    is_ascii_chars_encode_utf8(OBJECT_CLOSE@);
}

/// The keys behind a string start with the quote that closes it.
pub proof fn lemma_keys_behind_strings()
    ensures
        INDEX_PRICE_KEY.spec_bytes().len() > 0,
        INDEX_PRICE_KEY.spec_bytes()[0] == 34,
        TRADE_SEQ_KEY.spec_bytes().len() > 0,
        TRADE_SEQ_KEY.spec_bytes()[0] == 34,
        CONTRACTS_KEY.spec_bytes().len() > 0,
        CONTRACTS_KEY.spec_bytes()[0] == 34,
{
    reveal_strlit("\",\"index_price\":");
    reveal_strlit("\",\"trade_seq\":");
    reveal_strlit("\",\"contracts\":");
    is_ascii_chars_encode_utf8(INDEX_PRICE_KEY@);
    is_ascii_chars_encode_utf8(TRADE_SEQ_KEY@);
    is_ascii_chars_encode_utf8(CONTRACTS_KEY@);
}

/// `buy` and `sell` start with different bytes.
pub proof fn lemma_directions()
    ensures
        BUY.spec_bytes().len() == 3,
        SELL.spec_bytes().len() == 4,
        BUY.spec_bytes()[0] != SELL.spec_bytes()[0],
{
    reveal_strlit("buy");
    reveal_strlit("sell");
    is_ascii_chars_encode_utf8(BUY@);
    is_ascii_chars_encode_utf8(SELL@);
}

} // verus!
