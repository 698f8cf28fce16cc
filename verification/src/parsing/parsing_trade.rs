//! Trade messages as the general decoder reads them.

use vstd::prelude::*;
use vstd::string::StringSliceAdditionalSpecFns;
use vstd::utf8::encode_utf8;
use crate::parsing::bytes::same_bytes;
use crate::parsing::exchange_message_type::DeribitMessage;
use crate::parsing::json::collected;
use crate::parsing::json::lemma_collected_error;
use crate::parsing::json::JsonValue;
use crate::parsing::Field;
use crate::parsing::FormatIssue;
use crate::parsing::MessageParser;
use crate::parsing::ParseError;
use crate::parsing::Real;

verus! {

/// The trades of a trade message, as the general decoder reads them.
#[derive(Debug, Clone)]
pub struct TradeUpdateMessage {
    pub data: Vec<TradeData>,
}

/// One trade, as the general decoder reads it.
#[derive(Debug, Clone)]
pub struct TradeData {
    pub timestamp: u64,
    pub price: Real,
    pub amount: Real,
    /// 1 for a buy, -1 for anything else.
    pub direction: i8,
    pub instrument_name: String,
    pub trade_id: String,
}

/// One trade whose strings are borrowed.
#[derive(Debug)]
pub struct TradeDataRef<'a> {
    pub timestamp: u64,
    pub price: Real,
    pub amount: Real,
    pub direction: i8,
    pub instrument_name: &'a str,
    pub trade_id: &'a str,
}

/// The number of a direction: 1 for `buy`, -1 for anything else.
pub open spec fn direction_number(direction: Seq<u8>) -> i8 {
    if direction == "buy".spec_bytes() {
        1i8
    } else {
        (-1i8) as i8
    }
}

/// What one trade says, or the first of its six fields that is missing.
pub open spec fn trade_data_of(value: JsonValue) -> Result<TradeData, ParseError> {
    match value.u64_field(Field::Timestamp) {
        Err(e) => Err(e),
        Ok(timestamp) => match value.real_field(Field::Price) {
            Err(e) => Err(e),
            Ok(price) => match value.real_field(Field::Amount) {
                Err(e) => Err(e),
                Ok(amount) => match value.string_field(Field::Direction) {
                    Err(e) => Err(e),
                    Ok(direction) => match value.string_field(Field::InstrumentName) {
                        Err(e) => Err(e),
                        Ok(instrument_name) => match value.string_field(Field::TradeId) {
                            Err(e) => Err(e),
                            Ok(trade_id) => Ok(
                                TradeData {
                                    timestamp,
                                    price,
                                    amount,
                                    direction: direction_number(encode_utf8(direction@)),
                                    instrument_name,
                                    trade_id,
                                },
                            ),
                        },
                    },
                },
            },
        },
    }
}

/// `trade_data_of`, as what reads each item of a list.
pub open spec fn trade_reader() -> spec_fn(JsonValue) -> Result<TradeData, ParseError> {
    |item: JsonValue| trade_data_of(item)
}

/// What a trade message says: the trades of the list in `params.data`, or
/// the error of the first trade that gives one.
#[verifier::opaque]
pub open spec fn trade_update_of(value: JsonValue) -> Result<Seq<TradeData>, ParseError> {
    match value.member(Field::Params.key()) {
        None => Err(ParseError::MissingField(Field::Params)),
        Some(params) => match params.member(Field::Data.key()) {
            None => Err(ParseError::MissingField(Field::Data)),
            Some(data) => match data.items() {
                None => Err(ParseError::InvalidFormat(FormatIssue::DataNotArray)),
                Some(list) => collected(list, trade_reader(), list.len() as int),
            },
        },
    }
}

/// The number of a direction.
pub fn direction_of(direction: &str) -> (number: i8)
    ensures
        number == direction_number(direction.spec_bytes()),
{
    if same_bytes(direction.as_bytes(), "buy".as_bytes()) {
        1
    } else {
        -1
    }
}

/// Whether `out` is what reading the trade message `value` gives.
pub open spec fn reads_trade_update(value: JsonValue, out: Result<DeribitMessage, ParseError>) -> bool {
    match out {
        Ok(DeribitMessage::TradeUpdate(message)) => trade_update_of(value) == Ok::<
            Seq<TradeData>,
            ParseError,
        >(message.data@),
        Ok(_) => false,
        Err(e) => trade_update_of(value) == Err::<Seq<TradeData>, ParseError>(e),
    }
}

impl MessageParser {
    /// Reads a trade message.
    pub fn parse_trade_update_owned(value: &JsonValue) -> (out: Result<DeribitMessage, ParseError>)
        ensures
            reads_trade_update(*value, out),
    {
        reveal(trade_update_of);
        let params = match value.get(Field::Params.name()) {
            Some(found) => found,
            None => {
                return Err(ParseError::MissingField(Field::Params));
            },
        };
        let data = match params.get(Field::Data.name()) {
            Some(found) => found,
            None => {
                return Err(ParseError::MissingField(Field::Data));
            },
        };
        let list = match data.as_list() {
            Some(found) => found,
            None => {
                return Err(ParseError::InvalidFormat(FormatIssue::DataNotArray));
            },
        };
        let ghost each = trade_reader();
        let mut trades: Vec<TradeData> = Vec::new();
        let mut i: usize = 0;
        while i < list.len()
            invariant
                i <= list.len(),
                each == trade_reader(),
                trade_update_of(*value) == collected(list@, each, list@.len() as int),
                collected(list@, each, i as int) == Ok::<Seq<TradeData>, ParseError>(trades@),
            decreases list.len() - i,
        {
            match Self::parse_trade_data_owned(&list[i]) {
                Ok(trade) => {
                    assert(each(list@[i as int]) == trade_data_of(list@[i as int]));
                    trades.push(trade);
                },
                Err(e) => {
                    proof {
                        assert(each(list@[i as int]) == trade_data_of(list@[i as int]));
                        assert(collected(list@, each, i + 1) is Err);
                        lemma_collected_error(list@, each, i + 1, list@.len() as int);
                    }
                    return Err(e);
                },
            }
            i += 1;
        }
        Ok(DeribitMessage::TradeUpdate(TradeUpdateMessage { data: trades }))
    }

    /// Reads one trade.
    pub fn parse_trade_data_owned(value: &JsonValue) -> (out: Result<TradeData, ParseError>)
        ensures
            out == trade_data_of(*value),
    {
        let timestamp = Self::get_u64(value, Field::Timestamp)?;
        let price = Self::get_real(value, Field::Price)?;
        let amount = Self::get_real(value, Field::Amount)?;
        let direction = Self::get_string(value, Field::Direction)?;
        let instrument_name = Self::get_string(value, Field::InstrumentName)?;
        let trade_id = Self::get_string(value, Field::TradeId)?;
        Ok(
            TradeData {
                timestamp,
                price,
                amount,
                direction: direction_of(direction.as_str()),
                instrument_name,
                trade_id,
            },
        )
    }
}

} // verus!
