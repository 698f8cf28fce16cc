//! Decoding of inbound frames: the byte-level parser of the hot path, and the
//! general decoder for the administrative replies.

pub mod bytes;
pub mod exchange_message_type;
pub mod instrument_index;
pub mod json;
pub mod keys;
pub mod parsing_admin;
pub mod parsing_fast;
pub mod parsing_fast_orderbook;
pub mod parsing_general;
pub mod parsing_orderbook;
pub mod parsing_trade;
pub mod scan;
pub mod writing;

use vstd::prelude::*;
use crate::parsing::json::JsonValue;

verus! {

/// The fields that the parsers look for.
#[derive(Debug, Clone, Copy, PartialEq, Eq, Structural)]
pub enum Field {
    Jsonrpc,
    Id,
    Result,
    AccessToken,
    ExpiresIn,
    TokenType,
    Scope,
    UsIn,
    UsOut,
    UsDiff,
    Data,
    Timestamp,
    Price,
    Amount,
    Direction,
    IndexPrice,
    InstrumentName,
    TradeSeq,
    MarkPrice,
    TickDirection,
    TradeId,
    Contracts,
    Type,
    ChangeId,
    Bids,
    Asks,
    PrevChangeId,
    /// One level of a side of the book.
    Level,
    Params,
    Channel,
    Method,
}

/// What can be wrong with the form of a frame.
#[derive(Debug, Clone, Copy, PartialEq, Eq, Structural)]
pub enum FormatIssue {
    /// No `data` member behind the channel name.
    DataNotFound,
    /// No `"asks":[` behind the bids of a snapshot.
    AsksNotFound,
    /// A string was expected at the end of the buffer.
    ExpectedString,
    /// A string has no closing quote.
    UnterminatedString,
    /// A number was expected where there is none, or only a sign.
    ExpectedNumber,
    /// A number has more digits than this library holds.
    NumberOutOfRange,
    /// A name is not valid UTF-8.
    InvalidUtf8,
    /// The tick direction is not one of 0, 1, 2, 3.
    TickDirection,
    /// The list of trades is empty.
    NoTrades,
    /// Neither `,` nor `]` behind an item of a list.
    ExpectedSeparator,
    /// An order-book level does not start with one of the three actions.
    UnknownAction,
    /// The result of a subscription reply is not a list.
    ResultNotArray,
    /// A channel in a subscription reply is not a string.
    ChannelNotString,
    /// The lists and objects of a frame are nested deeper than the general
    /// decoder is given.
    TooDeep,
    /// The `data` of a trade message is not a list.
    DataNotArray,
    /// A side of a book message is not a list.
    LevelsNotArray,
    /// A level of a book message is not a list.
    LevelNotArray,
    /// A level of a book message does not have three items.
    LevelWrongSize,
    /// The action of a level is not a string.
    ActionNotString,
    /// The price of a level is not a number with a fraction.
    PriceNotNumber,
    /// The size of a level is not a number with a fraction.
    SizeNotNumber,
}

/// Why a frame was not read.
#[derive(Debug, Clone, PartialEq, Eq)]
pub enum ParseError {
    /// The general decoder refused the frame; its message is kept.
    JsonError(String),
    /// A field is not where it has to be.
    MissingField(Field),
    InvalidFormat(FormatIssue),
    /// The type of a book message is neither `snapshot` nor `change`.
    UnknownMessageType,
    /// The buffer, of the length given, ends before the message does.
    BufferTooShort(usize),
    /// The direction of a trade is neither `buy` nor `sell`.
    BadDirection,
    /// The instrument is not in the index.
    UnknownInstrument,
    /// No number behind the last `-` of a trade id.
    BadTradeId,
}

/// A floating-point number of a decoded document, by the 64 bits of its
/// IEEE 754 form.
#[derive(Debug, Clone, Copy, PartialEq, Eq, Structural)]
pub struct Real {
    pub bits: u64,
}

impl Field {
    /// The name of the field as the exchange writes it.
    pub open spec fn spec_name(self) -> Seq<char> {
        match self {
            Field::Jsonrpc => "jsonrpc"@,
            Field::Id => "id"@,
            Field::Result => "result"@,
            Field::AccessToken => "access_token"@,
            Field::ExpiresIn => "expires_in"@,
            Field::TokenType => "token_type"@,
            Field::Scope => "scope"@,
            Field::UsIn => "usIn"@,
            Field::UsOut => "usOut"@,
            Field::UsDiff => "usDiff"@,
            Field::Data => "data"@,
            Field::Timestamp => "timestamp"@,
            Field::Price => "price"@,
            Field::Amount => "amount"@,
            Field::Direction => "direction"@,
            Field::IndexPrice => "index_price"@,
            Field::InstrumentName => "instrument_name"@,
            Field::TradeSeq => "trade_seq"@,
            Field::MarkPrice => "mark_price"@,
            Field::TickDirection => "tick_direction"@,
            Field::TradeId => "trade_id"@,
            Field::Contracts => "contracts"@,
            Field::Type => "type"@,
            Field::ChangeId => "change_id"@,
            Field::Bids => "bids"@,
            Field::Asks => "asks"@,
            Field::PrevChangeId => "prev_change_id"@,
            Field::Level => "level"@,
            Field::Params => "params"@,
            Field::Channel => "channel"@,
            Field::Method => "method"@,
        }
    }

    /// The name of the field as the exchange writes it.
    pub fn name(self) -> (name: &'static str)
        ensures
            name@ == self.spec_name(),
    {
        match self {
            Field::Jsonrpc => "jsonrpc",
            Field::Id => "id",
            Field::Result => "result",
            Field::AccessToken => "access_token",
            Field::ExpiresIn => "expires_in",
            Field::TokenType => "token_type",
            Field::Scope => "scope",
            Field::UsIn => "usIn",
            Field::UsOut => "usOut",
            Field::UsDiff => "usDiff",
            Field::Data => "data",
            Field::Timestamp => "timestamp",
            Field::Price => "price",
            Field::Amount => "amount",
            Field::Direction => "direction",
            Field::IndexPrice => "index_price",
            Field::InstrumentName => "instrument_name",
            Field::TradeSeq => "trade_seq",
            Field::MarkPrice => "mark_price",
            Field::TickDirection => "tick_direction",
            Field::TradeId => "trade_id",
            Field::Contracts => "contracts",
            Field::Type => "type",
            Field::ChangeId => "change_id",
            Field::Bids => "bids",
            Field::Asks => "asks",
            Field::PrevChangeId => "prev_change_id",
            Field::Level => "level",
            Field::Params => "params",
            Field::Channel => "channel",
            Field::Method => "method",
        }
    }
}

/// The general decoder of the cold path.
pub struct MessageParser;

impl MessageParser {
    /// The text of the member `field`, which has to be a string.
    pub fn get_string(value: &JsonValue, field: Field) -> (out: Result<String, ParseError>)
        ensures
            out == value.string_field(field),
    {
        match value.get(field.name()) {
            Some(JsonValue::Text(s)) => Ok(s.clone()),
            _ => Err(ParseError::MissingField(field)),
        }
    }

    /// The number of the member `field`, which has to be a whole number from
    /// 0 to 2^64 - 1.
    pub fn get_u64(value: &JsonValue, field: Field) -> (out: Result<u64, ParseError>)
        ensures
            out == value.u64_field(field),
    {
        match value.get(field.name()) {
            Some(JsonValue::Unsigned(n)) => Ok(*n),
            _ => Err(ParseError::MissingField(field)),
        }
    }

    /// The number of the member `field`, which has to be written with a
    /// fraction or an exponent.
    pub fn get_real(value: &JsonValue, field: Field) -> (out: Result<Real, ParseError>)
        ensures
            out == value.real_field(field),
    {
        match value.get(field.name()) {
            Some(JsonValue::Real(r)) => Ok(*r),
            _ => Err(ParseError::MissingField(field)),
        }
    }

    /// The number of the member `field`, which has to be a whole number that
    /// fits `usize`.
    pub fn get_usize(value: &JsonValue, field: Field) -> (out: Result<usize, ParseError>)
        ensures
            out == value.usize_field(field),
    {
        match value.get(field.name()) {
            Some(found) => match found.as_usize() {
                Some(n) => Ok(n),
                None => Err(ParseError::MissingField(field)),
            },
            None => Err(ParseError::MissingField(field)),
        }
    }
}

} // verus!
