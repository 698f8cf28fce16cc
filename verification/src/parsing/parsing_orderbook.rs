//! Order-book levels as the exchange sends them.

use vstd::prelude::*;
use vstd::string::StringSliceAdditionalSpecFns;
use crate::decimal::Decimal;
use crate::parsing::bytes::same_bytes;
use crate::parsing::exchange_message_type::DeribitMessage;
use crate::parsing::json::collected;
use crate::parsing::json::lemma_collected_error;
use crate::parsing::json::JsonValue;
use crate::parsing::Field;
use crate::parsing::FormatIssue;
use crate::parsing::MessageParser;
use crate::parsing::ParseError;
use crate::parsing::Real;

verus! {

/// What an incoming level asks of the book.
#[derive(Debug, Clone, Copy, PartialEq, Eq, Structural)]
pub enum OrderbookAction {
    New,
    Change,
    Delete,
}

impl OrderbookAction {
    /// The action that the exchange writes as `name`.
    pub open spec fn named(name: Seq<u8>) -> Option<OrderbookAction> {
        if name == "new".spec_bytes() {
            Some(OrderbookAction::New)
        } else if name == "change".spec_bytes() {
            Some(OrderbookAction::Change)
        } else if name == "delete".spec_bytes() {
            Some(OrderbookAction::Delete)
        } else {
            None
        }
    }

    /// The action numbered `number`: 0, 1 and 2 in the order of the variants.
    pub open spec fn numbered(number: int) -> Option<OrderbookAction> {
        if number == 0 {
            Some(OrderbookAction::New)
        } else if number == 1 {
            Some(OrderbookAction::Change)
        } else if number == 2 {
            Some(OrderbookAction::Delete)
        } else {
            None
        }
    }

    /// The action that the exchange writes as `s`.
    pub fn from_str(s: &str) -> (action: Option<Self>)
        ensures
            action == Self::named(s.spec_bytes()),
    {
        Self::from_bytes(s.as_bytes())
    }

    /// The action that the exchange writes as `bytes`.
    pub fn from_bytes(bytes: &[u8]) -> (action: Option<Self>)
        ensures
            action == Self::named(bytes@),
    {
        if same_bytes(bytes, "new".as_bytes()) {
            Some(OrderbookAction::New)
        } else if same_bytes(bytes, "change".as_bytes()) {
            Some(OrderbookAction::Change)
        } else if same_bytes(bytes, "delete".as_bytes()) {
            Some(OrderbookAction::Delete)
        } else {
            None
        }
    }

    /// The action numbered `number`.
    pub fn from_number(number: i32) -> (action: Option<Self>)
        ensures
            action == Self::numbered(number as int),
    {
        if number == 0 {
            Some(OrderbookAction::New)
        } else if number == 1 {
            Some(OrderbookAction::Change)
        } else if number == 2 {
            Some(OrderbookAction::Delete)
        } else {
            None
        }
    }
}

/// One level of an update: what to do at which price, and the new size there.
#[derive(Debug, Clone, Copy)]
pub struct OrderbookLevel {
    pub action: OrderbookAction,
    pub price: Decimal,
    pub size: Decimal,
}

impl OrderbookLevel {
    /// The level with the action named `action`, if there is such an action.
    pub fn from_vec(action: String, price: Decimal, size: Decimal) -> (level: Option<Self>)
        ensures
            level == match OrderbookAction::named(vstd::utf8::encode_utf8(action@)) {
                Some(a) => Some(OrderbookLevel { action: a, price, size }),
                None => None,
            },
    {
        match OrderbookAction::from_str(action.as_str()) {
            Some(a) => Some(OrderbookLevel { action: a, price, size }),
            None => None,
        }
    }

    /// The level with the action numbered `action`, if there is such an
    /// action.
    pub fn from_action_number(action: i32, price: Decimal, size: Decimal) -> (level: Option<Self>)
        ensures
            level == match OrderbookAction::numbered(action as int) {
                Some(a) => Some(OrderbookLevel { action: a, price, size }),
                None => None,
            },
    {
        match OrderbookAction::from_number(action) {
            Some(a) => Some(OrderbookLevel { action: a, price, size }),
            None => None,
        }
    }
}

/// A snapshot of a book, as the general decoder reads it.
#[derive(Debug, Clone)]
pub struct OrderbookSnapshotMessage {
    pub params: OrderbookSnapshotData,
}

/// What a snapshot says.
#[derive(Debug, Clone)]
pub struct OrderbookSnapshotData {
    pub timestamp: u64,
    pub msg_type: String,
    pub change_id: u64,
    pub instrument_name: String,
    pub bids: Vec<(String, Real, Real)>,
    pub asks: Vec<(String, Real, Real)>,
}

/// A change of a book, as the general decoder reads it.
#[derive(Debug, Clone)]
pub struct OrderbookUpdateMessage {
    pub params: OrderbookUpdateData,
}

/// What a change says.
#[derive(Debug, Clone)]
pub struct OrderbookUpdateData {
    pub timestamp: u64,
    pub msg_type: String,
    pub change_id: u64,
    pub instrument_name: String,
    pub bids: Vec<(String, Real, Real)>,
    pub asks: Vec<(String, Real, Real)>,
    pub prev_change_id: Option<u64>,
}

/// The sides and the header of a book message that the general decoder
/// read.
pub struct BookParts {
    pub timestamp: u64,
    pub msg_type: String,
    pub change_id: u64,
    pub instrument_name: String,
    pub bids: Seq<(String, Real, Real)>,
    pub asks: Seq<(String, Real, Real)>,
    pub prev_change_id: Option<u64>,
}

/// What one level says: a list of an action, a price and a size; or what is
/// wrong with it.
pub open spec fn level_of(item: JsonValue) -> Result<(String, Real, Real), ParseError> {
    match item.items() {
        None => Err(ParseError::InvalidFormat(FormatIssue::LevelNotArray)),
        Some(parts) => if parts.len() != 3 {
            Err(ParseError::InvalidFormat(FormatIssue::LevelWrongSize))
        } else {
            match parts[0].text() {
                None => Err(ParseError::InvalidFormat(FormatIssue::ActionNotString)),
                Some(action) => match parts[1].real_number() {
                    None => Err(ParseError::InvalidFormat(FormatIssue::PriceNotNumber)),
                    Some(price) => match parts[2].real_number() {
                        None => Err(ParseError::InvalidFormat(FormatIssue::SizeNotNumber)),
                        Some(size) => Ok((action, price, size)),
                    },
                },
            }
        },
    }
}

/// `level_of`, as what reads each item of a list.
pub open spec fn level_reader() -> spec_fn(JsonValue) -> Result<(String, Real, Real), ParseError> {
    |item: JsonValue| level_of(item)
}

/// What the side `field` of a book message says: its levels, or the error of
/// the first level that gives one.
pub open spec fn side_of(data: JsonValue, field: Field) -> Result<
    Seq<(String, Real, Real)>,
    ParseError,
> {
    match data.member(field.key()) {
        None => Err(ParseError::MissingField(field)),
        Some(side) => match side.items() {
            None => Err(ParseError::InvalidFormat(FormatIssue::LevelsNotArray)),
            Some(list) => collected(list, level_reader(), list.len() as int),
        },
    }
}

/// What the fields of a book message say that a snapshot and a change share:
/// the time, the type, the change id and the instrument, from `data`.
pub open spec fn book_header_of(data: JsonValue) -> Result<(u64, String, u64, String), ParseError> {
    match data.u64_field(Field::Timestamp) {
        Err(e) => Err(e),
        Ok(timestamp) => match data.string_field(Field::Type) {
            Err(e) => Err(e),
            Ok(msg_type) => match data.u64_field(Field::ChangeId) {
                Err(e) => Err(e),
                Ok(change_id) => match data.string_field(Field::InstrumentName) {
                    Err(e) => Err(e),
                    Ok(instrument_name) => Ok((timestamp, msg_type, change_id, instrument_name)),
                },
            },
        },
    }
}

/// The id of the change that a change follows, where it names one.
pub open spec fn prev_change_id_of(data: JsonValue) -> Option<u64> {
    match data.member(Field::PrevChangeId.key()) {
        Some(JsonValue::Unsigned(n)) => Some(n),
        _ => None,
    }
}

/// What a book message says, or what is wrong with it. A snapshot has to
/// name its channel; a change may name the change that it follows.
#[verifier::opaque]
pub open spec fn book_of(value: JsonValue, snapshot: bool) -> Result<BookParts, ParseError> {
    match value.member(Field::Params.key()) {
        None => Err(ParseError::MissingField(Field::Params)),
        Some(params) => match params.member(Field::Data.key()) {
            None => Err(ParseError::MissingField(Field::Data)),
            Some(data) => if snapshot && params.string_field(Field::Channel) is Err {
                Err(ParseError::MissingField(Field::Channel))
            } else {
                match book_header_of(data) {
                    Err(e) => Err(e),
                    Ok((timestamp, msg_type, change_id, instrument_name)) => match side_of(
                        data,
                        Field::Bids,
                    ) {
                        Err(e) => Err(e),
                        Ok(bids) => match side_of(data, Field::Asks) {
                            Err(e) => Err(e),
                            Ok(asks) => Ok(
                                BookParts {
                                    timestamp,
                                    msg_type,
                                    change_id,
                                    instrument_name,
                                    bids,
                                    asks,
                                    prev_change_id: if snapshot {
                                        None
                                    } else {
                                        prev_change_id_of(data)
                                    },
                                },
                            ),
                        },
                    },
                }
            },
        },
    }
}

impl OrderbookSnapshotData {
    /// What the snapshot says, as plain values.
    pub open spec fn parts(self) -> BookParts {
        BookParts {
            timestamp: self.timestamp,
            msg_type: self.msg_type,
            change_id: self.change_id,
            instrument_name: self.instrument_name,
            bids: self.bids@,
            asks: self.asks@,
            prev_change_id: None,
        }
    }
}

impl OrderbookUpdateData {
    /// What the change says, as plain values.
    pub open spec fn parts(self) -> BookParts {
        BookParts {
            timestamp: self.timestamp,
            msg_type: self.msg_type,
            change_id: self.change_id,
            instrument_name: self.instrument_name,
            bids: self.bids@,
            asks: self.asks@,
            prev_change_id: self.prev_change_id,
        }
    }
}

/// Whether `out` is what reading the book message `value` gives, as a
/// snapshot or as a change.
pub open spec fn reads_book(
    value: JsonValue,
    snapshot: bool,
    out: Result<DeribitMessage, ParseError>,
) -> bool {
    match out {
        Ok(DeribitMessage::OrderbookSnapshot(message)) => snapshot && book_of(value, true) == Ok::<
            BookParts,
            ParseError,
        >(message.params.parts()),
        Ok(DeribitMessage::OrderbookUpdate(message)) => !snapshot && book_of(value, false) == Ok::<
            BookParts,
            ParseError,
        >(message.params.parts()),
        Ok(_) => false,
        Err(e) => book_of(value, snapshot) == Err::<BookParts, ParseError>(e),
    }
}

impl MessageParser {
    /// Reads the header of a book message.
    fn parse_book_header_owned(data: &JsonValue) -> (out: Result<
        (u64, String, u64, String),
        ParseError,
    >)
        ensures
            out == book_header_of(*data),
    {
        let timestamp = Self::get_u64(data, Field::Timestamp)?;
        let msg_type = Self::get_string(data, Field::Type)?;
        let change_id = Self::get_u64(data, Field::ChangeId)?;
        let instrument_name = Self::get_string(data, Field::InstrumentName)?;
        Ok((timestamp, msg_type, change_id, instrument_name))
    }

    /// Reads a snapshot of a book from `params.data`.
    pub fn parse_orderbook_snapshot_owned(value: &JsonValue) -> (out: Result<
        DeribitMessage,
        ParseError,
    >)
        ensures
            reads_book(*value, true, out),
    {
        reveal(book_of);
        let params = match value.get(Field::Params.name()) {
            Some(found) => found,
            None => {
                return Err(ParseError::MissingField(Field::Params));
            },
        };
        let data = match params.get(Field::Data.name()) {
            Some(found) => found,
            None => {
                return Err(ParseError::MissingField(Field::Data));
            },
        };
        let _channel = Self::get_string(params, Field::Channel)?;
        let (timestamp, msg_type, change_id, instrument_name) = Self::parse_book_header_owned(
            data,
        )?;
        let bids = Self::parse_orderbook_levels_owned(data, Field::Bids)?;
        let asks = Self::parse_orderbook_levels_owned(data, Field::Asks)?;
        Ok(
            DeribitMessage::OrderbookSnapshot(
                OrderbookSnapshotMessage {
                    params: OrderbookSnapshotData {
                        timestamp,
                        msg_type,
                        change_id,
                        instrument_name,
                        bids,
                        asks,
                    },
                },
            ),
        )
    }

    /// Reads a change of a book from `params.data`.
    pub fn parse_orderbook_update_owned(value: &JsonValue) -> (out: Result<
        DeribitMessage,
        ParseError,
    >)
        ensures
            reads_book(*value, false, out),
    {
        reveal(book_of);
        let params = match value.get(Field::Params.name()) {
            Some(found) => found,
            None => {
                return Err(ParseError::MissingField(Field::Params));
            },
        };
        let data = match params.get(Field::Data.name()) {
            Some(found) => found,
            None => {
                return Err(ParseError::MissingField(Field::Data));
            },
        };
        let (timestamp, msg_type, change_id, instrument_name) = Self::parse_book_header_owned(
            data,
        )?;
        let prev_change_id = match data.get(Field::PrevChangeId.name()) {
            Some(JsonValue::Unsigned(n)) => Some(*n),
            _ => None,
        };
        let bids = Self::parse_orderbook_levels_owned(data, Field::Bids)?;
        let asks = Self::parse_orderbook_levels_owned(data, Field::Asks)?;
        Ok(
            DeribitMessage::OrderbookUpdate(
                OrderbookUpdateMessage {
                    params: OrderbookUpdateData {
                        timestamp,
                        msg_type,
                        change_id,
                        instrument_name,
                        bids,
                        asks,
                        prev_change_id,
                    },
                },
            ),
        )
    }

    /// Reads one level: a list of an action, a price and a size.
    pub fn parse_orderbook_level_owned(item: &JsonValue) -> (out: Result<
        (String, Real, Real),
        ParseError,
    >)
        ensures
            out == level_of(*item),
    {
        let parts = match item.as_list() {
            Some(found) => found,
            None => {
                return Err(ParseError::InvalidFormat(FormatIssue::LevelNotArray));
            },
        };
        if parts.len() != 3 {
            return Err(ParseError::InvalidFormat(FormatIssue::LevelWrongSize));
        }
        let action = match parts[0].as_string() {
            Some(s) => s.clone(),
            None => {
                return Err(ParseError::InvalidFormat(FormatIssue::ActionNotString));
            },
        };
        let price = match parts[1].as_real() {
            Some(r) => r,
            None => {
                return Err(ParseError::InvalidFormat(FormatIssue::PriceNotNumber));
            },
        };
        let size = match parts[2].as_real() {
            Some(r) => r,
            None => {
                return Err(ParseError::InvalidFormat(FormatIssue::SizeNotNumber));
            },
        };
        Ok((action, price, size))
    }

    /// Reads the levels of one side.
    pub fn parse_orderbook_levels_owned(data: &JsonValue, field: Field) -> (out: Result<
        Vec<(String, Real, Real)>,
        ParseError,
    >)
        ensures
            match out {
                Ok(levels) => side_of(*data, field) == Ok::<Seq<(String, Real, Real)>, ParseError>(
                    levels@,
                ),
                Err(e) => side_of(*data, field) == Err::<Seq<(String, Real, Real)>, ParseError>(e),
            },
    {
        let side = match data.get(field.name()) {
            Some(found) => found,
            None => {
                return Err(ParseError::MissingField(field));
            },
        };
        let list = match side.as_list() {
            Some(found) => found,
            None => {
                return Err(ParseError::InvalidFormat(FormatIssue::LevelsNotArray));
            },
        };
        let ghost each = level_reader();
        let mut levels: Vec<(String, Real, Real)> = Vec::new();
        let mut i: usize = 0;
        while i < list.len()
            invariant
                i <= list.len(),
                each == level_reader(),
                side_of(*data, field) == collected(list@, each, list@.len() as int),
                collected(list@, each, i as int) == Ok::<Seq<(String, Real, Real)>, ParseError>(
                    levels@,
                ),
            decreases list.len() - i,
        {
            match Self::parse_orderbook_level_owned(&list[i]) {
                Ok(level) => {
                    assert(each(list@[i as int]) == level_of(list@[i as int]));
                    levels.push(level);
                },
                Err(e) => {
                    proof {
                        assert(each(list@[i as int]) == level_of(list@[i as int]));
                        assert(collected(list@, each, i + 1) is Err);
                        lemma_collected_error(list@, each, i + 1, list@.len() as int);
                    }
                    return Err(e);
                },
            }
            i += 1;
        }
        Ok(levels)
    }
}

} // verus!
