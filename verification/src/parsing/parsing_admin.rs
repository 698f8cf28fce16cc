//! The administrative replies: authentication, subscription, pong.

use vstd::prelude::*;
use crate::parsing::exchange_message_type::DeribitMessage;
use crate::parsing::json::collected;
use crate::parsing::json::lemma_collected_error;
use crate::parsing::json::JsonValue;
use crate::parsing::Field;
use crate::parsing::FormatIssue;
use crate::parsing::MessageParser;
use crate::parsing::ParseError;

verus! {

/// The reply to an authentication request.
#[derive(Debug, Clone)]
pub struct AuthMessage {
    pub jsonrpc: String,
    pub id: u64,
    pub result: AuthResult,
}

/// The token of an authentication reply, with what the exchange says of it.
#[derive(Debug, Clone)]
pub struct AuthResult {
    pub access_token: String,
    pub expires_in: u64,
    pub token_type: String,
    pub scope: String,
}

/// The reply to a subscription request: the channels subscribed to.
#[derive(Debug, Clone)]
pub struct SubscriptionMessage {
    pub jsonrpc: String,
    pub id: u64,
    pub result: Vec<String>,
}

/// The times, in microseconds, that the exchange puts on a reply.
#[derive(Debug, Clone, Copy)]
pub struct PongMessage {
    pub us_in: usize,
    pub us_out: usize,
    pub us_diff: usize,
}

/// The token of an authentication reply, from its `result`.
pub open spec fn auth_result_of(result: JsonValue) -> Result<AuthResult, ParseError> {
    match result.string_field(Field::AccessToken) {
        Err(e) => Err(e),
        Ok(access_token) => match result.u64_field(Field::ExpiresIn) {
            Err(e) => Err(e),
            Ok(expires_in) => match result.string_field(Field::TokenType) {
                Err(e) => Err(e),
                Ok(token_type) => match result.string_field(Field::Scope) {
                    Err(e) => Err(e),
                    Ok(scope) => Ok(AuthResult { access_token, expires_in, token_type, scope }),
                },
            },
        },
    }
}

/// What an authentication reply says, or the first of its fields that is
/// missing: `jsonrpc`, `id`, `result`, and in `result` the token, its
/// lifetime, its type and its scope.
#[verifier::opaque]
pub open spec fn auth_of(value: JsonValue) -> Result<DeribitMessage, ParseError> {
    match value.string_field(Field::Jsonrpc) {
        Err(e) => Err(e),
        Ok(jsonrpc) => match value.u64_field(Field::Id) {
            Err(e) => Err(e),
            Ok(id) => match value.member(Field::Result.key()) {
                None => Err(ParseError::MissingField(Field::Result)),
                Some(found) => match auth_result_of(found) {
                    Err(e) => Err(e),
                    Ok(result) => Ok(DeribitMessage::Auth(AuthMessage { jsonrpc, id, result })),
                },
            },
        },
    }
}

/// The name of a channel, from an item of the list of channels.
pub open spec fn channel_of(item: JsonValue) -> Result<String, ParseError> {
    match item {
        JsonValue::Text(s) => Ok(s),
        _ => Err(ParseError::InvalidFormat(FormatIssue::ChannelNotString)),
    }
}

/// `channel_of`, as what reads each item of a list.
pub open spec fn channel_reader() -> spec_fn(JsonValue) -> Result<String, ParseError> {
    |item: JsonValue| channel_of(item)
}

/// What a subscription reply says: its `jsonrpc`, its `id` and the channels
/// in its `result`; or what is wrong with it: the first field that is
/// missing, else a `result` that is no list, else the first item of the list
/// that is no string.
#[verifier::opaque]
pub open spec fn subscription_of(value: JsonValue) -> Result<(String, u64, Seq<String>), ParseError> {
    match value.string_field(Field::Jsonrpc) {
        Err(e) => Err(e),
        Ok(jsonrpc) => match value.u64_field(Field::Id) {
            Err(e) => Err(e),
            Ok(id) => match value.member(Field::Result.key()) {
                None => Err(ParseError::MissingField(Field::Result)),
                Some(found) => match found.items() {
                    None => Err(ParseError::InvalidFormat(FormatIssue::ResultNotArray)),
                    Some(list) => match collected(list, channel_reader(), list.len() as int) {
                        Err(e) => Err(e),
                        Ok(channels) => Ok((jsonrpc, id, channels)),
                    },
                },
            },
        },
    }
}

/// What a pong says, or the first of its three times that is missing.
#[verifier::opaque]
pub open spec fn pong_of(value: JsonValue) -> Result<DeribitMessage, ParseError> {
    match value.usize_field(Field::UsIn) {
        Err(e) => Err(e),
        Ok(us_in) => match value.usize_field(Field::UsOut) {
            Err(e) => Err(e),
            Ok(us_out) => match value.usize_field(Field::UsDiff) {
                Err(e) => Err(e),
                Ok(us_diff) => Ok(DeribitMessage::Pong(PongMessage { us_in, us_out, us_diff })),
            },
        },
    }
}

/// Whether `out` is what reading the subscription reply `value` gives.
pub open spec fn reads_subscription(value: JsonValue, out: Result<DeribitMessage, ParseError>) -> bool {
    match out {
        Ok(DeribitMessage::Subscription(message)) => subscription_of(value) == Ok::<
            (String, u64, Seq<String>),
            ParseError,
        >((message.jsonrpc, message.id, message.result@)),
        Ok(_) => false,
        Err(e) => subscription_of(value) == Err::<(String, u64, Seq<String>), ParseError>(e),
    }
}

impl MessageParser {
    /// Reads an authentication reply.
    pub fn parse_auth_owned(value: &JsonValue) -> (out: Result<DeribitMessage, ParseError>)
        ensures
            out == auth_of(*value),
    {
        reveal(auth_of);
        let jsonrpc = Self::get_string(value, Field::Jsonrpc)?;
        let id = Self::get_u64(value, Field::Id)?;
        let result = match value.get(Field::Result.name()) {
            Some(found) => found,
            None => {
                return Err(ParseError::MissingField(Field::Result));
            },
        };
        let access_token = Self::get_string(result, Field::AccessToken)?;
        let expires_in = Self::get_u64(result, Field::ExpiresIn)?;
        let token_type = Self::get_string(result, Field::TokenType)?;
        let scope = Self::get_string(result, Field::Scope)?;
        Ok(
            DeribitMessage::Auth(
                AuthMessage {
                    jsonrpc,
                    id,
                    result: AuthResult { access_token, expires_in, token_type, scope },
                },
            ),
        )
    }

    /// Reads a subscription reply.
    pub fn parse_subscription_owned(value: &JsonValue) -> (out: Result<DeribitMessage, ParseError>)
        ensures
            reads_subscription(*value, out),
    {
        reveal(subscription_of);
        let jsonrpc = Self::get_string(value, Field::Jsonrpc)?;
        let id = Self::get_u64(value, Field::Id)?;
        let result = match value.get(Field::Result.name()) {
            Some(found) => found,
            None => {
                return Err(ParseError::MissingField(Field::Result));
            },
        };
        let list = match result.as_list() {
            Some(found) => found,
            None => {
                return Err(ParseError::InvalidFormat(FormatIssue::ResultNotArray));
            },
        };
        let ghost each = channel_reader();
        let mut channels: Vec<String> = Vec::new();
        let mut i: usize = 0;
        while i < list.len()
            invariant
                i <= list.len(),
                each == channel_reader(),
                subscription_of(*value) == match collected(list@, each, list@.len() as int) {
                    Err(e) => Err::<(String, u64, Seq<String>), ParseError>(e),
                    Ok(all) => Ok((jsonrpc, id, all)),
                },
                collected(list@, each, i as int) == Ok::<Seq<String>, ParseError>(channels@),
            decreases list.len() - i,
        {
            match list[i].as_string() {
                Some(channel) => {
                    assert(each(list@[i as int]) == channel_of(list@[i as int]));
                    channels.push(channel.clone());
                },
                None => {
                    proof {
                        assert(each(list@[i as int]) == channel_of(list@[i as int]));
                        assert(collected(list@, each, i + 1) is Err);
                        lemma_collected_error(list@, each, i + 1, list@.len() as int);
                    }
                    return Err(ParseError::InvalidFormat(FormatIssue::ChannelNotString));
                },
            }
            i += 1;
        }
        Ok(DeribitMessage::Subscription(SubscriptionMessage { jsonrpc, id, result: channels }))
    }

    /// Reads a pong: the three times that the exchange puts on its replies.
    pub fn parse_ping_pong(value: &JsonValue) -> (out: Result<DeribitMessage, ParseError>)
        ensures
            out == pong_of(*value),
    {
        reveal(pong_of);
        let us_in = Self::get_usize(value, Field::UsIn)?;
        let us_out = Self::get_usize(value, Field::UsOut)?;
        let us_diff = Self::get_usize(value, Field::UsDiff)?;
        Ok(DeribitMessage::Pong(PongMessage { us_in, us_out, us_diff }))
    }
}

} // verus!
