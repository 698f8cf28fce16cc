//! The connection to the exchange: what it sends, how it takes each frame,
//! and how it moves from connecting to streaming to closed. The tasks that
//! read the socket, wait for timers and own the channels call into this
//! module for every decision.

use vstd::prelude::*;
use vstd::string::StringExecFns;
use crate::deribit_helper::AuthResult;
use crate::deribit_helper::DeribitError;
use crate::deribit_helper::SubscriptionResult;
use crate::market_data_type::TradeEvent;
use crate::parsing::exchange_message_type::DeribitMessage;
use crate::parsing::parsing_general::parses;
use crate::parsing::parsing_admin::PongMessage;
use crate::parsing::parsing_fast::channel_type_of;
use crate::parsing::parsing_fast::trade_items;
use crate::parsing::parsing_fast::trades_in;
use crate::parsing::parsing_fast::ChannelType;
use crate::parsing::parsing_fast::FastMarketData;
use crate::parsing::parsing_fast::StreamingParser;
use crate::parsing::parsing_fast::TradeBuffer;
use crate::parsing::parsing_fast_orderbook::book_in;
use crate::parsing::parsing_fast_orderbook::BookMessage;
use crate::parsing::parsing_fast_orderbook::OrderbookResult;
use crate::parsing::MessageParser;
use crate::parsing::ParseError;

verus! {

/// The id that the authentication request carries.
pub const AUTH_ID: u64 = 1;

/// The id that the subscription request carries.
pub const SUBSCRIBE_ID: u64 = 2;

/// Seconds between two pings.
pub const PING_INTERVAL_SECS: u64 = 480;

/// Seconds between two reports of the parse statistics.
pub const STATS_INTERVAL_SECS: u64 = 10;

/// Seconds without an inbound frame after which the connection fails.
pub const READ_TIMEOUT_SECS: u64 = 30;

/// Seconds to wait for the reply to the authentication request.
pub const AUTH_WAIT_SECS: u64 = 30;

/// Seconds to wait for the reply to the subscription request.
pub const SUBSCRIBE_WAIT_SECS: u64 = 10;

/// How many commands may wait to be sent.
pub const COMMAND_CAPACITY: usize = 100;

/// How many trades may wait for the writer.
pub const TRADE_CAPACITY: usize = 1000;

/// How many book messages may wait for the writer.
pub const BOOK_CAPACITY: usize = 1000;

/// How many decoded replies may wait for the router.
pub const PARSED_CAPACITY: usize = 100;

/// How many control messages may wait for their requester.
pub const CONTROL_CAPACITY: usize = 100;

/// The capacity above which the parse buffer is shrunk.
pub const BUFFER_SHRINK_ABOVE: usize = 8192;

/// The capacity to which the parse buffer is shrunk.
pub const BUFFER_SHRINK_TO: usize = 4096;

/// How many parse latencies are kept for the statistics.
pub const LATENCY_SAMPLES: usize = 1000;

/// What the router hands to a requester.
#[derive(Debug)]
pub enum ControlMessage {
    AuthResult { id: u64, result: Result<AuthResult, DeribitError> },
    SubscriptionResult { id: u64, result: Result<SubscriptionResult, DeribitError> },
    Error(DeribitError),
}

/// What the connection task does with a frame.
#[derive(Debug)]
pub enum FrameOutcome {
    /// Offer each trade to the trade channel; drop those that find it full.
    Trades(TradeBuffer),
    /// Offer the message to the book channel; drop it if the channel is full.
    Book(OrderbookResult),
    /// Offer the reply to the router; drop it if its channel is full.
    Control(DeribitMessage),
    /// Count the frame as an error and go on.
    Rejected(ParseError),
}

/// What the router does with a decoded reply.
#[derive(Debug)]
pub enum Routed {
    /// Offer the message to the control channel; drop it if the channel is
    /// full.
    Forward(ControlMessage),
    /// Report the pong.
    Pong(PongMessage),
    /// Nothing.
    Discard,
}

/// The phases of a connection.
#[derive(Debug, Clone, Copy, PartialEq, Eq, Structural)]
pub enum ConnectionState {
    Connecting,
    Authenticating,
    Subscribing,
    Streaming,
    Draining,
    Closed,
}

/// What can happen to a connection.
#[derive(Debug)]
pub enum ConnectionEvent {
    /// The transport is up.
    Connected,
    /// The transport could not be set up, or failed; its message.
    TransportFailed(String),
    /// A control message came from the router.
    Control(ControlMessage),
    /// The time that the phase allows has passed: `AUTH_WAIT_SECS` without the
    /// reply to the authentication, `SUBSCRIBE_WAIT_SECS` without the reply to
    /// the subscription, `READ_TIMEOUT_SECS` without a frame while streaming.
    TimedOut,
    /// A channel to a peer task is closed.
    ChannelClosed,
    /// The stream of frames has ended.
    StreamEnded,
    /// Shutdown was broadcast.
    Shutdown,
    /// Every task has returned.
    Drained,
}

/// What the connection has to do next.
#[derive(Debug)]
pub enum ConnectionAction {
    /// Send the authentication request with this id.
    Authenticate { id: u64 },
    /// Send the subscription request with this id.
    Subscribe { id: u64 },
    /// Nothing.
    Proceed,
    /// Broadcast shutdown and wait for the tasks.
    Drain,
    /// Report the error and stop.
    Fail(DeribitError),
    /// Stop.
    Finish,
}

/// The text of one decimal digit.
pub open spec fn digit_text(d: nat) -> Seq<char> {
    if d == 0 {
        "0"@
    } else if d == 1 {
        "1"@
    } else if d == 2 {
        "2"@
    } else if d == 3 {
        "3"@
    } else if d == 4 {
        "4"@
    } else if d == 5 {
        "5"@
    } else if d == 6 {
        "6"@
    } else if d == 7 {
        "7"@
    } else if d == 8 {
        "8"@
    } else {
        "9"@
    }
}

/// The decimal text of a number, without leading zeros.
pub open spec fn decimal_text(n: nat) -> Seq<char>
    decreases n,
{
    if n < 10 {
        digit_text(n)
    } else {
        decimal_text(n / 10) + digit_text(n % 10)
    }
}

/// A string as JSON writes it: between quotes, with what has to be escaped
/// escaped.
pub uninterp spec fn json_string(text: Seq<char>) -> Seq<char>;

/// `serde_json::to_string` on a string: the string as JSON writes it. The
/// call writes into memory and does not fail on a string.
#[verifier::external_body]
pub(crate) fn quoted(text: &str) -> (json: String)
    ensures
        json@ == json_string(text@),
{
    serde_json::to_string(text).unwrap_or_default()
}

/// The channels as a JSON list without its brackets: each as JSON writes it,
/// with a `,` between two.
pub open spec fn channel_list(channels: Seq<String>) -> Seq<char>
    decreases channels.len(),
{
    if channels.len() == 0 {
        Seq::empty()
    } else if channels.len() == 1 {
        json_string(channels[0]@)
    } else {
        channel_list(channels.drop_last()) + ","@ + json_string(channels.last()@)
    }
}

/// The authentication request: a client-credentials grant for `api_key` and
/// `api_secret`.
pub open spec fn auth_request_text(id: u64, api_key: Seq<char>, api_secret: Seq<char>) -> Seq<
    char,
> {
    "{\"jsonrpc\":\"2.0\",\"id\":"@ + decimal_text(id as nat)
        + ",\"method\":\"public/auth\",\"params\":{\"grant_type\":\"client_credentials\",\"client_id\":"@
        + json_string(api_key) + ",\"client_secret\":"@ + json_string(api_secret) + "}}"@
}

/// The subscription request for `channels`.
pub open spec fn subscribe_request_text(id: u64, channels: Seq<String>) -> Seq<char> {
    "{\"jsonrpc\":\"2.0\",\"id\":"@ + decimal_text(id as nat)
        + ",\"method\":\"public/subscribe\",\"params\":{\"channels\":["@ + channel_list(channels)
        + "]}}"@
}

/// Appends the text of one digit.
fn append_digit(out: &mut String, d: u64)
    requires
        d < 10,
    ensures
        final(out)@ == old(out)@ + digit_text(d as nat),
{
    let text = if d == 0 {
        "0"
    } else if d == 1 {
        "1"
    } else if d == 2 {
        "2"
    } else if d == 3 {
        "3"
    } else if d == 4 {
        "4"
    } else if d == 5 {
        "5"
    } else if d == 6 {
        "6"
    } else if d == 7 {
        "7"
    } else if d == 8 {
        "8"
    } else {
        "9"
    };
    out.append(text);
}

/// Appends the decimal text of a number.
pub fn append_decimal(out: &mut String, n: u64)
    ensures
        final(out)@ == old(out)@ + decimal_text(n as nat),
    decreases n,
{
    if n < 10 {
        append_digit(out, n);
    } else {
        append_decimal(out, n / 10);
        append_digit(out, n % 10);
        assert(old(out)@ + decimal_text((n / 10) as nat) + digit_text((n % 10) as nat) =~= old(
            out,
        )@ + (decimal_text((n / 10) as nat) + digit_text((n % 10) as nat)));
    }
}

/// The authentication request with the id `id`.
pub fn auth_request(id: u64, api_key: &str, api_secret: &str) -> (text: String)
    ensures
        text@ == auth_request_text(id, api_key@, api_secret@),
{
    let mut text = String::from_str("{\"jsonrpc\":\"2.0\",\"id\":");
    append_decimal(&mut text, id);
    text.append(
        ",\"method\":\"public/auth\",\"params\":{\"grant_type\":\"client_credentials\",\"client_id\":",
    );
    text.append(quoted(api_key).as_str());
    text.append(",\"client_secret\":");
    text.append(quoted(api_secret).as_str());
    text.append("}}");
    text
}

/// The subscription request with the id `id`.
pub fn subscribe_request(id: u64, channels: &[String]) -> (text: String)
    ensures
        text@ == subscribe_request_text(id, channels@),
{
    let mut text = String::from_str("{\"jsonrpc\":\"2.0\",\"id\":");
    append_decimal(&mut text, id);
    text.append(",\"method\":\"public/subscribe\",\"params\":{\"channels\":[");
    let ghost head = text@;
    let mut i: usize = 0;
    assert(channels@.take(0) =~= Seq::<String>::empty());
    assert(head + channel_list(Seq::<String>::empty()) =~= head);
    while i < channels.len()
        invariant
            i <= channels.len(),
            text@ == head + channel_list(channels@.take(i as int)),
        decreases channels.len() - i,
    {
        proof {
            let done = channels@.take(i as int);
            let next = channels@.take(i + 1);
            assert(next.drop_last() =~= done);
            assert(next.last() == channels@[i as int]);
        }
        if i > 0 {
            text.append(",");
            assert(head + channel_list(channels@.take(i as int)) + ","@ + json_string(
                channels@[i as int]@,
            ) =~= head + (channel_list(channels@.take(i as int)) + ","@ + json_string(
                channels@[i as int]@,
            )));
        }
        text.append(quoted(channels[i].as_str()).as_str());
        i += 1;
    }
    assert(channels@.take(channels.len() as int) =~= channels@);
    text.append("]}}");
    text
}

/// The ping: always the same text.
pub fn ping_request() -> (text: String)
    ensures
        text@ == "{\"jsonrpc\":\"2.0\",\"method\":\"public/ping\"}"@,
{
    String::from_str("{\"jsonrpc\":\"2.0\",\"method\":\"public/ping\"}")
}

/// The capacity to shrink the parse buffer to before the next frame, if it
/// has grown past the limit.
pub fn shrink_target(capacity: usize) -> (target: Option<usize>)
    ensures
        target == if capacity > BUFFER_SHRINK_ABOVE {
            Some(BUFFER_SHRINK_TO)
        } else {
            None
        },
{
    if capacity > BUFFER_SHRINK_ABOVE {
        Some(BUFFER_SHRINK_TO)
    } else {
        None
    }
}

/// Takes one frame: the hot path first, then, for a frame that is not of the
/// hot path, the general decoder. The general decoder rewrites the buffer.
pub fn handle_frame(parser: &StreamingParser, buffer: &mut Vec<u8>) -> (outcome: FrameOutcome)
    ensures
        match channel_type_of(old(buffer)@) {
            ChannelType::Trades => match outcome {
                FrameOutcome::Trades(trades) => trades_in(parser.instruments(), old(buffer)@)
                    == Ok::<Seq<TradeEvent>, ParseError>(trade_items(trades)) && trade_items(
                    trades,
                ).len() > 0,
                FrameOutcome::Rejected(e) => trades_in(parser.instruments(), old(buffer)@)
                    == Err::<Seq<TradeEvent>, ParseError>(e),
                _ => false,
            },
            ChannelType::Orderbook => match outcome {
                FrameOutcome::Book(update) => book_in(parser.instruments(), old(buffer)@) == Ok::<
                    BookMessage,
                    ParseError,
                >(update.message()),
                FrameOutcome::Rejected(e) => book_in(parser.instruments(), old(buffer)@) == Err::<
                    BookMessage,
                    ParseError,
                >(e),
                _ => false,
            },
            ChannelType::Unknown => match outcome {
                FrameOutcome::Control(message) => parses(
                    old(buffer)@,
                    Ok::<DeribitMessage, ParseError>(message),
                ),
                FrameOutcome::Rejected(e) => parses(
                    old(buffer)@,
                    Err::<DeribitMessage, ParseError>(e),
                ),
                _ => false,
            },
        },
        channel_type_of(old(buffer)@) != ChannelType::Unknown ==> final(buffer)@ == old(buffer)@,
{
    match parser.parse_fast_new(buffer.as_slice()) {
        Ok(Some(FastMarketData::Trade(trades))) => FrameOutcome::Trades(trades),
        Ok(Some(FastMarketData::OrderbookUpdate(update))) => FrameOutcome::Book(update),
        Err(e) => FrameOutcome::Rejected(e),
        Ok(None) => match MessageParser::parse_bytes(buffer.as_mut_slice()) {
            Ok(message) => FrameOutcome::Control(message),
            Err(e) => FrameOutcome::Rejected(e),
        },
    }
}

/// What the router does with a decoded reply: the replies to the two requests
/// go to their requester, a pong is reported, anything else is dropped.
pub fn route(message: DeribitMessage) -> (routed: Routed)
    ensures
        match message {
            DeribitMessage::Auth(auth) => routed matches Routed::Forward(
                ControlMessage::AuthResult { id, result: Ok(result) },
            ) && id == auth.id && result.access_token == auth.result.access_token
                && result.expires_in == auth.result.expires_in,
            DeribitMessage::Subscription(sub) => routed matches Routed::Forward(
                ControlMessage::SubscriptionResult { id, result: Ok(result) },
            ) && id == sub.id && result.channels == sub.result && result.success,
            DeribitMessage::Pong(pong) => routed matches Routed::Pong(p) && p == pong,
            _ => routed is Discard,
        },
{
    match message {
        DeribitMessage::Auth(auth) => Routed::Forward(
            ControlMessage::AuthResult {
                id: auth.id,
                result: Ok(
                    AuthResult {
                        access_token: auth.result.access_token,
                        expires_in: auth.result.expires_in,
                    },
                ),
            },
        ),
        DeribitMessage::Subscription(sub) => Routed::Forward(
            ControlMessage::SubscriptionResult {
                id: sub.id,
                result: Ok(SubscriptionResult { channels: sub.result, success: true }),
            },
        ),
        DeribitMessage::Pong(pong) => Routed::Pong(pong),
        _ => Routed::Discard,
    }
}

/// What a control message means to one who waits for the reply to the
/// authentication request `expected_id`: the reply, or `None` for any other
/// message, which is dropped.
pub fn match_auth_response(expected_id: u64, message: ControlMessage) -> (reply: Option<
    Result<AuthResult, DeribitError>,
>)
    ensures
        reply == match message {
            ControlMessage::AuthResult { id, result } => if id == expected_id {
                Some(result)
            } else {
                None
            },
            _ => None,
        },
{
    match message {
        ControlMessage::AuthResult { id, result } => if id == expected_id {
            Some(result)
        } else {
            None
        },
        _ => None,
    }
}

/// What a control message means to one who waits for the reply to the
/// subscription request `expected_id`.
pub fn match_subscription_response(expected_id: u64, message: ControlMessage) -> (reply: Option<
    Result<SubscriptionResult, DeribitError>,
>)
    ensures
        reply == match message {
            ControlMessage::SubscriptionResult { id, result } => if id == expected_id {
                Some(result)
            } else {
                None
            },
            _ => None,
        },
{
    match message {
        ControlMessage::SubscriptionResult { id, result } => if id == expected_id {
            Some(result)
        } else {
            None
        },
        _ => None,
    }
}

impl ConnectionState {
    /// The seconds that the phase allows for what it waits for, where it
    /// waits for anything.
    pub open spec fn spec_wait_secs(self) -> Option<u64> {
        match self {
            ConnectionState::Authenticating => Some(AUTH_WAIT_SECS),
            ConnectionState::Subscribing => Some(SUBSCRIBE_WAIT_SECS),
            ConnectionState::Streaming => Some(READ_TIMEOUT_SECS),
            _ => None,
        }
    }

    /// The seconds that the phase allows for what it waits for.
    pub fn wait_secs(self) -> (secs: Option<u64>)
        ensures
            secs == self.spec_wait_secs(),
    {
        match self {
            ConnectionState::Authenticating => Some(AUTH_WAIT_SECS),
            ConnectionState::Subscribing => Some(SUBSCRIBE_WAIT_SECS),
            ConnectionState::Streaming => Some(READ_TIMEOUT_SECS),
            _ => None,
        }
    }

    /// The phase that follows when `event` happens in this phase.
    ///
    /// A failure of the transport, a closed channel or a timeout closes the
    /// connection from any phase but `Closed`. The reply to the authentication
    /// request leads to `Subscribing`, the reply to the subscription request
    /// to `Streaming`; a reply that reports an error closes the connection;
    /// any other control message changes nothing. Shutdown, or the end of the
    /// stream, leads to `Draining`, and from there the return of all tasks to
    /// `Closed`.
    pub open spec fn after(self, event: ConnectionEvent) -> ConnectionState {
        match (self, event) {
            (ConnectionState::Closed, _) => ConnectionState::Closed,
            (_, ConnectionEvent::TransportFailed(_)) => ConnectionState::Closed,
            (_, ConnectionEvent::ChannelClosed) => ConnectionState::Closed,
            (_, ConnectionEvent::TimedOut) => if self.spec_wait_secs() is Some {
                ConnectionState::Closed
            } else {
                self
            },
            (_, ConnectionEvent::Shutdown) => ConnectionState::Draining,
            (_, ConnectionEvent::StreamEnded) => ConnectionState::Draining,
            (ConnectionState::Draining, ConnectionEvent::Drained) => ConnectionState::Closed,
            (ConnectionState::Connecting, ConnectionEvent::Connected) => {
                ConnectionState::Authenticating
            },
            (
                ConnectionState::Authenticating,
                ConnectionEvent::Control(ControlMessage::AuthResult { id, result }),
            ) => if id != AUTH_ID {
                self
            } else if result is Ok {
                ConnectionState::Subscribing
            } else {
                ConnectionState::Closed
            },
            (
                ConnectionState::Subscribing,
                ConnectionEvent::Control(ControlMessage::SubscriptionResult { id, result }),
            ) => if id != SUBSCRIBE_ID {
                self
            } else if result is Ok {
                ConnectionState::Streaming
            } else {
                ConnectionState::Closed
            },
            _ => self,
        }
    }

    /// What to do when `event` happens in this phase: send the one request
    /// when the transport is up and the other when the first is answered,
    /// start draining on shutdown or at the end of the stream, stop when all
    /// tasks have returned, and fail with the error that closed the
    /// connection.
    pub open spec fn action(self, event: ConnectionEvent) -> ConnectionAction {
        match (self, event) {
            (ConnectionState::Closed, _) => ConnectionAction::Proceed,
            (_, ConnectionEvent::TransportFailed(text)) => ConnectionAction::Fail(
                DeribitError::ConnectionError(text),
            ),
            (_, ConnectionEvent::ChannelClosed) => ConnectionAction::Fail(
                DeribitError::ChannelClosed,
            ),
            (_, ConnectionEvent::TimedOut) => if self.spec_wait_secs() is Some {
                ConnectionAction::Fail(DeribitError::Timeout)
            } else {
                ConnectionAction::Proceed
            },
            (_, ConnectionEvent::Shutdown) => if self == ConnectionState::Draining {
                ConnectionAction::Proceed
            } else {
                ConnectionAction::Drain
            },
            (_, ConnectionEvent::StreamEnded) => if self == ConnectionState::Draining {
                ConnectionAction::Proceed
            } else {
                ConnectionAction::Drain
            },
            (ConnectionState::Draining, ConnectionEvent::Drained) => ConnectionAction::Finish,
            (ConnectionState::Connecting, ConnectionEvent::Connected) => {
                ConnectionAction::Authenticate { id: AUTH_ID }
            },
            (
                ConnectionState::Authenticating,
                ConnectionEvent::Control(ControlMessage::AuthResult { id, result }),
            ) => if id != AUTH_ID {
                ConnectionAction::Proceed
            } else {
                match result {
                    Ok(_) => ConnectionAction::Subscribe { id: SUBSCRIBE_ID },
                    Err(error) => ConnectionAction::Fail(error),
                }
            },
            (
                ConnectionState::Subscribing,
                ConnectionEvent::Control(ControlMessage::SubscriptionResult { id, result }),
            ) => if id != SUBSCRIBE_ID {
                ConnectionAction::Proceed
            } else {
                match result {
                    Ok(_) => ConnectionAction::Proceed,
                    Err(error) => ConnectionAction::Fail(error),
                }
            },
            _ => ConnectionAction::Proceed,
        }
    }
}

/// The phase that follows and what to do, when `event` happens in the phase
/// `state`.
pub fn connection_step(state: ConnectionState, event: ConnectionEvent) -> (next: (
    ConnectionState,
    ConnectionAction,
))
    ensures
        next.0 == state.after(event),
        next.1 == state.action(event),
{
    match state {
        ConnectionState::Closed => {
            return (ConnectionState::Closed, ConnectionAction::Proceed);
        },
        _ => {},
    }
    match event {
        ConnectionEvent::TransportFailed(text) => (
            ConnectionState::Closed,
            ConnectionAction::Fail(DeribitError::ConnectionError(text)),
        ),
        ConnectionEvent::ChannelClosed => (
            ConnectionState::Closed,
            ConnectionAction::Fail(DeribitError::ChannelClosed),
        ),
        ConnectionEvent::TimedOut => match state.wait_secs() {
            Some(_) => (ConnectionState::Closed, ConnectionAction::Fail(DeribitError::Timeout)),
            None => (state, ConnectionAction::Proceed),
        },
        ConnectionEvent::Shutdown | ConnectionEvent::StreamEnded => match state {
            ConnectionState::Draining => (ConnectionState::Draining, ConnectionAction::Proceed),
            _ => (ConnectionState::Draining, ConnectionAction::Drain),
        },
        ConnectionEvent::Drained => match state {
            ConnectionState::Draining => (ConnectionState::Closed, ConnectionAction::Finish),
            _ => (state, ConnectionAction::Proceed),
        },
        ConnectionEvent::Connected => match state {
            ConnectionState::Connecting => (
                ConnectionState::Authenticating,
                ConnectionAction::Authenticate { id: AUTH_ID },
            ),
            _ => (state, ConnectionAction::Proceed),
        },
        ConnectionEvent::Control(message) => match (state, message) {
            (ConnectionState::Authenticating, ControlMessage::AuthResult { id, result }) => {
                if id != AUTH_ID {
                    (state, ConnectionAction::Proceed)
                } else {
                    match result {
                        Ok(_) => (
                            ConnectionState::Subscribing,
                            ConnectionAction::Subscribe { id: SUBSCRIBE_ID },
                        ),
                        Err(error) => (ConnectionState::Closed, ConnectionAction::Fail(error)),
                    }
                }
            },
            (ConnectionState::Subscribing, ControlMessage::SubscriptionResult { id, result }) => {
                if id != SUBSCRIBE_ID {
                    (state, ConnectionAction::Proceed)
                } else {
                    match result {
                        Ok(_) => (ConnectionState::Streaming, ConnectionAction::Proceed),
                        Err(error) => (ConnectionState::Closed, ConnectionAction::Fail(error)),
                    }
                }
            },
            _ => (state, ConnectionAction::Proceed),
        },
    }
}

/// What can happen to the task that owns the socket.
#[derive(Debug)]
pub enum SocketEvent {
    /// A text frame came.
    TextFrame,
    /// A frame came that is no text.
    OtherFrame,
    /// The transport reported an error; its message.
    ReadFailed(String),
    /// The stream of frames has ended.
    StreamEnded,
    /// A command waits to be sent.
    CommandReady,
    /// The command was sent.
    CommandSent,
    /// The command could not be sent; the transport's message.
    CommandFailed(String),
    /// No one is left who could give a command.
    CommandsClosed,
    /// `PING_INTERVAL_SECS` have passed since the last ping.
    PingDue,
    /// The ping was sent.
    PingSent,
    /// The ping could not be sent; the transport's message.
    PingFailed(String),
    /// `STATS_INTERVAL_SECS` have passed since the last report.
    StatsDue,
    /// `READ_TIMEOUT_SECS` have passed without a frame.
    ReadTimedOut,
    /// Shutdown was broadcast.
    Shutdown,
}

/// What the task that owns the socket does next.
#[derive(Debug)]
pub enum SocketNext {
    /// Wait for the next event.
    Continue,
    /// Hand the frame to `handle_frame` and do what it says.
    TakeFrame,
    /// Send the command.
    SendCommand,
    /// Send the ping.
    SendPing,
    /// Report the parse statistics.
    ReportStats,
    /// Return: without error, or with the error given.
    Stop(Result<(), DeribitError>),
}

/// What the task that owns the socket does on an event.
#[derive(Debug)]
pub struct SocketStep {
    /// Whether the event counts as an error in the statistics.
    pub count_error: bool,
    /// What to answer to the one who gave the command: that it was sent
    /// (`true`) or that it was not.
    pub answer: Option<bool>,
    pub then: SocketNext,
}

impl SocketEvent {
    /// What the task does on the event. A failure of the transport ends the
    /// task with the transport's message, silence for too long ends it with a
    /// timeout, and the end of the stream, of the commands or of the
    /// program ends it without error. A parse error never ends it.
    pub open spec fn step(self) -> SocketStep {
        match self {
            SocketEvent::TextFrame => SocketStep {
                count_error: false,
                answer: None,
                then: SocketNext::TakeFrame,
            },
            SocketEvent::OtherFrame => SocketStep {
                count_error: false,
                answer: None,
                then: SocketNext::Continue,
            },
            SocketEvent::ReadFailed(text) => SocketStep {
                count_error: true,
                answer: None,
                then: SocketNext::Stop(Err(DeribitError::ConnectionError(text))),
            },
            SocketEvent::StreamEnded => SocketStep {
                count_error: false,
                answer: None,
                then: SocketNext::Stop(Ok(())),
            },
            SocketEvent::CommandReady => SocketStep {
                count_error: false,
                answer: None,
                then: SocketNext::SendCommand,
            },
            SocketEvent::CommandSent => SocketStep {
                count_error: false,
                answer: Some(true),
                then: SocketNext::Continue,
            },
            SocketEvent::CommandFailed(text) => SocketStep {
                count_error: false,
                answer: Some(false),
                then: SocketNext::Stop(Err(DeribitError::ConnectionError(text))),
            },
            SocketEvent::CommandsClosed => SocketStep {
                count_error: false,
                answer: None,
                then: SocketNext::Stop(Ok(())),
            },
            SocketEvent::PingDue => SocketStep {
                count_error: false,
                answer: None,
                then: SocketNext::SendPing,
            },
            SocketEvent::PingSent => SocketStep {
                count_error: false,
                answer: None,
                then: SocketNext::Continue,
            },
            SocketEvent::PingFailed(text) => SocketStep {
                count_error: false,
                answer: None,
                then: SocketNext::Stop(Err(DeribitError::ConnectionError(text))),
            },
            SocketEvent::StatsDue => SocketStep {
                count_error: false,
                answer: None,
                then: SocketNext::ReportStats,
            },
            SocketEvent::ReadTimedOut => SocketStep {
                count_error: false,
                answer: None,
                then: SocketNext::Stop(Err(DeribitError::Timeout)),
            },
            SocketEvent::Shutdown => SocketStep {
                count_error: false,
                answer: None,
                then: SocketNext::Stop(Ok(())),
            },
        }
    }
}

/// What the task that owns the socket does on `event`.
pub fn socket_step(event: SocketEvent) -> (step: SocketStep)
    ensures
        step == event.step(),
{
    match event {
        SocketEvent::TextFrame => SocketStep {
            count_error: false,
            answer: None,
            then: SocketNext::TakeFrame,
        },
        SocketEvent::OtherFrame => SocketStep {
            count_error: false,
            answer: None,
            then: SocketNext::Continue,
        },
        SocketEvent::ReadFailed(text) => SocketStep {
            count_error: true,
            answer: None,
            then: SocketNext::Stop(Err(DeribitError::ConnectionError(text))),
        },
        SocketEvent::StreamEnded | SocketEvent::CommandsClosed | SocketEvent::Shutdown => SocketStep {
            count_error: false,
            answer: None,
            then: SocketNext::Stop(Ok(())),
        },
        SocketEvent::CommandReady => SocketStep {
            count_error: false,
            answer: None,
            then: SocketNext::SendCommand,
        },
        SocketEvent::CommandSent => SocketStep {
            count_error: false,
            answer: Some(true),
            then: SocketNext::Continue,
        },
        SocketEvent::CommandFailed(text) => SocketStep {
            count_error: false,
            answer: Some(false),
            then: SocketNext::Stop(Err(DeribitError::ConnectionError(text))),
        },
        SocketEvent::PingDue => SocketStep {
            count_error: false,
            answer: None,
            then: SocketNext::SendPing,
        },
        SocketEvent::PingSent => SocketStep {
            count_error: false,
            answer: None,
            then: SocketNext::Continue,
        },
        SocketEvent::PingFailed(text) => SocketStep {
            count_error: false,
            answer: None,
            then: SocketNext::Stop(Err(DeribitError::ConnectionError(text))),
        },
        SocketEvent::StatsDue => SocketStep {
            count_error: false,
            answer: None,
            then: SocketNext::ReportStats,
        },
        SocketEvent::ReadTimedOut => SocketStep {
            count_error: false,
            answer: None,
            then: SocketNext::Stop(Err(DeribitError::Timeout)),
        },
    }
}

/// Whether the event restarts the wait for the next frame. Only a frame
/// does: `READ_TIMEOUT_SECS` are counted from the last frame that came in,
/// whatever else happened since.
pub fn restarts_read_timeout(event: &SocketEvent) -> (restarts: bool)
    ensures
        restarts == (*event is TextFrame || *event is OtherFrame),
{
    match event {
        SocketEvent::TextFrame | SocketEvent::OtherFrame => true,
        _ => false,
    }
}

/// The channels between the tasks.
#[derive(Debug, Clone, Copy, PartialEq, Eq, Structural)]
pub enum Channel {
    /// Trades, from the socket task to the writer.
    Trades,
    /// Book messages, from the socket task to the writer.
    Books,
    /// Decoded replies, from the socket task to the router.
    Parsed,
    /// Control messages, from the router to whoever waits for a reply.
    Control,
}

/// What is done with an item that a full channel did not take. The item is
/// dropped in every case: no task waits for room.
#[derive(Debug, Clone, Copy, PartialEq, Eq, Structural)]
pub struct FullChannel {
    /// Whether the drop counts as an error in the statistics.
    pub count_error: bool,
    /// Whether the drop is reported.
    pub report: bool,
}

impl Channel {
    /// What is done when the channel is full: a dropped trade or book message
    /// counts as an error, a dropped control message is reported.
    pub open spec fn when_full(self) -> FullChannel {
        match self {
            Channel::Trades => FullChannel { count_error: true, report: false },
            Channel::Books => FullChannel { count_error: true, report: false },
            Channel::Parsed => FullChannel { count_error: false, report: false },
            Channel::Control => FullChannel { count_error: false, report: true },
        }
    }
}

/// What is done with an item that the full channel `channel` did not take.
pub fn on_channel_full(channel: Channel) -> (policy: FullChannel)
    ensures
        policy == channel.when_full(),
{
    match channel {
        Channel::Trades | Channel::Books => FullChannel { count_error: true, report: false },
        Channel::Parsed => FullChannel { count_error: false, report: false },
        Channel::Control => FullChannel { count_error: false, report: true },
    }
}

/// What is done with what `handle_frame` made of a frame: whether it counts
/// as an error in the statistics. Nothing that a frame holds ends the task.
pub fn frame_counts_as_error(outcome: &FrameOutcome) -> (counts: bool)
    ensures
        counts == (outcome is Rejected),
{
    match outcome {
        FrameOutcome::Rejected(_) => true,
        _ => false,
    }
}

/// Once closed, a connection stays closed.
pub proof fn lemma_closed_stays_closed(event: ConnectionEvent)
    ensures
        ConnectionState::Closed.after(event) == ConnectionState::Closed,
{
}

} // verus!
