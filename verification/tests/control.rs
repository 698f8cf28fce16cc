use haiku_fh::deribit::auth_request;
use haiku_fh::deribit::connection_step;
use haiku_fh::deribit::frame_counts_as_error;
use haiku_fh::deribit::handle_frame;
use haiku_fh::deribit::match_auth_response;
use haiku_fh::deribit::on_channel_full;
use haiku_fh::deribit::restarts_read_timeout;
use haiku_fh::deribit::Channel;
use haiku_fh::deribit::FullChannel;
use haiku_fh::parsing::json::nested_deeper;
use haiku_fh::deribit::match_subscription_response;
use haiku_fh::deribit::ping_request;
use haiku_fh::deribit::route;
use haiku_fh::deribit::shrink_target;
use haiku_fh::deribit::socket_step;
use haiku_fh::deribit::subscribe_request;
use haiku_fh::deribit::ConnectionAction;
use haiku_fh::deribit::ConnectionEvent;
use haiku_fh::deribit::ConnectionState;
use haiku_fh::deribit::ControlMessage;
use haiku_fh::deribit::FrameOutcome;
use haiku_fh::deribit::Routed;
use haiku_fh::deribit::SocketEvent;
use haiku_fh::deribit::SocketNext;
use haiku_fh::deribit_helper::AuthResult;
use haiku_fh::deribit_helper::DeribitError;
use haiku_fh::deribit_helper::SubscriptionResult;
use haiku_fh::parsing::exchange_message_type::DeribitMessage;
use haiku_fh::parsing::exchange_message_type::MessageType;
use haiku_fh::parsing::instrument_index::InstrumentIndex;
use haiku_fh::parsing::json::JsonValue;
use haiku_fh::parsing::json::MAX_DEPTH;
use haiku_fh::parsing::parsing_fast::StreamingParser;
use haiku_fh::parsing::parsing_trade::direction_of;
use haiku_fh::parsing::Field;
use haiku_fh::parsing::FormatIssue;
use haiku_fh::parsing::MessageParser;
use haiku_fh::parsing::ParseError;
use haiku_fh::parsing::Real;

fn decode(text: &str) -> Result<DeribitMessage, ParseError> {
    let mut bytes = text.as_bytes().to_vec();
    MessageParser::parse_bytes(&mut bytes)
}

fn json(text: &str) -> JsonValue {
    let mut bytes = text.as_bytes().to_vec();
    JsonValue::from_bytes(&mut bytes).unwrap()
}

fn kind_of(text: &str) -> MessageType {
    MessageParser::detect_message_type_fast(&json(text)).unwrap()
}

fn text(s: &str) -> JsonValue {
    JsonValue::Text(s.to_string())
}

fn object(members: Vec<(&str, JsonValue)>) -> JsonValue {
    JsonValue::Object(members.into_iter().map(|(name, value)| (name.to_string(), value)).collect())
}

#[test]
fn an_authentication_reply_is_read() {
    let text = r#"{"jsonrpc":"2.0","id":1,"result":{"access_token":"SECRET-REDACTED","expires_in":900,"token_type":"bearer","scope":"session:name"}}"#;
    assert_eq!(kind_of(text), MessageType::Auth);
    match decode(text).unwrap() {
        DeribitMessage::Auth(auth) => {
            assert_eq!(auth.jsonrpc, "2.0");
            assert_eq!(auth.id, 1);
            assert_eq!(auth.result.access_token, "SECRET-REDACTED");
            assert_eq!(auth.result.expires_in, 900);
            assert_eq!(auth.result.token_type, "bearer");
            assert_eq!(auth.result.scope, "session:name");
        }
        other => panic!("not an authentication reply: {:?}", other),
    }
}

#[test]
fn an_authentication_reply_names_its_first_missing_field() {
    let cases = [
        (r#"{"id":1,"result":{"access_token":"t","expires_in":900,"token_type":"b","scope":"s"}}"#, Field::Jsonrpc),
        (r#"{"jsonrpc":"2.0","result":{"access_token":"t","expires_in":900,"token_type":"b","scope":"s"}}"#, Field::Id),
        (r#"{"jsonrpc":"2.0","id":"1","result":{"access_token":"t","expires_in":900,"token_type":"b","scope":"s"}}"#, Field::Id),
        (r#"{"jsonrpc":"2.0","id":1,"result":{"access_token":7,"expires_in":900,"token_type":"b","scope":"s"}}"#, Field::AccessToken),
        (r#"{"jsonrpc":"2.0","id":1,"result":{"access_token":"t","expires_in":-1,"token_type":"b","scope":"s"}}"#, Field::ExpiresIn),
        (r#"{"jsonrpc":"2.0","id":1,"result":{"access_token":"t","expires_in":900,"scope":"s"}}"#, Field::TokenType),
        (r#"{"jsonrpc":"2.0","id":1,"result":{"access_token":"t","expires_in":900,"token_type":"b"}}"#, Field::Scope),
    ];
    for (text, field) in cases {
        assert_eq!(decode(text).unwrap_err(), ParseError::MissingField(field));
    }
    assert_eq!(
        MessageParser::parse_auth_owned(&json(r#"{"jsonrpc":"2.0","id":1}"#)).unwrap_err(),
        ParseError::MissingField(Field::Result)
    );
    let by_hand = object(vec![
        ("jsonrpc", text("2.0")),
        ("id", JsonValue::Unsigned(4)),
        (
            "result",
            object(vec![
                ("scope", text("s")),
                ("token_type", text("b")),
                ("expires_in", JsonValue::Unsigned(9)),
                ("access_token", text("t")),
            ]),
        ),
    ]);
    assert_eq!(MessageParser::detect_message_type_fast(&by_hand).unwrap(), MessageType::Auth);
    match MessageParser::parse_owned(&by_hand).unwrap() {
        DeribitMessage::Auth(auth) => {
            assert_eq!((auth.jsonrpc.as_str(), auth.id), ("2.0", 4));
            assert_eq!(auth.result.access_token, "t");
            assert_eq!(auth.result.expires_in, 9);
            assert_eq!(auth.result.token_type, "b");
            assert_eq!(auth.result.scope, "s");
        }
        other => panic!("not an authentication reply: {:?}", other),
    }
    let signed_id = object(vec![("jsonrpc", text("2.0")), ("id", JsonValue::Signed(-4))]);
    assert_eq!(
        MessageParser::parse_auth_owned(&signed_id).unwrap_err(),
        ParseError::MissingField(Field::Id)
    );
}

#[test]
fn a_subscription_reply_is_read() {
    let text = r#"{"jsonrpc":"2.0","id":2,"result":["trades.ETH-PERPETUAL.raw","book.ETH-PERPETUAL.raw"],"usIn":1,"usOut":2,"usDiff":1,"testnet":false}"#;
    assert_eq!(kind_of(text), MessageType::Subscription);
    match decode(text).unwrap() {
        DeribitMessage::Subscription(sub) => {
            assert_eq!(sub.jsonrpc, "2.0");
            assert_eq!(sub.id, 2);
            assert_eq!(sub.result, vec!["trades.ETH-PERPETUAL.raw", "book.ETH-PERPETUAL.raw"]);
        }
        other => panic!("not a subscription reply: {:?}", other),
    }
    match decode(r#"{"jsonrpc":"2.0","id":2,"result":[]}"#).unwrap() {
        DeribitMessage::Subscription(sub) => assert!(sub.result.is_empty()),
        other => panic!("not a subscription reply: {:?}", other),
    }
    assert_eq!(
        decode(r#"{"jsonrpc":"2.0","id":2,"result":["a",3,"b"]}"#).unwrap_err(),
        ParseError::InvalidFormat(FormatIssue::ChannelNotString)
    );
    assert_eq!(
        decode(r#"{"id":2,"result":["a"]}"#).unwrap_err(),
        ParseError::MissingField(Field::Jsonrpc)
    );
    assert_eq!(
        MessageParser::parse_subscription_owned(&json(r#"{"jsonrpc":"2.0","id":2,"result":{"a":1}}"#))
            .unwrap_err(),
        ParseError::InvalidFormat(FormatIssue::ResultNotArray)
    );
    assert_eq!(
        MessageParser::parse_subscription_owned(&json(r#"{"jsonrpc":"2.0","result":[1]}"#)).unwrap_err(),
        ParseError::MissingField(Field::Id)
    );
    assert_eq!(
        MessageParser::parse_subscription_owned(&json(r#"{"jsonrpc":"2.0","id":2}"#)).unwrap_err(),
        ParseError::MissingField(Field::Result)
    );
    assert_eq!(
        MessageParser::parse_subscription_owned(&json(r#"{"jsonrpc":"2.0","id":2,"result":["a",[],7]}"#))
            .unwrap_err(),
        ParseError::InvalidFormat(FormatIssue::ChannelNotString)
    );
}

#[test]
fn a_pong_is_read() {
    let text = r#"{"jsonrpc":"2.0","result":"pong","usIn":1753469821143000,"usOut":1753469821143100,"usDiff":100,"testnet":false}"#;
    assert_eq!(kind_of(text), MessageType::Pong);
    match decode(text).unwrap() {
        DeribitMessage::Pong(pong) => {
            assert_eq!(pong.us_in, 1753469821143000);
            assert_eq!(pong.us_out, 1753469821143100);
            assert_eq!(pong.us_diff, 100);
        }
        other => panic!("not a pong: {:?}", other),
    }
    assert_eq!(decode(r#"{"result":"pong"}"#).unwrap_err(), ParseError::MissingField(Field::UsIn));
    assert_eq!(
        decode(r#"{"result":"pong","usIn":1,"usDiff":3}"#).unwrap_err(),
        ParseError::MissingField(Field::UsOut)
    );
    assert_eq!(
        MessageParser::parse_ping_pong(&json(r#"{"usIn":1,"usOut":2,"usDiff":-3}"#)).unwrap_err(),
        ParseError::MissingField(Field::UsDiff)
    );
    assert!(matches!(
        MessageParser::parse_ping_pong(&json(r#"{"usDiff":3,"usOut":2,"usIn":1}"#)).unwrap(),
        DeribitMessage::Pong(p) if (p.us_in, p.us_out, p.us_diff) == (1, 2, 3)
    ));
    assert_eq!(kind_of(r#"{"result":"ping"}"#), MessageType::Unknown);
    assert_eq!(kind_of(r#"{"result":7}"#), MessageType::Unknown);
}

#[test]
fn frames_of_no_known_kind_are_no_error() {
    for text in [
        r#"{}"#,
        r#"[1,2]"#,
        r#"{"jsonrpc":"2.0","id":3,"error":{"code":13009,"message":"unauthorized"}}"#,
        r#"{"method":"heartbeat","result":["x"]}"#,
        r#"{"method":"subscription","params":{"channel":"ticker.ETH-PERPETUAL.raw"}}"#,
        r#"{"method":"subscription","params":{"channel":"book.ETH-PERPETUAL.raw","data":{"type":"other"}}}"#,
        r#"{"method":"subscription","params":{"channel":"book.ETH-PERPETUAL.raw","data":{}}}"#,
        r#"{"method":"subscription","params":{"data":{"type":"change"}}}"#,
        r#"{"method":"subscription"}"#,
    ] {
        assert_eq!(kind_of(text), MessageType::Unknown);
        assert!(matches!(decode(text).unwrap(), DeribitMessage::Unknown));
    }
}

#[test]
fn text_that_is_no_json_is_a_json_error() {
    for text in ["", "{", r#"{"result":}"#, "pong", r#"{"a":1,}"#] {
        assert!(matches!(decode(text).unwrap_err(), ParseError::JsonError(message) if !message.is_empty()));
    }
}

#[test]
fn kinds_by_what_a_frame_holds() {
    let kind = |value: JsonValue| MessageParser::detect_message_type_fast(&value).unwrap();
    assert_eq!(kind(JsonValue::Null), MessageType::Unknown);
    assert_eq!(kind(object(vec![])), MessageType::Unknown);
    assert_eq!(kind(object(vec![("result", JsonValue::Null)])), MessageType::Unknown);
    assert_eq!(kind(object(vec![("result", text("pong"))])), MessageType::Pong);
    assert_eq!(kind(object(vec![("result", text("pongs"))])), MessageType::Unknown);
    assert_eq!(kind(object(vec![("result", JsonValue::List(vec![]))])), MessageType::Subscription);
    assert_eq!(
        kind(object(vec![("result", object(vec![("access_token", JsonValue::Null)]))])),
        MessageType::Auth
    );
    assert_eq!(kind(object(vec![("result", object(vec![("token", text("t"))]))])), MessageType::Unknown);
    assert_eq!(
        kind(object(vec![("method", text("heartbeat")), ("result", text("pong"))])),
        MessageType::Unknown
    );
    assert_eq!(
        kind(object(vec![("method", JsonValue::Unsigned(1)), ("result", text("pong"))])),
        MessageType::Pong
    );
    let on = |channel: JsonValue, data: JsonValue| {
        kind(object(vec![
            ("method", text("subscription")),
            ("result", JsonValue::List(vec![])),
            ("params", object(vec![("channel", channel), ("data", data)])),
        ]))
    };
    let typed = |name: &str| object(vec![("type", text(name))]);
    assert_eq!(on(text("trades.ETH-PERPETUAL.raw"), JsonValue::Null), MessageType::TradeUpdate);
    assert_eq!(on(text("trades."), typed("snapshot")), MessageType::TradeUpdate);
    assert_eq!(on(text("trades"), JsonValue::Null), MessageType::Unknown);
    assert_eq!(on(text("book.ETH-PERPETUAL.raw"), typed("snapshot")), MessageType::OrderbookSnapshot);
    assert_eq!(on(text("book.ETH-PERPETUAL.raw"), typed("change")), MessageType::OrderbookUpdate);
    assert_eq!(on(text("book.ETH-PERPETUAL.raw"), typed("changes")), MessageType::Unknown);
    assert_eq!(on(text("book.ETH-PERPETUAL.raw"), object(vec![])), MessageType::Unknown);
    assert_eq!(on(text("book.ETH-PERPETUAL.raw"), text("change")), MessageType::Unknown);
    assert_eq!(on(text("xbook."), typed("change")), MessageType::Unknown);
    assert_eq!(on(JsonValue::Unsigned(7), typed("change")), MessageType::Unknown);
    assert_eq!(kind(object(vec![("method", text("subscription"))])), MessageType::Unknown);
}

#[test]
fn documents_become_values() {
    let value = json(r#"{"a":null,"b":true,"c":7,"d":-7,"e":1.5,"f":"x","g":[1,[2]],"h":{"i":false},"c2":18446744073709551615}"#);
    assert!(matches!(value.get("a"), Some(JsonValue::Null)));
    assert!(matches!(value.get("b"), Some(JsonValue::Bool(true))));
    assert!(matches!(value.get("c"), Some(JsonValue::Unsigned(7))));
    assert!(matches!(value.get("c2"), Some(JsonValue::Unsigned(u64::MAX))));
    assert!(matches!(value.get("d"), Some(JsonValue::Signed(-7))));
    assert!(matches!(value.get("e"), Some(JsonValue::Real(r)) if f64::from_bits(r.bits) == 1.5));
    assert!(matches!(value.get("f"), Some(JsonValue::Text(s)) if s == "x"));
    assert!(value.get("z").is_none());
    assert!(value.get("").is_none());
    assert_eq!(value.get("c").unwrap().as_u64(), Some(7));
    assert_eq!(value.get("c").unwrap().as_usize(), Some(7));
    assert_eq!(value.get("d").unwrap().as_u64(), None);
    assert_eq!(value.get("d").unwrap().as_usize(), None);
    assert_eq!(value.get("e").unwrap().as_u64(), None);
    assert_eq!(value.get("e").unwrap().as_real(), Some(Real { bits: 1.5f64.to_bits() }));
    assert_eq!(value.get("c").unwrap().as_real(), None);
    assert_eq!(value.get("f").unwrap().as_string().map(String::as_str), Some("x"));
    assert!(value.get("c").unwrap().as_string().is_none());
    assert!(value.get("f").unwrap().get("x").is_none());
    let list = value.get("g").unwrap().as_list().unwrap();
    assert_eq!(list.len(), 2);
    assert_eq!(list[0].as_u64(), Some(1));
    assert_eq!(list[1].as_list().unwrap()[0].as_u64(), Some(2));
    assert!(value.get("h").unwrap().as_list().is_none());
    assert!(matches!(value.get("h").unwrap().get("i"), Some(JsonValue::Bool(false))));
    let twice = object(vec![("k", JsonValue::Unsigned(1)), ("k", JsonValue::Unsigned(2))]);
    assert_eq!(twice.get("k").unwrap().as_u64(), Some(1));

    let whole = json(r#"[[[7]]]"#);
    assert_eq!(whole.as_list().unwrap()[0].as_list().unwrap()[0].as_list().unwrap()[0].as_u64(), Some(7));
    assert_eq!(MAX_DEPTH, 16);
    assert_eq!(MessageParser::get_string(&value, Field::Scope).unwrap_err(), ParseError::MissingField(Field::Scope));
    let named = object(vec![("scope", text("s")), ("id", JsonValue::Unsigned(3)), ("price", JsonValue::Real(Real { bits: 9 }))]);
    assert_eq!(MessageParser::get_string(&named, Field::Scope).unwrap(), "s");
    assert_eq!(MessageParser::get_u64(&named, Field::Id).unwrap(), 3);
    assert_eq!(MessageParser::get_usize(&named, Field::Id).unwrap(), 3);
    assert_eq!(MessageParser::get_real(&named, Field::Price).unwrap(), Real { bits: 9 });
    assert_eq!(MessageParser::get_u64(&named, Field::Scope).unwrap_err(), ParseError::MissingField(Field::Scope));
    assert_eq!(MessageParser::get_real(&named, Field::Id).unwrap_err(), ParseError::MissingField(Field::Id));
    assert_eq!(MessageParser::get_usize(&named, Field::Price).unwrap_err(), ParseError::MissingField(Field::Price));
}

#[test]
fn market_frames_off_the_hot_path_are_read_by_the_general_decoder() {
    let trade = r#"{"method":"subscription","params":{"channel":"trades.ETH-PERPETUAL.raw","data":[{"timestamp":5,"price":3653.4,"amount":139.5,"direction":"buy","instrument_name":"ETH-PERPETUAL","trade_id":"ETH-1"},{"timestamp":6,"price":1.5e4,"amount":0.5,"direction":"sell","instrument_name":"ETH-PERPETUAL","trade_id":"ETH-2"}]}}"#;
    assert_eq!(kind_of(trade), MessageType::TradeUpdate);
    match decode(trade).unwrap() {
        DeribitMessage::TradeUpdate(update) => {
            assert_eq!(update.data.len(), 2);
            assert_eq!(update.data[0].timestamp, 5);
            assert_eq!(f64::from_bits(update.data[0].price.bits), 3653.4);
            assert_eq!(f64::from_bits(update.data[0].amount.bits), 139.5);
            assert_eq!(update.data[0].direction, 1);
            assert_eq!(update.data[1].direction, -1);
            assert_eq!(f64::from_bits(update.data[1].price.bits), 15000.0);
            assert_eq!(update.data[1].instrument_name, "ETH-PERPETUAL");
            assert_eq!(update.data[1].trade_id, "ETH-2");
        }
        other => panic!("not a trade message: {:?}", other),
    }
    assert_eq!(
        decode(r#"{"method":"subscription","params":{"channel":"trades.x","data":[{"timestamp":5,"price":3653,"amount":1.5}]}}"#)
            .unwrap_err(),
        ParseError::MissingField(Field::Price)
    );
    assert_eq!(
        decode(r#"{"method":"subscription","params":{"channel":"trades.x","data":{}}}"#).unwrap_err(),
        ParseError::InvalidFormat(FormatIssue::DataNotArray)
    );
    assert_eq!(
        decode(r#"{"method":"subscription","params":{"channel":"trades.x"}}"#).unwrap_err(),
        ParseError::MissingField(Field::Data)
    );
    let change = r#"{"method":"subscription","params":{"channel":"book.ETH-PERPETUAL.raw","data":{"timestamp":7,"type":"change","change_id":9,"instrument_name":"ETH-PERPETUAL","bids":[["change",3825.7,132934.5]],"asks":[],"prev_change_id":8}}}"#;
    match decode(change).unwrap() {
        DeribitMessage::OrderbookUpdate(update) => {
            assert_eq!(update.params.timestamp, 7);
            assert_eq!(update.params.msg_type, "change");
            assert_eq!(update.params.change_id, 9);
            assert_eq!(update.params.prev_change_id, Some(8));
            assert_eq!(update.params.bids.len(), 1);
            assert_eq!(update.params.bids[0].0, "change");
            assert_eq!(f64::from_bits(update.params.bids[0].1.bits), 3825.7);
            assert_eq!(f64::from_bits(update.params.bids[0].2.bits), 132934.5);
            assert!(update.params.asks.is_empty());
        }
        other => panic!("not a change: {:?}", other),
    }
    let snapshot = r#"{"method":"subscription","params":{"channel":"book.ETH-PERPETUAL.raw","data":{"timestamp":7,"type":"snapshot","change_id":9,"instrument_name":"ETH-PERPETUAL","bids":[],"asks":[["new",1.5,2.5],["new",3.5,4.5]]}}}"#;
    match decode(snapshot).unwrap() {
        DeribitMessage::OrderbookSnapshot(snapshot) => {
            assert_eq!(snapshot.params.change_id, 9);
            assert_eq!(snapshot.params.instrument_name, "ETH-PERPETUAL");
            assert_eq!(snapshot.params.asks.len(), 2);
            assert_eq!(f64::from_bits(snapshot.params.asks[1].2.bits), 4.5);
        }
        other => panic!("not a snapshot: {:?}", other),
    }
    let bad = [
        (r#"[["new",1.5]]"#, FormatIssue::LevelWrongSize),
        (r#"[[1,1.5,2.5]]"#, FormatIssue::ActionNotString),
        (r#"[["new","x",2.5]]"#, FormatIssue::PriceNotNumber),
        (r#"[["new",1.5,"x"]]"#, FormatIssue::SizeNotNumber),
        (r#"["new"]"#, FormatIssue::LevelNotArray),
        (r#"{}"#, FormatIssue::LevelsNotArray),
    ];
    for (asks, issue) in bad {
        let text = snapshot.replace(r#"[["new",1.5,2.5],["new",3.5,4.5]]"#, asks);
        assert_eq!(decode(&text).unwrap_err(), ParseError::InvalidFormat(issue));
    }
    let level = JsonValue::List(vec![text("new"), JsonValue::Real(Real { bits: 1 }), JsonValue::Unsigned(2)]);
    assert_eq!(
        MessageParser::parse_orderbook_level_owned(&level).unwrap_err(),
        ParseError::InvalidFormat(FormatIssue::SizeNotNumber)
    );
    let level =
        JsonValue::List(vec![text("new"), JsonValue::Real(Real { bits: 1 }), JsonValue::Real(Real { bits: 2 })]);
    assert_eq!(
        MessageParser::parse_orderbook_level_owned(&level).unwrap(),
        ("new".to_string(), Real { bits: 1 }, Real { bits: 2 })
    );
    let no_channel = r#"{"method":"subscription","params":{"data":{"timestamp":7,"type":"snapshot","change_id":9,"instrument_name":"E","bids":[],"asks":[]}}}"#;
    assert_eq!(
        MessageParser::parse_orderbook_snapshot_owned(&json(no_channel)).unwrap_err(),
        ParseError::MissingField(Field::Channel)
    );
    assert!(matches!(
        MessageParser::parse_orderbook_update_owned(&json(no_channel)).unwrap(),
        DeribitMessage::OrderbookUpdate(update) if update.params.prev_change_id.is_none()
    ));
    let trade = MessageParser::parse_trade_data_owned(&json(
        r#"{"timestamp":5,"price":1.5,"amount":2.5,"direction":"sell","instrument_name":"E","trade_id":"7"}"#,
    ))
    .unwrap();
    assert_eq!((trade.timestamp, trade.direction), (5, -1));
    assert_eq!(direction_of("buy"), 1);
    assert_eq!(direction_of("sell"), -1);
    assert_eq!(direction_of(""), -1);
}

#[test]
fn field_names() {
    assert_eq!(Field::Jsonrpc.name(), "jsonrpc");
    assert_eq!(Field::UsDiff.name(), "usDiff");
    assert_eq!(Field::PrevChangeId.name(), "prev_change_id");
    assert_eq!(Field::AccessToken.name(), "access_token");
}

#[test]
fn requests_are_written_from_their_templates() {
    assert_eq!(
        auth_request(1, "my-key", "my-secret"),
        r#"{"jsonrpc":"2.0","id":1,"method":"public/auth","params":{"grant_type":"client_credentials","client_id":"my-key","client_secret":"my-secret"}}"#
    );
    assert_eq!(
        auth_request(18446744073709551615, "a\"b", "c\\d\n"),
        r#"{"jsonrpc":"2.0","id":18446744073709551615,"method":"public/auth","params":{"grant_type":"client_credentials","client_id":"a\"b","client_secret":"c\\d\n"}}"#
    );
    assert_eq!(
        auth_request(0, "", ""),
        r#"{"jsonrpc":"2.0","id":0,"method":"public/auth","params":{"grant_type":"client_credentials","client_id":"","client_secret":""}}"#
    );
    let channels = vec!["trades.ETH-PERPETUAL.raw".to_string(), "book.ETH-PERPETUAL.raw".to_string()];
    assert_eq!(
        subscribe_request(2, &channels),
        r#"{"jsonrpc":"2.0","id":2,"method":"public/subscribe","params":{"channels":["trades.ETH-PERPETUAL.raw","book.ETH-PERPETUAL.raw"]}}"#
    );
    assert_eq!(
        subscribe_request(1090, &channels[..1]),
        r#"{"jsonrpc":"2.0","id":1090,"method":"public/subscribe","params":{"channels":["trades.ETH-PERPETUAL.raw"]}}"#
    );
    assert_eq!(
        subscribe_request(10, &[]),
        r#"{"jsonrpc":"2.0","id":10,"method":"public/subscribe","params":{"channels":[]}}"#
    );
    assert_eq!(ping_request(), r#"{"jsonrpc":"2.0","method":"public/ping"}"#);
    let written = json(&auth_request(1, "k\"", "s"));
    assert_eq!(written.get("params").unwrap().get("client_id").unwrap().as_string().unwrap(), "k\"");
    assert_eq!(written.get("method").unwrap().as_string().unwrap(), "public/auth");
}

#[test]
fn the_parse_buffer_is_shrunk_past_eight_kib() {
    assert_eq!(shrink_target(0), None);
    assert_eq!(shrink_target(4096), None);
    assert_eq!(shrink_target(8192), None);
    assert_eq!(shrink_target(8193), Some(4096));
    assert_eq!(shrink_target(usize::MAX), Some(4096));
}

#[test]
fn frames_are_taken_by_the_hot_path_or_the_general_decoder() {
    let mut index = InstrumentIndex::new();
    index.insert("ETH-PERPETUAL".to_string(), 1usize);
    let parser = StreamingParser::new(index);
    let trade = r#"{"jsonrpc":"2.0","method":"subscription","params":{"channel":"trades.ETH-PERPETUAL.raw","data":[{"timestamp":1753469821143,"price":3653.4,"amount":139.0,"direction":"buy","index_price":3654.33,"instrument_name":"ETH-PERPETUAL","trade_seq":187471866,"mark_price":3653.79,"tick_direction":0,"trade_id":"ETH-259727165","contracts":139.0}]}}"#;
    let mut buffer = trade.as_bytes().to_vec();
    match handle_frame(&parser, &mut buffer) {
        FrameOutcome::Trades(trades) => {
            assert_eq!(trades.len(), 1);
            assert_eq!(trades.get(0).unwrap().trade_id, 259727165);
        }
        other => panic!("not trades: {:?}", other),
    }
    assert_eq!(buffer, trade.as_bytes());
    let book = r#"{"jsonrpc":"2.0","method":"subscription","params":{"channel":"book.ETH-PERPETUAL.raw","data":{"timestamp":1753616120667,"type":"change","change_id":78324750698,"instrument_name":"ETH-PERPETUAL","bids":[["change",3825.7,132934.0]],"asks":[],"prev_change_id":78324750697}}}"#;
    let mut buffer = book.as_bytes().to_vec();
    match handle_frame(&parser, &mut buffer) {
        FrameOutcome::Book(update) => assert_eq!(update.change_id, 78324750698),
        other => panic!("not a book message: {:?}", other),
    }
    let mut buffer = trade.replace("\"buy\"", "\"bid\"").into_bytes();
    assert!(matches!(handle_frame(&parser, &mut buffer), FrameOutcome::Rejected(ParseError::BadDirection)));
    let mut buffer = br#"{"jsonrpc":"2.0","id":2,"result":["trades.ETH-PERPETUAL.raw"]}"#.to_vec();
    assert!(matches!(
        handle_frame(&parser, &mut buffer),
        FrameOutcome::Control(DeribitMessage::Subscription(sub)) if sub.id == 2
    ));
    let mut buffer = b"not json".to_vec();
    assert!(matches!(handle_frame(&parser, &mut buffer), FrameOutcome::Rejected(ParseError::JsonError(_))));
    let mut buffer = br#"{"jsonrpc":"2.0","id":1,"result":{"access_token":"t"}}"#.to_vec();
    assert!(matches!(
        handle_frame(&parser, &mut buffer),
        FrameOutcome::Rejected(ParseError::MissingField(Field::ExpiresIn))
    ));
}

#[test]
fn replies_are_routed_to_their_requester() {
    let auth = decode(r#"{"jsonrpc":"2.0","id":1,"result":{"access_token":"tok","expires_in":900,"token_type":"bearer","scope":"s"}}"#).unwrap();
    match route(auth) {
        Routed::Forward(ControlMessage::AuthResult { id, result }) => {
            assert_eq!(id, 1);
            assert_eq!(result, Ok(AuthResult { access_token: "tok".to_string(), expires_in: 900 }));
        }
        other => panic!("not forwarded: {:?}", other),
    }
    let sub = decode(r#"{"jsonrpc":"2.0","id":2,"result":["a","b"]}"#).unwrap();
    match route(sub) {
        Routed::Forward(ControlMessage::SubscriptionResult { id, result }) => {
            assert_eq!(id, 2);
            assert_eq!(
                result,
                Ok(SubscriptionResult { channels: vec!["a".to_string(), "b".to_string()], success: true })
            );
        }
        other => panic!("not forwarded: {:?}", other),
    }
    let pong = decode(r#"{"result":"pong","usIn":1,"usOut":2,"usDiff":3}"#).unwrap();
    assert!(matches!(route(pong), Routed::Pong(p) if p.us_diff == 3));
    assert!(matches!(route(DeribitMessage::Unknown), Routed::Discard));
    let trade = decode(r#"{"method":"subscription","params":{"channel":"trades.x","data":[]}}"#).unwrap();
    assert!(matches!(route(trade), Routed::Discard));
}

#[test]
fn waiters_take_only_the_reply_to_their_request() {
    let token = || AuthResult { access_token: "t".to_string(), expires_in: 1 };
    let channels = || SubscriptionResult { channels: vec![], success: true };
    assert_eq!(
        match_auth_response(1, ControlMessage::AuthResult { id: 1, result: Ok(token()) }),
        Some(Ok(token()))
    );
    assert_eq!(
        match_auth_response(1, ControlMessage::AuthResult { id: 1, result: Err(DeribitError::Timeout) }),
        Some(Err(DeribitError::Timeout))
    );
    assert_eq!(match_auth_response(1, ControlMessage::AuthResult { id: 2, result: Ok(token()) }), None);
    assert_eq!(
        match_auth_response(1, ControlMessage::SubscriptionResult { id: 1, result: Ok(channels()) }),
        None
    );
    assert_eq!(match_auth_response(1, ControlMessage::Error(DeribitError::ChannelClosed)), None);
    assert_eq!(
        match_subscription_response(2, ControlMessage::SubscriptionResult { id: 2, result: Ok(channels()) }),
        Some(Ok(channels()))
    );
    assert_eq!(
        match_subscription_response(2, ControlMessage::SubscriptionResult { id: 3, result: Ok(channels()) }),
        None
    );
    assert_eq!(
        match_subscription_response(2, ControlMessage::AuthResult { id: 2, result: Ok(token()) }),
        None
    );
}

#[test]
fn a_connection_goes_from_connecting_to_streaming_to_closed() {
    let token = AuthResult { access_token: "t".to_string(), expires_in: 1 };
    let channels = SubscriptionResult { channels: vec![], success: true };
    let (state, action) = connection_step(ConnectionState::Connecting, ConnectionEvent::Connected);
    assert_eq!(state, ConnectionState::Authenticating);
    assert!(matches!(action, ConnectionAction::Authenticate { id: 1 }));
    assert_eq!(state.wait_secs(), Some(30));
    let unrelated = ConnectionEvent::Control(ControlMessage::AuthResult { id: 9, result: Ok(token.clone()) });
    let (state, action) = connection_step(state, unrelated);
    assert_eq!(state, ConnectionState::Authenticating);
    assert!(matches!(action, ConnectionAction::Proceed));
    let reply = ConnectionEvent::Control(ControlMessage::AuthResult { id: 1, result: Ok(token.clone()) });
    let (state, action) = connection_step(state, reply);
    assert_eq!(state, ConnectionState::Subscribing);
    assert!(matches!(action, ConnectionAction::Subscribe { id: 2 }));
    assert_eq!(state.wait_secs(), Some(10));
    let early = ConnectionEvent::Control(ControlMessage::AuthResult { id: 1, result: Ok(token.clone()) });
    let (state, _) = connection_step(state, early);
    assert_eq!(state, ConnectionState::Subscribing);
    let reply =
        ConnectionEvent::Control(ControlMessage::SubscriptionResult { id: 2, result: Ok(channels.clone()) });
    let (state, action) = connection_step(state, reply);
    assert_eq!(state, ConnectionState::Streaming);
    assert!(matches!(action, ConnectionAction::Proceed));
    assert_eq!(state.wait_secs(), Some(30));
    let (state, action) = connection_step(state, ConnectionEvent::Shutdown);
    assert_eq!(state, ConnectionState::Draining);
    assert!(matches!(action, ConnectionAction::Drain));
    assert_eq!(state.wait_secs(), None);
    let (state, action) = connection_step(state, ConnectionEvent::Shutdown);
    assert_eq!(state, ConnectionState::Draining);
    assert!(matches!(action, ConnectionAction::Proceed));
    let (state, action) = connection_step(state, ConnectionEvent::TimedOut);
    assert_eq!(state, ConnectionState::Draining);
    assert!(matches!(action, ConnectionAction::Proceed));
    let (state, action) = connection_step(state, ConnectionEvent::Drained);
    assert_eq!(state, ConnectionState::Closed);
    assert!(matches!(action, ConnectionAction::Finish));
    let (state, action) = connection_step(state, ConnectionEvent::Connected);
    assert_eq!(state, ConnectionState::Closed);
    assert!(matches!(action, ConnectionAction::Proceed));
    let (state, action) = connection_step(state, ConnectionEvent::TransportFailed("late".to_string()));
    assert_eq!(state, ConnectionState::Closed);
    assert!(matches!(action, ConnectionAction::Proceed));
}

#[test]
fn a_connection_fails_on_errors_and_timeouts() {
    let (state, action) =
        connection_step(ConnectionState::Connecting, ConnectionEvent::TransportFailed("refused".to_string()));
    assert_eq!(state, ConnectionState::Closed);
    assert!(matches!(action, ConnectionAction::Fail(DeribitError::ConnectionError(text)) if text == "refused"));
    for waiting in [ConnectionState::Authenticating, ConnectionState::Subscribing, ConnectionState::Streaming] {
        let (state, action) = connection_step(waiting, ConnectionEvent::TimedOut);
        assert_eq!(state, ConnectionState::Closed);
        assert!(matches!(action, ConnectionAction::Fail(DeribitError::Timeout)));
        let (state, action) = connection_step(waiting, ConnectionEvent::ChannelClosed);
        assert_eq!(state, ConnectionState::Closed);
        assert!(matches!(action, ConnectionAction::Fail(DeribitError::ChannelClosed)));
        let (state, action) = connection_step(waiting, ConnectionEvent::StreamEnded);
        assert_eq!(state, ConnectionState::Draining);
        assert!(matches!(action, ConnectionAction::Drain));
    }
    let (state, action) = connection_step(ConnectionState::Connecting, ConnectionEvent::TimedOut);
    assert_eq!(state, ConnectionState::Connecting);
    assert!(matches!(action, ConnectionAction::Proceed));
    let refused = ConnectionEvent::Control(ControlMessage::AuthResult {
        id: 1,
        result: Err(DeribitError::AuthError("denied".to_string())),
    });
    let (state, action) = connection_step(ConnectionState::Authenticating, refused);
    assert_eq!(state, ConnectionState::Closed);
    assert!(matches!(action, ConnectionAction::Fail(DeribitError::AuthError(text)) if text == "denied"));
    let refused = ConnectionEvent::Control(ControlMessage::SubscriptionResult {
        id: 2,
        result: Err(DeribitError::SubscriptionError("no".to_string())),
    });
    let (state, action) = connection_step(ConnectionState::Subscribing, refused);
    assert_eq!(state, ConnectionState::Closed);
    assert!(matches!(action, ConnectionAction::Fail(DeribitError::SubscriptionError(text)) if text == "no"));
    let (state, action) = connection_step(ConnectionState::Streaming, ConnectionEvent::Drained);
    assert_eq!(state, ConnectionState::Streaming);
    assert!(matches!(action, ConnectionAction::Proceed));
    let stray = ConnectionEvent::Control(ControlMessage::Error(DeribitError::Timeout));
    let (state, action) = connection_step(ConnectionState::Streaming, stray);
    assert_eq!(state, ConnectionState::Streaming);
    assert!(matches!(action, ConnectionAction::Proceed));
}

#[test]
fn the_socket_task_stops_on_failures_and_not_on_frames() {
    let step = socket_step(SocketEvent::TextFrame);
    assert!(!step.count_error && step.answer.is_none());
    assert!(matches!(step.then, SocketNext::TakeFrame));
    let step = socket_step(SocketEvent::OtherFrame);
    assert!(!step.count_error && step.answer.is_none());
    assert!(matches!(step.then, SocketNext::Continue));
    let step = socket_step(SocketEvent::ReadFailed("reset".to_string()));
    assert!(step.count_error && step.answer.is_none());
    assert!(matches!(step.then, SocketNext::Stop(Err(DeribitError::ConnectionError(text))) if text == "reset"));
    for quiet_end in [SocketEvent::StreamEnded, SocketEvent::CommandsClosed, SocketEvent::Shutdown] {
        let step = socket_step(quiet_end);
        assert!(!step.count_error && step.answer.is_none());
        assert!(matches!(step.then, SocketNext::Stop(Ok(()))));
    }
    let step = socket_step(SocketEvent::CommandReady);
    assert!(step.answer.is_none());
    assert!(matches!(step.then, SocketNext::SendCommand));
    let step = socket_step(SocketEvent::CommandSent);
    assert_eq!(step.answer, Some(true));
    assert!(matches!(step.then, SocketNext::Continue));
    let step = socket_step(SocketEvent::CommandFailed("closed".to_string()));
    assert_eq!(step.answer, Some(false));
    assert!(!step.count_error);
    assert!(matches!(step.then, SocketNext::Stop(Err(DeribitError::ConnectionError(text))) if text == "closed"));
    assert!(matches!(socket_step(SocketEvent::PingDue).then, SocketNext::SendPing));
    assert!(matches!(socket_step(SocketEvent::PingSent).then, SocketNext::Continue));
    let step = socket_step(SocketEvent::PingFailed("gone".to_string()));
    assert!(matches!(step.then, SocketNext::Stop(Err(DeribitError::ConnectionError(text))) if text == "gone"));
    assert!(matches!(socket_step(SocketEvent::StatsDue).then, SocketNext::ReportStats));
    let step = socket_step(SocketEvent::ReadTimedOut);
    assert!(!step.count_error && step.answer.is_none());
    assert!(matches!(step.then, SocketNext::Stop(Err(DeribitError::Timeout))));
    assert!(frame_counts_as_error(&FrameOutcome::Rejected(ParseError::BadDirection)));
    assert!(!frame_counts_as_error(&FrameOutcome::Control(DeribitMessage::Unknown)));
}

#[test]
fn what_the_decoder_says_first_decides_a_plain_value() {
    assert!(matches!(
        JsonValue::scalar(Some(true), Some(1), Some(1), Some(2), Some("x")),
        Some(JsonValue::Bool(true))
    ));
    assert!(matches!(JsonValue::scalar(None, Some(7), Some(7), None, None), Some(JsonValue::Unsigned(7))));
    assert!(matches!(JsonValue::scalar(None, None, Some(-7), Some(9), None), Some(JsonValue::Signed(-7))));
    assert!(matches!(
        JsonValue::scalar(None, None, None, Some(9), Some("x")),
        Some(JsonValue::Real(r)) if r.bits == 9
    ));
    assert!(matches!(JsonValue::scalar(None, None, None, None, Some("x")), Some(JsonValue::Text(s)) if s == "x"));
    assert!(matches!(JsonValue::scalar(None, None, None, None, Some("")), Some(JsonValue::Text(s)) if s.is_empty()));
    assert!(JsonValue::scalar(None, None, None, None, None).is_none());
}

#[test]
fn only_a_frame_restarts_the_wait_for_the_next_frame() {
    assert!(restarts_read_timeout(&SocketEvent::TextFrame));
    assert!(restarts_read_timeout(&SocketEvent::OtherFrame));
    for other in [
        SocketEvent::ReadFailed("x".to_string()),
        SocketEvent::StreamEnded,
        SocketEvent::CommandReady,
        SocketEvent::CommandSent,
        SocketEvent::CommandFailed("x".to_string()),
        SocketEvent::CommandsClosed,
        SocketEvent::PingDue,
        SocketEvent::PingSent,
        SocketEvent::PingFailed("x".to_string()),
        SocketEvent::StatsDue,
        SocketEvent::ReadTimedOut,
        SocketEvent::Shutdown,
    ] {
        assert!(!restarts_read_timeout(&other));
    }
}

#[test]
fn a_full_channel_drops_what_it_is_offered() {
    assert_eq!(on_channel_full(Channel::Trades), FullChannel { count_error: true, report: false });
    assert_eq!(on_channel_full(Channel::Books), FullChannel { count_error: true, report: false });
    assert_eq!(on_channel_full(Channel::Parsed), FullChannel { count_error: false, report: false });
    assert_eq!(on_channel_full(Channel::Control), FullChannel { count_error: false, report: true });
}

#[test]
fn frames_nested_too_deep_are_not_decoded() {
    let deep = format!("{}1{}", "[".repeat(17), "]".repeat(17));
    let fits = format!("{}1{}", "[".repeat(16), "]".repeat(16));
    assert!(nested_deeper(deep.as_bytes(), 16));
    assert!(!nested_deeper(fits.as_bytes(), 16));
    assert!(!nested_deeper(br#"{"a":"[[[[{{{{","b":"\"[[[","c":[{"d":[]}]}"#, 4));
    assert!(nested_deeper(br#"{"a":"[[[[{{{{","b":"\"[[[","c":[{"d":[]}]}"#, 3));
    assert!(!nested_deeper(b"[][][][][]{}{}{}", 1));
    assert!(nested_deeper(b"[", 0));
    assert!(!nested_deeper(b"", 0));
    assert!(!nested_deeper(b"\"[\\", 0));
    assert_eq!(decode(&deep).unwrap_err(), ParseError::InvalidFormat(FormatIssue::TooDeep));
    assert!(matches!(decode(&fits).unwrap(), DeribitMessage::Unknown));
    let mut bytes = deep.clone().into_bytes();
    assert_eq!(JsonValue::from_bytes(&mut bytes).unwrap_err(), ParseError::InvalidFormat(FormatIssue::TooDeep));
    let mut bytes = fits.clone().into_bytes();
    let value = JsonValue::from_bytes(&mut bytes).unwrap();
    let mut inner = &value;
    for _ in 0..16 {
        inner = &inner.as_list().unwrap()[0];
    }
    assert_eq!(inner.as_u64(), Some(1));
    let mut bytes = b"{\"a\":".to_vec();
    assert!(matches!(JsonValue::from_bytes(&mut bytes).unwrap_err(), ParseError::JsonError(_)));
    let mut bytes = br#"{"k":1,"k":2,"j":[true,null,-3,2.5,"s"]}"#.to_vec();
    let value = JsonValue::from_bytes(&mut bytes).unwrap();
    assert_eq!(value.get("k").unwrap().as_u64(), Some(1));
    let list = value.get("j").unwrap().as_list().unwrap();
    assert!(matches!(list[0], JsonValue::Bool(true)));
    assert!(matches!(list[1], JsonValue::Null));
    assert!(matches!(list[2], JsonValue::Signed(-3)));
    assert!(matches!(list[3], JsonValue::Real(r) if f64::from_bits(r.bits) == 2.5));
    assert!(matches!(&list[4], JsonValue::Text(s) if s == "s"));
    let mut buffer = deep.into_bytes();
    let mut index = InstrumentIndex::new();
    index.insert("ETH-PERPETUAL".to_string(), 1usize);
    assert!(matches!(
        handle_frame(&StreamingParser::new(index), &mut buffer),
        FrameOutcome::Rejected(ParseError::InvalidFormat(FormatIssue::TooDeep))
    ));
}
