use haiku_fh::decimal::Decimal;
use haiku_fh::parsing::instrument_index::InstrumentIndex;
use haiku_fh::parsing::parsing_fast::ChannelType;
use haiku_fh::parsing::parsing_fast::FastMarketData;
use haiku_fh::parsing::parsing_fast::StreamingParser;
use haiku_fh::parsing::parsing_orderbook::OrderbookAction;
use haiku_fh::parsing::Field;
use haiku_fh::parsing::FormatIssue;
use haiku_fh::parsing::ParseError;

fn to_f64(d: &Decimal) -> f64 {
    let m = d.mantissa as f64;
    let v = if d.scale >= 0 { m * 10f64.powi(d.scale) } else { m / 10f64.powi(d.scale.saturating_neg()) };
    if d.negative {
        -v
    } else {
        v
    }
}

fn eth_parser() -> StreamingParser {
    let mut instrument_map = InstrumentIndex::new();
    instrument_map.insert("BTC-PERPETUAL".to_string(), 0usize);
    instrument_map.insert("ETH-PERPETUAL".to_string(), 1usize);
    StreamingParser::new(instrument_map)
}

const TRADE_HEAD: &str = r#"{"jsonrpc":"2.0","method":"subscription","params":{"channel":"trades.ETH-PERPETUAL.raw","data":["#;

fn trade_object(timestamp: u64, price: &str, amount: &str, direction: &str, id: u64) -> String {
    format!(
        r#"{{"timestamp":{},"price":{},"amount":{},"direction":"{}","index_price":3654.33,"instrument_name":"ETH-PERPETUAL","trade_seq":187471866,"mark_price":3653.79,"tick_direction":0,"trade_id":"ETH-{}","contracts":{}}}"#,
        timestamp, price, amount, direction, id, amount
    )
}

fn trade_envelope(objects: &[String]) -> String {
    format!("{}{}]}}}}", TRADE_HEAD, objects.join(","))
}

fn single_trade_with(field: &str, replacement: &str) -> String {
    let good = trade_envelope(&[trade_object(1753469821143, "3653.4", "139.0", "buy", 259727165)]);
    assert!(good.contains(field));
    good.replacen(field, replacement, 1)
}

#[test]
fn test_streaming_trade_parser() {
    let json_data = r#"{"jsonrpc":"2.0","method":"subscription","params":{"channel":"trades.ETH-PERPETUAL.raw","data":[{"timestamp":1753469786907,"price":3652.7,"amount":13830.0,"direction":"sell","index_price":3652.65,"instrument_name":"ETH-PERPETUAL","trade_seq":187471858,"mark_price":3652.16,"tick_direction":0,"trade_id":"ETH-259727150","contracts":13830.0},{"timestamp":1753469786907,"price":3652.7,"amount":29.0,"direction":"sell","index_price":3652.65,"instrument_name":"ETH-PERPETUAL","trade_seq":187471859,"mark_price":3652.16,"tick_direction":1,"trade_id":"ETH-259727151","contracts":29.0}]}}"#;
    let parser = eth_parser();
    let trades = parser.parse_trade_fast(json_data.as_bytes()).unwrap();
    assert_eq!(trades.len(), 2);
    let trade = trades.get(0).unwrap();

    assert_eq!(trade.instrument_idx, 1);
    assert_eq!(to_f64(&trade.price) as f32, 3652.7);
    assert_eq!(to_f64(&trade.size) as f32, 13830.0);
    assert_eq!(trade.side, 0);
    assert_eq!(trade.timestamp_ns, 1753469786907);
    assert_eq!(trade.trade_id, 259727150);
}

#[test]
fn test_order_book_parser() {
    let json_data = r#"{"jsonrpc":"2.0","method":"subscription","params":{"channel":"book.ETH-PERPETUAL.raw","data":{"timestamp":1753687679384,"type":"change","change_id":78452945932,"instrument_name":"ETH-PERPETUAL","bids":[],"asks":[["delete",3.9e3,0.0]],"prev_change_id":78452945931}}}"#;
    let parser = eth_parser();
    let book = parser.parse_orderbook_fast(json_data.as_bytes()).unwrap();
    assert_eq!(book.instrument_idx, 1);
    assert_eq!(book.timestamp, 1753687679384);
    assert_eq!(book.change_id, 78452945932);
    assert_eq!(book.update_data.prev_change_id, 78452945931);
    assert_eq!(book.update_data.bid_updates.len(), 0);
    assert_eq!(book.update_data.ask_updates.len(), 1);
    assert!(!book.update_data.has_bids());
    assert!(book.update_data.has_asks());
    assert_eq!(book.update_data.flag, 0b10);
    let level = book.update_data.ask_updates.get(0).unwrap();
    assert_eq!(level.action, OrderbookAction::Delete);
    assert_eq!(to_f64(&level.price), 3900.0);
    assert_eq!(to_f64(&level.size), 0.0);
    assert!(book.update_data.ask_updates.get(1).is_none());
}

#[test]
fn single_trade_envelope_yields_one_event() {
    let json_data = r#"{"jsonrpc":"2.0","method":"subscription","params":{"channel":"trades.ETH-PERPETUAL.raw","data":[{"timestamp":1753469821143,"price":3653.4,"amount":139.0,"direction":"buy","index_price":3654.33,"instrument_name":"ETH-PERPETUAL","trade_seq":187471866,"mark_price":3653.79,"tick_direction":0,"trade_id":"ETH-259727165","contracts":139.0}]}}"#;
    let parser = eth_parser();
    let parsed = parser.parse_fast_new(json_data.as_bytes()).unwrap().unwrap();
    assert_eq!(parsed.instrument_idx(), 1);
    let trades = match parsed {
        FastMarketData::Trade(trades) => trades,
        FastMarketData::OrderbookUpdate(_) => panic!("a trade message was read as a book message"),
    };
    assert_eq!(trades.len(), 1);
    let trade = trades.get(0).unwrap();
    assert_eq!(trade.instrument_idx, 1);
    assert_eq!(to_f64(&trade.price) as f32, 3653.4f32);
    assert_eq!(to_f64(&trade.size) as f32, 139.0f32);
    assert_eq!(trade.side, 1);
    assert_eq!(trade.timestamp_ns, 1753469821143);
    assert_eq!(trade.trade_id, 259727165);
    assert_eq!(trade.price.mantissa, 36534);
    assert_eq!(trade.price.scale, -1);
    assert!(!trade.price.negative);
}

#[test]
fn two_trade_envelope_yields_two_sells() {
    let json_data = r#"{"jsonrpc":"2.0","method":"subscription","params":{"channel":"trades.ETH-PERPETUAL.raw","data":[{"timestamp":1753469786907,"price":3652.7,"amount":13830.0,"direction":"sell","index_price":3652.65,"instrument_name":"ETH-PERPETUAL","trade_seq":187471858,"mark_price":3652.16,"tick_direction":0,"trade_id":"ETH-259727150","contracts":13830.0},{"timestamp":1753469786907,"price":3652.7,"amount":29.0,"direction":"sell","index_price":3652.65,"instrument_name":"ETH-PERPETUAL","trade_seq":187471859,"mark_price":3652.16,"tick_direction":1,"trade_id":"ETH-259727151","contracts":29.0}]}}"#;
    let parser = eth_parser();
    let trades = match parser.parse_fast_new(json_data.as_bytes()).unwrap().unwrap() {
        FastMarketData::Trade(trades) => trades,
        FastMarketData::OrderbookUpdate(_) => panic!("a trade message was read as a book message"),
    };
    assert_eq!(trades.len(), 2);
    let first = trades.get(0).unwrap();
    let second = trades.get(1).unwrap();
    assert_eq!(first.side, 0);
    assert_eq!(second.side, 0);
    assert_eq!(first.trade_id, 259727150);
    assert_eq!(second.trade_id, 259727151);
    assert_ne!(first.trade_id, second.trade_id);
    assert_eq!(to_f64(&second.size), 29.0);
    assert!(trades.get(2).is_none());
}

#[test]
fn crafted_envelopes_of_one_to_eight_trades_come_back_whole() {
    let parser = eth_parser();
    for k in 1..=8u64 {
        let objects: Vec<String> = (0..k)
            .map(|i| {
                trade_object(
                    1753469821143 + i,
                    &format!("{}.{}", 3653 + i, 5),
                    &format!("{}.25", 10 + i),
                    if i % 2 == 0 { "buy" } else { "sell" },
                    259727165 + i,
                )
            })
            .collect();
        let envelope = trade_envelope(&objects);
        let trades = match parser.parse_fast_new(envelope.as_bytes()).unwrap().unwrap() {
            FastMarketData::Trade(trades) => trades,
            FastMarketData::OrderbookUpdate(_) => panic!("a trade message was read as a book message"),
        };
        assert_eq!(trades.len() as u64, k);
        for i in 0..k {
            let trade = trades.get(i as usize).unwrap();
            assert_eq!(trade.timestamp_ns, 1753469821143 + i);
            assert_eq!(to_f64(&trade.price), (3653 + i) as f64 + 0.5);
            assert_eq!(to_f64(&trade.size), (10 + i) as f64 + 0.25);
            assert_eq!(trade.side, if i % 2 == 0 { 1 } else { 0 });
            assert_eq!(trade.trade_id, 259727165 + i);
            assert_eq!(trade.instrument_idx, 1);
        }
    }
}

#[test]
fn envelope_written_from_an_event_reads_back_the_event() {
    let parser = eth_parser();
    let price = Decimal::new(false, 123456789, -4);
    let size = Decimal::new(false, 15, 3);
    let text = trade_envelope(&[trade_object(42, "123456789e-4", "15e3", "sell", 7)]);
    let trades = parser.parse_trade_fast(text.as_bytes()).unwrap();
    let trade = trades.get(0).unwrap();
    assert_eq!(trade.price.mantissa, price.mantissa);
    assert_eq!(trade.price.scale, price.scale);
    assert_eq!(trade.size.mantissa, size.mantissa);
    assert_eq!(trade.size.scale, size.scale);
    assert_eq!(trade.timestamp_ns, 42);
    assert_eq!(trade.trade_id, 7);
    assert_eq!(trade.side, 0);
    assert_eq!(to_f64(&trade.price) as f32, 12345.6789f32);
}

#[test]
fn whitespace_between_trades_is_passed_over() {
    let parser = eth_parser();
    let a = trade_object(1, "1.0", "2.0", "buy", 1);
    let b = trade_object(2, "3.0", "4.0", "sell", 2);
    let text = format!("{} {} ,\n {} ]}}}}", TRADE_HEAD, a, b);
    let trades = parser.parse_trade_fast(text.as_bytes()).unwrap();
    assert_eq!(trades.len(), 2);
    assert_eq!(trades.get(1).unwrap().timestamp_ns, 2);
}

#[test]
fn short_buffers_are_not_hot_path() {
    let parser = eth_parser();
    assert!(parser.parse_fast_new(b"").unwrap().is_none());
    assert!(parser.parse_fast_new(b"{").unwrap().is_none());
    let envelope = trade_envelope(&[trade_object(1, "1.0", "2.0", "buy", 1)]);
    let bytes = envelope.as_bytes();
    assert!(bytes.len() > 100);
    for cut in [0usize, 1, 51, 52, 61, 62, 69, 99] {
        assert!(parser.parse_fast_new(&bytes[..cut]).unwrap().is_none());
        assert_eq!(parser.detect_channel_type_fast(&bytes[..cut]).unwrap(), ChannelType::Unknown);
    }
    assert_eq!(parser.detect_channel_type_fast(&bytes[..100]).unwrap(), ChannelType::Trades);
    assert!(parser.parse_fast_new(&bytes[..100]).is_err());
}

#[test]
fn frames_with_another_prefix_are_not_hot_path() {
    let parser = eth_parser();
    let auth = r#"{"jsonrpc":"2.0","id":1,"result":{"access_token":"abc","expires_in":900,"token_type":"bearer","scope":"session","padding":"xxxxxxxxxxxxxxxxxxxxxxxxxxxxxxxxxxxxxxxx"}}"#;
    assert!(auth.len() >= 100);
    assert!(parser.parse_fast_new(auth.as_bytes()).unwrap().is_none());
    let ticker = r#"{"jsonrpc":"2.0","method":"subscription","params":{"channel":"ticker.ETH-PERPETUAL.raw","data":{"timestamp":1753469821143}}}"#;
    assert!(ticker.len() >= 100);
    assert_eq!(parser.detect_channel_type_fast(ticker.as_bytes()).unwrap(), ChannelType::Unknown);
    assert!(parser.parse_fast_new(ticker.as_bytes()).unwrap().is_none());
    let spaced = r#"{"jsonrpc": "2.0","method":"subscription","params":{"channel":"trades.ETH-PERPETUAL.raw","data":[]}}  "#;
    assert!(spaced.len() >= 100);
    assert!(parser.parse_fast_new(spaced.as_bytes()).unwrap().is_none());
    let book = r#"{"jsonrpc":"2.0","method":"subscription","params":{"channel":"book.ETH-PERPETUAL.raw","data":{"timestamp":1753616120667,"type":"change","change_id":78324750698,"instrument_name":"ETH-PERPETUAL","bids":[["change",3825.7,132934.0]],"asks":[],"prev_change_id":78324750697}}}"#;
    assert_eq!(parser.detect_channel_type_fast(book.as_bytes()).unwrap(), ChannelType::Orderbook);
    let parsed = parser.parse_fast_new(book.as_bytes()).unwrap().unwrap();
    assert_eq!(parsed.instrument_idx(), 1);
    assert!(matches!(parsed, FastMarketData::OrderbookUpdate(_)));
}

#[test]
fn exponent_is_read() {
    let (value, end) = StreamingParser::parse_number(b"1.5e4,", 0).unwrap();
    assert_eq!(to_f64(&value), 15000.0);
    assert_eq!(end, 5);
    assert_eq!(value.mantissa, 15);
    assert_eq!(value.scale, 3);
    let (value, end) = StreamingParser::parse_number(b"x-2.50E-3]", 1).unwrap();
    assert_eq!(to_f64(&value), -0.0025);
    assert_eq!(end, 9);
    assert!(value.negative);
    assert_eq!(value.mantissa, 250);
    assert_eq!(value.scale, -5);
    let (value, end) = StreamingParser::parse_number(b"7e+2", 0).unwrap();
    assert_eq!(to_f64(&value), 700.0);
    assert_eq!(end, 4);
    let (value, end) = StreamingParser::parse_number(b"1.5E4e", 0).unwrap();
    assert_eq!(to_f64(&value), 15000.0);
    assert_eq!(end, 5);
    let (value, end) = StreamingParser::parse_number(b"3653", 0).unwrap();
    assert_eq!(to_f64(&value), 3653.0);
    assert_eq!(end, 4);
}

#[test]
fn numbers_without_digits_are_refused() {
    let expected = ParseError::InvalidFormat(FormatIssue::ExpectedNumber);
    assert_eq!(StreamingParser::parse_number(b"", 0).unwrap_err(), expected);
    assert_eq!(StreamingParser::parse_number(b"-", 0).unwrap_err(), expected);
    assert_eq!(StreamingParser::parse_number(b"-x", 0).unwrap_err(), expected);
    assert_eq!(StreamingParser::parse_number(b"abc", 0).unwrap_err(), expected);
    assert_eq!(StreamingParser::parse_number(b"12", 2).unwrap_err(), expected);
    assert_eq!(StreamingParser::parse_number(b"12", 9).unwrap_err(), expected);
    assert_eq!(StreamingParser::parse_u64(b"  x", 0).unwrap_err(), expected);
    assert_eq!(StreamingParser::parse_u64(b"", 0).unwrap_err(), expected);
}

#[test]
fn numbers_out_of_range_are_refused() {
    let expected = ParseError::InvalidFormat(FormatIssue::NumberOutOfRange);
    let max = "340282366920938463463374607431768211455";
    let (value, _) = StreamingParser::parse_number(max.as_bytes(), 0).unwrap();
    assert_eq!(value.mantissa, u128::MAX);
    let over = "340282366920938463463374607431768211456";
    assert_eq!(StreamingParser::parse_number(over.as_bytes(), 0).unwrap_err(), expected);
    assert_eq!(StreamingParser::parse_number(b"1e2147483648", 0).unwrap_err(), expected);
    assert_eq!(StreamingParser::parse_number(b"0.01e-2147483647", 0).unwrap_err(), expected);
    let (value, _) = StreamingParser::parse_number(b"0.1e-2147483647", 0).unwrap();
    assert_eq!(value.scale, i32::MIN);
    assert_eq!(value.mantissa, 1);
    let (value, _) = StreamingParser::parse_number(b"1e2147483647", 0).unwrap();
    assert_eq!(value.scale, i32::MAX);
    let (value, _) = StreamingParser::parse_number(b"1e-2147483647", 0).unwrap();
    assert_eq!(value.scale, -i32::MAX);
    assert_eq!(StreamingParser::parse_u64(b"18446744073709551616", 0).unwrap_err(), expected);
    assert_eq!(
        StreamingParser::parse_u64(b"18446744073709551615", 0).unwrap(),
        (u64::MAX, 20)
    );
}

#[test]
fn whole_numbers_and_whitespace() {
    assert_eq!(StreamingParser::parse_u64(b" \t\r\n42,", 0).unwrap(), (42, 6));
    assert_eq!(StreamingParser::parse_u64(b"007", 0).unwrap(), (7, 3));
    assert_eq!(StreamingParser::skip_whitespace(b"  a ", 0), 2);
    assert_eq!(StreamingParser::skip_whitespace(b"  a ", 2), 2);
    assert_eq!(StreamingParser::skip_whitespace(b"  a ", 3), 4);
    assert_eq!(StreamingParser::skip_whitespace(b"  a ", 9), 9);
}

#[test]
fn strings_end_at_the_first_quote_that_is_not_escaped() {
    assert_eq!(StreamingParser::parse_string(br#"abc","#, 0).unwrap(), (0, 3));
    assert_eq!(StreamingParser::parse_string(br#"a\"c"x"#, 0).unwrap(), (0, 4));
    assert_eq!(StreamingParser::parse_string(br#""""#, 0).unwrap(), (0, 0));
    assert_eq!(StreamingParser::parse_string(br#"xx"yy""#, 3).unwrap(), (3, 5));
    assert_eq!(
        StreamingParser::parse_string(b"abc", 0).unwrap_err(),
        ParseError::InvalidFormat(FormatIssue::UnterminatedString)
    );
    assert_eq!(
        StreamingParser::parse_string(br#"ab\""#, 0).unwrap_err(),
        ParseError::InvalidFormat(FormatIssue::UnterminatedString)
    );
    assert_eq!(
        StreamingParser::parse_string(b"ab\\", 0).unwrap_err(),
        ParseError::InvalidFormat(FormatIssue::UnterminatedString)
    );
    assert_eq!(
        StreamingParser::parse_string(b"abc", 3).unwrap_err(),
        ParseError::InvalidFormat(FormatIssue::ExpectedString)
    );
}

#[test]
fn data_is_searched_from_the_start_given() {
    assert_eq!(StreamingParser::find_data_array_fast(b"xxdataxxdata", 0).unwrap(), 6);
    assert_eq!(StreamingParser::find_data_array_fast(b"xxdataxxdata", 2).unwrap(), 6);
    assert_eq!(StreamingParser::find_data_array_fast(b"xxdataxxdata", 3).unwrap(), 12);
    let missing = ParseError::InvalidFormat(FormatIssue::DataNotFound);
    assert_eq!(StreamingParser::find_data_array_fast(b"xxdataxxdata", 9).unwrap_err(), missing);
    assert_eq!(StreamingParser::find_data_array_fast(b"xxdat", 0).unwrap_err(), missing);
    assert_eq!(StreamingParser::find_data_array_fast(b"data", 40).unwrap_err(), missing);
    let parser = eth_parser();
    assert_eq!(parser.skip_to_asks_section(br#"],"asks":[["new""#, 0).unwrap(), 10);
    assert_eq!(
        parser.skip_to_asks_section(br#"],"asks":["#, 3).unwrap_err(),
        ParseError::InvalidFormat(FormatIssue::AsksNotFound)
    );
}

#[test]
fn other_directions_are_bad_directions() {
    let parser = eth_parser();
    for direction in ["hold", "BUY", "", "bu", "zero"] {
        let text = trade_envelope(&[trade_object(1, "1.0", "2.0", direction, 1)]);
        assert_eq!(
            parser.parse_trade_fast(text.as_bytes()).unwrap_err(),
            ParseError::BadDirection
        );
        assert_eq!(
            parser.parse_fast_new(text.as_bytes()).err().unwrap(),
            ParseError::BadDirection
        );
    }
}

#[test]
fn unknown_instruments_are_refused() {
    let parser = eth_parser();
    let text = single_trade_with(r#""instrument_name":"ETH-PERPETUAL""#, r#""instrument_name":"SOL-PERPETUAL""#);
    assert_eq!(parser.parse_trade_fast(text.as_bytes()).unwrap_err(), ParseError::UnknownInstrument);
    let book = r#"{"jsonrpc":"2.0","method":"subscription","params":{"channel":"book.XRP-PERPETUAL.raw","data":{"timestamp":1,"type":"change","change_id":3,"instrument_name":"XRP-PERPETUAL","bids":[],"asks":[],"prev_change_id":2}}}"#;
    assert_eq!(parser.parse_orderbook_fast(book.as_bytes()).err().unwrap(), ParseError::UnknownInstrument);
}

#[test]
fn names_that_are_not_utf8_are_refused() {
    let parser = eth_parser();
    let text = single_trade_with(r#""instrument_name":"ETH-PERPETUAL""#, r#""instrument_name":"ETH-PERPETUA?""#);
    let mut bytes = text.into_bytes();
    let at = bytes.iter().position(|b| *b == b'?').unwrap();
    bytes[at] = 0xff;
    assert_eq!(
        parser.parse_trade_fast(&bytes).unwrap_err(),
        ParseError::InvalidFormat(FormatIssue::InvalidUtf8)
    );
}

#[test]
fn trade_ids_need_a_number_behind_the_last_dash() {
    let parser = eth_parser();
    for id in ["ETH-", "ETH-12x", "ETH-x12", "ETH", "ETH-1-", "ETH-18446744073709551616", ""] {
        let text = single_trade_with(r#""trade_id":"ETH-259727165""#, &format!(r#""trade_id":"{}""#, id));
        assert_eq!(parser.parse_trade_fast(text.as_bytes()).unwrap_err(), ParseError::BadTradeId);
    }
    for (id, number) in [("ETH-1-22", 22u64), ("77", 77), ("-5", 5), ("A-B-18446744073709551615", u64::MAX), ("ETH-007", 7)] {
        let text = single_trade_with(r#""trade_id":"ETH-259727165""#, &format!(r#""trade_id":"{}""#, id));
        let trades = parser.parse_trade_fast(text.as_bytes()).unwrap();
        assert_eq!(trades.get(0).unwrap().trade_id, number);
    }
}

#[test]
fn fields_out_of_place_are_missing_fields() {
    let parser = eth_parser();
    let cases = [
        (r#""timestamp""#, r#""timestamq""#, Field::Timestamp),
        (r#""price""#, r#""prize""#, Field::Price),
        (r#""amount""#, r#""amound""#, Field::Amount),
        (r#""direction""#, r#""directiom""#, Field::Direction),
        (r#""index_price""#, r#""index_prize""#, Field::IndexPrice),
        (r#""instrument_name""#, r#""instrument_nam3""#, Field::InstrumentName),
        (r#""trade_seq""#, r#""trade_sec""#, Field::TradeSeq),
        (r#""mark_price""#, r#""mark_prize""#, Field::MarkPrice),
        (r#""tick_direction""#, r#""tick_directiom""#, Field::TickDirection),
        (r#""trade_id""#, r#""trade_jd""#, Field::TradeId),
        (r#""contracts""#, r#""contractz""#, Field::Contracts),
        (r#""data":["#, r#""data":{"#, Field::Data),
    ];
    for (field, replacement, expected) in cases {
        let text = single_trade_with(field, replacement);
        assert_eq!(
            parser.parse_trade_fast(text.as_bytes()).unwrap_err(),
            ParseError::MissingField(expected)
        );
    }
}

#[test]
fn malformed_trade_lists_are_refused() {
    let parser = eth_parser();
    let good = trade_envelope(&[trade_object(1, "1.0", "2.0", "buy", 1)]);
    let empty = trade_envelope(&[]);
    assert_eq!(
        parser.parse_trade_fast(empty.as_bytes()).unwrap_err(),
        ParseError::InvalidFormat(FormatIssue::NoTrades)
    );
    let open = good.replacen("]}}", "", 1);
    assert_eq!(
        parser.parse_trade_fast(open.as_bytes()).unwrap_err(),
        ParseError::BufferTooShort(open.len())
    );
    let joined = good.replacen("]}}", ";]}}", 1);
    assert_eq!(
        parser.parse_trade_fast(joined.as_bytes()).unwrap_err(),
        ParseError::InvalidFormat(FormatIssue::ExpectedSeparator)
    );
    let tick = good.replacen(r#""tick_direction":0"#, r#""tick_direction":4"#, 1);
    assert_eq!(
        parser.parse_trade_fast(tick.as_bytes()).unwrap_err(),
        ParseError::InvalidFormat(FormatIssue::TickDirection)
    );
    let cut = &good.as_bytes()[..good.find("\"price\"").unwrap() + 3];
    assert_eq!(parser.parse_trade_fast(cut).unwrap_err(), ParseError::BufferTooShort(cut.len()));
    let no_data = good.replacen("data", "date", 1);
    assert_eq!(
        parser.parse_trade_fast(no_data.as_bytes()).unwrap_err(),
        ParseError::InvalidFormat(FormatIssue::DataNotFound)
    );
    let other = good.replacen("trades.", "trader.", 1);
    assert_eq!(
        parser.parse_trade_fast(other.as_bytes()).unwrap_err(),
        ParseError::MissingField(Field::Channel)
    );
    assert_eq!(parser.parse_trade_fast(b"").unwrap_err(), ParseError::MissingField(Field::Channel));
    assert_eq!(
        parser.parse_trade_fast(&good.as_bytes()[..65]).unwrap_err(),
        ParseError::MissingField(Field::Channel)
    );
    let unclosed = good.replacen(r#""trade_id":"ETH-1""#, r#""trade_id":"ETH-1"#, 1).replace('"', "'");
    assert!(parser.parse_trade_fast(unclosed.as_bytes()).is_err());
}

#[test]
fn a_change_message_keeps_every_level() {
    let parser = eth_parser();
    let json_data = r#"{"jsonrpc":"2.0","method":"subscription","params":{"channel":"book.ETH-PERPETUAL.raw","data":{"timestamp":1753616120667,"type":"change","change_id":78324750698,"instrument_name":"ETH-PERPETUAL","bids":[["new",3825.7,132934.0],["delete",3815.7,1329.0],["change",3825.7,1.4e3],["delete",3815.7,1329.0]],"asks":[["change",3825.75,132934.0],["delete",3815.7,1329.0]],"prev_change_id":78324750697}}}"#;
    let book = parser.parse_orderbook_fast(json_data.as_bytes()).unwrap();
    assert_eq!(book.change_id, 78324750698);
    assert_eq!(book.timestamp, 1753616120667);
    assert_eq!(book.update_data.prev_change_id, 78324750697);
    assert_eq!(book.update_data.bid_updates.len(), 4);
    assert_eq!(book.update_data.ask_updates.len(), 2);
    assert_eq!(book.update_data.flag, 0b11);
    let actions: Vec<OrderbookAction> =
        (0..4).map(|i| book.update_data.bid_updates.get(i).unwrap().action).collect();
    assert_eq!(
        actions,
        vec![OrderbookAction::New, OrderbookAction::Delete, OrderbookAction::Change, OrderbookAction::Delete]
    );
    let third = book.update_data.bid_updates.get(2).unwrap();
    assert_eq!(to_f64(&third.price), 3825.7);
    assert_eq!(to_f64(&third.size), 1400.0);
    let ask = book.update_data.ask_updates.get(0).unwrap();
    assert_eq!(to_f64(&ask.price), 3825.75);
}

#[test]
fn a_snapshot_keeps_ten_levels_a_side() {
    let parser = eth_parser();
    let bids: Vec<String> = (0..12).map(|i| format!(r#"["new",{}.5,{}.0]"#, 3770 - i, 100 + i)).collect();
    let asks: Vec<String> = (0..3).map(|i| format!(r#"["new",{}.5,{}.0]"#, 3771 + i, 200 + i)).collect();
    let text = format!(
        r#"{{"jsonrpc":"2.0","method":"subscription","params":{{"channel":"book.ETH-PERPETUAL.raw","data":{{"timestamp":1753607648212,"type":"snapshot","change_id":78311875036,"instrument_name":"ETH-PERPETUAL","bids":[{}],"asks":[{}]}}}}}}"#,
        bids.join(","),
        asks.join(",")
    );
    let book = parser.parse_orderbook_fast(text.as_bytes()).unwrap();
    assert_eq!(book.change_id, 78311875036);
    assert_eq!(book.update_data.prev_change_id, 0);
    assert_eq!(book.update_data.bid_updates.len(), 10);
    assert_eq!(book.update_data.ask_updates.len(), 3);
    assert_eq!(to_f64(&book.update_data.bid_updates.get(9).unwrap().price), 3761.5);
    assert_eq!(to_f64(&book.update_data.ask_updates.get(2).unwrap().size), 202.0);
    assert_eq!(book.update_data.flag, 0b11);
}

#[test]
fn malformed_book_messages_are_refused() {
    let parser = eth_parser();
    let good = r#"{"jsonrpc":"2.0","method":"subscription","params":{"channel":"book.ETH-PERPETUAL.raw","data":{"timestamp":1753616120667,"type":"change","change_id":78324750698,"instrument_name":"ETH-PERPETUAL","bids":[["change",3825.7,132934.0]],"asks":[],"prev_change_id":78324750697}}}"#;
    assert!(parser.parse_orderbook_fast(good.as_bytes()).is_ok());
    let cases = [
        (r#""type":"change""#, r#""type":"update""#, ParseError::UnknownMessageType),
        (r#"["change","#, r#"["modify","#, ParseError::InvalidFormat(FormatIssue::UnknownAction)),
        (r#""change_id""#, r#""change_jd""#, ParseError::MissingField(Field::ChangeId)),
        (r#""bids""#, r#""bidz""#, ParseError::MissingField(Field::Bids)),
        (r#""asks""#, r#""askz""#, ParseError::MissingField(Field::Asks)),
        (r#""prev_change_id""#, r#""prev_change_jd""#, ParseError::MissingField(Field::PrevChangeId)),
        (r#""type""#, r#""typo""#, ParseError::MissingField(Field::Type)),
        (r#"3825.7,132934.0]"#, r#"3825.7;132934.0]"#, ParseError::MissingField(Field::Level)),
        (r#""timestamp":1753616120667"#, r#""timestamp":x"#, ParseError::InvalidFormat(FormatIssue::ExpectedNumber)),
    ];
    for (field, replacement, expected) in cases {
        assert!(good.contains(field));
        let text = good.replacen(field, replacement, 1);
        assert_eq!(parser.parse_orderbook_fast(text.as_bytes()).err().unwrap(), expected);
    }
    let snapshot = good.replacen("change\"", "snapshot\"", 1).replacen(r#""asks""#, r#""askz""#, 1);
    assert_eq!(
        parser.parse_orderbook_fast(snapshot.as_bytes()).err().unwrap(),
        ParseError::InvalidFormat(FormatIssue::AsksNotFound)
    );
}

#[test]
fn a_later_insertion_of_a_symbol_replaces_the_earlier() {
    let mut index = InstrumentIndex::new();
    assert_eq!(index.get(b"ETH-PERPETUAL"), None);
    index.insert("ETH-PERPETUAL".to_string(), 1);
    index.insert("BTC-PERPETUAL".to_string(), 2);
    assert_eq!(index.get(b"ETH-PERPETUAL"), Some(1));
    assert_eq!(index.get(b"BTC-PERPETUAL"), Some(2));
    index.insert("ETH-PERPETUAL".to_string(), 300);
    assert_eq!(index.get(b"ETH-PERPETUAL"), Some(300));
    assert_eq!(index.get(b"ETH-PERPETUA"), None);
    assert_eq!(index.get(b""), None);
    let parser = StreamingParser::new(index);
    let text = trade_envelope(&[trade_object(1, "1.0", "2.0", "buy", 1)]);
    let trades = parser.parse_trade_fast(text.as_bytes()).unwrap();
    assert_eq!(trades.get(0).unwrap().instrument_idx, 44);
}

#[test]
fn fields_that_do_not_enter_the_event_may_have_an_exponent() {
    let parser = eth_parser();
    let plain = trade_envelope(&[trade_object(1753469821143, "3653.4", "139.0", "buy", 259727165)]);
    let expected = parser.parse_trade_fast(plain.as_bytes()).unwrap().get(0).unwrap();
    for (field, written) in [
        (r#""index_price":3654.33"#, r#""index_price":3.65433e3"#),
        (r#""index_price":3654.33"#, r#""index_price":3.6e3"#),
        (r#""trade_seq":187471866"#, r#""trade_seq":1.87471866E8"#),
        (r#""mark_price":3653.79"#, r#""mark_price":365379e-2"#),
    ] {
        let text = single_trade_with(field, written);
        let trades = parser.parse_trade_fast(text.as_bytes()).unwrap();
        assert_eq!(trades.len(), 1);
        let trade = trades.get(0).unwrap();
        assert_eq!(trade.timestamp_ns, expected.timestamp_ns);
        assert_eq!(trade.price.mantissa, expected.price.mantissa);
        assert_eq!(trade.price.scale, expected.price.scale);
        assert_eq!(trade.size.mantissa, expected.size.mantissa);
        assert_eq!(trade.side, expected.side);
        assert_eq!(trade.trade_id, expected.trade_id);
        assert_eq!(trade.instrument_idx, expected.instrument_idx);
    }
}
