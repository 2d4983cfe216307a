use athenas_pallas::backtest::{
    synthetic_quote,
    parse_ts, CsvBarSource, CsvOhlcSource, FillModel, HistoricalSource, OhlcRow, OhlcvRow,
    TouchCrossFillModel,
};
use athenas_pallas::connectors::binance_spot::{
    decode_combined_message, decode_depth_message, depth_bucket, BinanceCombinedStream,
    BinanceDepthStream,
};
use athenas_pallas::connectors::binance_user_data::decode_user_message;
use athenas_pallas::decimal::{eq_value, Dec};
use athenas_pallas::events::{AccountEvent, Event, MarketEvent};
use athenas_pallas::timestamp::Timestamp;
use athenas_pallas::types::{ExchangeId, InstrumentId, OrderStatus, Side, Symbol};

#[test]
fn stream_urls() {
    let s = BinanceCombinedStream {
        instrument: InstrumentId::new("binance", "BTCUSDT"),
        stream_symbol: "btcusdt".into(),
        ws_base: "wss://stream.binance.com:9443/".into(),
    };
    assert_eq!(
        s.url(),
        "wss://stream.binance.com:9443/stream?streams=btcusdt@trade/btcusdt@bookTicker"
    );
    let d = BinanceDepthStream {
        instrument: InstrumentId::new("binance", "BTCUSDT"),
        stream_symbol: "btcusdt".into(),
        depth_levels: 7,
        ws_base: "wss://x".into(),
    };
    assert_eq!(d.url(), "wss://x/stream?streams=btcusdt@depth10@100ms");
    assert_eq!(depth_bucket(1), 5);
    assert_eq!(depth_bucket(10), 10);
    assert_eq!(depth_bucket(11), 20);
}

#[test]
fn trade_and_book_ticker_messages() {
    let i = InstrumentId::new("binance", "BTCUSDT");
    let trade = r#"{"stream":"btcusdt@trade","data":{"E":1700000000000,"p":"100.5","q":"0.2"}}"#;
    match decode_combined_message(trade, &i).unwrap() {
        Some(Event::Market(MarketEvent::Trade { price, qty, ts, .. })) => {
            assert!(eq_value(price, Dec::new(1005, 1)));
            assert!(eq_value(qty, Dec::new(2, 1)));
            assert_eq!(ts.unix_nanos(), 1_700_000_000_000_000_000);
        }
        other => panic!("unexpected {:?}", other),
    }
    let ticker = r#"{"stream":"btcusdt@bookTicker","data":{"b":"99","a":"101"}}"#;
    match decode_combined_message(ticker, &i).unwrap() {
        Some(Event::Market(MarketEvent::BookL1 { bid, ask, .. })) => {
            assert!(eq_value(bid, Dec::from_u64(99)));
            assert!(eq_value(ask, Dec::from_u64(101)));
        }
        other => panic!("unexpected {:?}", other),
    }
    assert!(decode_combined_message("nope", &i).unwrap().is_none());
    let bad = r#"{"stream":"btcusdt@trade","data":{"E":1,"p":"x","q":"1"}}"#;
    assert!(decode_combined_message(bad, &i).is_err());
    let no_time = r#"{"stream":"btcusdt@trade","data":{"p":"1","q":"1"}}"#;
    assert!(decode_combined_message(no_time, &i).unwrap().is_none());
}

#[test]
fn depth_message() {
    let i = InstrumentId::new("binance", "BTCUSDT");
    let msg = r#"{"stream":"btcusdt@depth5@100ms","data":{"bids":[["100","1"],["99","2"]],"asks":[["101","3"]]}}"#;
    match decode_depth_message(msg, &i) {
        Some(Event::Market(MarketEvent::BookL2Snapshot(s))) => {
            assert_eq!(s.bids.len(), 2);
            assert_eq!(s.asks.len(), 1);
            assert!(eq_value(s.bids[1].0, Dec::from_u64(99)));
            assert!(eq_value(s.asks[0].1, Dec::from_u64(3)));
        }
        other => panic!("unexpected {:?}", other),
    }
    assert!(decode_depth_message(r#"{"stream":"btcusdt@trade","data":{}}"#, &i).is_none());
}

#[test]
fn user_stream_messages() {
    let report = r#"{"e":"executionReport","s":"BTCUSDT","S":"BUY","o":"LIMIT","X":"PARTIALLY_FILLED",
        "i":42,"q":"2","z":"0.5","p":"100","l":"0.5","L":"100","n":"0.01","N":"USDT"}"#;
    let evs = decode_user_message(report);
    assert!(!evs.is_empty());
    match &evs[0] {
        AccountEvent::OrderUpdate { id, side, status, remaining_qty, .. } => {
            assert_eq!(id.0, 42);
            assert_eq!(*side, Side::Buy);
            assert_eq!(*status, OrderStatus::Open);
            assert!(eq_value(*remaining_qty, Dec::new(15, 1)));
        }
        other => panic!("unexpected {:?}", other),
    }
    let balances = r#"{"e":"outboundAccountPosition","B":[{"a":"BTC","f":"1.5"},{"a":"USDT","f":"10"}]}"#;
    let evs = decode_user_message(balances);
    assert_eq!(evs.len(), 2);
    assert!(decode_user_message("garbage").is_empty());
}

#[test]
fn timestamps_parse_rfc3339_and_date_time() {
    assert_eq!(parse_ts("1970-01-01T00:00:01Z").unwrap().unix_nanos(), 1_000_000_000);
    assert_eq!(parse_ts("1970-01-02 00:00:00").unwrap().unix_nanos(), 86_400_000_000_000);
    let midnight = parse_ts("1970-01-03").unwrap();
    assert_eq!(midnight.unix_nanos(), 172_800_000_000_000);
    assert_eq!(midnight.offset_seconds(), 0);
    assert!(parse_ts("02/01/2024").is_none());
    assert!(parse_ts("yesterday").is_none());
}

#[test]
fn bar_source_pads_close() {
    let rows = vec![OhlcvRow {
        ts: "2024-01-01T00:00:00Z".into(),
        open: Dec::from_u64(100),
        high: Dec::from_u64(110),
        low: Dec::from_u64(90),
        close: Dec::from_u64(100),
        volume: Dec::one(),
    }];
    let mut src = CsvBarSource::from_ohlcv_rows(ExchangeId("binance".into()), Symbol("BTCUSDT".into()), rows);
    match src.next_event() {
        Some(Ok(Event::Market(MarketEvent::BookL1 { bid, ask, .. }))) => {
            assert!(eq_value(bid, Dec::new(998, 1)));
            assert!(eq_value(ask, Dec::new(1002, 1)));
        }
        other => panic!("unexpected {:?}", other),
    }
    assert!(src.next_event().is_none());
    assert!(CsvBarSource::from_parsed_rows(ExchangeId("b".into()), Symbol("s".into()), vec![]).is_err());
}

#[test]
fn ohlc_source_quotes_around_close() {
    let rows = vec![OhlcRow {
        ts: "2024-01-01T00:00:00Z".into(),
        open: Dec::from_u64(100),
        high: Dec::from_u64(101),
        low: Dec::from_u64(99),
        close: Dec::from_u64(100),
    }];
    let mut src = CsvOhlcSource::from_rows(InstrumentId::new("binance", "BTCUSDT"), rows, Dec::from_u64(20));
    match src.next_event() {
        Some(Ok(Event::Market(MarketEvent::BookL1 { bid, ask, .. }))) => {
            assert!(eq_value(bid, Dec::new(999, 1)));
            assert!(eq_value(ask, Dec::new(1001, 1)));
        }
        other => panic!("unexpected {:?}", other),
    }
    assert_eq!(TouchCrossFillModel.name(), "touch_cross");
}

#[test]
fn calendar_days_and_offsets() {
    assert_eq!(Timestamp::unix_epoch().calendar_day(), 2_440_588);
    let t = Timestamp::new(1_700_000_000_000_000_000, 0).unwrap();
    assert_eq!(t.calendar_day(), 2_460_263);
    let before_epoch = Timestamp::new(-1, 0).unwrap();
    assert_eq!(before_epoch.local_unix_seconds(), -1);
    assert_eq!(before_epoch.calendar_day(), 2_440_587);
    let east = Timestamp::new(0, 3600).unwrap();
    assert_eq!(east.local_unix_seconds(), 3600);
    let west = Timestamp::new(0, -3600).unwrap();
    assert_eq!(west.calendar_day(), 2_440_587);
    assert_eq!(west.utc_day(), 2_440_588);
    assert_eq!(before_epoch.utc_day(), 2_440_587);
    assert!(Timestamp::new(0, 100_000).is_none());
}

#[test]
fn synthetic_quote_pads_the_new_price() {
    let (p, bid, ask) = synthetic_quote(Dec::from_u64(100), Dec::one(), Dec::zero(), 0).unwrap();
    assert!(eq_value(p, Dec::from_u64(100)));
    assert!(eq_value(bid, Dec::new(9995, 2)));
    assert!(eq_value(ask, Dec::new(10005, 2)));
    let (p, _, _) =
        synthetic_quote(Dec::from_u64(100), Dec::one(), Dec::new(1, 1), 500_000).unwrap();
    assert!(eq_value(p, Dec::from_u64(105)));
}

#[test]
fn synthetic_quote_floors_the_price_at_a_cent() {
    let (p, bid, ask) = synthetic_quote(Dec::new(1, 3), Dec::one(), Dec::zero(), 0).unwrap();
    assert!(eq_value(p, Dec::new(1, 2)));
    assert!(eq_value(bid, Dec::new(9995, 6)));
    assert!(eq_value(ask, Dec::new(10005, 6)));
}
