use athenas_pallas::decimal::{eq_value, Dec};
use athenas_pallas::error::Error;
use athenas_pallas::events::{AccountEvent, OrderIntent, OrderIntentSource};
use athenas_pallas::execution::binance_live::{
    cancel_all_instrument, cancel_all_symbols, cancel_reply_context, cancel_target,
    canonical_query, endpoint_url, fee_asset_for, join_query, limit_order_params,
    market_order_params, maybe_binance_err, normalize_base_url, parse_order_json,
    parse_symbol_to_instrument, sign, signed_payload, signed_url, sort_params, BinanceCredentials,
    DEFAULT_RECV_WINDOW,
};
use athenas_pallas::keyed::KeyedVec;
use athenas_pallas::state::{GlobalState, InstrumentMeta};
use athenas_pallas::types::{
    Asset, ClientOrderId, InstrumentId, OpenOrder, OrderId, OrderStatus, OrderType, Side,
};

fn state() -> GlobalState {
    let mut instruments = KeyedVec::new();
    instruments.insert(
        InstrumentId::new("binance", "BTCUSDT"),
        InstrumentMeta { base: Asset::new("BTC"), quote: Asset::new("USDT") },
    );
    let mut balances = KeyedVec::new();
    balances.insert(Asset::new("USDT"), Dec::from_u64(10_000));
    GlobalState::new(instruments, balances)
}

fn pairs(v: &[(&str, &str)]) -> Vec<(String, String)> {
    v.iter().map(|(k, x)| (k.to_string(), x.to_string())).collect()
}

#[test]
fn market_order_signed_post_parses_response() {
    let body = r#"{
            "symbol":"BTCUSDT",
            "orderId":123456,
            "status":"FILLED",
            "executedQty":"0.01",
            "origQty":"0.01",
            "type":"MARKET",
            "side":"BUY",
            "cummulativeQuoteQty":"400.00"
        }"#;
    let creds = BinanceCredentials { api_key: "k".into(), secret: "s".into() };
    let st = state();
    let intent = OrderIntent {
        instrument: InstrumentId::new("binance", "BTCUSDT"),
        side: Side::Buy,
        order_type: OrderType::Market,
        price: None,
        qty: Dec::new(1, 2),
        client_order_id: None,
        source: OrderIntentSource::User,
    };
    let params = market_order_params(&intent);
    let query = canonical_query(params, 1_700_000_000_000, DEFAULT_RECV_WINDOW);
    let payload = signed_payload(&query, &creds.secret);
    assert!(payload.starts_with(&query));
    maybe_binance_err(body).unwrap();
    let fee = fee_asset_for(&st, &intent.instrument);
    let evs = parse_order_json(body, &intent.instrument, fee).unwrap();
    assert!(!evs.is_empty());
}

#[test]
fn filled_reply_gives_update_and_fill_at_average_price() {
    let body = r#"{"symbol":"btcusdt","orderId":7,"status":"FILLED","executedQty":"0.01",
        "origQty":"0.01","type":"MARKET","side":"SELL","cummulativeQuoteQty":"400.00"}"#;
    let hint = InstrumentId::new("binance", "ETHUSDT");
    let evs = parse_order_json(body, &hint, Asset::new("USDT")).unwrap();
    assert_eq!(evs.len(), 2);
    match &evs[0] {
        AccountEvent::OrderUpdate { id, instrument, side, order_type, remaining_qty, status, .. } => {
            assert_eq!(id.0, 7);
            assert_eq!(instrument.symbol.0, "BTCUSDT");
            assert_eq!(*side, Side::Sell);
            assert_eq!(*order_type, OrderType::Market);
            assert!(remaining_qty.is_zero());
            assert_eq!(*status, OrderStatus::Filled);
        }
        other => panic!("unexpected {:?}", other),
    }
    match &evs[1] {
        AccountEvent::Fill { price, qty, fee, fee_asset, .. } => {
            assert!(eq_value(*price, Dec::from_u64(40_000)));
            assert!(eq_value(*qty, Dec::new(1, 2)));
            assert!(fee.is_zero());
            assert_eq!(fee_asset.0, "USDT");
        }
        other => panic!("unexpected {:?}", other),
    }
}

#[test]
fn open_reply_has_no_fill_and_uses_hint_symbol() {
    let body = r#"{"orderId":8,"status":"NEW","origQty":"2","executedQty":"0.5",
        "type":"LIMIT","side":"BUY","price":"10.5"}"#;
    let hint = InstrumentId::new("binance", "ethusdt");
    let evs = parse_order_json(body, &hint, Asset::new("USDT")).unwrap();
    assert_eq!(evs.len(), 1);
    match &evs[0] {
        AccountEvent::OrderUpdate { instrument, order_type, price, remaining_qty, status, .. } => {
            assert_eq!(instrument.symbol.0, "ETHUSDT");
            assert_eq!(*order_type, OrderType::Limit);
            assert!(eq_value(price.unwrap(), Dec::new(105, 1)));
            assert!(eq_value(*remaining_qty, Dec::new(15, 1)));
            assert_eq!(*status, OrderStatus::Open);
        }
        other => panic!("unexpected {:?}", other),
    }
}

#[test]
fn executed_quantity_from_fills() {
    let body = r#"{"orderId":9,"status":"FILLED","origQty":"3","executedQty":"0",
        "type":"MARKET","side":"BUY","fills":[{"qty":"1"},{"qty":"2"}]}"#;
    let hint = InstrumentId::new("binance", "BTCUSDT");
    let evs = parse_order_json(body, &hint, Asset::new("USDT")).unwrap();
    assert_eq!(evs.len(), 2);
    match &evs[1] {
        AccountEvent::Fill { qty, price, .. } => {
            assert!(eq_value(*qty, Dec::from_u64(3)));
            assert!(price.is_zero());
        }
        other => panic!("unexpected {:?}", other),
    }
}

#[test]
fn reply_arrays_and_errors() {
    let hint = InstrumentId::new("binance", "BTCUSDT");
    let body = r#"[{"orderId":1,"status":"CANCELED","origQty":"1","executedQty":"0"},
                   {"orderId":2,"status":"EXPIRED","origQty":"1","executedQty":"0"}]"#;
    let evs = parse_order_json(body, &hint, Asset::new("USDT")).unwrap();
    assert_eq!(evs.len(), 2);
    match parse_order_json(r#"{"status":"NEW"}"#, &hint, Asset::new("USDT")) {
        Err(Error::Invalid(m)) => assert_eq!(m, "missing orderId"),
        other => panic!("unexpected {:?}", other),
    }
    assert!(matches!(parse_order_json("not json", &hint, Asset::new("USDT")), Err(Error::Json(_))));
    assert!(matches!(
        parse_order_json(r#"{"orderId":1,"origQty":"x"}"#, &hint, Asset::new("USDT")),
        Err(Error::Decimal(_))
    ));
}

#[test]
fn venue_errors_are_rejections() {
    match maybe_binance_err(r#"{"code":-2010,"msg":"Account has insufficient balance"}"#) {
        Err(Error::ExecutionRejected(m)) => {
            assert_eq!(m, "binance -2010: Account has insufficient balance")
        }
        other => panic!("unexpected {:?}", other),
    }
    match maybe_binance_err(r#"{"code":-1}"#) {
        Err(Error::ExecutionRejected(m)) => assert_eq!(m, "binance -1: binance error"),
        other => panic!("unexpected {:?}", other),
    }
    assert!(maybe_binance_err(r#"{"code":0}"#).is_ok());
    assert!(maybe_binance_err("plain text").is_ok());
}

#[test]
fn query_is_sorted_and_signed() {
    let q = canonical_query(pairs(&[("symbol", "BTCUSDT"), ("side", "BUY")]), 1000, 5000);
    assert_eq!(q, "recvWindow=5000&side=BUY&symbol=BTCUSDT&timestamp=1000");
    let sig = sign("s", "a=1");
    assert_eq!(sig.len(), 64);
    assert!(sig.chars().all(|c| c.is_ascii_hexdigit() && !c.is_ascii_uppercase()));
    let expected = sign(
        "NhqPtmdSJYdKjVHjA7PZj4Mge3R5YNiP1e3UZjInClVN65XAbvqqM6A7H5fATj0j",
        "symbol=LTCBTC&side=BUY&type=LIMIT&timeInForce=GTC&quantity=1&price=0.1&recvWindow=5000&timestamp=1499827319559",
    );
    assert_eq!(expected, "c8db56825ae71d6d79447849e617115f4a920fa2acdcab2b053c4b2838bd6b71");
    let payload = signed_payload("a=1", "s");
    assert_eq!(payload, format!("a=1&signature={}", sig));
    assert_eq!(signed_url("https://x", "/api/v3/order", "a=1"), "https://x/api/v3/order?a=1");
    assert_eq!(endpoint_url("https://x", "/api/v3/order"), "https://x/api/v3/order");
    assert_eq!(normalize_base_url("https://api.binance.com//"), "https://api.binance.com");
}

#[test]
fn sort_and_join_params() {
    let sorted = sort_params(pairs(&[("b", "2"), ("a", "1"), ("c", "3")]));
    assert_eq!(join_query(&sorted), "a=1&b=2&c=3");
    assert_eq!(join_query(&Vec::new()), "");
}

#[test]
fn sort_keeps_the_order_of_equal_keys() {
    let sorted = sort_params(pairs(&[("b", "2"), ("a", "x"), ("b", "1"), ("a", "y")]));
    assert_eq!(join_query(&sorted), "a=x&a=y&b=2&b=1");
    let q = canonical_query(pairs(&[("timestamp", "7"), ("a", "1")]), 1000, 5000);
    assert_eq!(q, "a=1&recvWindow=5000&timestamp=7&timestamp=1000");
}

#[test]
fn order_parameters() {
    let mut intent = OrderIntent {
        instrument: InstrumentId::new("binance", "BTCUSDT"),
        side: Side::Sell,
        order_type: OrderType::Limit,
        price: Some(Dec::new(425, 1)),
        qty: Dec::new(15, 1),
        client_order_id: Some(ClientOrderId("c1".into())),
        source: OrderIntentSource::User,
    };
    let p = limit_order_params(&intent).unwrap();
    assert_eq!(
        join_query(&p),
        "symbol=BTCUSDT&side=SELL&type=LIMIT&timeInForce=GTC&quantity=1.5&price=42.5&newClientOrderId=c1"
    );
    let m = market_order_params(&intent);
    assert_eq!(join_query(&m), "symbol=BTCUSDT&side=SELL&type=MARKET&quantity=1.5&newClientOrderId=c1");
    intent.price = None;
    match limit_order_params(&intent) {
        Err(Error::Invalid(m)) => assert_eq!(m, "limit needs price"),
        other => panic!("unexpected {:?}", other),
    }
}

#[test]
fn cancel_targets_and_context() {
    let mut st = state();
    match cancel_target(&st, OrderId(5)) {
        Err(Error::Invalid(m)) => assert_eq!(m, "order not in local book"),
        other => panic!("unexpected {:?}", other),
    }
    let big = OrderId(u64::MAX as u128 + 10);
    st.open_orders.insert(
        big,
        OpenOrder {
            id: big,
            instrument: InstrumentId::new("binance", "BTCUSDT"),
            side: Side::Buy,
            order_type: OrderType::Limit,
            price: Some(Dec::one()),
            remaining_qty: Dec::one(),
            original_qty: Dec::one(),
            status: OrderStatus::Open,
        },
    );
    let (sym, oid) = cancel_target(&st, big).unwrap();
    assert_eq!(sym, "BTCUSDT");
    assert_eq!(oid, u64::MAX);
    let (inst, fee) = cancel_reply_context(&st, big);
    assert_eq!(inst.symbol.0, "BTCUSDT");
    assert_eq!(fee.0, "USDT");
    let (inst, fee) = cancel_reply_context(&st, OrderId(1));
    assert_eq!(inst.symbol.0, "UNKNOWN");
    assert_eq!(fee.0, "USDT");
    assert_eq!(fee_asset_for(&st, &InstrumentId::new("binance", "ETHBTC")).0, "USDT");
}

#[test]
fn cancel_all_symbols_from_venue_or_local_book() {
    let mut st = state();
    let from_venue = cancel_all_symbols(
        &st,
        r#"[{"symbol":"ETHUSDT","orderId":1},{"symbol":"BTCUSDT"},{"symbol":"ETHUSDT"}]"#,
    );
    assert_eq!(from_venue, vec!["BTCUSDT".to_string(), "ETHUSDT".to_string()]);
    st.open_orders.insert(
        OrderId(3),
        OpenOrder {
            id: OrderId(3),
            instrument: InstrumentId::new("binance", "XRPUSDT"),
            side: Side::Buy,
            order_type: OrderType::Limit,
            price: Some(Dec::one()),
            remaining_qty: Dec::one(),
            original_qty: Dec::one(),
            status: OrderStatus::Open,
        },
    );
    assert_eq!(cancel_all_symbols(&st, "[]"), vec!["XRPUSDT".to_string()]);
    assert_eq!(cancel_all_symbols(&st, r#"[{"price":"1"}]"#), vec!["XRPUSDT".to_string()]);
    assert_eq!(cancel_all_instrument("ethusdt").symbol.0, "ethusdt");
    assert_eq!(parse_symbol_to_instrument("ethusdt").symbol.0, "ETHUSDT");
}
