use athenas_pallas::decimal::{eq_value, le, lt, max_value, Dec, ValueOrder};
use athenas_pallas::error::Error;
use athenas_pallas::execution::apply_slippage;
use athenas_pallas::execution::binance_live::{
    canonical_query, maybe_binance_err, normalize_base_url, parse_symbol_to_instrument, sign,
    sort_params, join_query,
};
use athenas_pallas::metrics::profit_and_loss;
use athenas_pallas::timestamp::Timestamp;
use athenas_pallas::types::{EquityPoint, Side};

fn point(d: Dec) -> EquityPoint {
    EquityPoint { ts: Timestamp::unix_epoch(), equity_quote: d }
}

#[test]
fn decimal_arithmetic_through_slippage_and_pnl() {
    let mid = Dec::new(15, 1);
    let bps = Dec::from_u64(200);
    // 1.5 * 200 / 10000 = 0.03
    assert!(eq_value(apply_slippage(Side::Buy, mid, bps).unwrap(), Dec::new(153, 2)));
    assert!(eq_value(apply_slippage(Side::Sell, mid, bps).unwrap(), Dec::new(147, 2)));
    let (pnl, pct) = profit_and_loss(&vec![point(Dec::new(25, 2)), point(Dec::new(175, 2))]).unwrap();
    assert!(eq_value(pnl, Dec::new(15, 1)));
    assert!(eq_value(pct, Dec::from_u64(6)));
}

#[test]
fn decimal_overflow_is_reported() {
    let max = Dec::from_i128_with_scale(79228162514264337593543950335, 0);
    let min = Dec::from_i128_with_scale(-79228162514264337593543950335, 0);
    match profit_and_loss(&vec![point(min), point(max)]) {
        Err(Error::Invalid(m)) => assert_eq!(m, "decimal overflow"),
        other => panic!("unexpected {:?}", other),
    }
    assert!(apply_slippage(Side::Buy, max, Dec::from_u64(10_000)).is_none());
}

#[test]
fn decimal_order() {
    let a = Dec::new(15, 1);
    let b = Dec::new(150, 2);
    let c = Dec::new(25, 2);
    assert!(eq_value(a, b) && le(a, b) && !lt(a, b));
    assert!(lt(c, a) && !lt(a, c));
    assert!(eq_value(max_value(a, c), a));
    assert_eq!(max_value(a, b).scale(), 1);
    assert_eq!(ValueOrder::Less, ValueOrder::Less);
}

#[test]
fn slippage_moves_price_against_the_taker() {
    let mid = Dec::from_u64(10_000);
    let bps = Dec::from_u64(5);
    assert!(eq_value(apply_slippage(Side::Buy, mid, bps).unwrap(), Dec::from_u64(10_005)));
    assert!(eq_value(apply_slippage(Side::Sell, mid, bps).unwrap(), Dec::from_u64(9_995)));
}

#[test]
fn number_text_in_queries() {
    assert_eq!(canonical_query(vec![], -42, 0), "recvWindow=0&timestamp=-42");
    assert_eq!(
        canonical_query(vec![], 1_499_827_319_559, 18_446_744_073_709_551_615),
        "recvWindow=18446744073709551615&timestamp=1499827319559"
    );
    match maybe_binance_err(r#"{"code":-1121,"msg":"Invalid symbol."}"#) {
        Err(Error::ExecutionRejected(m)) => assert_eq!(m, "binance -1121: Invalid symbol."),
        other => panic!("unexpected {:?}", other),
    }
}

#[test]
fn text_order_case_and_trim() {
    let sorted = sort_params(vec![
        ("timestamp".to_string(), "1".to_string()),
        ("recvWindow".to_string(), "2".to_string()),
        ("Z".to_string(), "3".to_string()),
        ("a".to_string(), "4".to_string()),
    ]);
    assert_eq!(join_query(&sorted), "Z=3&a=4&recvWindow=2&timestamp=1");
    assert_eq!(parse_symbol_to_instrument("btcUsdt").symbol.0, "BTCUSDT");
    assert_eq!(normalize_base_url("https://x.test///"), "https://x.test");
    assert_eq!(normalize_base_url("https://x.test"), "https://x.test");
}

#[test]
fn hmac_signature_vectors() {
    assert_eq!(
        sign("key", "The quick brown fox jumps over the lazy dog"),
        "f7bc83f430538424b13298e6aa6fb143ef4d59a14946175997479dbc2d1a3cd8"
    );
    assert_eq!(
        sign(
            "NhqPtmdSJYdKjVHjA7PZj4Mge3R5YNiP1e3UZjInClVN65XAbvqqM6A7H5fATj0j",
            "symbol=LTCBTC&side=BUY&type=LIMIT&timeInForce=GTC&quantity=1&price=0.1&recvWindow=5000&timestamp=1499827319559",
        ),
        "c8db56825ae71d6d79447849e617115f4a920fa2acdcab2b053c4b2838bd6b71"
    );
}
