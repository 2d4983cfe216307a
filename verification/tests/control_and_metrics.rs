use athenas_pallas::control::{
    authorize, response_status, route_event, ControlServerConfig, HEADER_SECRET,
};
use athenas_pallas::decimal::{eq_value, Dec};
use athenas_pallas::events::ControlEvent;
use athenas_pallas::metrics::profit_and_loss;
use athenas_pallas::timestamp::Timestamp;
use athenas_pallas::types::EquityPoint;

fn t0() -> Timestamp {
    Timestamp::new(1_700_000_000_000_000_000, 0).unwrap()
}

fn curve() -> Vec<EquityPoint> {
    let t0 = t0();
    vec![
        EquityPoint { ts: t0, equity_quote: Dec::from_u64(100) },
        EquityPoint { ts: t0, equity_quote: Dec::from_u64(110) },
        EquityPoint { ts: t0, equity_quote: Dec::from_u64(105) },
        EquityPoint { ts: t0, equity_quote: Dec::from_u64(120) },
    ]
}

#[test]
fn pnl_matches() {
    let (pnl, pct) = profit_and_loss(&curve()).unwrap();
    assert!(eq_value(pnl, Dec::from_u64(20)));
    assert!(eq_value(pct, Dec::new(2, 1)));
}

#[test]
fn pnl_of_empty_and_zero_start() {
    let (pnl, pct) = profit_and_loss(&vec![]).unwrap();
    assert!(pnl.is_zero() && pct.is_zero());
    let t0 = t0();
    let c = vec![
        EquityPoint { ts: t0, equity_quote: Dec::zero() },
        EquityPoint { ts: t0, equity_quote: Dec::from_u64(5) },
    ];
    let (pnl, pct) = profit_and_loss(&c).unwrap();
    assert!(eq_value(pnl, Dec::from_u64(5)));
    assert!(pct.is_zero());
}

#[test]
fn control_requests() {
    let cfg = ControlServerConfig { bind: "127.0.0.1:9847".into(), secret: "s3".into() };
    assert_eq!(HEADER_SECRET, "x-pallas-secret");
    assert!(authorize(Some("s3"), &cfg.secret));
    assert!(!authorize(Some("s4"), &cfg.secret));
    assert!(!authorize(None, &cfg.secret));
    assert_eq!(route_event("/pause"), Some(ControlEvent::Pause));
    assert_eq!(route_event("/resume"), Some(ControlEvent::Resume));
    assert_eq!(route_event("/cancel-all"), Some(ControlEvent::CancelAll));
    assert_eq!(route_event("/flatten"), Some(ControlEvent::Flatten));
    assert_eq!(route_event("/other"), None);
    assert_eq!(response_status(false, true), 401);
    assert_eq!(response_status(true, true), 204);
    assert_eq!(response_status(true, false), 503);
}
