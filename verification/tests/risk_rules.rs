use athenas_pallas::decimal::Dec;
use athenas_pallas::error::Error;
use athenas_pallas::events::{OrderIntent, OrderIntentSource};
use athenas_pallas::keyed::KeyedVec;
use athenas_pallas::risk::{MaxDailyLossQuote, MaxPositionSize, PauseCheck, RiskCheck, RiskPipeline, RiskRule};
use athenas_pallas::state::{GlobalState, InstrumentMeta};
use athenas_pallas::timestamp::Timestamp;
use athenas_pallas::types::{Asset, InstrumentId, OrderType, Side};

fn t0() -> Timestamp {
    Timestamp::new(1_700_000_000_000_000_000, 0).unwrap()
}

fn state_with_usdt(i: &InstrumentId, usdt: u64) -> GlobalState {
    let mut inst = KeyedVec::new();
    inst.insert(
        InstrumentId::new(&i.exchange.0, &i.symbol.0),
        InstrumentMeta { base: Asset::new("BTC"), quote: Asset::new("USDT") },
    );
    let mut bal = KeyedVec::new();
    bal.insert(Asset::new("USDT"), Dec::from_u64(usdt));
    GlobalState::new(inst, bal)
}

fn buy(i: &InstrumentId, qty: Dec) -> OrderIntent {
    OrderIntent {
        instrument: InstrumentId::new(&i.exchange.0, &i.symbol.0),
        side: Side::Buy,
        order_type: OrderType::Market,
        price: None,
        qty,
        client_order_id: None,
        source: OrderIntentSource::User,
    }
}

#[test]
fn max_position_rejects() {
    let i = InstrumentId::new("t", "BTCUSDT");
    let st = state_with_usdt(&i, 10_000);
    let rule = MaxPositionSize { instrument: InstrumentId::new("t", "BTCUSDT"), max_abs: Dec::one() };
    let intent = buy(&i, Dec::from_u64(5));
    assert!(rule.check(&st, &intent).is_err());
}

#[test]
fn pause_blocks_user_not_flatten() {
    let i = InstrumentId::new("t", "BTCUSDT");
    let mut st = state_with_usdt(&i, 10_000);
    st.paused = true;
    let pause = PauseCheck::default();
    let mut intent = buy(&i, Dec::one());
    assert!(pause.check(&st, &intent).is_err());
    intent.source = OrderIntentSource::Flatten;
    assert!(pause.check(&st, &intent).is_ok());
}

#[test]
fn max_daily_loss_blocks_after_anchor_drop() {
    let i = InstrumentId::new("t", "BTCUSDT");
    let mut st = state_with_usdt(&i, 8500);
    st.daily_risk_quote = Some(Asset::new("USDT"));
    st.risk_day_anchor = Some((t0().utc_day(), Dec::from_u64(10_000)));
    let rule = MaxDailyLossQuote { quote: Asset::new("USDT"), max_loss: Dec::from_u64(1000) };
    let intent = buy(&i, Dec::one());
    assert!(rule.check(&st, &intent).is_err());

    let mut intent_f = intent.duplicate();
    intent_f.source = OrderIntentSource::Flatten;
    assert!(rule.check(&st, &intent_f).is_ok());
}

#[test]
fn max_position_passes_within_limit_and_other_instruments() {
    let i = InstrumentId::new("t", "BTCUSDT");
    let st = state_with_usdt(&i, 10_000);
    let rule = MaxPositionSize { instrument: InstrumentId::new("t", "BTCUSDT"), max_abs: Dec::one() };
    assert!(rule.check(&st, &buy(&i, Dec::one())).is_ok());
    let other = InstrumentId::new("t", "ETHUSDT");
    assert!(rule.check(&st, &buy(&other, Dec::from_u64(50))).is_ok());
}

#[test]
fn max_position_message_names_position_and_limit() {
    let i = InstrumentId::new("t", "BTCUSDT");
    let st = state_with_usdt(&i, 10_000);
    let rule = MaxPositionSize { instrument: InstrumentId::new("t", "BTCUSDT"), max_abs: Dec::one() };
    match rule.check(&st, &buy(&i, Dec::from_u64(5))) {
        Err(Error::RiskRejected(m)) => assert_eq!(m, "position 5 exceeds max 1"),
        other => panic!("unexpected {:?}", other),
    }
}

#[test]
fn pause_check_passes_when_running() {
    let i = InstrumentId::new("t", "BTCUSDT");
    let st = state_with_usdt(&i, 10_000);
    assert!(PauseCheck::default().check(&st, &buy(&i, Dec::one())).is_ok());
}

#[test]
fn paused_message() {
    let i = InstrumentId::new("t", "BTCUSDT");
    let mut st = state_with_usdt(&i, 10_000);
    st.paused = true;
    match PauseCheck::default().check(&st, &buy(&i, Dec::one())) {
        Err(Error::RiskRejected(m)) => assert_eq!(m, "engine paused"),
        other => panic!("unexpected {:?}", other),
    }
}

#[test]
fn daily_loss_passes_without_anchor_and_within_limit() {
    let i = InstrumentId::new("t", "BTCUSDT");
    let mut st = state_with_usdt(&i, 8500);
    let rule = MaxDailyLossQuote { quote: Asset::new("USDT"), max_loss: Dec::from_u64(1000) };
    assert!(rule.check(&st, &buy(&i, Dec::one())).is_ok());
    st.risk_day_anchor = Some((t0().utc_day(), Dec::from_u64(9000)));
    assert!(rule.check(&st, &buy(&i, Dec::one())).is_ok());
    st.risk_day_anchor = Some((t0().utc_day(), Dec::from_u64(10_000)));
    match rule.check(&st, &buy(&i, Dec::one())) {
        Err(Error::RiskRejected(m)) => {
            assert_eq!(m, "max daily loss exceeded: 1500 USDT (limit 1000)")
        }
        other => panic!("unexpected {:?}", other),
    }
}

#[test]
fn pipeline_returns_first_rejection() {
    let i = InstrumentId::new("t", "BTCUSDT");
    let mut st = state_with_usdt(&i, 10_000);
    st.paused = true;
    let pipeline = RiskPipeline::new(vec![
        RiskRule::MaxPositionSize(MaxPositionSize {
            instrument: InstrumentId::new("t", "BTCUSDT"),
            max_abs: Dec::one(),
        }),
        RiskRule::Pause(PauseCheck),
    ]);
    match pipeline.validate(&st, &buy(&i, Dec::from_u64(5))) {
        Err(Error::RiskRejected(m)) => assert_eq!(m, "position 5 exceeds max 1"),
        other => panic!("unexpected {:?}", other),
    }
    match pipeline.validate(&st, &buy(&i, Dec::one())) {
        Err(Error::RiskRejected(m)) => assert_eq!(m, "engine paused"),
        other => panic!("unexpected {:?}", other),
    }
    st.paused = false;
    assert!(pipeline.validate(&st, &buy(&i, Dec::one())).is_ok());
}
