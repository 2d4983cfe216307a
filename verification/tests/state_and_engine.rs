use athenas_pallas::decimal::{eq_value, lt, Dec};
use athenas_pallas::engine::{
    dispatch_event, engine_step, EngineBuilder, EngineConfig, EngineStep, EventCycle, GatewayRequest,
};
use athenas_pallas::metrics::sample_equity;
use athenas_pallas::events::{
    AccountEvent, ControlEvent, Event, MarketEvent, OrderIntent, OrderIntentSource, TimerEvent,
};
use athenas_pallas::execution::paper::{PaperConfig, PaperGateway};
use athenas_pallas::execution::sim::SimGateway;
use athenas_pallas::keyed::KeyedVec;
use athenas_pallas::risk::{PauseCheck, RiskPipeline};
use athenas_pallas::state::{GlobalState, InstrumentMeta};
use athenas_pallas::strategy::{OneShotMarket, Quiet};
use athenas_pallas::timestamp::Timestamp;
use athenas_pallas::types::{Asset, InstrumentId, OpenOrder, OrderId, OrderStatus, OrderType, Side};

fn t0() -> Timestamp {
    Timestamp::new(1_700_000_000_000_000_000, 0).unwrap()
}

fn btc_usdt_state(usdt: u64, btc: Option<Dec>) -> GlobalState {
    let mut inst = KeyedVec::new();
    inst.insert(
        InstrumentId::new("binance", "BTCUSDT"),
        InstrumentMeta { base: Asset::new("BTC"), quote: Asset::new("USDT") },
    );
    let mut bal = KeyedVec::new();
    bal.insert(Asset::new("USDT"), Dec::from_u64(usdt));
    if let Some(b) = btc {
        bal.insert(Asset::new("BTC"), b);
    }
    GlobalState::new(inst, bal)
}

fn one_shot(inst: InstrumentId) -> OneShotMarket {
    OneShotMarket { instrument: inst, side: Side::Buy, qty: Dec::new(1, 3), fired: false }
}

fn book(bid: u64, ask: u64) -> Event {
    Event::Market(MarketEvent::BookL1 {
        instrument: InstrumentId::new("binance", "BTCUSDT"),
        ts: t0(),
        bid: Dec::from_u64(bid),
        ask: Dec::from_u64(ask),
    })
}

fn pause_pipeline() -> RiskPipeline<PauseCheck> {
    RiskPipeline::new(vec![PauseCheck::default()])
}

#[test]
fn mark_equity_includes_cash() {
    let mut inst = KeyedVec::new();
    inst.insert(
        InstrumentId::new("x", "BTCUSDT"),
        InstrumentMeta { base: Asset::new("BTC"), quote: Asset::new("USDT") },
    );
    let mut bal = KeyedVec::new();
    bal.insert(Asset::new("USDT"), Dec::from_u64(1000));
    let s = GlobalState::new(inst, bal);
    let eq = s.mark_equity_quote(&Asset::new("USDT")).unwrap();
    assert!(eq_value(eq, Dec::from_u64(1000)));
}

#[test]
fn mark_equity_values_positions_at_mid() {
    let mut s = btc_usdt_state(1000, None);
    s.positions.insert(InstrumentId::new("binance", "BTCUSDT"), Dec::new(2, 0));
    s.apply_market(&MarketEvent::BookL1 {
        instrument: InstrumentId::new("binance", "BTCUSDT"),
        ts: t0(),
        bid: Dec::from_u64(100),
        ask: Dec::from_u64(102),
    });
    let eq = s.mark_equity_quote(&Asset::new("USDT")).unwrap();
    assert!(eq_value(eq, Dec::from_u64(1202)));
    let mid = s.mid_or_last(&InstrumentId::new("binance", "BTCUSDT")).unwrap();
    assert!(eq_value(mid, Dec::from_u64(101)));
}

#[test]
fn mid_falls_back_to_last_trade() {
    let mut s = btc_usdt_state(1000, None);
    let i = InstrumentId::new("binance", "BTCUSDT");
    assert!(s.mid_or_last(&i).is_none());
    s.apply_market(&MarketEvent::Trade {
        instrument: InstrumentId::new("binance", "BTCUSDT"),
        ts: t0(),
        price: Dec::from_u64(250),
        qty: Dec::one(),
    });
    assert!(eq_value(s.mid_or_last(&i).unwrap(), Dec::from_u64(250)));
}

#[test]
fn fills_move_positions_and_order_updates_track_open_orders() {
    let mut s = btc_usdt_state(1000, None);
    let i = InstrumentId::new("binance", "BTCUSDT");
    s.apply_account(&AccountEvent::Fill {
        order_id: OrderId::from_venue_u64(1),
        instrument: InstrumentId::new("binance", "BTCUSDT"),
        side: Side::Buy,
        price: Dec::from_u64(100),
        qty: Dec::new(3, 0),
        fee: Dec::zero(),
        fee_asset: Asset::new("USDT"),
    })
    .unwrap();
    s.apply_account(&AccountEvent::Fill {
        order_id: OrderId::from_venue_u64(2),
        instrument: InstrumentId::new("binance", "BTCUSDT"),
        side: Side::Sell,
        price: Dec::from_u64(100),
        qty: Dec::new(5, 0),
        fee: Dec::zero(),
        fee_asset: Asset::new("USDT"),
    })
    .unwrap();
    assert!(eq_value(*s.positions.get(&i).unwrap(), Dec::new(-2, 0)));

    s.apply_account(&AccountEvent::OrderUpdate {
        id: OrderId::from_venue_u64(9),
        instrument: InstrumentId::new("binance", "BTCUSDT"),
        side: Side::Buy,
        order_type: OrderType::Limit,
        price: Some(Dec::from_u64(90)),
        remaining_qty: Dec::one(),
        original_qty: Dec::one(),
        status: OrderStatus::Open,
    })
    .unwrap();
    assert!(s.open_orders.contains_key(&OrderId::from_venue_u64(9)));
    s.apply_account(&AccountEvent::OrderUpdate {
        id: OrderId::from_venue_u64(9),
        instrument: InstrumentId::new("binance", "BTCUSDT"),
        side: Side::Buy,
        order_type: OrderType::Limit,
        price: Some(Dec::from_u64(90)),
        remaining_qty: Dec::zero(),
        original_qty: Dec::one(),
        status: OrderStatus::Filled,
    })
    .unwrap();
    assert!(!s.open_orders.contains_key(&OrderId::from_venue_u64(9)));
}

#[test]
fn daily_anchor_set_on_first_tick() {
    let mut s = btc_usdt_state(1000, None);
    s.daily_risk_quote = Some(Asset::new("USDT"));
    let now = t0();
    s.refresh_daily_risk_anchor(now).unwrap();
    let (day, eq) = s.risk_day_anchor.unwrap();
    assert_eq!(day, now.utc_day());
    assert!(eq_value(eq, Dec::from_u64(1000)));
}

#[test]
fn daily_anchor_takes_the_utc_day() {
    let mut s = btc_usdt_state(1000, None);
    s.daily_risk_quote = Some(Asset::new("USDT"));
    // 1970-01-01T23:00:00Z seen at +02:00 is already 1970-01-02 locally.
    let now = Timestamp::new(82_800_000_000_000, 7200).unwrap();
    assert_eq!(now.calendar_day(), 2_440_589);
    s.refresh_daily_risk_anchor(now).unwrap();
    let (day, _) = s.risk_day_anchor.unwrap();
    assert_eq!(day, 2_440_588);
}

#[test]
fn paper_market_updates_balances() {
    let inst = InstrumentId::new("binance", "BTCUSDT");
    let mut state = btc_usdt_state(10_000, Some(Dec::zero()));
    let mut strat = one_shot(inst);
    let risk = pause_pipeline();
    let exec = PaperGateway::new(PaperConfig::default());
    dispatch_event(&mut state, &mut strat, &risk, &exec, book(100_000, 100_010)).unwrap();
    let btc = *state.balances.get(&Asset::new("BTC")).unwrap();
    assert!(lt(Dec::zero(), btc));
}

#[test]
fn flatten_closes_position_when_paused() {
    let inst = InstrumentId::new("binance", "BTCUSDT");
    let mut state = btc_usdt_state(10_000, Some(Dec::new(1, 3)));
    state.positions.insert(InstrumentId::new("binance", "BTCUSDT"), Dec::new(1, 3));
    state.paused = true;
    let mut strat = Quiet;
    let risk = pause_pipeline();
    let exec = PaperGateway::new(PaperConfig::default());
    dispatch_event(&mut state, &mut strat, &risk, &exec, book(40_000, 40_010)).unwrap();
    dispatch_event(&mut state, &mut strat, &risk, &exec, Event::Control(ControlEvent::Flatten))
        .unwrap();
    let pos = match state.positions.get(&inst) {
        Some(p) => *p,
        None => Dec::zero(),
    };
    assert!(lt(pos.abs(), Dec::new(1, 6)));
}

#[test]
fn pause_then_resume_controls_strategy_orders() {
    let inst = InstrumentId::new("binance", "BTCUSDT");
    let mut state = btc_usdt_state(10_000, Some(Dec::zero()));
    let mut strat = one_shot(inst);
    let risk = pause_pipeline();
    let exec = PaperGateway::new(PaperConfig::default());
    engine_step(&mut state, &mut strat, &risk, &exec, Event::Control(ControlEvent::Pause)).unwrap();
    assert!(state.paused);
    engine_step(&mut state, &mut strat, &risk, &exec, book(100_000, 100_010)).unwrap();
    assert!(!strat.fired);
    assert!(state.balances.get(&Asset::new("BTC")).unwrap().is_zero());
    engine_step(&mut state, &mut strat, &risk, &exec, Event::Control(ControlEvent::Resume)).unwrap();
    assert!(!state.paused);
    engine_step(&mut state, &mut strat, &risk, &exec, book(100_000, 100_010)).unwrap();
    assert!(strat.fired);
    assert!(lt(Dec::zero(), *state.balances.get(&Asset::new("BTC")).unwrap()));
}

#[test]
fn run_batch_replays_events_with_sim_gateway() {
    let inst = InstrumentId::new("binance", "BTCUSDT");
    let state = btc_usdt_state(10_000, Some(Dec::zero()));
    let strat = one_shot(inst);
    let risk = pause_pipeline();
    let exec = SimGateway::default();
    let events = vec![
        book(100_000, 100_010),
        Event::Timer(TimerEvent { ts: t0(), id: 3 }),
        book(100_100, 100_110),
    ];
    let out = EngineBuilder::run_batch(state, strat, &risk, &exec, events).unwrap();
    assert!(lt(Dec::zero(), *out.balances.get(&Asset::new("BTC")).unwrap()));
}

#[test]
fn engine_config_default_capacity() {
    let cfg = EngineConfig::default();
    assert_eq!(cfg.channel_capacity, 1024);
    assert!(cfg.timer_schedules.is_empty());
}

#[test]
fn cancel_all_command_clears_resting_orders() {
    let mut state = btc_usdt_state(10_000, Some(Dec::zero()));
    for n in [4u64, 5u64] {
        state.open_orders.insert(
            OrderId::from_venue_u64(n),
            OpenOrder {
                id: OrderId::from_venue_u64(n),
                instrument: InstrumentId::new("binance", "BTCUSDT"),
                side: Side::Buy,
                order_type: OrderType::Limit,
                price: Some(Dec::from_u64(90)),
                remaining_qty: Dec::one(),
                original_qty: Dec::one(),
                status: OrderStatus::Open,
            },
        );
    }
    let mut strat = Quiet;
    let risk = pause_pipeline();
    let exec = PaperGateway::new(PaperConfig::default());
    dispatch_event(&mut state, &mut strat, &risk, &exec, Event::Control(ControlEvent::CancelAll))
        .unwrap();
    assert_eq!(state.open_orders.len(), 0);
    assert!(state.balances.get(&Asset::new("BTC")).unwrap().is_zero());
}

#[test]
fn paused_account_event_is_applied() {
    let mut state = btc_usdt_state(10_000, None);
    state.paused = true;
    let mut strat = Quiet;
    let risk = pause_pipeline();
    let exec = PaperGateway::new(PaperConfig::default());
    let ev = Event::Account(AccountEvent::Balance { asset: Asset::new("BTC"), free: Dec::new(5, 1) });
    dispatch_event(&mut state, &mut strat, &risk, &exec, ev).unwrap();
    assert!(state.paused);
    assert!(eq_value(*state.balances.get(&Asset::new("BTC")).unwrap(), Dec::new(5, 1)));
}

#[test]
fn second_refresh_at_the_same_instant_keeps_the_anchor() {
    let mut s = btc_usdt_state(1000, None);
    s.daily_risk_quote = Some(Asset::new("USDT"));
    let now = t0();
    s.refresh_daily_risk_anchor(now).unwrap();
    s.balances.insert(Asset::new("USDT"), Dec::from_u64(400));
    s.refresh_daily_risk_anchor(now).unwrap();
    let (day, eq) = s.risk_day_anchor.unwrap();
    assert_eq!(day, now.utc_day());
    assert!(eq_value(eq, Dec::from_u64(1000)));
}

#[test]
fn cycle_asks_the_strategy_and_places_what_it_gives() {
    let mut state = btc_usdt_state(10_000, Some(Dec::zero()));
    let risk = pause_pipeline();
    let mut cycle = EventCycle::new(Event::Timer(TimerEvent { ts: t0(), id: 1 }));
    let first = cycle.advance(&mut state, &risk, None, Vec::new());
    assert!(matches!(first, EngineStep::AskStrategy));
    assert_eq!(cycle.engine_time().unix_nanos(), t0().unix_nanos());
    let intent = OrderIntent {
        instrument: InstrumentId::new("binance", "BTCUSDT"),
        side: Side::Buy,
        order_type: OrderType::Market,
        price: None,
        qty: Dec::new(1, 3),
        client_order_id: None,
        source: OrderIntentSource::User,
    };
    let second = cycle.advance(&mut state, &risk, None, vec![intent]);
    match second {
        EngineStep::Request(GatewayRequest::PlaceMarket(i)) => {
            assert!(eq_value(i.qty, Dec::new(1, 3)));
            assert!(matches!(i.side, Side::Buy));
        }
        other => panic!("expected a market order request, got {:?}", other),
    }
    let third = cycle.advance(&mut state, &risk, Some(Ok(Vec::new())), Vec::new());
    assert!(matches!(third, EngineStep::Done(Ok(()))));
}

#[test]
fn paused_cycle_does_not_ask_the_strategy() {
    let mut state = btc_usdt_state(10_000, Some(Dec::zero()));
    state.paused = true;
    let risk = pause_pipeline();
    let mut cycle = EventCycle::new(Event::Timer(TimerEvent { ts: t0(), id: 1 }));
    let first = cycle.advance(&mut state, &risk, None, Vec::new());
    assert!(matches!(first, EngineStep::Done(Ok(()))));
}

#[test]
fn equity_sampled_only_once_priced() {
    let mut state = btc_usdt_state(10_000, Some(Dec::one()));
    let inst = InstrumentId::new("binance", "BTCUSDT");
    let mut curve = Vec::new();
    sample_equity(&state, &inst, t0(), &mut curve);
    assert!(curve.is_empty());
    let mut strat = Quiet;
    let risk = pause_pipeline();
    let exec = PaperGateway::new(PaperConfig::default());
    dispatch_event(&mut state, &mut strat, &risk, &exec, book(100, 102)).unwrap();
    sample_equity(&state, &inst, t0(), &mut curve);
    assert_eq!(curve.len(), 1);
    assert!(eq_value(curve[0].equity_quote, Dec::from_u64(10_101)));
}

#[test]
fn fresh_order_ids_are_version_four() {
    let id = OrderId::new_v4();
    assert_eq!(id.0 & 0xF000C000000000000000u128, 0x40008000000000000000u128);
}

#[test]
fn sim_cancel_is_paper_cancel() {
    let mut state = btc_usdt_state(10_000, Some(Dec::zero()));
    state.open_orders.insert(
        OrderId::from_venue_u64(4),
        OpenOrder {
            id: OrderId::from_venue_u64(4),
            instrument: InstrumentId::new("binance", "BTCUSDT"),
            side: Side::Sell,
            order_type: OrderType::Limit,
            price: Some(Dec::from_u64(200)),
            remaining_qty: Dec::one(),
            original_qty: Dec::one(),
            status: OrderStatus::Open,
        },
    );
    let sim = SimGateway::new(PaperConfig::default());
    let paper = PaperGateway::new(PaperConfig::default());
    let a = sim.gateway().cancel(&state, OrderId::from_venue_u64(4)).unwrap();
    let b = paper.cancel(&state, OrderId::from_venue_u64(4)).unwrap();
    assert_eq!(format!("{:?}", a), format!("{:?}", b));
    assert_eq!(a.len(), 1);
    assert!(sim.gateway().cancel(&state, OrderId::from_venue_u64(5)).is_err());
    assert!(paper.cancel(&state, OrderId::from_venue_u64(5)).is_err());
}
