use mev_bot_solana::arbitrage_strategy::{ArbitrageBot, BotConfig};
use mev_bot_solana::copy_trade_strategy::CopyTradeStrategy;
use mev_bot_solana::detector::{check_pair, detect, CandidateQueue, Direction};
use mev_bot_solana::execution::{
    after_submit, first_path, settle, ExecStep, ExecutionError, Receipt, SubmissionPath, SubmitError,
};
use mev_bot_solana::risk::{
    check_risk, evaluate_arbitrage, evaluate_copy_trade, net_profit, Decision, RejectReason, RiskParams,
};
use mev_bot_solana::pool_cache::{PoolCache, PoolState, Venue, PRICE_SCALE};
use mev_bot_solana::position::PositionManager;
use mev_bot_solana::scanner::{
    CopyTradeOpportunity,
    decode_order, scan_actor, scan_transaction, to_opportunity, AccountKey, DecodeError, FetchOutcome,
    Market, OrderStatus, OrderType, RawInstruction, Side, TradeRecord, NEW_ORDER_TAG,
};

fn pool(pool_id: u64, venue: Venue, price: u64) -> PoolState {
    PoolState {
        pool_id,
        venue,
        liquidity: 1000,
        price,
        tick_spacing: 1,
        fee_rate: 0,
        token_a: 1,
        token_b: 2,
    }
}

fn key(b: u8) -> AccountKey {
    AccountKey([b; 32])
}

fn order_data(side: u8, order_type: u8, price: u64, quantity: u64) -> Vec<u8> {
    let mut d = vec![NEW_ORDER_TAG, side, order_type];
    d.extend_from_slice(&price.to_le_bytes());
    d.extend_from_slice(&quantity.to_le_bytes());
    d
}

fn order_ins(quantity: u64) -> RawInstruction {
    RawInstruction { market: key(7), data: order_data(0, 0, 1_000_000, quantity) }
}

fn params(min_profit_threshold: i64) -> RiskParams {
    RiskParams { min_profit_threshold, max_trade_size: 1_000_000_000, max_venue_amount: 1_000_000_000 }
}

fn receipt() -> Receipt {
    Receipt { signature: "sig".to_string() }
}

// ---- detection and risk ----

#[test]
fn detector_finds_cross_venue_route() {
    let pools = vec![pool(1, Venue::Raydium, 1_000_000), pool(2, Venue::Orca, 1_020_000)];
    let found = detect(&pools, 10_000_000);
    assert_eq!(found.len(), 1);
    let o = &found[0];
    assert_eq!(o.amount_in, 10_000_000);
    assert_eq!(o.expected_out, 10_200_000);
    assert_eq!(o.legs.len(), 2);
    assert_eq!(o.legs[0].pool_id, 1);
    assert_eq!(o.legs[0].direction, Direction::BToA);
    assert_eq!(o.legs[1].pool_id, 2);
    assert_eq!(o.legs[1].direction, Direction::AToB);
    assert_eq!(o.expected_out - o.amount_in, 200_000);
}

#[test]
fn detected_route_verdict_depends_on_cost() {
    let pm = PositionManager::new(1_000_000_000);
    let legs = vec![(10_000_000u64, 10_000_000u64), (10_000_000u64, 10_200_000u64)];
    let expensive = net_profit(&legs, 250_000);
    assert_eq!(expensive, -50_000);
    assert_eq!(
        evaluate_arbitrage(&params(0), &pm, expensive, 10_000_000),
        Decision::Reject(RejectReason::Unprofitable)
    );
    let cheap = net_profit(&legs, 100_000);
    assert_eq!(cheap, 100_000);
    assert_eq!(evaluate_arbitrage(&params(0), &pm, cheap, 10_000_000), Decision::Accept);
}

#[test]
fn same_venue_or_other_pair_is_no_candidate() {
    let a = pool(1, Venue::Orca, 1_000_000);
    let b = pool(2, Venue::Orca, 1_020_000);
    assert!(check_pair(&a, &b, 10_000_000).is_none());
    let mut c = pool(3, Venue::Meteora, 1_020_000);
    c.token_b = 9;
    assert!(check_pair(&a, &c, 10_000_000).is_none());
    assert!(detect(&vec![a, b, c], 10_000_000).is_empty());
}

#[test]
fn unprofitable_direction_and_zero_price_are_skipped() {
    let a = pool(1, Venue::Raydium, 1_000_000);
    let b = pool(2, Venue::Jupiter, 1_020_000);
    assert!(check_pair(&b, &a, 10_000_000).is_none());
    let z = pool(3, Venue::Jupiter, 0);
    assert!(check_pair(&a, &z, 10_000_000).is_none());
    assert!(detect(&Vec::new(), 10).is_empty());
}

#[test]
fn profit_equal_to_threshold_is_rejected() {
    let pm = PositionManager::new(100);
    assert_eq!(
        evaluate_arbitrage(&params(50), &pm, 50, 10),
        Decision::Reject(RejectReason::Unprofitable)
    );
    assert_eq!(evaluate_arbitrage(&params(50), &pm, 51, 10), Decision::Accept);
    assert_eq!(
        evaluate_arbitrage(&params(50), &pm, -5, 10),
        Decision::Reject(RejectReason::Unprofitable)
    );
}

#[test]
fn risk_policy_caps_size_and_exposure() {
    let mut pm = PositionManager::new(100);
    let p = RiskParams { min_profit_threshold: 0, max_trade_size: 60, max_venue_amount: 60 };
    assert_eq!(check_risk(&p, &pm, 61), Some(RejectReason::TradeTooLarge));
    assert_eq!(evaluate_copy_trade(&p, &pm, 60), Decision::Accept);
    assert!(pm.try_accept(60));
    assert_eq!(
        evaluate_arbitrage(&p, &pm, 1000, 50),
        Decision::Reject(RejectReason::ExposureLimit)
    );
    assert_eq!(evaluate_copy_trade(&p, &pm, 40), Decision::Accept);
    assert_eq!(evaluate_copy_trade(&p, &pm, 41), Decision::Reject(RejectReason::ExposureLimit));
}

#[test]
fn net_profit_sums_legs_minus_cost() {
    assert_eq!(net_profit(&Vec::new(), 7), -7);
    let legs = vec![(100u64, 90u64), (90u64, 130u64), (u64::MAX, 0u64)];
    assert_eq!(net_profit(&legs, 5), 30 - 5 - u64::MAX as i128);
}

// ---- position accounting ----

#[test]
fn exposure_is_sum_of_accepted_sizes() {
    let mut pm = PositionManager::new(100);
    assert!(pm.try_accept(30));
    assert!(pm.try_accept(50));
    assert_eq!(pm.exposure(), 80);
    assert!(!pm.try_accept(21));
    assert_eq!(pm.exposure(), 80);
    assert!(pm.try_accept(20));
    assert_eq!(pm.exposure(), 100);
    assert!(!pm.permits(1));
    assert!(pm.permits(0));
    assert_eq!(pm.limit(), 100);
}

// ---- pool cache ----

#[test]
fn refresh_twice_equals_once() {
    let mut once = PoolCache::new();
    let mut twice = PoolCache::new();
    let s = pool(4, Venue::Orca, 2_000_000);
    once.refresh(4, s);
    twice.refresh(4, s);
    twice.refresh(4, s);
    assert_eq!(once.len(), twice.len());
    assert_eq!(once.get_snapshot(4), twice.get_snapshot(4));
    assert_eq!(twice.get_snapshot(4), Some(s));
}

#[test]
fn cache_replaces_and_reports_unknown() {
    let mut c = PoolCache::new();
    assert_eq!(c.get_snapshot(1), None);
    c.refresh(1, pool(1, Venue::Orca, 5));
    c.refresh(2, pool(2, Venue::Raydium, 6));
    c.refresh(1, pool(1, Venue::Orca, 7));
    assert_eq!(c.len(), 2);
    assert_eq!(c.get_snapshot(1).map(|p| p.price), Some(7));
    assert_eq!(c.get_snapshot(3), None);
    // the id given to refresh wins over the id inside the snapshot
    c.refresh(9, pool(1, Venue::Orca, 8));
    assert_eq!(c.get_snapshot(9).map(|p| p.pool_id), Some(9));
    assert_eq!(c.snapshots().len(), 3);
}

// ---- candidate queue ----

#[test]
fn full_queue_drops_newest() {
    let pools = vec![pool(1, Venue::Raydium, 1_000_000), pool(2, Venue::Orca, 1_020_000)];
    let mut q = CandidateQueue::new(1);
    let first = detect(&pools, 10_000_000).remove(0);
    let second = detect(&pools, 20_000_000).remove(0);
    assert!(q.offer(first));
    assert!(!q.offer(second));
    assert_eq!(q.len(), 1);
    assert_eq!(q.take().map(|o| o.amount_in), Some(10_000_000));
    assert!(q.take().is_none());
}

// ---- arbitrage bot ----

fn bot_config(relay_configured: bool) -> BotConfig {
    BotConfig {
        risk_params: params(0),
        position_limit: 1_000_000_000,
        queue_capacity: 8,
        trade_amount: 10_000_000,
        relay_configured,
    }
}

#[test]
fn bot_cycle_queues_and_settles() {
    let mut bot = ArbitrageBot::new(bot_config(true));
    bot.refresh_pool(1, pool(1, Venue::Raydium, 1_000_000));
    bot.refresh_pool(2, pool(2, Venue::Orca, 1_020_000));
    assert_eq!(bot.pool(2).map(|p| p.price), Some(1_020_000));
    assert_eq!(bot.monitor_pools(), 1);
    let o = bot.next_candidate().unwrap();
    assert!(bot.next_candidate().is_none());
    let legs = vec![(o.amount_in, o.amount_in), (o.amount_in, o.expected_out)];
    assert_eq!(bot.validate_opportunity(&legs, 100_000, o.amount_in), Decision::Accept);
    assert_eq!(
        bot.validate_opportunity(&legs, 300_000, o.amount_in),
        Decision::Reject(RejectReason::Unprofitable)
    );
    assert_eq!(bot.submission_path(), SubmissionPath::Relay);
    assert!(bot.execute_arbitrage(o.amount_in, Err(ExecutionError::Transport)).is_err());
    assert_eq!(bot.exposure(), 0);
    assert!(bot.execute_arbitrage(o.amount_in, Ok(receipt())).is_ok());
    assert_eq!(bot.exposure(), 10_000_000);
}

// ---- execution ----

#[test]
fn no_relay_falls_back_to_standard_and_returns_receipt() {
    let path = first_path(false);
    assert_eq!(path, SubmissionPath::Standard);
    match after_submit(path, Ok(receipt())) {
        ExecStep::Finished(Ok(r)) => assert_eq!(r.signature, "sig"),
        other => panic!("unexpected step {:?}", other),
    }
    assert_eq!(ArbitrageBot::new(bot_config(false)).submission_path(), SubmissionPath::Standard);
}

#[test]
fn relay_refusal_hands_over_to_standard() {
    assert_eq!(first_path(true), SubmissionPath::Relay);
    assert!(matches!(
        after_submit(SubmissionPath::Relay, Err(SubmitError::Rejected)),
        ExecStep::Submit(SubmissionPath::Standard)
    ));
    assert!(matches!(
        after_submit(SubmissionPath::Relay, Err(SubmitError::RelayUnavailable)),
        ExecStep::Submit(SubmissionPath::Standard)
    ));
    assert!(matches!(
        after_submit(SubmissionPath::Relay, Err(SubmitError::Transport)),
        ExecStep::Finished(Err(ExecutionError::Transport))
    ));
    assert!(matches!(
        after_submit(SubmissionPath::Standard, Err(SubmitError::Rejected)),
        ExecStep::Finished(Err(ExecutionError::Rejected))
    ));
    assert!(matches!(
        after_submit(SubmissionPath::Standard, Err(SubmitError::Transport)),
        ExecStep::Finished(Err(ExecutionError::Transport))
    ));
}

#[test]
fn settle_updates_exposure_only_on_success() {
    let mut pm = PositionManager::new(100);
    assert!(settle(&mut pm, 40, Err(ExecutionError::Rejected)).is_err());
    assert_eq!(pm.exposure(), 0);
    assert!(settle(&mut pm, 40, Ok(receipt())).is_ok());
    assert_eq!(pm.exposure(), 40);
    assert!(ExecutionError::Transport.is_retryable());
    assert!(!ExecutionError::Rejected.is_retryable());
}

// ---- decoding and scanning ----

#[test]
fn decodes_order_fields() {
    let ins = RawInstruction { market: key(3), data: order_data(1, 2, 123_456, 0x0102_0304_0506_0708) };
    let t = decode_order(key(9), &ins).unwrap();
    assert_eq!(t.actor, key(9));
    assert_eq!(t.market, key(3));
    assert_eq!(t.side, Side::Ask);
    assert_eq!(t.order_type, OrderType::PostOnly);
    assert_eq!(t.price, 123_456);
    assert_eq!(t.quantity, 0x0102_0304_0506_0708);
    assert_eq!(t.status, OrderStatus::Filled);
}

#[test]
fn decode_errors() {
    let ins = |data: Vec<u8>| RawInstruction { market: key(1), data };
    assert_eq!(decode_order(key(1), &ins(vec![])).unwrap_err(), DecodeError::TooShort);
    assert_eq!(decode_order(key(1), &ins(vec![3, 0, 0])).unwrap_err(), DecodeError::NotNewOrder);
    assert_eq!(decode_order(key(1), &ins(vec![NEW_ORDER_TAG, 0, 0])).unwrap_err(), DecodeError::TooShort);
    assert_eq!(decode_order(key(1), &ins(order_data(2, 0, 1, 1))).unwrap_err(), DecodeError::BadSide);
    assert_eq!(decode_order(key(1), &ins(order_data(0, 3, 1, 1))).unwrap_err(), DecodeError::BadOrderType);
}

#[test]
fn malformed_instruction_is_skipped() {
    let instrs = vec![
        RawInstruction { market: key(1), data: vec![NEW_ORDER_TAG, 9] },
        order_ins(5),
        order_ins(50),
        order_ins(1),
        order_ins(10),
    ];
    let found = scan_transaction(key(2), &instrs);
    let q: Vec<u64> = found.iter().map(|t| t.quantity).collect();
    assert_eq!(q, vec![5, 50, 1, 10]);
}

#[test]
fn timed_out_signature_is_skipped() {
    let outcomes = vec![
        FetchOutcome::Fetched(vec![order_ins(3)]),
        FetchOutcome::TimedOut,
        FetchOutcome::TransportFailed,
        FetchOutcome::Missing,
        FetchOutcome::Fetched(vec![order_ins(4), order_ins(60)]),
    ];
    let found = scan_actor(key(2), &outcomes);
    let q: Vec<u64> = found.iter().map(|t| t.quantity).collect();
    assert_eq!(q, vec![3, 4, 60]);
    assert!(found.iter().all(|t| t.actor == key(2)));
}

fn market() -> Market {
    Market { address: key(7), base_mint: key(8), quote_mint: key(9) }
}

#[test]
fn copy_trade_band_scenario() {
    let s = CopyTradeStrategy::new(vec![key(2)], 1, 10, 500);
    assert_eq!(s.polling_interval_ms, 500);
    let inside = s.get_recent_trades(key(2), &vec![FetchOutcome::Fetched(vec![order_ins(5)])]);
    assert_eq!(inside.len(), 1);
    let opps = s.find_opportunities(key(2), &inside, &vec![Some(market())]);
    assert_eq!(opps.len(), 1);
    assert_eq!(opps[0].trade.quantity, 5);
    assert_eq!(opps[0].trader, key(2));
    let outside = s.get_recent_trades(key(2), &vec![FetchOutcome::Fetched(vec![order_ins(50)])]);
    assert_eq!(outside.len(), 1);
    assert!(s.find_opportunities(key(2), &outside, &vec![Some(market())]).is_empty());
}

#[test]
fn unresolved_market_or_out_of_band_gives_no_opportunity() {
    let s = CopyTradeStrategy::new(vec![key(2)], 1, 10, 500);
    let t = |quantity: u64| TradeRecord {
        actor: key(2),
        market: key(7),
        side: Side::Bid,
        order_type: OrderType::Limit,
        price: 1,
        quantity,
        status: OrderStatus::Filled,
    };
    let trades = vec![t(5), t(50), t(0), t(10)];
    let markets = vec![None, Some(market()), Some(market()), Some(market())];
    let opps = s.find_opportunities(key(2), &trades, &markets);
    assert_eq!(opps.len(), 1);
    assert_eq!(opps[0].trade.quantity, 10);
    assert!(to_opportunity(key(2), t(5), Some(market()), 1, 10).is_some());
    assert!(to_opportunity(key(2), t(11), Some(market()), 1, 10).is_none());
    assert!(to_opportunity(key(2), t(5), None, 1, 10).is_none());
}

#[test]
fn price_scale_is_one_million() {
    assert_eq!(PRICE_SCALE, 1_000_000);
}

#[test]
fn one_cycle_queues_exactly_the_cross_venue_route() {
    let mut bot = ArbitrageBot::new(bot_config(false));
    bot.refresh_pool(1, pool(1, Venue::Raydium, 1_000_000));
    bot.refresh_pool(2, pool(2, Venue::Orca, 1_020_000));
    assert_eq!(bot.monitor_pools(), 1);
    let o = bot.next_candidate().unwrap();
    assert_eq!(o.legs[0].pool_id, 1);
    assert_eq!(o.legs[1].pool_id, 2);
    assert_eq!(o.expected_out - o.amount_in, 200_000);
    assert!(bot.next_candidate().is_none());
}

#[test]
fn full_queue_takes_nothing_from_a_cycle() {
    let mut config = bot_config(false);
    config.queue_capacity = 1;
    let mut bot = ArbitrageBot::new(config);
    bot.refresh_pool(1, pool(1, Venue::Raydium, 1_000_000));
    bot.refresh_pool(2, pool(2, Venue::Orca, 1_020_000));
    bot.refresh_pool(3, pool(3, Venue::Meteora, 1_050_000));
    // three candidate routes, room for one
    assert_eq!(bot.monitor_pools(), 1);
    assert_eq!(bot.monitor_pools(), 0);
    let o = bot.next_candidate().unwrap();
    assert_eq!((o.legs[0].pool_id, o.legs[1].pool_id), (1, 2));
    assert!(bot.next_candidate().is_none());
}

#[test]
fn venue_cap_rejects_oversized_leg() {
    let mut config = bot_config(false);
    config.risk_params.max_venue_amount = 5_000_000;
    let bot = ArbitrageBot::new(config);
    let legs = vec![(10_000_000u64, 10_000_000u64), (10_000_000u64, 10_200_000u64)];
    assert_eq!(
        bot.validate_opportunity(&legs, 0, 10_000_000),
        Decision::Reject(RejectReason::VenueCapExceeded)
    );
}

#[test]
fn copy_trades_and_arbitrage_share_exposure() {
    let mut config = bot_config(false);
    config.position_limit = 100;
    let mut bot = ArbitrageBot::new(config);
    let trade = TradeRecord {
        actor: key(2),
        market: key(7),
        side: Side::Bid,
        order_type: OrderType::Limit,
        price: 1,
        quantity: 60,
        status: OrderStatus::Filled,
    };
    let opp = CopyTradeOpportunity { trader: key(2), market: market(), trade };
    assert_eq!(bot.evaluate_copy_trade(&opp), Decision::Accept);
    assert!(bot.execute_copy_trade(60, Ok(receipt())).is_ok());
    assert_eq!(bot.exposure(), 60);
    assert_eq!(bot.evaluate_copy_trade(&opp), Decision::Reject(RejectReason::ExposureLimit));
    let legs = vec![(50u64, 60u64)];
    assert_eq!(
        bot.validate_opportunity(&legs, 0, 50),
        Decision::Reject(RejectReason::ExposureLimit)
    );
    assert!(bot.execute_arbitrage(40, Ok(receipt())).is_ok());
    assert_eq!(bot.exposure(), 100);
}
