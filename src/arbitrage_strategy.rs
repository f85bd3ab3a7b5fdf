use vstd::prelude::*;
use crate::detector::{
    ArbitrageOpportunity, CandidateQueue, detect, drawn_from, lemma_routed_push, pair_output, routed,
};
use crate::execution::{ExecutionError, Receipt, SubmissionPath, first_path, settle};
use crate::risk::{
    Decision, RejectReason, RiskParams, arbitrage_verdict, check_venue_caps, legs_within, evaluate_arbitrage, evaluate_copy_trade, net_profit, risk_verdict,
    route_profit,
};
use crate::scanner::CopyTradeOpportunity;
use crate::pool_cache::{PoolCache, PoolState};
use crate::position::PositionManager;

verus! {

/// Startup configuration of the arbitrage path.
#[derive(Clone, Copy, Debug)]
pub struct BotConfig {
    pub risk_params: RiskParams,
    pub position_limit: u64,
    pub queue_capacity: usize,
    /// Input size, in the pair's quote token, tried on every route.
    pub trade_amount: u64,
    pub relay_configured: bool,
}

/// The arbitrage path: pool cache, detector queue, risk checks and position
/// accounting.
pub struct ArbitrageBot {
    pools: PoolCache,
    positions: PositionManager,
    risk: RiskParams,
    candidates: CandidateQueue,
    trade_amount: u64,
    relay_configured: bool,
}

/// `o` is a route between two distinct pools of the cache `m`.
pub open spec fn route_in_cache(o: ArbitrageOpportunity, m: Map<u64, PoolState>, amount_in: u64) -> bool {
    exists|pools: Seq<PoolState>|
        #[trigger] drawn_from(o, pools, amount_in)
            && forall|i: int| 0 <= i < pools.len() ==> m.contains_key(#[trigger] pools[i].pool_id)
                && m[pools[i].pool_id] == pools[i]
}

impl ArbitrageBot {
    pub closed spec fn wf(&self) -> bool {
        self.pools.wf() && self.positions.wf() && self.candidates.wf()
    }

    pub closed spec fn pools_view(&self) -> Map<u64, PoolState> {
        self.pools.view()
    }

    pub closed spec fn positions_spec(&self) -> PositionManager {
        self.positions
    }

    pub closed spec fn candidates_view(&self) -> Seq<ArbitrageOpportunity> {
        self.candidates.view()
    }

    pub closed spec fn capacity_spec(&self) -> nat {
        self.candidates.capacity_spec()
    }

    pub closed spec fn risk_spec(&self) -> RiskParams {
        self.risk
    }

    pub closed spec fn trade_amount_spec(&self) -> u64 {
        self.trade_amount
    }

    pub closed spec fn relay_spec(&self) -> bool {
        self.relay_configured
    }

    pub fn new(config: BotConfig) -> (r: ArbitrageBot)
        ensures
            r.wf(),
            r.pools_view() == Map::<u64, PoolState>::empty(),
            r.positions_spec().exposure_spec() == 0,
            r.positions_spec().limit_spec() == config.position_limit,
            r.candidates_view() == Seq::<ArbitrageOpportunity>::empty(),
            r.capacity_spec() == config.queue_capacity,
            r.risk_spec() == config.risk_params,
            r.trade_amount_spec() == config.trade_amount,
            r.relay_spec() == config.relay_configured,
    {
        ArbitrageBot {
            pools: PoolCache::new(),
            positions: PositionManager::new(config.position_limit),
            risk: config.risk_params,
            candidates: CandidateQueue::new(config.queue_capacity),
            trade_amount: config.trade_amount,
            relay_configured: config.relay_configured,
        }
    }

    /// Stores a fresh snapshot of `pool_id`.
    pub fn refresh_pool(&mut self, pool_id: u64, state: PoolState)
        requires
            old(self).wf(),
        ensures
            final(self).wf(),
            final(self).pools_view() == old(self).pools_view().insert(pool_id, PoolState { pool_id, ..state }),
            final(self).positions_spec() == old(self).positions_spec(),
            final(self).candidates_view() == old(self).candidates_view(),
            final(self).capacity_spec() == old(self).capacity_spec(),
            final(self).risk_spec() == old(self).risk_spec(),
            final(self).trade_amount_spec() == old(self).trade_amount_spec(),
            final(self).relay_spec() == old(self).relay_spec(),
    {
        self.pools.refresh(pool_id, state);
    }

    /// The latest snapshot of `pool_id`.
    pub fn pool(&self, pool_id: u64) -> (r: Option<PoolState>)
        requires
            self.wf(),
        ensures
            r == (if self.pools_view().contains_key(pool_id) {
                Some(self.pools_view()[pool_id])
            } else {
                None::<PoolState>
            }),
    {
        self.pools.get_snapshot(pool_id)
    }

    /// One detection cycle: every candidate route among the cached pools is
    /// offered to the queue in turn; those that find it full are dropped.
    /// Returns how many were queued.
    pub fn monitor_pools(&mut self) -> (r: usize)
        requires
            old(self).wf(),
        ensures
            final(self).wf(),
            final(self).pools_view() == old(self).pools_view(),
            final(self).positions_spec() == old(self).positions_spec(),
            final(self).capacity_spec() == old(self).capacity_spec(),
            final(self).risk_spec() == old(self).risk_spec(),
            final(self).trade_amount_spec() == old(self).trade_amount_spec(),
            final(self).relay_spec() == old(self).relay_spec(),
            final(self).candidates_view().len() == old(self).candidates_view().len() + r,
            final(self).candidates_view().subrange(0, old(self).candidates_view().len() as int)
                == old(self).candidates_view(),
            final(self).candidates_view().len() <= final(self).capacity_spec(),
            forall|k: int| old(self).candidates_view().len() <= k < final(self).candidates_view().len()
                ==> route_in_cache(#[trigger] final(self).candidates_view()[k], old(self).pools_view(), old(self).trade_amount_spec()),
            forall|a: u64, b: u64|
                a != b && old(self).pools_view().contains_key(a) && old(self).pools_view().contains_key(b)
                    && (#[trigger] pair_output(old(self).pools_view()[a], old(self).pools_view()[b], old(self).trade_amount_spec())).is_some()
                    ==> final(self).candidates_view().len() == final(self).capacity_spec()
                        || routed(
                            final(self).candidates_view().skip(old(self).candidates_view().len() as int),
                            old(self).pools_view()[a],
                            old(self).pools_view()[b],
                            old(self).trade_amount_spec(),
                        ),
    {
        let snaps = self.pools.snapshots();
        let mut found = detect(&snaps, self.trade_amount);
        let ghost start = self.candidates.view();
        let ghost m = self.pools.view();
        let ghost amt = self.trade_amount;
        let mut queued: usize = 0;
        let n = found.len();
        let ghost total = n as int;
        let ghost all = found@;
        let ghost cap = self.candidates.capacity_spec();
        while found.len() > 0
            invariant
                queued + found@.len() <= total,
                total <= usize::MAX,
                self.candidates.wf(),
                self.pools == old(self).pools,
                self.positions == old(self).positions,
                self.risk == old(self).risk,
                self.trade_amount == old(self).trade_amount,
                self.relay_configured == old(self).relay_configured,
                self.candidates.capacity_spec() == old(self).candidates.capacity_spec(),
                m == self.pools.view(),
                amt == self.trade_amount,
                start == old(self).candidates.view(),
                self.candidates.view().len() == start.len() + queued,
                self.candidates.view().subrange(0, start.len() as int) == start,
                forall|k: int| start.len() <= k < self.candidates.view().len()
                    ==> #[trigger] drawn_from(self.candidates.view()[k], snaps@, amt),
                forall|k: int| 0 <= k < found@.len() ==> #[trigger] drawn_from(found@[k], snaps@, amt),
                cap == self.candidates.capacity_spec(),
                found@ == all.skip(total - found@.len()),
                found@.len() <= total,
                all.len() == total,
                forall|a: PoolState, b: PoolState|
                    #[trigger] routed(all.take(total - found@.len()), a, b, amt)
                        ==> self.candidates.view().len() == cap
                            || routed(self.candidates.view().skip(start.len() as int), a, b, amt),
            decreases found@.len(),
        {
            let ghost before = self.candidates.view();
            let ghost rest = found@;
            let ghost p = total - found@.len();
            proof {
                self.candidates.lemma_within_capacity();
            }
            let o = found.remove(0);
            proof {
                assert(o == all[p]);
                assert(all.take(p + 1) =~= all.take(p).push(o));
                assert(found@ =~= all.skip(p + 1));
            }
            proof {
                assert(drawn_from(rest[0], snaps@, amt));
                assert forall|k: int| 0 <= k < found@.len() implies #[trigger] drawn_from(found@[k], snaps@, amt) by {
                    assert(found@[k] == rest[k + 1]);
                }
            }
            if self.candidates.offer(o) {
                queued = queued + 1;
                proof {
                    let now = self.candidates.view();
                    assert(now == before.push(o));
                    assert(now.subrange(0, start.len() as int) =~= before.subrange(0, start.len() as int));
                    assert forall|k: int| start.len() <= k < now.len()
                        implies #[trigger] drawn_from(now[k], snaps@, amt) by {
                        if k < before.len() {
                            assert(now[k] == before[k]);
                        }
                    }
                    assert(now.skip(start.len() as int) =~= before.skip(start.len() as int).push(o));
                    assert forall|a: PoolState, b: PoolState|
                        #[trigger] routed(all.take(p + 1), a, b, amt)
                            implies now.len() == cap || routed(now.skip(start.len() as int), a, b, amt) by {
                        lemma_routed_push(all.take(p), o, a, b, amt);
                        lemma_routed_push(before.skip(start.len() as int), o, a, b, amt);
                    }
                }
            } else {
                proof {
                    assert forall|a: PoolState, b: PoolState|
                        #[trigger] routed(all.take(p + 1), a, b, amt)
                            implies self.candidates.view().len() == cap
                            || routed(self.candidates.view().skip(start.len() as int), a, b, amt) by {
                        lemma_routed_push(all.take(p), o, a, b, amt);
                    }
                }
            }
        }
        proof {
            let now = self.candidates.view();
            self.candidates.lemma_within_capacity();
            assert(all.take(total) =~= all);
            assert forall|a: u64, b: u64|
                a != b && m.contains_key(a) && m.contains_key(b)
                    && (#[trigger] pair_output(m[a], m[b], amt)).is_some()
                    implies now.len() == cap || routed(now.skip(start.len() as int), m[a], m[b], amt) by {
                let i = choose|i: int| 0 <= i < snaps@.len() && snaps@[i].pool_id == a;
                let j = choose|j: int| 0 <= j < snaps@.len() && snaps@[j].pool_id == b;
                assert(m.contains_key(snaps@[i].pool_id) && m.contains_key(snaps@[j].pool_id));
                assert(pair_output(snaps@[i], snaps@[j], amt).is_some());
                assert(routed(all, snaps@[i], snaps@[j], amt));
            }
            assert forall|k: int| start.len() <= k < now.len()
                implies route_in_cache(#[trigger] now[k], m, amt) by {
                assert(drawn_from(now[k], snaps@, amt));
                assert forall|i: int| 0 <= i < snaps@.len() implies m.contains_key(#[trigger] snaps@[i].pool_id)
                    && m[snaps@[i].pool_id] == snaps@[i] by {
                }
            }
        }
        queued
    }

    /// The risk and profitability verdict on a candidate whose legs were
    /// simulated as `(input, output)` pairs, with estimated transaction cost
    /// `cost`, for a trade of `size`. A leg whose input exceeds the per-venue
    /// cap rejects the candidate before the shared risk policy is asked.
    pub fn validate_opportunity(&self, legs: &Vec<(u64, u64)>, cost: u64, size: u64) -> (r: Decision)
        requires
            self.wf(),
            legs@.len() <= u32::MAX,
        ensures
            r == (if !legs_within(legs@, self.risk_spec().max_venue_amount) {
                Decision::Reject(RejectReason::VenueCapExceeded)
            } else {
                arbitrage_verdict(self.risk_spec(), self.positions_spec(), route_profit(legs@) - cost, size)
            }),
    {
        if !check_venue_caps(legs, self.risk.max_venue_amount) {
            return Decision::Reject(RejectReason::VenueCapExceeded);
        }
        let net = net_profit(legs, cost);
        evaluate_arbitrage(&self.risk, &self.positions, net, size)
    }

    /// Removes and returns the oldest queued candidate.
    pub fn next_candidate(&mut self) -> (r: Option<ArbitrageOpportunity>)
        requires
            old(self).wf(),
        ensures
            final(self).wf(),
            final(self).pools_view() == old(self).pools_view(),
            final(self).positions_spec() == old(self).positions_spec(),
            final(self).capacity_spec() == old(self).capacity_spec(),
            final(self).risk_spec() == old(self).risk_spec(),
            final(self).trade_amount_spec() == old(self).trade_amount_spec(),
            final(self).relay_spec() == old(self).relay_spec(),
            old(self).candidates_view().len() == 0 ==> r.is_none()
                && final(self).candidates_view() == old(self).candidates_view(),
            old(self).candidates_view().len() > 0 ==> r == Some(old(self).candidates_view()[0])
                && final(self).candidates_view() == old(self).candidates_view().drop_first(),
    {
        self.candidates.take()
    }

    /// Where an accepted plan goes first.
    pub fn submission_path(&self) -> (r: SubmissionPath)
        ensures
            r == (if self.relay_spec() {
                SubmissionPath::Relay
            } else {
                SubmissionPath::Standard
            }),
    {
        first_path(self.relay_configured)
    }

    pub fn exposure(&self) -> (r: u64)
        ensures
            r == self.positions_spec().exposure_spec(),
    {
        self.positions.exposure()
    }

    /// Ends the execution of an accepted arbitrage of `size`: the exposure
    /// grows by `size` on success and is left as it was on failure.
    pub fn execute_arbitrage(&mut self, size: u64, result: Result<Receipt, ExecutionError>) -> (r: Result<Receipt, ExecutionError>)
        requires
            old(self).wf(),
            old(self).positions_spec().permits_spec(size),
        ensures
            final(self).wf(),
            r == result,
            final(self).pools_view() == old(self).pools_view(),
            final(self).candidates_view() == old(self).candidates_view(),
            final(self).capacity_spec() == old(self).capacity_spec(),
            final(self).risk_spec() == old(self).risk_spec(),
            final(self).trade_amount_spec() == old(self).trade_amount_spec(),
            final(self).relay_spec() == old(self).relay_spec(),
            final(self).positions_spec().limit_spec() == old(self).positions_spec().limit_spec(),
            r is Ok ==> final(self).positions_spec().accepted() == old(self).positions_spec().accepted().push(size)
                && final(self).positions_spec().exposure_spec() == old(self).positions_spec().exposure_spec() + size,
            r is Err ==> final(self).positions_spec() == old(self).positions_spec(),
    {
        settle(&mut self.positions, size, result)
    }

    /// The risk verdict on mirroring `opportunity`, against the same exposure
    /// as the arbitrage path.
    pub fn evaluate_copy_trade(&self, opportunity: &CopyTradeOpportunity) -> (r: Decision)
        requires
            self.wf(),
        ensures
            r == (match risk_verdict(self.risk_spec(), self.positions_spec(), opportunity.trade.quantity) {
                Some(reason) => Decision::Reject(reason),
                None => Decision::Accept,
            }),
    {
        evaluate_copy_trade(&self.risk, &self.positions, opportunity.trade.quantity)
    }

    /// Ends the execution of an accepted copy trade of `size`, on the same
    /// exposure as the arbitrage path: it grows by `size` on success and is
    /// left as it was on failure.
    pub fn execute_copy_trade(&mut self, size: u64, result: Result<Receipt, ExecutionError>) -> (r: Result<Receipt, ExecutionError>)
        requires
            old(self).wf(),
            old(self).positions_spec().permits_spec(size),
        ensures
            final(self).wf(),
            r == result,
            final(self).pools_view() == old(self).pools_view(),
            final(self).candidates_view() == old(self).candidates_view(),
            final(self).capacity_spec() == old(self).capacity_spec(),
            final(self).risk_spec() == old(self).risk_spec(),
            final(self).trade_amount_spec() == old(self).trade_amount_spec(),
            final(self).relay_spec() == old(self).relay_spec(),
            final(self).positions_spec().limit_spec() == old(self).positions_spec().limit_spec(),
            r is Ok ==> final(self).positions_spec().accepted() == old(self).positions_spec().accepted().push(size)
                && final(self).positions_spec().exposure_spec() == old(self).positions_spec().exposure_spec() + size,
            r is Err ==> final(self).positions_spec() == old(self).positions_spec(),
    {
        settle(&mut self.positions, size, result)
    }
}

} // verus!
