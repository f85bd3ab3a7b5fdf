use vstd::prelude::*;
use crate::position::PositionManager;

verus! {

/// Read-only risk configuration.
#[derive(Clone, Copy, Debug, PartialEq, Eq, Structural)]
pub struct RiskParams {
    /// An arbitrage is accepted only when its net profit is strictly above this.
    pub min_profit_threshold: i64,
    /// Largest size of a single trade.
    pub max_trade_size: u64,
    /// Largest input that one leg of a route may put through its venue.
    pub max_venue_amount: u64,
}

/// Why an opportunity was declined.
#[derive(Clone, Copy, Debug, PartialEq, Eq, Structural)]
pub enum RejectReason {
    VenueCapExceeded,
    TradeTooLarge,
    ExposureLimit,
    Unprofitable,
}

/// The verdict on an opportunity.
#[derive(Clone, Copy, Debug, PartialEq, Eq, Structural)]
pub enum Decision {
    Accept,
    Reject(RejectReason),
}

/// Profit of a route: the sum over its legs of output minus input.
pub open spec fn route_profit(legs: Seq<(u64, u64)>) -> int
    decreases legs.len(),
{
    if legs.len() == 0 {
        0
    } else {
        route_profit(legs.drop_last()) + (legs.last().1 - legs.last().0)
    }
}

/// The risk policy's verdict on a trade of `size`, shared by both paths.
pub open spec fn risk_verdict(params: RiskParams, pm: PositionManager, size: u64) -> Option<RejectReason> {
    if size > params.max_trade_size {
        Some(RejectReason::TradeTooLarge)
    } else if !pm.permits_spec(size) {
        Some(RejectReason::ExposureLimit)
    } else {
        None
    }
}

/// The verdict on an arbitrage of `size` with net profit `net`.
pub open spec fn arbitrage_verdict(params: RiskParams, pm: PositionManager, net: int, size: u64) -> Decision {
    match risk_verdict(params, pm, size) {
        Some(reason) => Decision::Reject(reason),
        None => if net > params.min_profit_threshold {
            Decision::Accept
        } else {
            Decision::Reject(RejectReason::Unprofitable)
        },
    }
}

proof fn lemma_route_profit_bound(legs: Seq<(u64, u64)>)
    ensures
        -(legs.len() * 0x1_0000_0000_0000_0000) <= route_profit(legs) <= legs.len() * 0x1_0000_0000_0000_0000,
    decreases legs.len(),
{
    if legs.len() > 0 {
        lemma_route_profit_bound(legs.drop_last());
    }
}

/// Every leg's input lies within the per-venue cap.
pub open spec fn legs_within(legs: Seq<(u64, u64)>, cap: u64) -> bool {
    forall|i: int| 0 <= i < legs.len() ==> #[trigger] legs[i].0 <= cap
}

/// Whether every leg's input lies within the per-venue cap.
pub fn check_venue_caps(legs: &Vec<(u64, u64)>, cap: u64) -> (r: bool)
    ensures
        r == legs_within(legs@, cap),
{
    let mut i: usize = 0;
    while i < legs.len()
        invariant
            i <= legs@.len(),
            forall|k: int| 0 <= k < i ==> #[trigger] legs@[k].0 <= cap,
        decreases legs@.len() - i,
    {
        if legs[i].0 > cap {
            return false;
        }
        i = i + 1;
    }
    true
}

/// Net profit of a route whose legs were simulated as `(input, output)`
/// pairs, after subtracting the estimated transaction cost.
pub fn net_profit(legs: &Vec<(u64, u64)>, cost: u64) -> (r: i128)
    requires
        legs@.len() <= u32::MAX,
    ensures
        r == route_profit(legs@) - cost,
{
    let mut sum: i128 = 0;
    let mut i: usize = 0;
    while i < legs.len()
        invariant
            i <= legs@.len(),
            legs@.len() <= u32::MAX,
            sum == route_profit(legs@.subrange(0, i as int)),
        decreases legs@.len() - i,
    {
        proof {
            assert(legs@.subrange(0, i as int + 1).drop_last() =~= legs@.subrange(0, i as int));
            lemma_route_profit_bound(legs@.subrange(0, i as int));
            assert(i * 0x1_0000_0000_0000_0000 <= 0x1_0000_0000 * 0x1_0000_0000_0000_0000) by (nonlinear_arith)
                requires i <= 0x1_0000_0000;
        }
        let (a, b) = legs[i];
        sum = sum + (b as i128 - a as i128);
        i = i + 1;
    }
    proof {
        assert(legs@.subrange(0, legs@.len() as int) =~= legs@);
        lemma_route_profit_bound(legs@);
        assert(legs@.len() * 0x1_0000_0000_0000_0000 <= 0x1_0000_0000 * 0x1_0000_0000_0000_0000) by (nonlinear_arith)
            requires legs@.len() <= 0x1_0000_0000;
    }
    sum - cost as i128
}

/// The risk policy alone: trade size cap, then exposure limit.
pub fn check_risk(params: &RiskParams, pm: &PositionManager, size: u64) -> (r: Option<RejectReason>)
    requires
        pm.wf(),
    ensures
        r == risk_verdict(*params, *pm, size),
{
    if size > params.max_trade_size {
        Some(RejectReason::TradeTooLarge)
    } else if !pm.permits(size) {
        Some(RejectReason::ExposureLimit)
    } else {
        None
    }
}

/// Verdict on an arbitrage: accepted iff the risk policy permits `size` and
/// `net` is strictly above the minimum profit threshold.
pub fn evaluate_arbitrage(params: &RiskParams, pm: &PositionManager, net: i128, size: u64) -> (r: Decision)
    requires
        pm.wf(),
    ensures
        r == arbitrage_verdict(*params, *pm, net as int, size),
        r == Decision::Accept <==> (risk_verdict(*params, *pm, size).is_none()
            && net > params.min_profit_threshold),
{
    match check_risk(params, pm, size) {
        Some(reason) => Decision::Reject(reason),
        None => if net > params.min_profit_threshold as i128 {
            Decision::Accept
        } else {
            Decision::Reject(RejectReason::Unprofitable)
        },
    }
}

/// Verdict on a copy trade: accepted iff the risk policy permits its size.
pub fn evaluate_copy_trade(params: &RiskParams, pm: &PositionManager, size: u64) -> (r: Decision)
    requires
        pm.wf(),
    ensures
        r == (match risk_verdict(*params, *pm, size) {
            Some(reason) => Decision::Reject(reason),
            None => Decision::Accept,
        }),
{
    match check_risk(params, pm, size) {
        Some(reason) => Decision::Reject(reason),
        None => Decision::Accept,
    }
}

/// No arbitrage whose net profit is at most the threshold is accepted; one
/// exactly at the threshold is rejected.
pub proof fn lemma_unprofitable_rejected(params: RiskParams, pm: PositionManager, net: int, size: u64)
    requires
        net <= params.min_profit_threshold,
    ensures
        arbitrage_verdict(params, pm, net, size) != Decision::Accept,
{
}

} // verus!
