use vstd::prelude::*;
use crate::pool_cache::{PoolState, Venue, PRICE_SCALE};

verus! {

/// Which way a leg swaps through its pool.
#[derive(Clone, Copy, Debug, PartialEq, Eq, Structural)]
pub enum Direction {
    /// Pays `token_a`, receives `token_b`.
    AToB,
    /// Pays `token_b`, receives `token_a`.
    BToA,
}

/// One hop of a route.
#[derive(Clone, Copy, Debug, PartialEq, Eq, Structural)]
pub struct SwapLeg {
    pub venue: Venue,
    pub pool_id: u64,
    pub direction: Direction,
}

/// A candidate route, before risk and profitability are checked.
///
/// `amount_in` and `expected_out` are in units of the pair's `token_b`.
#[derive(Clone, Debug)]
pub struct ArbitrageOpportunity {
    pub legs: Vec<SwapLeg>,
    pub amount_in: u64,
    pub expected_out: u64,
}

/// `token_a` bought with `amount` of `token_b` at `price`.
pub open spec fn buy_out(amount: int, price: int) -> int {
    amount * (PRICE_SCALE as int) / price
}

/// `token_b` received for selling `amount` of `token_a` at `price`.
pub open spec fn sell_out(amount: int, price: int) -> int {
    amount * price / (PRICE_SCALE as int)
}

/// Output of buying on `a` and selling on `b`, when that route is a
/// candidate: the pools differ in venue, quote the same pair at nonzero
/// prices, and the output exceeds the input and fits in a `u64`.
pub open spec fn pair_output(a: PoolState, b: PoolState, amount_in: u64) -> Option<int> {
    if a.venue != b.venue && a.token_a == b.token_a && a.token_b == b.token_b && a.price > 0
        && b.price > 0 {
        let out = sell_out(buy_out(amount_in as int, a.price as int), b.price as int);
        if amount_in < out <= u64::MAX {
            Some(out)
        } else {
            None
        }
    } else {
        None
    }
}

/// `o` is the route that buys on `a` and sells on `b`.
pub open spec fn is_route_of(o: ArbitrageOpportunity, a: PoolState, b: PoolState, amount_in: u64) -> bool {
    &&& pair_output(a, b, amount_in) == Some(o.expected_out as int)
    &&& o.amount_in == amount_in
    &&& o.legs@ == seq![
        SwapLeg { venue: a.venue, pool_id: a.pool_id, direction: Direction::BToA },
        SwapLeg { venue: b.venue, pool_id: b.pool_id, direction: Direction::AToB },
    ]
}

/// Raw profit of a candidate, before costs.
pub open spec fn raw_profit(o: ArbitrageOpportunity) -> int {
    o.expected_out - o.amount_in
}

/// The route that buys `token_a` on `a` and sells it on `b`, if it is a
/// candidate.
pub fn check_pair(a: &PoolState, b: &PoolState, amount_in: u64) -> (r: Option<ArbitrageOpportunity>)
    ensures
        match r {
            Some(o) => is_route_of(o, *a, *b, amount_in),
            None => pair_output(*a, *b, amount_in).is_none(),
        },
{
    if a.venue == b.venue || a.token_a != b.token_a || a.token_b != b.token_b || a.price == 0
        || b.price == 0 {
        return None;
    }
    proof {
        assert(amount_in * 1_000_000 <= u128::MAX) by (nonlinear_arith)
            requires amount_in <= u64::MAX;
    }
    let scaled: u128 = amount_in as u128 * PRICE_SCALE as u128;
    let bought: u128 = scaled / a.price as u128;
    proof {
        assert(bought <= scaled);
    }
    let gross: u128 = match bought.checked_mul(b.price as u128) {
        Some(g) => g,
        None => {
            proof {
                let g = bought * b.price;
                assert(g / 1_000_000 > u64::MAX) by (nonlinear_arith)
                    requires g > u128::MAX;
            }
            return None;
        },
    };
    let out: u128 = gross / PRICE_SCALE as u128;
    if out > amount_in as u128 && out <= u64::MAX as u128 {
        let legs = vec![
            SwapLeg { venue: a.venue, pool_id: a.pool_id, direction: Direction::BToA },
            SwapLeg { venue: b.venue, pool_id: b.pool_id, direction: Direction::AToB },
        ];
        proof {
            assert(legs@ =~= seq![
                SwapLeg { venue: a.venue, pool_id: a.pool_id, direction: Direction::BToA },
                SwapLeg { venue: b.venue, pool_id: b.pool_id, direction: Direction::AToB },
            ]);
        }
        Some(ArbitrageOpportunity { legs, amount_in, expected_out: out as u64 })
    } else {
        None
    }
}

/// `o` is the route between two distinct entries of `pools`.
pub open spec fn drawn_from(o: ArbitrageOpportunity, pools: Seq<PoolState>, amount_in: u64) -> bool {
    exists|i: int, j: int|
        0 <= i < pools.len() && 0 <= j < pools.len() && i != j
            && #[trigger] is_route_of(o, pools[i], pools[j], amount_in)
}

/// Some entry of `r` is the route that buys on `a` and sells on `b`.
pub open spec fn routed(r: Seq<ArbitrageOpportunity>, a: PoolState, b: PoolState, amount_in: u64) -> bool {
    exists|k: int| 0 <= k < r.len() && #[trigger] is_route_of(r[k], a, b, amount_in)
}

/// Appending `o` adds exactly the route that `o` is.
pub proof fn lemma_routed_push(r: Seq<ArbitrageOpportunity>, o: ArbitrageOpportunity, a: PoolState, b: PoolState, amount_in: u64)
    ensures
        routed(r.push(o), a, b, amount_in) <==> (routed(r, a, b, amount_in) || is_route_of(o, a, b, amount_in)),
{
    if routed(r.push(o), a, b, amount_in) {
        let k = choose|k: int| 0 <= k < r.push(o).len() && #[trigger] is_route_of(r.push(o)[k], a, b, amount_in);
        if k < r.len() {
            assert(r.push(o)[k] == r[k]);
        }
    }
    if routed(r, a, b, amount_in) {
        let k = choose|k: int| 0 <= k < r.len() && #[trigger] is_route_of(r[k], a, b, amount_in);
        assert(r.push(o)[k] == r[k]);
    }
    if is_route_of(o, a, b, amount_in) {
        assert(r.push(o)[r.len() as int] == o);
    }
}

/// The candidate routes among `pools`, for an input of `amount_in`: each
/// result buys on one entry and sells on another, and every ordered pair of
/// distinct entries that forms a candidate has its route among the results.
pub fn detect(pools: &Vec<PoolState>, amount_in: u64) -> (r: Vec<ArbitrageOpportunity>)
    ensures
        forall|k: int| 0 <= k < r@.len() ==> #[trigger] drawn_from(r@[k], pools@, amount_in),
        forall|i: int, j: int|
            0 <= i < pools@.len() && 0 <= j < pools@.len() && i != j
                && (#[trigger] pair_output(pools@[i], pools@[j], amount_in)).is_some()
                ==> routed(r@, pools@[i], pools@[j], amount_in),
{
    let mut r: Vec<ArbitrageOpportunity> = Vec::new();
    let n = pools.len();
    let mut i: usize = 0;
    while i < n
        invariant
            n == pools@.len(),
            i <= n,
            forall|k: int| 0 <= k < r@.len() ==> #[trigger] drawn_from(r@[k], pools@, amount_in),
            forall|a: int, b: int|
                0 <= a < i && 0 <= b < n && a != b
                    && (#[trigger] pair_output(pools@[a], pools@[b], amount_in)).is_some()
                    ==> routed(r@, pools@[a], pools@[b], amount_in),
        decreases n - i,
    {
        let mut j: usize = 0;
        while j < n
            invariant
                n == pools@.len(),
                i < n,
                j <= n,
                forall|k: int| 0 <= k < r@.len() ==> #[trigger] drawn_from(r@[k], pools@, amount_in),
                forall|a: int, b: int|
                    0 <= a < i && 0 <= b < n && a != b
                        && (#[trigger] pair_output(pools@[a], pools@[b], amount_in)).is_some()
                        ==> routed(r@, pools@[a], pools@[b], amount_in),
                forall|b: int|
                    0 <= b < j && i != b
                        && (#[trigger] pair_output(pools@[i as int], pools@[b], amount_in)).is_some()
                        ==> routed(r@, pools@[i as int], pools@[b], amount_in),
            decreases n - j,
        {
            if i != j {
                match check_pair(&pools[i], &pools[j], amount_in) {
                    Some(o) => {
                        let ghost prev = r@;
                        r.push(o);
                        proof {
                            assert forall|k: int| 0 <= k < r@.len() implies #[trigger] drawn_from(r@[k], pools@, amount_in) by {
                                if k < prev.len() {
                                    assert(r@[k] == prev[k]);
                                } else {
                                    assert(r@[k] == o);
                                    assert(is_route_of(o, pools@[i as int], pools@[j as int], amount_in));
                                }
                            }
                            assert forall|a: int, b: int|
                                0 <= a < i && 0 <= b < n && a != b
                                    && (#[trigger] pair_output(pools@[a], pools@[b], amount_in)).is_some()
                                    implies routed(r@, pools@[a], pools@[b], amount_in) by {
                                lemma_routed_push(prev, o, pools@[a], pools@[b], amount_in);
                            }
                            assert forall|b: int|
                                0 <= b < j + 1 && i != b
                                    && (#[trigger] pair_output(pools@[i as int], pools@[b], amount_in)).is_some()
                                    implies routed(r@, pools@[i as int], pools@[b], amount_in) by {
                                lemma_routed_push(prev, o, pools@[i as int], pools@[b], amount_in);
                            }
                        }
                    },
                    None => {},
                }
            }
            j = j + 1;
        }
        i = i + 1;
    }
    r
}

/// Bounded hand-off of candidates from detection to execution.
///
/// When full, a new candidate is dropped and the queued ones are kept, so
/// candidates leave in the order they arrived.
pub struct CandidateQueue {
    items: Vec<ArbitrageOpportunity>,
    capacity: usize,
}

impl CandidateQueue {
    /// Queued candidates, oldest first.
    pub closed spec fn view(&self) -> Seq<ArbitrageOpportunity> {
        self.items@
    }

    pub closed spec fn capacity_spec(&self) -> nat {
        self.capacity as nat
    }

    pub closed spec fn wf(&self) -> bool {
        self.items@.len() <= self.capacity
    }

    /// A well-formed queue holds at most its capacity.
    pub proof fn lemma_within_capacity(&self)
        requires
            self.wf(),
        ensures
            self.view().len() <= self.capacity_spec(),
    {
    }

    pub fn new(capacity: usize) -> (r: CandidateQueue)
        ensures
            r.wf(),
            r.view() == Seq::<ArbitrageOpportunity>::empty(),
            r.capacity_spec() == capacity,
    {
        CandidateQueue { items: Vec::new(), capacity }
    }

    pub fn len(&self) -> (r: usize)
        ensures
            r == self.view().len(),
    {
        self.items.len()
    }

    /// Queues `o` when there is room and reports whether it was queued; a
    /// full queue drops `o` and stays as it was.
    pub fn offer(&mut self, o: ArbitrageOpportunity) -> (r: bool)
        requires
            old(self).wf(),
        ensures
            final(self).wf(),
            final(self).capacity_spec() == old(self).capacity_spec(),
            r == (old(self).view().len() < old(self).capacity_spec()),
            r ==> final(self).view() == old(self).view().push(o),
            !r ==> final(self).view() == old(self).view(),
    {
        if self.items.len() < self.capacity {
            self.items.push(o);
            true
        } else {
            false
        }
    }

    /// Removes and returns the oldest queued candidate.
    pub fn take(&mut self) -> (r: Option<ArbitrageOpportunity>)
        requires
            old(self).wf(),
        ensures
            final(self).wf(),
            final(self).capacity_spec() == old(self).capacity_spec(),
            old(self).view().len() == 0 ==> r.is_none() && final(self).view() == old(self).view(),
            old(self).view().len() > 0 ==> r == Some(old(self).view()[0])
                && final(self).view() == old(self).view().drop_first(),
    {
        if self.items.len() == 0 {
            None
        } else {
            let o = self.items.remove(0);
            proof {
                assert(self.items@ =~= old(self).items@.drop_first());
            }
            Some(o)
        }
    }
}

} // verus!
