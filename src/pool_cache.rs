use vstd::prelude::*;

verus! {

/// Venue (exchange or liquidity provider) that hosts a pool.
#[derive(Clone, Copy, Debug, PartialEq, Eq, Structural)]
pub enum Venue {
    Raydium,
    Orca,
    Jupiter,
    Meteora,
}

/// Snapshot of one pool, taken in a single refresh cycle.
///
/// `price` is a fixed-point price of `token_b` per `token_a`, scaled by
/// `PRICE_SCALE`.
#[derive(Clone, Copy, Debug, PartialEq, Eq, Structural)]
pub struct PoolState {
    pub pool_id: u64,
    pub venue: Venue,
    pub liquidity: u128,
    pub price: u64,
    pub tick_spacing: i32,
    pub fee_rate: u64,
    pub token_a: u64,
    pub token_b: u64,
}

/// Fixed-point scale of `PoolState::price`: a price of 1.0 is `PRICE_SCALE`.
pub const PRICE_SCALE: u64 = 1_000_000;

/// Map from pool id to the latest snapshot of that pool.
///
/// Entries are stored in an arena; each id appears at most once.
pub struct PoolCache {
    entries: Vec<PoolState>,
}

/// The ids of `s` are pairwise distinct.
pub open spec fn ids_unique(s: Seq<PoolState>) -> bool {
    forall|i: int, j: int|
        0 <= i < s.len() && 0 <= j < s.len() && i != j ==> s[i].pool_id != s[j].pool_id
}

/// The map from id to snapshot that an arena of unique ids stands for.
pub open spec fn arena_map(s: Seq<PoolState>) -> Map<u64, PoolState>
    decreases s.len(),
{
    if s.len() == 0 {
        Map::empty()
    } else {
        arena_map(s.drop_last()).insert(s.last().pool_id, s.last())
    }
}

proof fn lemma_arena_map_domain(s: Seq<PoolState>, id: u64)
    ensures
        arena_map(s).contains_key(id) <==> exists|i: int| 0 <= i < s.len() && s[i].pool_id == id,
    decreases s.len(),
{
    if s.len() > 0 {
        lemma_arena_map_domain(s.drop_last(), id);
        if arena_map(s).contains_key(id) && s.last().pool_id != id {
            let i = choose|i: int| 0 <= i < s.drop_last().len() && s.drop_last()[i].pool_id == id;
            assert(s[i].pool_id == id);
        }
        if exists|i: int| 0 <= i < s.len() && s[i].pool_id == id {
            let i = choose|i: int| 0 <= i < s.len() && s[i].pool_id == id;
            if i < s.len() - 1 {
                assert(s.drop_last()[i].pool_id == id);
            }
        }
    }
}

proof fn lemma_arena_map_at(s: Seq<PoolState>, i: int)
    requires
        ids_unique(s),
        0 <= i < s.len(),
    ensures
        arena_map(s).contains_key(s[i].pool_id),
        arena_map(s)[s[i].pool_id] == s[i],
    decreases s.len(),
{
    if i < s.len() - 1 {
        let t = s.drop_last();
        assert(t[i] == s[i]);
        assert(ids_unique(t));
        lemma_arena_map_at(t, i);
        assert(s.last().pool_id != s[i].pool_id) by {
            assert(s[s.len() - 1] == s.last());
        }
    }
}

proof fn lemma_arena_map_update(s: Seq<PoolState>, i: int, v: PoolState)
    requires
        ids_unique(s),
        0 <= i < s.len(),
        v.pool_id == s[i].pool_id,
    ensures
        ids_unique(s.update(i, v)),
        arena_map(s.update(i, v)) == arena_map(s).insert(v.pool_id, v),
    decreases s.len(),
{
    let u = s.update(i, v);
    assert(ids_unique(u)) by {
        assert forall|a: int, b: int|
            0 <= a < u.len() && 0 <= b < u.len() && a != b implies u[a].pool_id != u[b].pool_id by {
            assert(u[a].pool_id == s[a].pool_id);
            assert(u[b].pool_id == s[b].pool_id);
        }
    }
    if i == s.len() - 1 {
        assert(u.drop_last() =~= s.drop_last());
        assert(!arena_map(s.drop_last()).contains_key(v.pool_id)) by {
            lemma_arena_map_domain(s.drop_last(), v.pool_id);
            if exists|k: int| 0 <= k < s.drop_last().len() && s.drop_last()[k].pool_id == v.pool_id {
                let k = choose|k: int| 0 <= k < s.drop_last().len() && s.drop_last()[k].pool_id == v.pool_id;
                assert(s[k].pool_id == s[i].pool_id);
            }
        }
        assert(arena_map(u) =~= arena_map(s).insert(v.pool_id, v));
    } else {
        let t = s.drop_last();
        assert(ids_unique(t));
        assert(u.drop_last() =~= t.update(i, v));
        lemma_arena_map_update(t, i, v);
        assert(s.last().pool_id != v.pool_id) by {
            assert(s[s.len() - 1] == s.last());
        }
        assert(u.last() == s.last());
        assert(arena_map(u) =~= arena_map(s).insert(v.pool_id, v));
    }
}

/// Applying the same refresh twice leaves the cache as applying it once.
pub proof fn lemma_refresh_idempotent(m: Map<u64, PoolState>, id: u64, state: PoolState)
    ensures
        m.insert(id, state).insert(id, state) == m.insert(id, state),
{
    assert(m.insert(id, state).insert(id, state) =~= m.insert(id, state));
}

impl PoolCache {
    /// The cache as a map from pool id to snapshot.
    pub closed spec fn view(&self) -> Map<u64, PoolState> {
        arena_map(self.entries@)
    }

    pub closed spec fn wf(&self) -> bool {
        ids_unique(self.entries@)
    }

    pub fn new() -> (r: PoolCache)
        ensures
            r.wf(),
            r.view() == Map::<u64, PoolState>::empty(),
    {
        PoolCache { entries: Vec::new() }
    }

    /// Number of pools known to the cache.
    pub fn len(&self) -> (r: usize)
        requires
            self.wf(),
        ensures
            r == self.view().len(),
    {
        proof {
            lemma_arena_map_len(self.entries@);
        }
        self.entries.len()
    }

    fn position(&self, pool_id: u64) -> (r: Option<usize>)
        requires
            self.wf(),
        ensures
            match r {
                Some(i) => i < self.entries@.len() && self.entries@[i as int].pool_id == pool_id,
                None => forall|i: int|
                    0 <= i < self.entries@.len() ==> self.entries@[i].pool_id != pool_id,
            },
    {
        let mut i: usize = 0;
        while i < self.entries.len()
            invariant
                i <= self.entries@.len(),
                forall|k: int| 0 <= k < i ==> self.entries@[k].pool_id != pool_id,
            decreases self.entries@.len() - i,
        {
            if self.entries[i].pool_id == pool_id {
                return Some(i);
            }
            i = i + 1;
        }
        None
    }

    /// The latest snapshot of `pool_id`, or `None` for a pool never seen.
    pub fn get_snapshot(&self, pool_id: u64) -> (r: Option<PoolState>)
        requires
            self.wf(),
        ensures
            r == (if self.view().contains_key(pool_id) {
                Some(self.view()[pool_id])
            } else {
                None::<PoolState>
            }),
    {
        proof {
            lemma_arena_map_domain(self.entries@, pool_id);
        }
        match self.position(pool_id) {
            Some(i) => {
                proof {
                    lemma_arena_map_at(self.entries@, i as int);
                }
                Some(self.entries[i])
            },
            None => None,
        }
    }

    /// Replaces the snapshot of `pool_id` by `state`, or adds it.
    pub fn refresh(&mut self, pool_id: u64, state: PoolState)
        requires
            old(self).wf(),
        ensures
            final(self).wf(),
            final(self).view() == old(self).view().insert(pool_id, PoolState { pool_id, ..state }),
    {
        let state = PoolState { pool_id, ..state };
        match self.position(pool_id) {
            Some(i) => {
                proof {
                    lemma_arena_map_update(self.entries@, i as int, state);
                }
                self.entries.set(i, state);
            },
            None => {
                let ghost s = self.entries@;
                self.entries.push(state);
                proof {
                    assert(self.entries@.drop_last() =~= s);
                    assert forall|a: int, b: int|
                        0 <= a < self.entries@.len() && 0 <= b < self.entries@.len() && a != b
                        implies self.entries@[a].pool_id != self.entries@[b].pool_id by {
                        if a < s.len() && b < s.len() {
                            assert(self.entries@[a] == s[a] && self.entries@[b] == s[b]);
                        } else if a < s.len() {
                            assert(self.entries@[a] == s[a]);
                        } else {
                            assert(self.entries@[b] == s[b]);
                        }
                    }
                }
            },
        }
    }

    /// All snapshots, in the order the pools were first seen.
    pub fn snapshots(&self) -> (r: Vec<PoolState>)
        requires
            self.wf(),
        ensures
            r@.len() == self.view().len(),
            forall|i: int| 0 <= i < r@.len() ==> #[trigger] self.view().contains_key(r@[i].pool_id)
                && self.view()[r@[i].pool_id] == r@[i],
            forall|id: u64| #[trigger] self.view().contains_key(id) ==> exists|i: int|
                0 <= i < r@.len() && r@[i].pool_id == id,
    {
        proof {
            lemma_arena_map_len(self.entries@);
            assert forall|i: int| 0 <= i < self.entries@.len() implies #[trigger] self.view().contains_key(self.entries@[i].pool_id)
                && self.view()[self.entries@[i].pool_id] == self.entries@[i] by {
                lemma_arena_map_at(self.entries@, i);
            }
            assert forall|id: u64| #[trigger] self.view().contains_key(id) implies exists|i: int|
                0 <= i < self.entries@.len() && self.entries@[i].pool_id == id by {
                lemma_arena_map_domain(self.entries@, id);
            }
        }
        let mut r: Vec<PoolState> = Vec::new();
        let mut i: usize = 0;
        while i < self.entries.len()
            invariant
                i <= self.entries@.len(),
                r@ =~= self.entries@.subrange(0, i as int),
            decreases self.entries@.len() - i,
        {
            r.push(self.entries[i]);
            i = i + 1;
        }
        proof {
            assert(r@ =~= self.entries@);
        }
        r
    }
}

proof fn lemma_arena_map_len(s: Seq<PoolState>)
    requires
        ids_unique(s),
    ensures
        arena_map(s).len() == s.len(),
        arena_map(s).dom().finite(),
    decreases s.len(),
{
    if s.len() > 0 {
        let t = s.drop_last();
        assert(ids_unique(t));
        lemma_arena_map_len(t);
        lemma_arena_map_domain(t, s.last().pool_id);
        if arena_map(t).contains_key(s.last().pool_id) {
            let k = choose|k: int| 0 <= k < t.len() && t[k].pool_id == s.last().pool_id;
            assert(s[k].pool_id == s[s.len() - 1].pool_id);
        }
    }
}

} // verus!
