use vstd::prelude::*;

verus! {

/// Sum of a sequence of trade sizes.
pub open spec fn total(s: Seq<u64>) -> int
    decreases s.len(),
{
    if s.len() == 0 {
        0
    } else {
        total(s.drop_last()) + s.last()
    }
}

/// Exposure accounting: the open position size, held against a limit.
///
/// Every change goes through `&mut self`, so a check against the limit and
/// the update that follows it form one critical section.
pub struct PositionManager {
    exposure: u64,
    limit: u64,
    accepted: Ghost<Seq<u64>>,
}

impl PositionManager {
    /// Current exposure.
    pub closed spec fn exposure_spec(&self) -> int {
        self.exposure as int
    }

    /// Configured exposure limit.
    pub closed spec fn limit_spec(&self) -> int {
        self.limit as int
    }

    /// Sizes of the trades accepted so far, oldest first.
    pub closed spec fn accepted(&self) -> Seq<u64> {
        self.accepted@
    }

    pub closed spec fn wf(&self) -> bool {
        self.exposure == total(self.accepted@) && self.exposure <= self.limit
    }

    /// Whether a trade of `size` fits under the limit.
    pub open spec fn permits_spec(&self, size: u64) -> bool {
        self.exposure_spec() + size <= self.limit_spec()
    }

    pub fn new(limit: u64) -> (r: PositionManager)
        ensures
            r.wf(),
            r.exposure_spec() == 0,
            r.limit_spec() == limit,
            r.accepted() == Seq::<u64>::empty(),
    {
        PositionManager { exposure: 0, limit, accepted: Ghost(Seq::empty()) }
    }

    pub fn exposure(&self) -> (r: u64)
        ensures
            r == self.exposure_spec(),
    {
        self.exposure
    }

    pub fn limit(&self) -> (r: u64)
        ensures
            r == self.limit_spec(),
    {
        self.limit
    }

    pub fn permits(&self, size: u64) -> (r: bool)
        requires
            self.wf(),
        ensures
            r == self.permits_spec(size),
    {
        size <= self.limit - self.exposure
    }

    /// Adds an executed trade of `size` to the exposure.
    pub fn record(&mut self, size: u64)
        requires
            old(self).wf(),
            old(self).permits_spec(size),
        ensures
            final(self).wf(),
            final(self).limit_spec() == old(self).limit_spec(),
            final(self).accepted() == old(self).accepted().push(size),
            final(self).exposure_spec() == old(self).exposure_spec() + size,
    {
        let ghost prev = self.accepted@;
        self.exposure = self.exposure + size;
        self.accepted = Ghost(prev.push(size));
        proof {
            assert(self.accepted@.drop_last() =~= prev);
        }
    }

    /// Checks `size` against the limit and, when it fits, adds it, in one step.
    pub fn try_accept(&mut self, size: u64) -> (r: bool)
        requires
            old(self).wf(),
        ensures
            final(self).wf(),
            r == old(self).permits_spec(size),
            final(self).limit_spec() == old(self).limit_spec(),
            r ==> final(self).accepted() == old(self).accepted().push(size),
            r ==> final(self).exposure_spec() == old(self).exposure_spec() + size,
            !r ==> *final(self) == *old(self),
    {
        if self.permits(size) {
            self.record(size);
            true
        } else {
            false
        }
    }
}

/// At every observation point the exposure is the sum of the accepted sizes,
/// and it never exceeds the limit.
pub proof fn lemma_exposure_is_sum(pm: PositionManager)
    requires
        pm.wf(),
    ensures
        pm.exposure_spec() == total(pm.accepted()),
        pm.exposure_spec() <= pm.limit_spec(),
{
}

/// Accepting a run of trades after another adds their sizes: the exposure
/// after any sequence of acceptances is the exposure before plus the sum of
/// the sizes accepted in between, with no update lost.
pub proof fn lemma_total_append(before: Seq<u64>, later: Seq<u64>)
    ensures
        total(before + later) == total(before) + total(later),
    decreases later.len(),
{
    if later.len() == 0 {
        assert(before + later =~= before);
    } else {
        assert((before + later).drop_last() =~= before + later.drop_last());
        assert((before + later).last() == later.last());
        lemma_total_append(before, later.drop_last());
    }
}

} // verus!
