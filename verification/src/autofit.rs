use vstd::prelude::*;

verus! {

/// One step of the autofit search: either probe another size, or finish.
#[derive(Clone, Copy, PartialEq, Eq, Structural, Debug)]
pub enum SearchStep {
    /// Lay the text out at this size and report back whether it fits.
    Probe(u32),
    /// The search committed to this size: the largest probed size that fits.
    Accept(u32),
    /// No size in `1..=ceiling` fits the box.
    TextDoesNotFit,
}

/// Bounded binary search for the largest text size in `1..=ceiling` whose
/// layout fits the box. The search never lays text out itself: the caller
/// answers each `Probe(s)` by laying the text out at size `s`, checking the
/// bounds, and handing the verdict to [`AutofitSearch::advance`]. Every
/// verdict is recorded (as ghost data), so what the final answer promises is
/// stated purely over recorded probes.
pub struct AutofitSearch {
    lo: u32,
    hi: u32,
    ceiling: u32,
    pending: u32,
    probes: Ghost<Map<int, bool>>,
}

impl AutofitSearch {
    /// Every size probed so far, mapped to the verdict the caller reported.
    pub closed spec fn probes_view(self) -> Map<int, bool> {
        self.probes@
    }

    /// The largest size the search will ever consider.
    pub closed spec fn spec_ceiling(self) -> int {
        self.ceiling as int
    }

    /// Whether the search has committed to an answer.
    pub closed spec fn spec_finished(self) -> bool {
        self.lo == self.hi
    }

    /// The size the caller has been asked to lay out next.
    pub closed spec fn spec_pending(self) -> int {
        self.pending as int
    }

    /// How many probes the search may still need: an upper bound that every
    /// `advance` strictly shrinks, so a driving loop terminates.
    pub closed spec fn measure(self) -> int {
        self.hi - self.lo
    }

    /// The search window `lo < .. <= hi` brackets the answer: everything
    /// recorded at or below `lo` fits (if positive), everything above `hi`
    /// does not (if below the ceiling).
    pub closed spec fn wf(self) -> bool {
        &&& self.ceiling >= 1
        &&& self.lo <= self.hi <= self.ceiling
        &&& (self.lo < self.hi ==> self.lo < self.pending <= self.hi)
        &&& (self.lo > 0 ==> self.probes@.contains_pair(self.lo as int, true))
        &&& (self.hi < self.ceiling ==> self.probes@.contains_pair(self.hi as int + 1, false))
    }

    /// Starts a search over `1..=ceiling`.
    pub fn new(ceiling: u32) -> (r: AutofitSearch)
        requires
            ceiling >= 1,
        ensures
            r.wf(),
            !r.spec_finished(),
            r.spec_ceiling() == ceiling,
            r.probes_view() == Map::<int, bool>::empty(),
    {
        let pending: u32 = ((ceiling as u64 + 1) / 2) as u32;
        AutofitSearch { lo: 0, hi: ceiling, ceiling, pending, probes: Ghost(Map::empty()) }
    }

    /// The size the caller must lay out and bounds-check next.
    pub fn next_probe(&self) -> (s: u32)
        requires
            self.wf(),
            !self.spec_finished(),
        ensures
            s == self.spec_pending(),
            1 <= s <= self.spec_ceiling(),
    {
        self.pending
    }

    /// Takes the verdict for the pending probe and either asks for another
    /// probe or commits. An accepted size was seen to fit while the next
    /// larger size (if any below the ceiling) was seen not to; the search
    /// fails only after size 1 was seen not to fit.
    pub fn advance(&mut self, fits_result: bool) -> (step: SearchStep)
        requires
            old(self).wf(),
            !old(self).spec_finished(),
        ensures
            final(self).wf(),
            final(self).spec_ceiling() == old(self).spec_ceiling(),
            final(self).probes_view() == old(self).probes_view().insert(
                old(self).spec_pending(),
                fits_result,
            ),
            match step {
                SearchStep::Probe(p) => {
                    &&& !final(self).spec_finished()
                    &&& p == final(self).spec_pending()
                    &&& 1 <= p <= final(self).spec_ceiling()
                    &&& final(self).measure() < old(self).measure()
                },
                SearchStep::Accept(s) => {
                    &&& final(self).spec_finished()
                    &&& 1 <= s <= final(self).spec_ceiling()
                    &&& final(self).probes_view().contains_pair(s as int, true)
                    &&& s < final(self).spec_ceiling() ==> final(self).probes_view().contains_pair(
                        s as int + 1,
                        false,
                    )
                },
                SearchStep::TextDoesNotFit => {
                    &&& final(self).spec_finished()
                    &&& final(self).probes_view().contains_pair(1, false)
                },
            },
    {
        let p = self.pending;
        proof {
            self.probes@ = self.probes@.insert(p as int, fits_result);
        }
        if fits_result {
            self.lo = p;
        } else {
            self.hi = p - 1;
        }
        if self.lo < self.hi {
            let mid: u32 = ((self.lo as u64 + self.hi as u64 + 1) / 2) as u32;
            self.pending = mid;
            SearchStep::Probe(mid)
        } else if self.lo == 0 {
            SearchStep::TextDoesNotFit
        } else {
            SearchStep::Accept(self.lo)
        }
    }
}

/// Whether every recorded probe verdict agrees with the predicate
/// `fits_at`: what "laying out at size `s` fits the box" actually yields.
pub open spec fn probes_agree_with(probes: Map<int, bool>, fits_at: spec_fn(int) -> bool) -> bool {
    forall|s: int| probes.dom().contains(s) ==> probes[s] == fits_at(s)
}

/// Fitting is monotone non-increasing in size: if a larger size fits, every
/// smaller positive size fits too.
pub open spec fn monotone_fits(fits_at: spec_fn(int) -> bool) -> bool {
    forall|s1: int, s2: int| 1 <= s1 <= s2 && #[trigger] fits_at(s2) ==> #[trigger] fits_at(s1)
}

/// Maximality of the accepted size: when the recorded probes agree with a
/// fits predicate that is monotone in size, a size the search accepted fits,
/// and no larger size within the ceiling fits.
pub proof fn lemma_accept_maximal(
    probes: Map<int, bool>,
    fits_at: spec_fn(int) -> bool,
    s: int,
    ceiling: int,
)
    requires
        probes_agree_with(probes, fits_at),
        monotone_fits(fits_at),
        1 <= s <= ceiling,
        probes.contains_pair(s, true),
        s < ceiling ==> probes.contains_pair(s + 1, false),
    ensures
        fits_at(s),
        forall|t: int| s < t <= ceiling ==> !#[trigger] fits_at(t),
{
    assert(fits_at(s));
    assert forall|t: int| s < t <= ceiling implies !#[trigger] fits_at(t) by {
        if fits_at(t) {
            assert(fits_at(s + 1));
            assert(probes[s + 1] == fits_at(s + 1));
        }
    }
}

/// A failed search is right to fail: when the recorded probes agree with a
/// monotone fits predicate and size 1 was seen not to fit, no positive size
/// fits at all.
pub proof fn lemma_reject_no_fit(probes: Map<int, bool>, fits_at: spec_fn(int) -> bool)
    requires
        probes_agree_with(probes, fits_at),
        monotone_fits(fits_at),
        probes.contains_pair(1, false),
    ensures
        forall|t: int| 1 <= t ==> !#[trigger] fits_at(t),
{
    assert(!fits_at(1));
    assert forall|t: int| 1 <= t implies !#[trigger] fits_at(t) by {
        if fits_at(t) {
            assert(fits_at(1));
        }
    }
}

} // verus!
