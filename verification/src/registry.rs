//! Segment summaries and the registry that numbers and keeps them.

use crate::filter::BloomFilter;
use crate::filter::FilterView;
use vstd::prelude::*;

verus! {

/// What a segment summary is, to its users.
pub struct SummaryView {
    /// The segment's identifier.
    pub id: u32,
    /// When the segment's creation began, in seconds since the Unix epoch.
    pub created_at: u64,
    /// When the segment's filter was complete.
    pub completed_at: u64,
    /// The segment's filter.
    pub membership: FilterView,
}

impl SummaryView {
    /// The invariant of a summary: that of its filter.
    pub open spec fn wf(self) -> bool {
        self.membership.wf()
    }
}

/// The record of one segment: its identifier, the two timestamps of its
/// creation, and the filter over its terms. Nothing changes it once it is
/// made.
pub struct SegmentSummary {
    id: u32,
    created_at: u64,
    completed_at: u64,
    membership: BloomFilter,
}

impl View for SegmentSummary {
    type V = SummaryView;

    closed spec fn view(&self) -> SummaryView {
        SummaryView {
            id: self.id,
            created_at: self.created_at,
            completed_at: self.completed_at,
            membership: self.membership@,
        }
    }
}

impl SegmentSummary {
    /// The summary's invariant, which every function here keeps.
    pub open spec fn wf(&self) -> bool {
        self@.wf()
    }

    /// The summary of segment `id` with the given timestamps and filter.
    pub fn new(id: u32, created_at: u64, completed_at: u64, membership: BloomFilter) -> (summary:
        SegmentSummary)
        requires
            membership.wf(),
        ensures
            summary.wf(),
            summary@ == (SummaryView { id, created_at, completed_at, membership: membership@ }),
    {
        SegmentSummary { id, created_at, completed_at, membership }
    }

    /// The segment's identifier.
    pub fn id(&self) -> (id: u32)
        ensures
            id == self@.id,
    {
        self.id
    }

    /// When the segment's creation began.
    pub fn created_at(&self) -> (secs: u64)
        ensures
            secs == self@.created_at,
    {
        self.created_at
    }

    /// When the segment's filter was complete.
    pub fn completed_at(&self) -> (secs: u64)
        ensures
            secs == self@.completed_at,
    {
        self.completed_at
    }

    /// Whether the segment's filter reports `term` as present. It does so
    /// for every term of the segment.
    pub fn contains(&self, term: &[u8]) -> (present: bool)
        requires
            self.wf(),
        ensures
            present == self@.membership.accepted.contains(term@),
            self@.membership.inserted.contains(term@) ==> present,
    {
        self.membership.contains(term)
    }
}

/// What a registry is, to its users.
pub struct RegistryView {
    /// How many identifiers were reserved: the last one, or 0 before the
    /// first.
    pub counter: nat,
    /// The summaries of the committed segments, in the order in which they
    /// were committed.
    pub summaries: Seq<SummaryView>,
}

impl RegistryView {
    /// Whether `id` was reserved.
    pub open spec fn is_reserved(self, id: u32) -> bool {
        1 <= id <= self.counter
    }

    /// Whether segment `id` was committed.
    pub open spec fn is_committed(self, id: u32) -> bool {
        exists|i: int| 0 <= i < self.summaries.len() && (#[trigger] self.summaries[i]).id == id
    }

    /// The summary of segment `id`, or `None` where none was committed.
    pub open spec fn lookup(self, id: u32) -> Option<SummaryView> {
        if self.is_committed(id) {
            Some(
                self.summaries[choose|i: int|
                    0 <= i < self.summaries.len() && (#[trigger] self.summaries[i]).id == id],
            )
        } else {
            None
        }
    }

    /// The invariant of a registry: the counter fits its type, every
    /// committed segment has an identifier that was reserved, no identifier
    /// was committed twice, and every summary is well formed.
    pub open spec fn wf(self) -> bool {
        &&& self.counter <= u32::MAX
        &&& forall|i: int|
            0 <= i < self.summaries.len() ==> self.is_reserved((#[trigger] self.summaries[i]).id)
        &&& forall|i: int, j: int|
            0 <= i < j < self.summaries.len() ==> (#[trigger] self.summaries[i]).id != (
            #[trigger] self.summaries[j]).id
        &&& forall|i: int| 0 <= i < self.summaries.len() ==> (#[trigger] self.summaries[i]).wf()
    }

    /// The registry after the next identifier was reserved.
    pub open spec fn reserve(self) -> RegistryView {
        RegistryView { counter: self.counter + 1, summaries: self.summaries }
    }

    /// The registry after `summary` was committed.
    pub open spec fn commit(self, summary: SummaryView) -> RegistryView {
        RegistryView { counter: self.counter, summaries: self.summaries.push(summary) }
    }

    /// Whether `summary` can be committed: it is well formed, and its
    /// identifier was reserved and not committed before.
    pub open spec fn admits(self, summary: SummaryView) -> bool {
        &&& summary.wf()
        &&& self.is_reserved(summary.id)
        &&& !self.is_committed(summary.id)
    }
}

/// In a well-formed registry, the lookup of the identifier of a summary
/// finds that summary, wherever it stands.
pub proof fn lemma_lookup_is_the_summary(registry: RegistryView, at: int)
    requires
        registry.wf(),
        0 <= at < registry.summaries.len(),
    ensures
        registry.lookup(registry.summaries[at].id) == Some(registry.summaries[at]),
{
    let id: u32 = registry.summaries[at].id;
    assert(registry.is_committed(id));
    let found = choose|found: int|
        0 <= found < registry.summaries.len() && (#[trigger] registry.summaries[found]).id == id;
    assert(found == at);
}

/// The store of the committed segments, with the counter that numbers them.
pub struct Registry {
    counter: u32,
    summaries: Vec<SegmentSummary>,
}

impl View for Registry {
    type V = RegistryView;

    closed spec fn view(&self) -> RegistryView {
        RegistryView {
            counter: self.counter as nat,
            summaries: self.summaries@.map_values(|summary: SegmentSummary| summary@),
        }
    }
}

impl Registry {
    /// The registry's invariant, which every function here keeps.
    pub open spec fn wf(&self) -> bool {
        self@.wf()
    }

    /// A registry with no segment and no identifier reserved.
    pub fn new() -> (registry: Registry)
        ensures
            registry.wf(),
            registry@.counter == 0,
            registry@.summaries == Seq::<SummaryView>::empty(),
    {
        Registry { counter: 0, summaries: Vec::new() }
    }

    /// Reserves the next identifier: one more than the last. It is greater
    /// than every identifier reserved before, and no earlier one is given out
    /// again.
    pub fn reserve_next_id(&mut self) -> (id: u32)
        requires
            old(self).wf(),
            old(self)@.counter < u32::MAX,
        ensures
            final(self).wf(),
            final(self)@ == old(self)@.reserve(),
            id == final(self)@.counter,
            !old(self)@.is_reserved(id),
            forall|earlier: u32| old(self)@.is_reserved(earlier) ==> earlier < id,
    {
        self.counter = self.counter + 1;
        assert(self@.summaries == old(self)@.summaries);
        self.counter
    }

    /// Puts `summary` after the summaries that are there. The summaries stay
    /// in the order in which they were committed, not in that of their
    /// identifiers.
    pub fn append(&mut self, summary: SegmentSummary)
        requires
            old(self).wf(),
            old(self)@.admits(summary@),
        ensures
            final(self).wf(),
            final(self)@ == old(self)@.commit(summary@),
    {
        self.summaries.push(summary);
        assert(self@.summaries == old(self)@.summaries.push(summary@));
    }

    /// The summary of segment `id`, or `None` where none was committed.
    pub fn find(&self, id: u32) -> (found: Option<&SegmentSummary>)
        requires
            self.wf(),
        ensures
            match found {
                Some(summary) => summary.wf() && self@.lookup(id) == Some(summary@),
                None => self@.lookup(id) is None,
            },
    {
        let mut i: usize = 0;
        while i < self.summaries.len()
            invariant
                self.wf(),
                i <= self.summaries@.len(),
                self@.summaries.len() == self.summaries@.len(),
                forall|j: int| 0 <= j < i ==> (#[trigger] self@.summaries[j]).id != id,
            decreases self.summaries@.len() - i,
        {
            if self.summaries[i].id == id {
                proof {
                    let view = self@;
                    assert(view.summaries[i as int] == self.summaries@[i as int]@);
                    assert(view.is_committed(id));
                    let at = choose|at: int|
                        0 <= at < view.summaries.len() && (#[trigger] view.summaries[at]).id == id;
                    assert(at == i);
                }
                return Some(&self.summaries[i]);
            }
            i += 1;
        }
        None
    }

    /// The summary at place `index` in the order of commits, or `None` where
    /// fewer were committed.
    pub fn get(&self, index: usize) -> (found: Option<&SegmentSummary>)
        requires
            self.wf(),
        ensures
            found is Some <==> index < self@.summaries.len(),
            found matches Some(summary) ==> summary.wf() && summary@ == self@.summaries[index as int],
    {
        if index < self.summaries.len() {
            assert(self@.summaries[index as int] == self.summaries@[index as int]@);
            Some(&self.summaries[index])
        } else {
            None
        }
    }

    /// Whether a summary of segment `id` can be committed: the identifier
    /// was reserved, and no summary of it was committed.
    pub fn can_commit(&self, id: u32) -> (ok: bool)
        requires
            self.wf(),
        ensures
            ok == (self@.is_reserved(id) && !self@.is_committed(id)),
    {
        1 <= id && id <= self.counter && self.find(id).is_none()
    }

    /// How many identifiers were reserved.
    pub fn counter(&self) -> (counter: u32)
        ensures
            counter == self@.counter,
    {
        self.counter
    }

    /// How many segments were committed.
    pub fn len(&self) -> (len: usize)
        ensures
            len == self@.summaries.len(),
    {
        self.summaries.len()
    }
}

} // verus!
