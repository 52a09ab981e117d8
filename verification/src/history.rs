//! What holds of a registry over every course of events.

use crate::registry::lemma_lookup_is_the_summary;
use crate::registry::RegistryView;
use crate::registry::SummaryView;
use crate::service::query_answer;
use crate::service::QueryError;
use crate::service::QueryResponse;
use vstd::prelude::*;

verus! {

/// One event in the life of a registry.
pub enum Change {
    /// The next identifier was reserved.
    Reserve,
    /// The build of a segment succeeded, and its summary was committed.
    Commit(SummaryView),
    /// The build of the segment with this identifier failed.
    Fail(u32),
}

impl Change {
    /// Whether the event is the commit of segment `id`.
    pub open spec fn is_commit_of(self, id: u32) -> bool {
        match self {
            Change::Commit(summary) => summary.id == id,
            _ => false,
        }
    }
}

impl RegistryView {
    /// Whether `change` can happen to the registry.
    pub open spec fn allows(self, change: Change) -> bool {
        match change {
            Change::Reserve => self.counter < u32::MAX,
            Change::Commit(summary) => self.admits(summary),
            Change::Fail(id) => self.is_reserved(id) && !self.is_committed(id),
        }
    }

    /// The registry after `change`. A failed build leaves it as it is.
    pub open spec fn after(self, change: Change) -> RegistryView {
        match change {
            Change::Reserve => self.reserve(),
            Change::Commit(summary) => self.commit(summary),
            Change::Fail(_) => self,
        }
    }

    /// The registry after the events of `changes`, one after the other.
    pub open spec fn after_all(self, changes: Seq<Change>) -> RegistryView
        decreases changes.len(),
    {
        if changes.len() == 0 {
            self
        } else {
            self.after_all(changes.drop_last()).after(changes.last())
        }
    }

    /// Whether the events of `changes` can happen to the registry, one after
    /// the other.
    pub open spec fn allows_all(self, changes: Seq<Change>) -> bool
        decreases changes.len(),
    {
        changes.len() > 0 ==> {
            &&& self.allows_all(changes.drop_last())
            &&& self.after_all(changes.drop_last()).allows(changes.last())
        }
    }
}

/// Whether one of `changes` commits segment `id`.
pub open spec fn commits(changes: Seq<Change>, id: u32) -> bool {
    exists|i: int| 0 <= i < changes.len() && (#[trigger] changes[i]).is_commit_of(id)
}

/// A well-formed registry is well formed after every event.
pub proof fn lemma_change_keeps_wf(registry: RegistryView, change: Change)
    requires
        registry.wf(),
        registry.allows(change),
    ensures
        registry.after(change).wf(),
{
    let after = registry.after(change);
    match change {
        Change::Commit(summary) => {
            let last = registry.summaries.len() as int;
            assert forall|i: int, j: int| 0 <= i < j < after.summaries.len() implies (
            #[trigger] after.summaries[i]).id != (#[trigger] after.summaries[j]).id by {
                if j == last {
                    assert(after.summaries[i] == registry.summaries[i]);
                }
            }
        },
        _ => {},
    }
}

/// A well-formed registry is well formed after every course of events, and
/// its counter never goes back.
pub proof fn lemma_changes_keep_wf(registry: RegistryView, changes: Seq<Change>)
    requires
        registry.wf(),
        registry.allows_all(changes),
    ensures
        registry.after_all(changes).wf(),
        registry.counter <= registry.after_all(changes).counter,
    decreases changes.len(),
{
    if changes.len() > 0 {
        lemma_changes_keep_wf(registry, changes.drop_last());
        lemma_change_keeps_wf(registry.after_all(changes.drop_last()), changes.last());
    }
}

/// Identifiers only grow: whatever happens between two reservations, other
/// reservations, commits and failed builds, the second returns a greater
/// identifier than the first. No identifier is given out twice, that of a
/// failed build included.
pub proof fn lemma_identifiers_increase(registry: RegistryView, between: Seq<Change>)
    requires
        registry.wf(),
        registry.allows(Change::Reserve),
        registry.reserve().allows_all(between),
        registry.reserve().after_all(between).allows(Change::Reserve),
    ensures
        registry.reserve().counter < registry.reserve().after_all(between).reserve().counter,
{
    lemma_change_keeps_wf(registry, Change::Reserve);
    lemma_changes_keep_wf(registry.reserve(), between);
}

/// A committed segment stays as it is: whatever happens later, the
/// reservation and the commit of other segments included, a lookup of its
/// identifier finds the same summary, and a query for a term in it has the
/// same answer.
pub proof fn lemma_lookup_isolation(registry: RegistryView, changes: Seq<Change>, id: u32)
    requires
        registry.wf(),
        registry.allows_all(changes),
        registry.is_committed(id),
    ensures
        registry.after_all(changes).lookup(id) == registry.lookup(id),
        forall|term: Seq<u8>| #[trigger]
            query_answer(registry.after_all(changes), id, term) == query_answer(registry, id, term),
    decreases changes.len(),
{
    if changes.len() > 0 {
        let before = registry.after_all(changes.drop_last());
        let after = registry.after_all(changes);
        lemma_lookup_isolation(registry, changes.drop_last(), id);
        lemma_changes_keep_wf(registry, changes.drop_last());
        lemma_changes_keep_wf(registry, changes);
        let at = choose|at: int|
            0 <= at < before.summaries.len() && (#[trigger] before.summaries[at]).id == id;
        assert(after.summaries[at] == before.summaries[at]);
        lemma_lookup_is_the_summary(after, at);
        lemma_lookup_is_the_summary(before, at);
    }
}

/// A lookup does not depend on the order in which the segments were
/// committed: two well-formed registries that hold the same summaries find
/// the same summary for every identifier.
pub proof fn lemma_lookup_ignores_order(first: RegistryView, second: RegistryView, id: u32)
    requires
        first.wf(),
        second.wf(),
        forall|summary: SummaryView|
            first.summaries.contains(summary) <==> second.summaries.contains(summary),
    ensures
        first.lookup(id) == second.lookup(id),
{
    if first.is_committed(id) {
        let at = choose|at: int|
            0 <= at < first.summaries.len() && (#[trigger] first.summaries[at]).id == id;
        assert(first.summaries.contains(first.summaries[at]));
        let to = choose|to: int|
            0 <= to < second.summaries.len() && second.summaries[to] == first.summaries[at];
        lemma_lookup_is_the_summary(first, at);
        lemma_lookup_is_the_summary(second, to);
    } else if second.is_committed(id) {
        let to = choose|to: int|
            0 <= to < second.summaries.len() && (#[trigger] second.summaries[to]).id == id;
        assert(second.summaries.contains(second.summaries[to]));
        let at = choose|at: int|
            0 <= at < first.summaries.len() && first.summaries[at] == second.summaries[to];
        assert(first.summaries[at].id == id);
    }
}

/// No false negatives: a query for a term that was inserted into a committed
/// segment answers that the term exists.
pub proof fn lemma_query_finds_inserted(registry: RegistryView, id: u32, term: Seq<u8>)
    requires
        registry.wf(),
        registry.lookup(id) matches Some(summary) && summary.membership.inserted.contains(term),
    ensures
        query_answer(registry, id, term) == Ok::<QueryResponse, QueryError>(
            QueryResponse { exists: true, segment_number: id },
        ),
{
}

/// An identifier that was never reserved is not found.
pub proof fn lemma_unreserved_not_found(registry: RegistryView, id: u32, term: Seq<u8>)
    requires
        registry.wf(),
        !registry.is_reserved(id),
    ensures
        registry.lookup(id) is None,
        query_answer(registry, id, term) == Err::<QueryResponse, QueryError>(
            QueryError::SegmentNotFound,
        ),
{
}

/// A segment that is not committed is not found, and stays so for as long as
/// no commit of it happens: while its filter is being built, and for ever
/// once its build has failed.
pub proof fn lemma_uncommitted_not_found(
    registry: RegistryView,
    changes: Seq<Change>,
    id: u32,
    term: Seq<u8>,
)
    requires
        !registry.is_committed(id),
        !commits(changes, id),
    ensures
        registry.after_all(changes).lookup(id) is None,
        query_answer(registry.after_all(changes), id, term) == Err::<QueryResponse, QueryError>(
            QueryError::SegmentNotFound,
        ),
    decreases changes.len(),
{
    if changes.len() > 0 {
        let rest = changes.drop_last();
        assert forall|i: int| 0 <= i < rest.len() implies !(#[trigger] rest[i]).is_commit_of(id) by {
            assert(rest[i] == changes[i]);
        }
        lemma_uncommitted_not_found(registry, rest, id, term);
        let before = registry.after_all(rest);
        let after = registry.after_all(changes);
        assert(changes.last() == changes[changes.len() - 1]);
        assert forall|i: int| 0 <= i < after.summaries.len() implies (
        #[trigger] after.summaries[i]).id != id by {
            if i < before.summaries.len() {
                assert(after.summaries[i] == before.summaries[i]);
            }
        }
    }
}

} // verus!
