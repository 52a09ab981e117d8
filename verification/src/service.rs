//! Creating segments and querying them.
//!
//! A segment is created in three phases: an identifier is reserved, the
//! filter is built, the summary is committed. Only the first and the last
//! touch the registry, so a caller that shares the registry holds it for
//! those two alone.

use crate::builder::build_bloom;
use crate::builder::build_error;
use crate::builder::source_lines;
use crate::builder::source_terms;
use crate::builder::BuildError;
use crate::builder::TermSource;
use crate::clock::current_time;
use crate::filter::BloomFilter;
use crate::filter::FilterSizing;
use crate::registry::lemma_lookup_is_the_summary;
use crate::registry::Registry;
use crate::registry::RegistryView;
use crate::registry::SegmentSummary;
use crate::registry::SummaryView;
use vstd::prelude::*;

verus! {

/// A reserved identifier whose segment is not yet committed.
#[derive(Debug)]
pub struct Reservation {
    id: u32,
}

impl Reservation {
    /// The identifier that was reserved.
    pub closed spec fn spec_id(&self) -> u32 {
        self.id
    }

    /// The identifier that was reserved.
    #[verifier::when_used_as_spec(spec_id)]
    pub fn id(&self) -> (id: u32)
        ensures
            id == self.id(),
    {
        self.id
    }
}

/// Why a segment was not created.
#[derive(Clone, Copy, Debug, PartialEq, Eq, Structural)]
pub enum CreateError {
    /// The clock is set before the Unix epoch, so that the creation has no
    /// timestamp.
    ClockBeforeEpoch,
    /// The filter could not be built.
    Build(BuildError),
}

/// The answer to a query: whether the segment's filter reports the term as
/// present, and the segment that was asked.
#[derive(Clone, Copy, Debug, PartialEq, Eq, Structural)]
pub struct QueryResponse {
    /// Whether the filter reports the term as present.
    pub exists: bool,
    /// The identifier of the segment that was asked.
    pub segment_number: u32,
}

/// Why a query has no answer.
#[derive(Clone, Copy, Debug, PartialEq, Eq, Structural)]
pub enum QueryError {
    /// No segment with the identifier was committed: it was never reserved,
    /// its filter is still being built, or its build failed.
    SegmentNotFound,
}

/// The answer that a registry gives to the query for `term` in segment `id`.
pub open spec fn query_answer(registry: RegistryView, id: u32, term: Seq<u8>) -> Result<
    QueryResponse,
    QueryError,
> {
    match registry.lookup(id) {
        Some(summary) => Ok(
            QueryResponse { exists: summary.membership.accepted.contains(term), segment_number: id },
        ),
        None => Err(QueryError::SegmentNotFound),
    }
}

/// The first phase of a creation: reserves the next identifier.
pub fn begin_segment(registry: &mut Registry) -> (reservation: Reservation)
    requires
        old(registry).wf(),
        old(registry)@.counter < u32::MAX,
    ensures
        final(registry).wf(),
        final(registry)@ == old(registry)@.reserve(),
        reservation.id() == final(registry)@.counter,
{
    let id: u32 = registry.reserve_next_id();
    Reservation { id }
}

/// The last phase of a creation, which began at `created_at`. Where the
/// filter was built, its summary is committed with `completed_at` as the
/// time of completion, and the identifier is returned. Where the build
/// failed, the error is returned and the registry stays as it is: the
/// identifier is never fulfilled.
pub fn finish_segment(
    registry: &mut Registry,
    reservation: Reservation,
    created_at: u64,
    built: Result<BloomFilter, BuildError>,
    completed_at: u64,
) -> (outcome: Result<u32, BuildError>)
    requires
        old(registry).wf(),
        old(registry)@.is_reserved(reservation.id()),
        !old(registry)@.is_committed(reservation.id()),
        built matches Ok(filter) ==> filter.wf(),
    ensures
        final(registry).wf(),
        match built {
            Ok(filter) => {
                &&& outcome == Ok::<u32, BuildError>(reservation.id())
                &&& final(registry)@ == old(registry)@.commit(
                    SummaryView {
                        id: reservation.id(),
                        created_at,
                        completed_at,
                        membership: filter@,
                    },
                )
            },
            Err(error) => {
                &&& outcome == Err::<u32, BuildError>(error)
                &&& final(registry)@ == old(registry)@
            },
        },
{
    match built {
        Ok(filter) => {
            let id: u32 = reservation.id;
            registry.append(SegmentSummary::new(id, created_at, completed_at, filter));
            Ok(id)
        },
        Err(error) => Err(error),
    }
}

/// Creates a segment from what the term source gave, one phase after the
/// other: the identifier is reserved, the clock is read, the filter is built
/// with hash keys from `seed`, the clock is read again, and the summary is
/// committed. The identifier is reserved whatever follows; where the build
/// fails or the clock gives no timestamp, no summary is committed.
pub fn create_segment(
    registry: &mut Registry,
    sizing: FilterSizing,
    seed: &[u8; 32],
    source: &TermSource,
) -> (outcome: Result<u32, CreateError>)
    requires
        old(registry).wf(),
        old(registry)@.counter < u32::MAX,
    ensures
        final(registry).wf(),
        match outcome {
            Ok(id) => {
                let summary = final(registry)@.summaries.last();
                &&& build_error(*source) is None
                &&& id == old(registry)@.counter + 1
                &&& final(registry)@ == old(registry)@.reserve().commit(summary)
                &&& final(registry)@.lookup(id) == Some(summary)
                &&& summary.id == id
                &&& summary.membership.sizing == sizing
                &&& summary.membership.bits == sizing.bitmap_bytes() * 8
                &&& summary.membership.inserted == source_terms(*source)
                &&& source_lines(*source).len() == 0 ==> summary.membership.accepted == Set::<
                    Seq<u8>,
                >::empty()
            },
            Err(CreateError::Build(error)) => {
                &&& build_error(*source) == Some(error)
                &&& final(registry)@ == old(registry)@.reserve()
            },
            Err(CreateError::ClockBeforeEpoch) => final(registry)@ == old(registry)@.reserve(),
        },
{
    let reservation = begin_segment(registry);
    let created_at: u64 = match current_time() {
        Some(secs) => secs,
        None => {
            return Err(CreateError::ClockBeforeEpoch);
        },
    };
    let built = build_bloom(sizing, seed, source);
    let completed_at: u64 = match current_time() {
        Some(secs) => secs,
        None => {
            return Err(CreateError::ClockBeforeEpoch);
        },
    };
    match finish_segment(registry, reservation, created_at, built, completed_at) {
        Ok(id) => {
            proof {
                lemma_lookup_is_the_summary(registry@, registry@.summaries.len() - 1);
            }
            Ok(id)
        },
        Err(error) => Err(CreateError::Build(error)),
    }
}

/// Answers whether segment `id` reports `term` as present. A segment that
/// was not committed is not found.
pub fn query_segment(registry: &Registry, id: u32, term: &[u8]) -> (answer: Result<
    QueryResponse,
    QueryError,
>)
    requires
        registry.wf(),
    ensures
        answer == query_answer(registry@, id, term@),
{
    match registry.find(id) {
        Some(summary) => Ok(QueryResponse { exists: summary.contains(term), segment_number: id }),
        None => Err(QueryError::SegmentNotFound),
    }
}

} // verus!
