//! Building a filter from a term source.

use crate::filter::BloomFilter;
use crate::filter::FilterSizing;
use crate::source::all_text;
use crate::source::is_valid_term;
use crate::source::lines_from;
use crate::source::lines_of;
use crate::source::read_line;
use vstd::prelude::*;

verus! {

/// Why a filter could not be built.
#[derive(Clone, Copy, Debug, PartialEq, Eq, Structural)]
pub enum BuildError {
    /// The term source could not be opened.
    SourceUnavailable,
    /// A line of the term source could not be read, or is not valid text.
    SourceReadError,
}

/// What the caller got from the place where the terms are kept.
#[derive(Debug)]
pub enum TermSource {
    /// The source could not be opened.
    Unavailable,
    /// The source was opened, and reading it failed before its end.
    Unreadable,
    /// The whole source, as its bytes.
    Stream(Vec<u8>),
}

/// The error that building from `source` ends in, or `None` where it
/// succeeds.
pub open spec fn build_error(source: TermSource) -> Option<BuildError> {
    match source {
        TermSource::Unavailable => Some(BuildError::SourceUnavailable),
        TermSource::Unreadable => Some(BuildError::SourceReadError),
        TermSource::Stream(bytes) => if all_text(lines_of(bytes@)) {
            None
        } else {
            Some(BuildError::SourceReadError)
        },
    }
}

/// The lines that `source` holds, in order; none where it gave no bytes.
pub open spec fn source_lines(source: TermSource) -> Seq<Seq<u8>> {
    match source {
        TermSource::Stream(bytes) => lines_of(bytes@),
        _ => Seq::empty(),
    }
}

/// The terms that `source` holds.
pub open spec fn source_terms(source: TermSource) -> Set<Seq<u8>> {
    source_lines(source).to_set()
}

/// Builds a filter of the given size, with hash keys from `seed`, and
/// inserts every line of `bytes`. It fails, and hands out no filter, where a
/// line is not valid text. The filter's size is that of `sizing`, however
/// many lines there are; a filter built from no line reports no term as
/// present.
pub fn build_filter(sizing: FilterSizing, seed: &[u8; 32], bytes: &[u8]) -> (built: Result<
    BloomFilter,
    BuildError,
>)
    ensures
        built is Ok <==> all_text(lines_of(bytes@)),
        built matches Ok(filter) ==> {
            &&& filter.wf()
            &&& filter@.sizing == sizing
            &&& filter@.bits == sizing.bitmap_bytes() * 8
            &&& filter@.inserted == lines_of(bytes@).to_set()
            &&& lines_of(bytes@).len() == 0 ==> filter@.accepted == Set::<Seq<u8>>::empty()
        },
        built matches Err(error) ==> error == BuildError::SourceReadError,
{
    let mut filter = BloomFilter::new(sizing, seed);
    let mut from: usize = 0;
    let ghost mut done: Seq<Seq<u8>> = Seq::empty();
    loop
        invariant
            from <= bytes@.len(),
            lines_of(bytes@) == done + lines_from(bytes@, from as int),
            all_text(done),
            filter.wf(),
            filter@.sizing == sizing,
            filter@.inserted == done.to_set(),
            done.len() == 0 ==> filter@.accepted == Set::<Seq<u8>>::empty(),
        ensures
            lines_of(bytes@) == done,
            all_text(done),
            filter.wf(),
            filter@.sizing == sizing,
            filter@.inserted == done.to_set(),
            done.len() == 0 ==> filter@.accepted == Set::<Seq<u8>>::empty(),
        decreases bytes@.len() - from,
    {
        match read_line(bytes, from) {
            None => {
                break ;
            },
            Some(line) => {
                if !is_valid_term(line.term) {
                    assert(lines_of(bytes@)[done.len() as int] == line.term@);
                    return Err(BuildError::SourceReadError);
                }
                filter.insert(line.term);
                proof {
                    done.lemma_push_to_set_commute(line.term@);
                    done = done.push(line.term@);
                }
                from = line.next;
            },
        }
    }
    Ok(filter)
}

/// Builds the filter of a segment from what the term source gave, with hash
/// keys from `seed`.
pub fn build_bloom(sizing: FilterSizing, seed: &[u8; 32], source: &TermSource) -> (built: Result<
    BloomFilter,
    BuildError,
>)
    ensures
        match built {
            Ok(filter) => {
                &&& build_error(*source) is None
                &&& filter.wf()
                &&& filter@.sizing == sizing
                &&& filter@.bits == sizing.bitmap_bytes() * 8
                &&& filter@.inserted == source_terms(*source)
                &&& source_lines(*source).len() == 0 ==> filter@.accepted == Set::<Seq<u8>>::empty()
            },
            Err(error) => build_error(*source) == Some(error),
        },
{
    match source {
        TermSource::Unavailable => Err(BuildError::SourceUnavailable),
        TermSource::Unreadable => Err(BuildError::SourceReadError),
        TermSource::Stream(bytes) => build_filter(sizing, seed, bytes.as_slice()),
    }
}

} // verus!
