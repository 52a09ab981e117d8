//! The membership structure of a segment: a Bloom filter over byte strings.

use bloomfilter::Bloom;
use vstd::prelude::*;

verus! {

/// `bloomfilter::Bloom`, held as an opaque collection. Every filter in this
/// library is one that `Bloom::new_with_seed` made and only `Bloom::set`
/// changed.
#[verifier::external_type_specification]
#[verifier::external_body]
#[verifier::reject_recursive_types(T)]
pub struct ExBloom<T: ?Sized>(Bloom<T>);

/// The byte strings that a filter reports as present: those for which
/// `Bloom::check` answers `true`.
pub uninterp spec fn bloom_accepted(filter: Bloom<[u8]>) -> Set<Seq<u8>>;

/// The number of bits of a filter's bit array, which
/// `Bloom::number_of_bits` returns.
pub uninterp spec fn bloom_bits(filter: Bloom<[u8]>) -> nat;

/// `Bloom::new_with_seed` allocates a bit array of `bitmap_bytes` bytes, all
/// bits clear, and takes its hash keys from `seed`. It uses at least one
/// hash function, so a new filter reports nothing as present. It panics on a
/// zero argument and on a bit count that overflows, which `requires` leaves
/// out.
#[verifier::external_body]
fn bloom_new(bitmap_bytes: usize, expected_items: usize, seed: &[u8; 32]) -> (filter: Bloom<[u8]>)
    requires
        0 < expected_items,
        0 < bitmap_bytes,
        bitmap_bytes * 8 <= usize::MAX,
    ensures
        bloom_accepted(filter) == Set::<Seq<u8>>::empty(),
        bloom_bits(filter) == bitmap_bytes * 8,
{
    Bloom::new_with_seed(bitmap_bytes, expected_items, seed)
}

/// `Bloom::set` sets the bits that the hash functions assign to `term` and
/// clears none, so `term` is reported present afterwards, and so is all that
/// was before. The bit array keeps its length.
#[verifier::external_body]
fn bloom_set(filter: &mut Bloom<[u8]>, term: &[u8])
    ensures
        bloom_accepted(*final(filter)).contains(term@),
        bloom_accepted(*old(filter)).subset_of(bloom_accepted(*final(filter))),
        bloom_bits(*final(filter)) == bloom_bits(*old(filter)),
{
    filter.set(term)
}

/// `Bloom::number_of_bits` returns the number of bits of the bit array.
#[verifier::external_body]
fn bloom_number_of_bits(filter: &Bloom<[u8]>) -> (bits: u64)
    ensures
        bits == bloom_bits(*filter),
{
    filter.number_of_bits()
}

/// `Bloom::check` answers whether all the bits that the hash functions
/// assign to `term` are set.
#[verifier::external_body]
fn bloom_check(filter: &Bloom<[u8]>, term: &[u8]) -> (present: bool)
    ensures
        present == bloom_accepted(*filter).contains(term@),
{
    filter.check(term)
}

/// How large a filter is made: the number of terms it is meant to hold and the
/// size of its bit array in bytes.
#[derive(Clone, Copy, Debug)]
pub struct FilterSizing {
    expected_items: usize,
    bitmap_bytes: usize,
}

impl FilterSizing {
    /// The pairs that a filter can be made with: both positive, and a bit
    /// count that fits the machine's word.
    pub open spec fn admits(expected_items: usize, bitmap_bytes: usize) -> bool {
        &&& 0 < expected_items
        &&& 0 < bitmap_bytes
        &&& bitmap_bytes * 8 <= usize::MAX
    }

    /// The invariant of a sizing: a filter can be made with its numbers.
    #[verifier::type_invariant]
    pub closed spec fn wf(self) -> bool {
        Self::admits(self.expected_items, self.bitmap_bytes)
    }

    /// The number of terms the filter is meant to hold.
    pub closed spec fn spec_expected_items(&self) -> usize {
        self.expected_items
    }

    /// The size of the bit array in bytes.
    pub closed spec fn spec_bitmap_bytes(&self) -> usize {
        self.bitmap_bytes
    }

    /// The sizing with the given numbers, or `None` where no filter can be
    /// made with them.
    pub fn new(expected_items: usize, bitmap_bytes: usize) -> (sizing: Option<FilterSizing>)
        ensures
            sizing is Some <==> Self::admits(expected_items, bitmap_bytes),
            sizing matches Some(s) ==> s.wf() && s.expected_items() == expected_items
                && s.bitmap_bytes() == bitmap_bytes,
    {
        if expected_items > 0 && bitmap_bytes > 0 && bitmap_bytes <= usize::MAX / 8 {
            Some(FilterSizing { expected_items, bitmap_bytes })
        } else {
            None
        }
    }

    /// The number of terms the filter is meant to hold.
    #[verifier::when_used_as_spec(spec_expected_items)]
    pub fn expected_items(&self) -> (n: usize)
        ensures
            n == self.expected_items(),
    {
        self.expected_items
    }

    /// The size of the bit array in bytes.
    #[verifier::when_used_as_spec(spec_bitmap_bytes)]
    pub fn bitmap_bytes(&self) -> (n: usize)
        ensures
            n == self.bitmap_bytes(),
    {
        self.bitmap_bytes
    }
}

/// What a filter is, to its users.
pub struct FilterView {
    /// How the filter was sized.
    pub sizing: FilterSizing,
    /// The number of bits of the bit array.
    pub bits: nat,
    /// The terms that were inserted.
    pub inserted: Set<Seq<u8>>,
    /// The terms that the filter reports as present.
    pub accepted: Set<Seq<u8>>,
}

impl FilterView {
    /// The invariant of a filter: its sizing is one that a filter can be
    /// made with, its bit array has eight bits for each byte of the sizing,
    /// and every inserted term is reported present.
    pub open spec fn wf(self) -> bool {
        &&& self.sizing.wf()
        &&& self.bits == self.sizing.bitmap_bytes() * 8
        &&& self.inserted.subset_of(self.accepted)
    }
}

/// A Bloom filter over byte strings: it is made empty, terms are inserted one
/// at a time, and none is ever removed.
pub struct BloomFilter {
    bits: Bloom<[u8]>,
    sizing: FilterSizing,
    inserted: Ghost<Set<Seq<u8>>>,
}

impl View for BloomFilter {
    type V = FilterView;

    closed spec fn view(&self) -> FilterView {
        FilterView {
            sizing: self.sizing,
            bits: bloom_bits(self.bits),
            inserted: self.inserted@,
            accepted: bloom_accepted(self.bits),
        }
    }
}

impl BloomFilter {
    /// The filter's invariant, which every function here keeps.
    pub open spec fn wf(&self) -> bool {
        self@.wf()
    }

    /// An empty filter of the given size, whose hash keys are taken from
    /// `seed`. It reports no term as present.
    pub fn new(sizing: FilterSizing, seed: &[u8; 32]) -> (filter: BloomFilter)
        ensures
            filter.wf(),
            filter@.sizing == sizing,
            filter@.bits == sizing.bitmap_bytes() * 8,
            filter@.inserted == Set::<Seq<u8>>::empty(),
            filter@.accepted == Set::<Seq<u8>>::empty(),
    {
        proof {
            use_type_invariant(&sizing);
        }
        let bits = bloom_new(sizing.bitmap_bytes(), sizing.expected_items(), seed);
        BloomFilter { bits, sizing, inserted: Ghost(Set::empty()) }
    }

    /// Records `term`. Whatever was reported present before still is.
    pub fn insert(&mut self, term: &[u8])
        requires
            old(self).wf(),
        ensures
            final(self).wf(),
            final(self)@.sizing == old(self)@.sizing,
            final(self)@.bits == old(self)@.bits,
            final(self)@.inserted == old(self)@.inserted.insert(term@),
            final(self)@.accepted.contains(term@),
            old(self)@.accepted.subset_of(final(self)@.accepted),
    {
        bloom_set(&mut self.bits, term);
        self.inserted = Ghost(self.inserted@.insert(term@));
    }

    /// Whether the filter reports `term` as present. It does so for every
    /// term that was inserted.
    pub fn contains(&self, term: &[u8]) -> (present: bool)
        requires
            self.wf(),
        ensures
            present == self@.accepted.contains(term@),
            self@.inserted.contains(term@) ==> present,
    {
        bloom_check(&self.bits, term)
    }

    /// The number of bits of the bit array: eight for each byte of the
    /// sizing.
    pub fn number_of_bits(&self) -> (bits: u64)
        requires
            self.wf(),
        ensures
            bits == self@.bits,
            bits == self@.sizing.bitmap_bytes() * 8,
    {
        bloom_number_of_bits(&self.bits)
    }

    /// How the filter was sized.
    pub fn sizing(&self) -> (sizing: FilterSizing)
        ensures
            sizing == self@.sizing,
    {
        self.sizing
    }
}

/// A term that was inserted into a filter is reported present by it, always.
pub proof fn lemma_no_false_negatives(filter: FilterView, term: Seq<u8>)
    requires
        filter.wf(),
        filter.inserted.contains(term),
    ensures
        filter.accepted.contains(term),
{
}

} // verus!
