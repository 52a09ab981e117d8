use segment_index::filter::BloomFilter;
use segment_index::filter::FilterSizing;
use segment_index::registry::Registry;
use segment_index::registry::SegmentSummary;

/// The seed of the hash keys in these tests.
const SEED: [u8; 32] = [
    0x3a, 0x91, 0x5c, 0x07, 0xe2, 0x48, 0xb6, 0x1d, 0x70, 0xcf, 0x29, 0x84, 0x5b, 0xf3, 0x12, 0xa9,
    0x66, 0x0e, 0xd1, 0x37, 0x9a, 0x4c, 0xe8, 0x23, 0xbd, 0x50, 0x7f, 0x04, 0xc6, 0x8b, 0x15, 0xf0,
];

fn filter_with(terms: &[&[u8]]) -> BloomFilter {
    let mut filter = BloomFilter::new(FilterSizing::new(1000, 1199).unwrap(), &SEED);
    for term in terms {
        filter.insert(term);
    }
    filter
}

#[test]
fn summary_keeps_what_it_was_made_with() {
    let summary = SegmentSummary::new(7, 100, 160, filter_with(&[b"apple"]));
    assert_eq!(summary.id(), 7);
    assert_eq!(summary.created_at(), 100);
    assert_eq!(summary.completed_at(), 160);
    assert!(summary.contains(b"apple"));
    assert!(!summary.contains(b"durian"));
}

#[test]
fn new_registry_is_empty() {
    let registry = Registry::new();
    assert_eq!(registry.counter(), 0);
    assert_eq!(registry.len(), 0);
    assert!(registry.find(0).is_none());
    assert!(registry.find(1).is_none());
}

#[test]
fn identifiers_start_at_one_and_grow_by_one() {
    let mut registry = Registry::new();
    assert_eq!(registry.reserve_next_id(), 1);
    assert_eq!(registry.reserve_next_id(), 2);
    assert_eq!(registry.reserve_next_id(), 3);
    assert_eq!(registry.counter(), 3);
    assert_eq!(registry.len(), 0);
}

#[test]
fn identifiers_are_strictly_increasing() {
    let mut registry = Registry::new();
    let mut last: u32 = 0;
    for _ in 0..1000 {
        let id: u32 = registry.reserve_next_id();
        assert!(id > last);
        last = id;
    }
}

#[test]
fn reserved_identifier_is_not_found_before_its_commit() {
    let mut registry = Registry::new();
    let id: u32 = registry.reserve_next_id();
    assert!(registry.find(id).is_none());
    assert!(registry.can_commit(id));
}

#[test]
fn appended_summary_is_found() {
    let mut registry = Registry::new();
    let id: u32 = registry.reserve_next_id();
    registry.append(SegmentSummary::new(id, 10, 20, filter_with(&[b"apple"])));
    assert_eq!(registry.len(), 1);
    let found = registry.find(id).unwrap();
    assert_eq!(found.id(), id);
    assert_eq!(found.created_at(), 10);
    assert_eq!(found.completed_at(), 20);
    assert!(found.contains(b"apple"));
    assert!(registry.find(id + 1).is_none());
}

#[test]
fn append_does_not_change_the_counter() {
    let mut registry = Registry::new();
    let id: u32 = registry.reserve_next_id();
    registry.append(SegmentSummary::new(id, 10, 20, filter_with(&[])));
    assert_eq!(registry.counter(), 1);
    assert_eq!(registry.reserve_next_id(), 2);
}

#[test]
fn summaries_committed_out_of_order_are_found_by_identifier() {
    let mut registry = Registry::new();
    let first: u32 = registry.reserve_next_id();
    let second: u32 = registry.reserve_next_id();
    let third: u32 = registry.reserve_next_id();
    registry.append(SegmentSummary::new(third, 3, 30, filter_with(&[b"cherry"])));
    registry.append(SegmentSummary::new(first, 1, 40, filter_with(&[b"apple"])));
    assert_eq!(registry.len(), 2);
    assert!(registry.find(first).unwrap().contains(b"apple"));
    assert_eq!(registry.find(first).unwrap().completed_at(), 40);
    assert!(registry.find(third).unwrap().contains(b"cherry"));
    assert_eq!(registry.find(third).unwrap().completed_at(), 30);
    assert!(registry.find(second).is_none());
}

#[test]
fn can_commit_tells_reserved_from_committed() {
    let mut registry = Registry::new();
    assert!(!registry.can_commit(0));
    assert!(!registry.can_commit(1));
    let id: u32 = registry.reserve_next_id();
    assert!(registry.can_commit(id));
    assert!(!registry.can_commit(id + 1));
    registry.append(SegmentSummary::new(id, 10, 20, filter_with(&[])));
    assert!(!registry.can_commit(id));
}

#[test]
fn summaries_stand_in_the_order_of_their_commits() {
    let mut registry = Registry::new();
    let first: u32 = registry.reserve_next_id();
    let second: u32 = registry.reserve_next_id();
    registry.append(SegmentSummary::new(second, 2, 20, filter_with(&[b"banana"])));
    registry.append(SegmentSummary::new(first, 1, 30, filter_with(&[b"apple"])));
    assert_eq!(registry.get(0).unwrap().id(), second);
    assert_eq!(registry.get(1).unwrap().id(), first);
    assert!(registry.get(2).is_none());
}

#[test]
fn get_in_empty_registry_is_none() {
    let registry = Registry::new();
    assert!(registry.get(0).is_none());
}
