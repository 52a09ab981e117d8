use bloomfilter::Bloom;
use segment_index::filter::BloomFilter;
use segment_index::filter::FilterSizing;

/// The seed of the hash keys in these tests.
const SEED: [u8; 32] = [
    0x3a, 0x91, 0x5c, 0x07, 0xe2, 0x48, 0xb6, 0x1d, 0x70, 0xcf, 0x29, 0x84, 0x5b, 0xf3, 0x12, 0xa9,
    0x66, 0x0e, 0xd1, 0x37, 0x9a, 0x4c, 0xe8, 0x23, 0xbd, 0x50, 0x7f, 0x04, 0xc6, 0x8b, 0x15, 0xf0,
];

fn sizing_for(expected_items: usize, rate: f64) -> FilterSizing {
    let bytes: usize = Bloom::<[u8]>::compute_bitmap_size(expected_items, rate);
    FilterSizing::new(expected_items, bytes).unwrap()
}

fn term(prefix: &str, number: u32) -> Vec<u8> {
    format!("{}-{}", prefix, number).into_bytes()
}

#[test]
fn sizing_keeps_its_numbers() {
    let sizing = FilterSizing::new(1000, 1199).unwrap();
    assert_eq!(sizing.expected_items(), 1000);
    assert_eq!(sizing.bitmap_bytes(), 1199);
}

#[test]
fn sizing_for_a_thousand_items_at_one_percent() {
    let sizing = sizing_for(1000, 0.01);
    assert_eq!(sizing.expected_items(), 1000);
    assert_eq!(sizing.bitmap_bytes(), 1199);
}

#[test]
fn sizing_rejects_zero_items() {
    assert!(FilterSizing::new(0, 1199).is_none());
}

#[test]
fn sizing_rejects_zero_bytes() {
    assert!(FilterSizing::new(1000, 0).is_none());
}

#[test]
fn sizing_rejects_a_bit_count_that_overflows() {
    assert!(FilterSizing::new(1, usize::MAX / 8 + 1).is_none());
    assert!(FilterSizing::new(1, usize::MAX).is_none());
}

#[test]
fn sizing_accepts_the_smallest_filter() {
    let sizing = FilterSizing::new(1, 1).unwrap();
    assert_eq!(sizing.expected_items(), 1);
    assert_eq!(sizing.bitmap_bytes(), 1);
}

#[test]
fn new_filter_keeps_its_sizing() {
    let filter = BloomFilter::new(sizing_for(1000, 0.01), &SEED);
    assert_eq!(filter.sizing().expected_items(), 1000);
    assert_eq!(filter.sizing().bitmap_bytes(), 1199);
}

#[test]
fn new_filter_reports_nothing() {
    let filter = BloomFilter::new(sizing_for(1000, 0.01), &SEED);
    assert!(!filter.contains(b""));
    assert!(!filter.contains(b"apple"));
    for number in 0..1000u32 {
        assert!(!filter.contains(&term("absent", number)));
    }
}

#[test]
fn smallest_new_filter_reports_nothing() {
    let filter = BloomFilter::new(FilterSizing::new(1, 1).unwrap(), &SEED);
    for number in 0..100u32 {
        assert!(!filter.contains(&term("absent", number)));
    }
}

#[test]
fn inserted_term_is_reported() {
    let mut filter = BloomFilter::new(sizing_for(1000, 0.01), &SEED);
    assert!(!filter.contains(b"apple"));
    filter.insert(b"apple");
    assert!(filter.contains(b"apple"));
}

#[test]
fn empty_term_can_be_inserted() {
    let mut filter = BloomFilter::new(sizing_for(1000, 0.01), &SEED);
    filter.insert(b"");
    assert!(filter.contains(b""));
}

#[test]
fn no_false_negatives() {
    let mut filter = BloomFilter::new(sizing_for(1000, 0.01), &SEED);
    for number in 0..1000u32 {
        filter.insert(&term("term", number));
        for earlier in 0..=number {
            assert!(filter.contains(&term("term", earlier)));
        }
    }
}

#[test]
fn no_false_negatives_in_an_overfull_filter() {
    let mut filter = BloomFilter::new(sizing_for(10, 0.01), &SEED);
    for number in 0..5000u32 {
        filter.insert(&term("term", number));
    }
    for number in 0..5000u32 {
        assert!(filter.contains(&term("term", number)));
    }
}

#[test]
fn false_positives_are_bounded() {
    let rate: f64 = 0.01;
    for trial in 0..5u8 {
        let mut seed: [u8; 32] = SEED;
        seed[0] = trial;
        seed[16] = trial;
        let mut filter = BloomFilter::new(sizing_for(1000, rate), &seed);
        for number in 0..1000u32 {
            filter.insert(&term("present", number));
        }
        let sample: u32 = 20000;
        let mut wrong: u32 = 0;
        for number in 0..sample {
            if filter.contains(&term("absent", number)) {
                wrong += 1;
            }
        }
        let measured: f64 = f64::from(wrong) / f64::from(sample);
        assert!(measured <= 2.0 * rate, "measured rate {}", measured);
    }
}

#[test]
fn number_of_bits_is_eight_for_each_byte() {
    let filter = BloomFilter::new(sizing_for(1000, 0.01), &SEED);
    assert_eq!(filter.number_of_bits(), 9592);
    let smallest = BloomFilter::new(FilterSizing::new(1, 1).unwrap(), &SEED);
    assert_eq!(smallest.number_of_bits(), 8);
}

#[test]
fn number_of_bits_does_not_change_with_insertions() {
    let mut filter = BloomFilter::new(sizing_for(10, 0.01), &SEED);
    let bits: u64 = filter.number_of_bits();
    for number in 0..1000u32 {
        filter.insert(&term("term", number));
    }
    assert_eq!(filter.number_of_bits(), bits);
    assert_eq!(bits, 8 * 12);
}

#[test]
fn filters_with_one_seed_report_the_same() {
    let mut first = BloomFilter::new(sizing_for(100, 0.01), &SEED);
    let mut second = BloomFilter::new(sizing_for(100, 0.01), &SEED);
    for number in 0..300u32 {
        first.insert(&term("term", number));
        second.insert(&term("term", number));
    }
    for number in 0..5000u32 {
        let probe = term("probe", number);
        assert_eq!(first.contains(&probe), second.contains(&probe));
    }
}
