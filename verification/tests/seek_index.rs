use playcore::seek_index::SeekIndex;
use playcore::seek_index::SeekSample;

fn sample(time_ms: u64, byte_offset: u64) -> SeekSample {
    SeekSample { time_ms, byte_offset }
}

fn index(samples: Vec<SeekSample>) -> SeekIndex {
    SeekIndex::from_samples(samples).expect("table should be sorted")
}

#[test]
fn from_samples_accepts_sorted_table() {
    let ix = index(vec![sample(0, 0), sample(1000, 1000), sample(2000, 2000)]);
    assert_eq!(ix.len(), 3);
}

#[test]
fn from_samples_accepts_empty_table() {
    let ix = index(vec![]);
    assert_eq!(ix.len(), 0);
}

#[test]
fn from_samples_rejects_unsorted_times() {
    let r = SeekIndex::from_samples(vec![sample(1000, 0), sample(500, 100)]);
    assert!(r.is_none());
}

#[test]
fn from_samples_rejects_unsorted_offsets() {
    let r = SeekIndex::from_samples(vec![sample(0, 500), sample(1000, 100)]);
    assert!(r.is_none());
}

#[test]
fn offset_query_is_floor_lookup() {
    let ix = index(vec![sample(0, 0), sample(1000, 1000), sample(2000, 2000)]);
    assert_eq!(ix.offset_for_time(1500), 1000);
    assert_eq!(ix.offset_for_time(1000), 1000);
    assert_eq!(ix.offset_for_time(999), 0);
    assert_eq!(ix.offset_for_time(2000), 2000);
    assert_eq!(ix.offset_for_time(u64::MAX), 2000);
}

#[test]
fn time_query_is_floor_lookup() {
    let ix = index(vec![sample(0, 0), sample(1000, 1000), sample(2000, 2000)]);
    assert_eq!(ix.time_for_offset(1500), 1000);
    assert_eq!(ix.time_for_offset(1000), 1000);
    assert_eq!(ix.time_for_offset(2000), 2000);
    assert_eq!(ix.time_for_offset(u64::MAX), 2000);
}

#[test]
fn query_before_first_sample_is_zero() {
    let ix = index(vec![sample(100, 64), sample(1000, 1000)]);
    assert_eq!(ix.offset_for_time(99), 0);
    assert_eq!(ix.time_for_offset(63), 0);
}

#[test]
fn query_on_empty_index_is_zero() {
    let ix = index(vec![]);
    assert_eq!(ix.offset_for_time(0), 0);
    assert_eq!(ix.offset_for_time(u64::MAX), 0);
    assert_eq!(ix.time_for_offset(0), 0);
    assert_eq!(ix.time_for_offset(u64::MAX), 0);
}

#[test]
fn queries_are_monotonic_in_the_query() {
    let ix = index(vec![sample(0, 0), sample(250, 300), sample(1000, 1000), sample(1000, 1000), sample(2000, 1800)]);
    let mut last_offset = 0;
    let mut last_time = 0;
    for q in 0..2500u64 {
        let o = ix.offset_for_time(q);
        assert!(o >= last_offset);
        last_offset = o;
        let t = ix.time_for_offset(q);
        assert!(t >= last_time);
        last_time = t;
    }
}

#[test]
fn samples_are_fixed_points_of_their_own_lookup() {
    let table = vec![sample(0, 0), sample(250, 300), sample(1000, 1000), sample(2000, 1800)];
    let ix = index(table.clone());
    for s in table {
        assert_eq!(ix.offset_for_time(s.time_ms), s.byte_offset);
        assert_eq!(ix.time_for_offset(s.byte_offset), s.time_ms);
    }
}
