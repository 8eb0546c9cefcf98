use snapshot_dispatch::ReadProgress;

#[test]
fn count_after_reading_through_equals_length() {
    let mut p = ReadProgress::new(10);
    for n in [4u64, 3, 0, 3] {
        p.record(Some(n));
    }
    assert_eq!(p.position(), 10);
    assert_eq!(p.total_len(), 10);
    assert!(!p.is_finished());
}

#[test]
fn failed_reads_count_nothing_and_finish_happens_once() {
    let mut p = ReadProgress::new(100);
    p.record(Some(30));
    p.record(None);
    assert_eq!(p.position(), 30);
    assert!(p.finish());
    assert!(p.is_finished());
    assert!(!p.finish());
    assert!(!p.finish());
    assert_eq!(p.position(), 30);
}

#[test]
fn finish_without_reads() {
    let mut p = ReadProgress::new(0);
    assert!(p.finish());
    assert!(!p.finish());
    assert_eq!(p.position(), 0);
}

#[test]
fn count_stops_at_the_largest_value() {
    let mut p = ReadProgress::new(u64::MAX);
    p.record(Some(u64::MAX - 1));
    p.record(Some(5));
    assert_eq!(p.position(), u64::MAX);
    p.record(Some(1));
    assert_eq!(p.position(), u64::MAX);
}
