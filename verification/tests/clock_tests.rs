use stickies::clock::{now_ts, timestamp_from_secs, EditWatch};

#[test]
fn timestamps_from_seconds() {
    assert_eq!(timestamp_from_secs(None), 0);
    assert_eq!(timestamp_from_secs(Some(1_700_000_000)), 1_700_000_000);
    assert_eq!(timestamp_from_secs(Some(u64::MAX)), -1);
}

#[test]
fn now_is_after_2020() {
    assert!(now_ts() > 1_577_836_800);
}

#[test]
fn edit_watch_reports_only_newer_times() {
    let mut w = EditWatch::new(100);
    assert!(!w.poll(100));
    assert!(!w.poll(50));
    assert!(w.poll(101));
    assert_eq!(w.last_modified, 101);
    assert!(!w.poll(101));
    assert!(w.poll(-5 + 200));
    assert_eq!(w.last_modified, 195);
}

#[test]
fn edit_watch_keeps_seeing_saves() {
    let mut w = EditWatch::new(-5);
    for k in 0..10_000i128 {
        assert!(w.poll(k));
    }
    assert_eq!(w.last_modified, 9_999);
}
