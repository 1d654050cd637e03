use hub_installer::progress::{CopyTracker, DownloadTracker, Progress};

#[test]
fn copy_progress_non_decreasing_and_final_one() {
    let (mut tracker, initial) = CopyTracker::new(10);
    assert!(initial.is_none());
    let p1 = tracker.step(4);
    let p2 = tracker.step(4);
    let p3 = tracker.step(2);
    assert_eq!(p1, Progress { num: 4, den: 10 });
    assert_eq!(p2, Progress { num: 8, den: 10 });
    assert_eq!(p3, Progress { num: 10, den: 10 });
    assert!(p1.num * p2.den <= p2.num * p1.den);
    assert!(p2.num * p3.den <= p3.num * p2.den);
    assert!(p3.complete());
    assert!(tracker.done());
}

#[test]
fn copy_empty_source_reports_one_event_of_one() {
    let (tracker, initial) = CopyTracker::new(0);
    assert_eq!(initial, Some(Progress { num: 1, den: 1 }));
    assert!(initial.unwrap().complete());
    assert!(tracker.done());
}

#[test]
fn from_counts_clamps_and_handles_zero_total() {
    assert_eq!(Progress::from_counts(5, 3), Progress { num: 3, den: 3 });
    assert_eq!(Progress::from_counts(0, 0), Progress { num: 1, den: 1 });
    assert_eq!(Progress::from_counts(2, 8), Progress { num: 2, den: 8 });
}

#[test]
fn download_known_length_clamps_to_one() {
    let mut tracker = DownloadTracker::new(Some(100));
    let p1 = tracker.step(60);
    let p2 = tracker.step(60);
    assert_eq!(p1, Some(Progress { num: 60, den: 100 }));
    // 120 bytes received of an announced 100: clamped to exactly one.
    assert_eq!(p2, Some(Progress { num: 100, den: 100 }));
    let p1 = p1.unwrap();
    let p2 = p2.unwrap();
    assert!(p1.num <= p1.den && p2.num <= p2.den);
    assert!(p1.num * p2.den <= p2.num * p1.den);
}

#[test]
fn download_unknown_length_emits_nothing() {
    let mut tracker = DownloadTracker::new(None);
    assert_eq!(tracker.step(1024), None);
    assert_eq!(tracker.step(4096), None);
}

#[test]
fn download_zero_announced_length_emits_nothing() {
    let mut tracker = DownloadTracker::new(Some(0));
    assert_eq!(tracker.step(512), None);
}
