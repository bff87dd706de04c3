use polykit::polybase::echo::EchoTracker;

#[test]
fn mark_then_check_within_window() {
    let mut tracker = EchoTracker::with_window(10_000);
    tracker.mark_pushed("messages", "abc", 1_000);
    assert!(tracker.was_recently_pushed("messages", "abc", 1_500));
    assert!(!tracker.was_recently_pushed("messages", "other", 1_500));
}

#[test]
fn expires_after_window() {
    let mut tracker = EchoTracker::with_window(1);
    tracker.mark_pushed("messages", "abc", 1_000);
    assert!(!tracker.was_recently_pushed("messages", "abc", 1_005));
}

#[test]
fn clear_drops_all() {
    let mut tracker = EchoTracker::with_window(10_000);
    tracker.mark_pushed("messages", "abc", 0);
    tracker.clear();
    assert!(!tracker.was_recently_pushed("messages", "abc", 0));
}

#[test]
fn expired_mark_is_dropped_on_check() {
    let mut tracker = EchoTracker::default();
    tracker.mark_pushed("t", "1", 0);
    assert!(tracker.was_recently_pushed("t", "1", 4_999));
    assert!(!tracker.was_recently_pushed("t", "1", 5_000));
    assert!(!tracker.was_recently_pushed("t", "1", 0));
}

#[test]
fn vacuum_keeps_only_fresh_marks() {
    let mut tracker = EchoTracker::with_window(100);
    tracker.mark_pushed("t", "old", 0);
    tracker.mark_pushed("t", "new", 150);
    tracker.vacuum(200);
    assert!(!tracker.was_recently_pushed("t", "old", 0));
    assert!(tracker.was_recently_pushed("t", "new", 200));
}

#[test]
fn clock_before_mark_counts_as_fresh() {
    let mut tracker = EchoTracker::with_window(10);
    tracker.mark_pushed("t", "1", 500);
    assert!(tracker.was_recently_pushed("t", "1", 400));
}
