use std::cell::RefCell;

use polykit::log::catch::{catch, error_report};

#[derive(Debug, PartialEq, Eq)]
struct TestError(&'static str);

#[test]
fn catch_passes_through_ok() {
    let result = catch("ctx", || Ok::<_, TestError>("ok"), |_, _| {});
    assert_eq!(result, Ok("ok"));
}

#[test]
fn catch_returns_err_unchanged() {
    let err = TestError("boom");
    let result = catch("ctx", || Err::<(), _>(TestError("boom")), |_, _| {});
    assert_eq!(result, Err(err));
}

#[test]
fn catch_reports_only_failures() {
    let seen = RefCell::new(Vec::<String>::new());
    let _ = catch("ok-ctx", || Ok::<u8, TestError>(1), |c, _| seen.borrow_mut().push(c.to_string()));
    let _ = catch("bad-ctx", || Err::<u8, _>(TestError("x")), |c, e: &TestError| {
        seen.borrow_mut().push(format!("{c}: {}", e.0))
    });
    assert_eq!(*seen.borrow(), vec!["bad-ctx: x".to_string()]);
}

#[test]
fn catch_logs_chain() {
    let lines = error_report("loading config", "top level", &["inner cause".to_string()]);
    assert_eq!(
        lines,
        vec!["loading config: top level".to_string(), "  caused by: inner cause".to_string()]
    );
    assert!(lines[0].contains("loading config: top level"));
    assert!(lines[1].contains("caused by: inner cause"));
}
