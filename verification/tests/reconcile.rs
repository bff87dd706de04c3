use polykit::polybase::reconcile::{make_plan, plan_is_defined, VersionTriple};

fn t(id: &str, version: i64, deleted: bool) -> VersionTriple {
    VersionTriple { id: id.into(), version, deleted }
}

#[test]
fn pull_when_remote_newer() {
    let plan = make_plan(&[t("a", 1, false)], &[t("a", 2, false)]);
    assert_eq!(plan.pull, vec!["a".to_string()]);
    assert!(plan.push.is_empty());
}

#[test]
fn push_when_local_newer() {
    let plan = make_plan(&[t("a", 3, false)], &[t("a", 2, false)]);
    assert_eq!(plan.push, vec!["a".to_string()]);
}

#[test]
fn adopt_tombstone_when_remote_deleted_within_threshold() {
    let plan = make_plan(&[t("a", 5, false)], &[t("a", 5, true)]);
    assert_eq!(plan.adopt_tombstone, vec!["a".to_string()]);
}

#[test]
fn push_undelete_when_local_meets_threshold() {
    let plan = make_plan(&[t("a", 1006, false)], &[t("a", 5, true)]);
    assert_eq!(plan.push, vec!["a".to_string()]);
}

#[test]
fn create_local_for_remote_only_ids() {
    let plan = make_plan(&[], &[t("a", 1, false), t("b", 1, false)]);
    assert_eq!(plan.create_local, vec!["a".to_string(), "b".to_string()]);
}

#[test]
fn create_remote_for_local_only_ids() {
    let plan = make_plan(&[t("c", 1, false)], &[]);
    assert_eq!(plan.create_remote, vec!["c".to_string()]);
}

#[test]
fn skip_when_versions_match_and_neither_deleted() {
    let plan = make_plan(&[t("a", 4, false)], &[t("a", 4, false)]);
    assert_eq!(plan.skip, vec!["a".to_string()]);
}

#[test]
fn buckets_are_sorted_and_counted() {
    let local = [t("z", 1, false), t("m", 3, false), t("b", 2, false), t("only_local", 1, false)];
    let remote = [t("m", 1, false), t("b", 5, false), t("z", 1, false), t("r2", 1, false), t("r1", 1, false)];
    let plan = make_plan(&local, &remote);
    assert_eq!(plan.push, vec!["m".to_string()]);
    assert_eq!(plan.pull, vec!["b".to_string()]);
    assert_eq!(plan.skip, vec!["z".to_string()]);
    assert_eq!(plan.create_local, vec!["r1".to_string(), "r2".to_string()]);
    assert_eq!(plan.create_remote, vec!["only_local".to_string()]);
    let counts = plan.counts();
    assert_eq!(counts.push, 2);
    assert_eq!(counts.pull, 3);
    assert_eq!(counts.skip, 1);
    assert_eq!(counts.adopt_tombstone, 0);
}

#[test]
fn later_duplicate_id_wins() {
    let plan = make_plan(&[t("a", 1, false), t("a", 9, false)], &[t("a", 5, false)]);
    assert_eq!(plan.push, vec!["a".to_string()]);
    assert!(plan.pull.is_empty());
}

#[test]
fn plan_is_defined_unless_the_undelete_threshold_overflows() {
    assert!(plan_is_defined(&[t("a", 1, false)], &[t("a", 5, true)]));
    assert!(plan_is_defined(&[t("a", 1, true)], &[t("a", i64::MAX, true)]));
    assert!(plan_is_defined(&[t("b", 1, false)], &[t("a", i64::MAX, true)]));
    assert!(!plan_is_defined(&[t("a", 1, false)], &[t("a", i64::MAX - 999, true)]));
    assert!(plan_is_defined(&[t("a", 1, false)], &[t("a", i64::MAX - 1000, true)]));
    assert!(plan_is_defined(&[t("a", 1, false), t("a", 2, true)], &[t("a", i64::MAX, true)]));
}

#[test]
fn plan_ignores_input_order() {
    let local = vec![t("c", 3, false), t("a", 1, false), t("b", 5, false), t("x", 1, false)];
    let remote = vec![t("a", 2, false), t("b", 4, false), t("c", 3, false), t("y", 7, false)];
    let local2 = vec![t("x", 1, false), t("b", 5, false), t("c", 3, false), t("a", 1, false)];
    let remote2 = vec![t("y", 7, false), t("c", 3, false), t("a", 2, false), t("b", 4, false)];
    assert_eq!(make_plan(&local, &remote), make_plan(&local2, &remote2));
}
