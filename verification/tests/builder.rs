use std::path::PathBuf;

use polykit::log::builder::{effective_min_level, target_matches, LogBuilder, LogConfig, TargetOverride};
use polykit::log::format::{ColorMode, FormatMode};
use polykit::log::level::Level;

#[test]
fn default_builder_has_expected_values() {
    let b = LogBuilder::default();
    assert_eq!(b.level, Level::Info);
    assert_eq!(b.format, FormatMode::Normal);
    assert_eq!(b.color, ColorMode::Auto);
    assert!(b.log_file.is_none());
    assert!(b.target_overrides.is_empty());
}

#[test]
fn setters_chain_correctly() {
    let b = LogBuilder::new()
        .level(Level::Debug)
        .format(FormatMode::Context)
        .color(ColorMode::Never);
    assert_eq!(b.level, Level::Debug);
    assert_eq!(b.format, FormatMode::Context);
    assert_eq!(b.color, ColorMode::Never);
    assert!(b.log_file.is_none());
}

#[test]
fn log_file_accepts_str_pathbuf_path() {
    let b_str = LogBuilder::new().log_file("/tmp/test.log");
    assert_eq!(b_str.log_file, Some(PathBuf::from("/tmp/test.log")));

    let b_pathbuf = LogBuilder::new().log_file(PathBuf::from("/var/log/app.log"));
    assert_eq!(b_pathbuf.log_file, Some(PathBuf::from("/var/log/app.log")));

    let b_path = LogBuilder::new().log_file(std::path::Path::new("/etc/log/out.log"));
    assert_eq!(b_path.log_file, Some(PathBuf::from("/etc/log/out.log")));
}

#[test]
fn target_level_appends_new_prefix() {
    let b = LogBuilder::new()
        .target_level("sqlx", Level::Warn)
        .target_level("hyper_util", Level::Warn);
    assert_eq!(b.target_overrides.len(), 2);
    assert_eq!(
        b.target_overrides[0],
        TargetOverride { prefix: "sqlx".into(), level: Level::Warn }
    );
    assert_eq!(
        b.target_overrides[1],
        TargetOverride { prefix: "hyper_util".into(), level: Level::Warn }
    );
}

#[test]
fn target_level_replaces_existing_prefix_in_place() {
    let b =
        LogBuilder::new().target_level("sqlx", Level::Warn).target_level("sqlx", Level::Error);
    assert_eq!(b.target_overrides.len(), 1);
    assert_eq!(b.target_overrides[0].level, Level::Error);
}

#[test]
fn config_sorts_overrides_by_descending_prefix_length() {
    let b = LogBuilder::new()
        .target_level("sqlx", Level::Warn)
        .target_level("sqlx::query", Level::Debug)
        .target_level("a", Level::Error);
    let config = LogConfig::from_builder(b);
    let lengths: Vec<usize> = config.target_overrides.iter().map(|o| o.prefix.len()).collect();
    assert_eq!(lengths, vec!["sqlx::query".len(), "sqlx".len(), "a".len()]);
}

#[test]
fn target_matches_exact_target() {
    assert!(target_matches("sqlx", "sqlx"));
}

#[test]
fn target_matches_module_path_descendant() {
    assert!(target_matches("sqlx::query", "sqlx"));
    assert!(target_matches("sqlx::pool::inner", "sqlx"));
    assert!(target_matches("sqlx::pool::inner", "sqlx::pool"));
}

#[test]
fn target_does_not_match_non_boundary_prefix() {
    assert!(!target_matches("sqlxie", "sqlx"));
    assert!(!target_matches("sqlx_extra", "sqlx"));
    assert!(!target_matches("sqlx:other", "sqlx"));
}

#[test]
fn target_does_not_match_unrelated_target() {
    assert!(!target_matches("hyper_util::client", "sqlx"));
    assert!(!target_matches("", "sqlx"));
}

#[test]
fn effective_min_level_falls_through_to_global_when_no_match() {
    let overrides: Vec<TargetOverride> =
        vec![TargetOverride { prefix: "sqlx".into(), level: Level::Warn }];
    assert_eq!(effective_min_level("prism::sync", &overrides, Level::Info), Level::Info);
}

#[test]
fn effective_min_level_uses_override_when_target_matches() {
    let overrides: Vec<TargetOverride> =
        vec![TargetOverride { prefix: "sqlx".into(), level: Level::Warn }];
    assert_eq!(effective_min_level("sqlx::query", &overrides, Level::Debug), Level::Warn);
}

#[test]
fn effective_min_level_picks_longest_matching_prefix() {
    let overrides: Vec<TargetOverride> = vec![
        TargetOverride { prefix: "sqlx::query".into(), level: Level::Debug },
        TargetOverride { prefix: "sqlx".into(), level: Level::Warn },
    ];
    assert_eq!(effective_min_level("sqlx::query", &overrides, Level::Info), Level::Debug);
    assert_eq!(effective_min_level("sqlx::pool", &overrides, Level::Info), Level::Warn);
}

#[test]
fn effective_min_level_allows_override_below_global() {
    let overrides: Vec<TargetOverride> =
        vec![TargetOverride { prefix: "prism::sync".into(), level: Level::Debug }];
    assert_eq!(
        effective_min_level("prism::sync::delta", &overrides, Level::Warn),
        Level::Debug
    );
}

#[test]
fn config_keeps_scalar_settings_and_stable_order_for_equal_lengths() {
    let b = LogBuilder::new()
        .level(Level::Warn)
        .format(FormatMode::Simple)
        .target_level("bb", Level::Debug)
        .target_level("aa", Level::Error)
        .target_level("ccc", Level::Info);
    let config = LogConfig::from_builder(b);
    assert_eq!(config.level, Level::Warn);
    assert_eq!(config.format, FormatMode::Simple);
    let prefixes: Vec<&str> = config.target_overrides.iter().map(|o| o.prefix.as_str()).collect();
    assert_eq!(prefixes, vec!["ccc", "bb", "aa"]);
}

#[test]
fn longest_prefix_wins_after_config_sorting() {
    let b = LogBuilder::new()
        .target_level("app", Level::Error)
        .target_level("app::net", Level::Debug);
    let config = LogConfig::from_builder(b);
    assert_eq!(
        effective_min_level("app::net::tcp", &config.target_overrides, Level::Info),
        Level::Debug
    );
    assert_eq!(
        effective_min_level("app::db", &config.target_overrides, Level::Info),
        Level::Error
    );
}
