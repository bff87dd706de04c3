use polykit::log::format::{ColorMode, FormatMode};
use polykit::log::level::Level;

#[test]
fn label_matches_python_parity() {
    assert_eq!(Level::Debug.label(), "[DEBUG]");
    assert_eq!(Level::Info.label(), "[INFO]");
    assert_eq!(Level::Warn.label(), "[WARN]");
    assert_eq!(Level::Error.label(), "[ERROR]");
}

#[test]
fn from_str_case_insensitive() {
    assert_eq!(Level::from_str("INFO"), Some(Level::Info));
    assert_eq!(Level::from_str("info"), Some(Level::Info));
    assert_eq!(Level::from_str("Info"), Some(Level::Info));
    assert_eq!(Level::from_str("warning"), Some(Level::Warn));
}

#[test]
fn from_str_unknown_returns_none() {
    assert_eq!(Level::from_str("critical"), None);
    assert_eq!(Level::from_str("fatal"), None);
    assert_eq!(Level::from_str("trace"), None);
    assert_eq!(Level::from_str(""), None);
}

#[test]
fn as_tracing_round_trip() {
    for level in [Level::Debug, Level::Info, Level::Warn, Level::Error] {
        assert_eq!(Level::from_tracing(level.as_tracing()), Some(level));
    }
}

#[test]
fn from_tracing_trace_returns_none() {
    assert_eq!(Level::from_tracing(tracing::Level::TRACE), None);
}

#[test]
fn from_str_accepts_every_alias() {
    assert_eq!(Level::from_str("DEBUG"), Some(Level::Debug));
    assert_eq!(Level::from_str("warn"), Some(Level::Warn));
    assert_eq!(Level::from_str("Error"), Some(Level::Error));
    assert_eq!(Level::from_str(" info"), None);
}

#[test]
fn level_codes_round_trip() {
    for level in [Level::Debug, Level::Info, Level::Warn, Level::Error] {
        assert_eq!(Level::from_u8(level.as_u8()), Some(level));
    }
    assert_eq!(Level::from_u8(9), None);
    assert!(Level::Debug.is_below(Level::Info));
    assert!(!Level::Error.is_below(Level::Warn));
    assert!(!Level::Info.is_below(Level::Info));
}

#[test]
fn default_format_is_normal() {
    assert_eq!(FormatMode::default(), FormatMode::Normal);
}

#[test]
fn default_color_is_auto() {
    assert_eq!(ColorMode::default(), ColorMode::Auto);
}

#[test]
fn color_always_emits_ansi_even_when_not_tty() {
    assert!(ColorMode::Always.should_emit_ansi_given(false, false, false));
    assert!(ColorMode::Always.should_emit_ansi_given(false, true, false));
}

#[test]
fn color_never_strips_ansi_even_on_tty() {
    assert!(!ColorMode::Never.should_emit_ansi_given(true, false, false));
    assert!(!ColorMode::Never.should_emit_ansi_given(true, false, true));
}

#[test]
fn format_auto_respects_no_color_env_var() {
    assert!(!ColorMode::Auto.should_emit_ansi_given(true, true, false));
}

#[test]
fn format_auto_respects_force_color_env_var() {
    assert!(ColorMode::Auto.should_emit_ansi_given(false, false, true));
}

#[test]
fn format_auto_falls_back_to_tty_detection() {
    assert!(ColorMode::Auto.should_emit_ansi_given(true, false, false));
    assert!(!ColorMode::Auto.should_emit_ansi_given(false, false, false));
}
