use owo_colors::{AnsiColors, OwoColorize};
use polykit::log::console::{
    format_context, format_normal, format_simple, level_color, passes_filter,
    strip_module_prefix, ConsoleColor,
};
use polykit::log::builder::TargetOverride;
use polykit::log::file::format_file;
use polykit::log::event::{render_console, EventFields, EventMeta};
use polykit::log::format::FormatMode;
use polykit::log::level::Level;

fn ansi(c: ConsoleColor) -> AnsiColors {
    match c {
        ConsoleColor::BrightBlack => AnsiColors::BrightBlack,
        ConsoleColor::Green => AnsiColors::Green,
        ConsoleColor::Yellow => AnsiColors::Yellow,
        ConsoleColor::Red => AnsiColors::Red,
        ConsoleColor::Blue => AnsiColors::Blue,
        ConsoleColor::Cyan => AnsiColors::Cyan,
    }
}

#[test]
fn golden_normal_info_ansi() {
    let level = Level::Info;
    let ts = "2:34:09 PM";
    let msg = "hello world";
    let result = format_normal(level, ts, msg, true);
    let expected = format!(
        "{} {} {}\n",
        ts.bright_black(),
        level.label().color(ansi(level_color(level))),
        msg.color(ansi(level_color(level)))
    )
    .into_bytes();
    assert_eq!(result, expected);
}

#[test]
fn golden_normal_info_plain() {
    let level = Level::Info;
    let ts = "2:34:09 PM";
    let msg = "hello world";
    let result = format_normal(level, ts, msg, false);
    let expected = format!("{} {} {}\n", ts, level.label(), msg).into_bytes();
    assert_eq!(result, expected);
}

#[test]
fn golden_simple_info_plain() {
    let result = format_simple(Level::Info, "info msg", false);
    let expected = "info msg\n".as_bytes().to_vec();
    assert_eq!(result, expected);
}

#[test]
fn golden_simple_warn_ansi_is_level_colored() {
    let result = format_simple(Level::Warn, "warning!", true);
    let expected = format!("{}\n", "warning!".color(ansi(level_color(Level::Warn)))).into_bytes();
    assert_eq!(result, expected);
}

#[test]
fn golden_simple_info_ansi_is_level_colored() {
    let result = format_simple(Level::Info, "info msg", true);
    let expected = format!("{}\n", "info msg".color(ansi(level_color(Level::Info)))).into_bytes();
    assert_eq!(result, expected);
}

#[test]
fn golden_context_full() {
    let result = format_context(
        Level::Error,
        "2:34:09 PM",
        "my_crate::module",
        Some("/path/to/file.rs"),
        Some(42),
        "boom",
        true,
    );
    let expected = format!(
        "{} {} {} {} {}\n",
        "2:34:09 PM".bright_black(),
        Level::Error.label().color(ansi(level_color(Level::Error))),
        "my_crate::module".blue(),
        format!("file.rs:{}", "42".cyan()),
        "boom".color(ansi(level_color(Level::Error)))
    )
    .into_bytes();
    assert_eq!(result, expected);
}

#[test]
fn golden_normal_multiline_message_is_level_colored() {
    let level = Level::Debug;
    let ts = "2:34:09 PM";
    let msg = "line1\nline2";
    let result = format_normal(level, ts, msg, true);
    let expected = format!(
        "{} {} {}\n",
        ts.bright_black(),
        level.label().color(ansi(level_color(level))),
        msg.color(ansi(level_color(level)))
    )
    .into_bytes();
    assert_eq!(result, expected);
}

#[test]
fn golden_context_missing_file_line() {
    let result = format_context(Level::Debug, "2:34:09 PM", "my_crate", None, None, "msg", false);
    let expected =
        format!("2:34:09 PM {} my_crate <unknown>:0 msg\n", Level::Debug.label()).into_bytes();
    assert_eq!(result, expected);
}

#[test]
fn golden_unicode_preserved() {
    let result = format_simple(Level::Info, "こんにちは 日本語", false);
    assert_eq!(result, "こんにちは 日本語\n".as_bytes().to_vec());
}

#[test]
fn golden_multiline_message() {
    let result = format_simple(Level::Info, "line1\nline2", false);
    assert_eq!(result, "line1\nline2\n".as_bytes().to_vec());
}

#[test]
fn golden_below_min_level_returns_empty() {
    let meta = EventMeta {
        level: Some(Level::Debug),
        target: "my_crate".to_string(),
        file: Some("src/lib.rs".to_string()),
        line: Some(3),
    };
    let mut fields = EventFields::new();
    fields.record_debug("message", "this should be filtered");
    let out = render_console(FormatMode::Normal, &meta, &[], Level::Info, &fields, None, "2:34:09 PM", false);
    assert!(out.is_empty());
    assert!(!passes_filter(Level::Debug, "my_crate", &[], Level::Info));
    assert!(passes_filter(Level::Info, "my_crate", &[], Level::Info));
}

#[test]
fn strip_module_prefix_strips_on_exact_boundary() {
    assert_eq!(strip_module_prefix("surfer_lib::foo::bar", "surfer_lib"), Some("foo::bar"));
}

#[test]
fn strip_module_prefix_strips_single_segment() {
    assert_eq!(strip_module_prefix("surfer_lib::foo", "surfer_lib"), Some("foo"));
}

#[test]
fn strip_module_prefix_does_not_match_non_boundary() {
    assert_eq!(strip_module_prefix("surfer_library::foo", "surfer_lib"), None);
}

#[test]
fn strip_module_prefix_does_not_match_unrelated() {
    assert_eq!(strip_module_prefix("other_crate::foo", "surfer_lib"), None);
}

#[test]
fn strip_module_prefix_exact_target_returns_empty_string() {
    assert_eq!(strip_module_prefix("surfer_lib", "surfer_lib"), None);
}

#[test]
fn context_line_plain_with_file_and_line() {
    let result = format_context(
        Level::Warn,
        "9:00:00 AM",
        "app::net",
        Some("src/net/tcp.rs"),
        Some(1207),
        "slow",
        false,
    );
    assert_eq!(result, b"9:00:00 AM [WARN] app::net tcp.rs:1207 slow\n".to_vec());
}

#[test]
fn level_colors_are_fixed() {
    assert_eq!(level_color(Level::Debug), ConsoleColor::BrightBlack);
    assert_eq!(level_color(Level::Info), ConsoleColor::Green);
    assert_eq!(level_color(Level::Warn), ConsoleColor::Yellow);
    assert_eq!(level_color(Level::Error), ConsoleColor::Red);
}

#[test]
fn filter_respects_target_override() {
    let overrides = vec![TargetOverride { prefix: "noisy".into(), level: Level::Error }];
    assert!(!passes_filter(Level::Warn, "noisy::inner", &overrides, Level::Debug));
    assert!(passes_filter(Level::Error, "noisy::inner", &overrides, Level::Debug));
    assert!(passes_filter(Level::Debug, "quiet", &overrides, Level::Debug));
}

#[test]
fn file_line_layout() {
    let line = format_file(Level::Info, "2024-01-02 03:04:05", "app::db", "db.rs", 17, "opened");
    assert_eq!(line, b"[2024-01-02 03:04:05] [INFO] app::db db.rs:17: opened\n".to_vec());
}
