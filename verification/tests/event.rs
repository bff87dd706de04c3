use polykit::log::builder::TargetOverride;
use polykit::log::event::{render_console, render_file, EventFields, EventMeta, FileMessage};
use polykit::log::file::log_file_location;
use polykit::log::format::FormatMode;
use polykit::log::level::Level;

fn render_direct(ts: &str, level: tracing::Level, target: &str, file: Option<&str>, line: Option<u32>, msg: &str) -> Vec<u8> {
    let meta = EventMeta {
        level: Level::from_tracing(level),
        target: target.to_string(),
        file: file.map(str::to_string),
        line,
    };
    render_file(&meta, Level::Debug, ts, msg)
}

#[test]
fn file_format_no_ansi() {
    let bytes = render_direct("2024-01-02 03:04:05", tracing::Level::INFO, "myapp", Some("src/main.rs"), Some(42), "hello world");
    assert_eq!(bytes, "[2024-01-02 03:04:05] [INFO] myapp main.rs:42: hello world\n".as_bytes().to_vec());
}

#[test]
fn file_format_iso_timestamp() {
    let bytes = render_direct("2024-01-02 03:04:05", tracing::Level::INFO, "myapp", Some("src/main.rs"), Some(1), "ts test");
    assert_eq!(bytes, "[2024-01-02 03:04:05] [INFO] myapp main.rs:1: ts test\n".as_bytes().to_vec());
}

#[test]
fn golden_file_info_no_ansi() {
    let bytes = render_direct(
        "2024-01-02 03:04:05",
        tracing::Level::INFO,
        "myapp::module",
        Some("src/lib.rs"),
        Some(99),
        "golden info message",
    );
    assert_eq!(
        bytes,
        "[2024-01-02 03:04:05] [INFO] myapp::module lib.rs:99: golden info message\n".as_bytes().to_vec()
    );
}

#[test]
fn golden_file_warn() {
    let bytes = render_direct("2024-01-02 03:04:05", tracing::Level::WARN, "myapp", Some("src/warn.rs"), Some(7), "something warned");
    assert_eq!(bytes, "[2024-01-02 03:04:05] [WARN] myapp warn.rs:7: something warned\n".as_bytes().to_vec());
}

#[test]
fn golden_file_unknown_file_line() {
    let bytes = render_direct("2024-01-02 03:04:05", tracing::Level::ERROR, "myapp", None, None, "no location");
    assert_eq!(bytes, "[2024-01-02 03:04:05] [ERROR] myapp <unknown>:0: no location\n".as_bytes().to_vec());
}

#[test]
fn golden_file_unicode_preserved() {
    let bytes = render_direct("2024-01-02 03:04:05", tracing::Level::INFO, "myapp", Some("src/unicode.rs"), Some(1), "héllo wörld 日本語");
    assert_eq!(bytes, "[2024-01-02 03:04:05] [INFO] myapp unicode.rs:1: héllo wörld 日本語\n".as_bytes().to_vec());
}

#[test]
fn golden_file_error() {
    let bytes = render_direct("2024-01-02 03:04:05", tracing::Level::ERROR, "myapp::core", Some("src/error.rs"), Some(13), "boom");
    assert_eq!(bytes, "[2024-01-02 03:04:05] [ERROR] myapp::core error.rs:13: boom\n".as_bytes().to_vec());
}

#[test]
fn file_skips_trace_and_levels_below_global() {
    assert!(render_direct("t", tracing::Level::TRACE, "myapp", None, None, "x").is_empty());
    let meta = EventMeta { level: Some(Level::Info), target: "a".to_string(), file: None, line: Some(3) };
    assert!(render_file(&meta, Level::Warn, "t", "x").is_empty());
    assert_eq!(render_file(&meta, Level::Info, "t", "x"), b"[t] [INFO] a <unknown>:0: x\n".to_vec());
}

#[test]
fn file_message_keeps_only_the_message() {
    let mut m = FileMessage::new();
    m.record_str("user", "bob");
    assert_eq!(m.message, "");
    m.record_debug("message", "hello");
    assert_eq!(m.message, "hello");
    m.record_str("message", "again");
    assert_eq!(m.message, "again");
}

#[test]
fn fields_record_bridge_message_and_values() {
    let mut f = EventFields::new();
    f.record_str("log.target", "real::target");
    f.record_debug("log.file", "\"src/x.rs\"");
    f.record_u64("log.line", 12);
    f.record_str("log.module_path", "ignored");
    f.record_debug("message", "hi");
    f.record_debug("value", "Some(5)");
    f.record_str("user", "bob");
    f.record_u64("count", 7);
    f.record_i64("delta", -42);
    f.record_bool("ok", true);
    f.record_text("ratio", "0.5");
    assert_eq!(f.log_target.as_deref(), Some("real::target"));
    assert_eq!(f.log_file.as_deref(), Some("src/x.rs"));
    assert_eq!(f.log_line, Some(12));
    assert_eq!(f.message, "hi");
    assert_eq!(f.full_message(), "hi value=5 user=bob count=7 delta=-42 ok=true ratio=0.5");
    f.record_u64("log.line", 1 << 40);
    assert_eq!(f.log_line, None);
    f.record_i64("min", i64::MIN);
    assert_eq!(f.fields.last().unwrap().1, "-9223372036854775808");
}

#[test]
fn console_renders_each_format() {
    let meta = EventMeta {
        level: Some(Level::Warn),
        target: "log".to_string(),
        file: Some("/x/meta.rs".to_string()),
        line: Some(5),
    };
    let mut f = EventFields::new();
    f.record_str("message", "careful");
    f.record_str("k", "v");
    assert_eq!(render_console(FormatMode::Simple, &meta, &[], Level::Info, &f, None, "1:00:00 PM", false), b"careful k=v\n".to_vec());
    assert_eq!(
        render_console(FormatMode::Normal, &meta, &[], Level::Info, &f, None, "1:00:00 PM", false),
        b"1:00:00 PM [WARN] careful k=v\n".to_vec()
    );
    assert_eq!(
        render_console(FormatMode::Context, &meta, &[], Level::Info, &f, None, "1:00:00 PM", false),
        b"1:00:00 PM [WARN] log meta.rs:5 careful k=v\n".to_vec()
    );
    f.record_str("log.target", "app::db::pool");
    f.record_str("log.file", "src/db.rs");
    f.record_u64("log.line", 88);
    assert_eq!(
        render_console(FormatMode::Context, &meta, &[], Level::Info, &f, Some("app"), "1:00:00 PM", false),
        b"1:00:00 PM [WARN] db::pool db.rs:88 careful k=v\n".to_vec()
    );
    assert!(render_console(FormatMode::Simple, &meta, &[], Level::Error, &f, None, "t", false).is_empty());
    let overrides = vec![TargetOverride { prefix: "log".to_string(), level: Level::Debug }];
    let debug_meta = EventMeta { level: Some(Level::Debug), ..meta };
    assert_eq!(render_console(FormatMode::Simple, &debug_meta, &overrides, Level::Error, &f, None, "t", false), b"careful k=v\n".to_vec());
    let trace_meta = EventMeta { level: None, ..debug_meta };
    assert!(render_console(FormatMode::Simple, &trace_meta, &overrides, Level::Debug, &f, None, "t", false).is_empty());
}

#[test]
fn log_file_location_splits_directory_and_name() {
    assert_eq!(log_file_location("logs/", false), ("logs/".to_string(), "polykit.log".to_string()));
    assert_eq!(log_file_location("/tmp", true), ("/tmp".to_string(), "polykit.log".to_string()));
    assert_eq!(log_file_location("/var/log/app.log", false), ("/var/log".to_string(), "app.log".to_string()));
    assert_eq!(log_file_location("app.log", false), (".".to_string(), "app.log".to_string()));
    assert_eq!(log_file_location("..", false), (".".to_string(), "polykit.log".to_string()));
}
