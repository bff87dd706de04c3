use polykit::log::format::{ColorMode, FormatMode};
use polykit::log::init::{init, LogLevelOverride, LoggerState};
use polykit::log::level::Level;

#[test]
fn init_atomics_default_to_info() {
    let state = LoggerState::new();
    assert_eq!(state.min_level_code(), Level::Info.as_u8());
    assert!(!state.is_initialized());
}

#[test]
fn set_and_get_min_level_round_trips() {
    let mut state = LoggerState::new();
    for level in [Level::Debug, Level::Info, Level::Warn, Level::Error] {
        state.set_min_level(level);
        assert_eq!(state.current_min_level(), level);
    }
}

#[test]
fn override_changes_min_level_for_scope() {
    let mut state = LoggerState::new();
    state.set_min_level(Level::Info);
    {
        let o = LogLevelOverride::new(&mut state, Level::Debug);
        assert_eq!(state.current_min_level(), Level::Debug);
        o.restore(&mut state);
    }
    assert_eq!(state.current_min_level(), Level::Info);
}

#[test]
fn nested_overrides_unwind_in_lifo_order() {
    let mut state = LoggerState::new();
    state.set_min_level(Level::Warn);
    let outer = LogLevelOverride::new(&mut state, Level::Info);
    assert_eq!(state.current_min_level(), Level::Info);
    let inner = LogLevelOverride::new(&mut state, Level::Debug);
    assert_eq!(state.current_min_level(), Level::Debug);
    inner.restore(&mut state);
    assert_eq!(state.current_min_level(), Level::Info);
    outer.restore(&mut state);
    assert_eq!(state.current_min_level(), Level::Warn);
}

#[test]
fn install_is_claimed_once() {
    let mut state = LoggerState::new();
    assert!(state.begin_install(Level::Warn));
    assert_eq!(state.current_min_level(), Level::Warn);
    assert!(!state.begin_install(Level::Debug));
    assert_eq!(state.current_min_level(), Level::Warn);
    state.abort_install();
    assert!(!state.is_initialized());
    assert!(state.begin_install(Level::Error));
}

#[test]
fn init_returns_default_builder() {
    let b = init();
    assert_eq!(b.level, Level::Info);
    assert_eq!(b.format, FormatMode::Normal);
    assert_eq!(b.color, ColorMode::Auto);
    assert!(b.log_file.is_none());
    assert!(b.target_overrides.is_empty());
}
