//! Console format and color modes.

use vstd::prelude::*;

verus! {

/// How log lines are formatted on the console.
#[derive(Debug, Clone, Copy, PartialEq, Eq, Structural)]
pub enum FormatMode {
    /// Message only.
    Simple,
    /// Timestamp + level label + message.
    Normal,
    /// Timestamp + level label + target + file:line + message.
    Context,
}

impl Default for FormatMode {
    fn default() -> (r: Self)
        ensures
            r == FormatMode::Normal,
    {
        FormatMode::Normal
    }
}

/// When ANSI color escape codes should be emitted.
#[derive(Debug, Clone, Copy, PartialEq, Eq, Structural)]
pub enum ColorMode {
    /// Respect `NO_COLOR` / `FORCE_COLOR`, then fall back to TTY detection.
    Auto,
    /// Always emit ANSI codes regardless of environment or TTY state.
    Always,
    /// Never emit ANSI codes.
    Never,
}

impl Default for ColorMode {
    fn default() -> (r: Self)
        ensures
            r == ColorMode::Auto,
    {
        ColorMode::Auto
    }
}

/// The color rule: `Always` → true; `Never` → false; `Auto` → false when `NO_COLOR` is set
/// non-empty, else true when `FORCE_COLOR` is set non-empty, else whether the target is a TTY.
pub open spec fn emits_ansi(mode: ColorMode, target_is_tty: bool, no_color: bool, force_color: bool) -> bool {
    match mode {
        ColorMode::Always => true,
        ColorMode::Never => false,
        ColorMode::Auto => if no_color { false } else if force_color { true } else { target_is_tty },
    }
}

impl ColorMode {
    /// Decide whether ANSI codes should be emitted, given whether the target is a TTY and
    /// whether `NO_COLOR` / `FORCE_COLOR` are set to non-empty values in the environment.
    pub fn should_emit_ansi_given(self, target_is_tty: bool, no_color: bool, force_color: bool) -> (r: bool)
        ensures
            r == emits_ansi(self, target_is_tty, no_color, force_color),
    {
        match self {
            ColorMode::Always => true,
            ColorMode::Never => false,
            ColorMode::Auto => {
                if no_color {
                    false
                } else if force_color {
                    true
                } else {
                    target_is_tty
                }
            },
        }
    }
}

} // verus!
