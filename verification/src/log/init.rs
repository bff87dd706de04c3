//! Logger installation state: whether a logger is installed, the dynamic minimum level (as
//! its code), and scoped level overrides that restore the previous level when they end.

use vstd::prelude::*;
use crate::log::builder::{default_builder, LogBuilder};
use crate::log::level::{level_of_code, level_rank, Level};

verus! {

/// A builder with the default settings, to configure and install the logger.
pub fn init() -> (r: LogBuilder)
    ensures
        default_builder(r),
{
    LogBuilder::new()
}

/// The level a stored code stands for: the level of that code, or `Info` for an unknown code.
pub open spec fn level_for_code(code: u8) -> Level {
    match level_of_code(code) {
        Some(l) => l,
        None => Level::Info,
    }
}

/// The process-wide logger state.
pub struct LoggerState {
    initialized: bool,
    min_level: u8,
}

impl LoggerState {
    /// Whether a logger is installed.
    pub closed spec fn spec_initialized(&self) -> bool {
        self.initialized
    }

    /// The stored minimum-level code.
    pub closed spec fn spec_min_code(&self) -> u8 {
        self.min_level
    }

    /// Nothing installed; minimum level `Info`.
    pub fn new() -> (r: Self)
        ensures
            !r.spec_initialized(),
            r.spec_min_code() == level_rank(Level::Info),
    {
        LoggerState { initialized: false, min_level: 1 }
    }

    /// Whether a logger is installed.
    pub fn is_initialized(&self) -> (r: bool)
        ensures
            r == self.spec_initialized(),
    {
        self.initialized
    }

    /// The stored minimum-level code.
    pub fn min_level_code(&self) -> (r: u8)
        ensures
            r == self.spec_min_code(),
    {
        self.min_level
    }

    /// Claim the single installation of the process: `false` (and nothing changes) when a
    /// logger is already installed; otherwise mark it installed and store `level`.
    pub fn begin_install(&mut self, level: Level) -> (r: bool)
        ensures
            r == !old(self).spec_initialized(),
            r ==> final(self).spec_initialized() && final(self).spec_min_code() == level_rank(level),
            !r ==> final(self).spec_initialized() == old(self).spec_initialized()
                && final(self).spec_min_code() == old(self).spec_min_code(),
    {
        if self.initialized {
            return false;
        }
        self.initialized = true;
        self.min_level = level.as_u8();
        true
    }

    /// An installation failed after it was claimed: release the claim.
    pub fn abort_install(&mut self)
        ensures
            !final(self).spec_initialized(),
            final(self).spec_min_code() == old(self).spec_min_code(),
    {
        self.initialized = false;
    }

    /// The current minimum level (`Info` for an unknown stored code).
    pub fn current_min_level(&self) -> (r: Level)
        ensures
            r == level_for_code(self.spec_min_code()),
    {
        match Level::from_u8(self.min_level) {
            Some(l) => l,
            None => Level::Info,
        }
    }

    /// Set the minimum level.
    pub fn set_min_level(&mut self, level: Level)
        ensures
            final(self).spec_min_code() == level_rank(level),
            final(self).spec_initialized() == old(self).spec_initialized(),
    {
        self.min_level = level.as_u8();
    }
}

/// A scoped override of the minimum level: applied when made, undone by [`Self::restore`].
#[derive(Debug, Clone, Copy, PartialEq, Eq, Structural)]
pub struct LogLevelOverride {
    previous: Level,
}

impl LogLevelOverride {
    /// The level restored when the override ends.
    pub closed spec fn spec_previous(&self) -> Level {
        self.previous
    }

    /// Apply `level`, remembering the current level.
    pub fn new(state: &mut LoggerState, level: Level) -> (r: Self)
        ensures
            r.spec_previous() == level_for_code(old(state).spec_min_code()),
            final(state).spec_min_code() == level_rank(level),
            final(state).spec_initialized() == old(state).spec_initialized(),
    {
        let previous = state.current_min_level();
        state.set_min_level(level);
        LogLevelOverride { previous }
    }

    /// End the override: restore the level in effect when it was made.
    pub fn restore(self, state: &mut LoggerState)
        ensures
            final(state).spec_min_code() == level_rank(self.spec_previous()),
            final(state).spec_initialized() == old(state).spec_initialized(),
    {
        state.set_min_level(self.previous);
    }
}

/// A stored code of a valid level reads back as that level.
pub proof fn lemma_code_reads_back(level: Level)
    ensures
        level_for_code(level_rank(level) as u8) == level,
{
}

/// Overrides nest: making one and ending it leaves the level as it was (for a stored code
/// that is a valid level).
pub proof fn lemma_override_restores(before: u8, level: Level, after_restore: u8)
    requires
        level_of_code(before) is Some,
        after_restore == level_rank(level_for_code(before)),
    ensures
        level_for_code(after_restore) == level_for_code(before),
{
}

} // verus!
