//! Four log levels: `Debug < Info < Warn < Error`.

use vstd::prelude::*;
use crate::text::{chars_of, lower_chars, lower_seq, seq_eq};
use tracing::Level as TracingLevel;

verus! {

/// The tracing crate's level type.
#[verifier::external_type_specification]
#[verifier::external_body]
pub struct ExTracingLevel(TracingLevel);

/// Four log levels.
///
/// The tracing TRACE level is not represented — TRACE events are dropped by the formatter
/// rather than rendered.
#[derive(Debug, Clone, Copy, PartialEq, Eq, PartialOrd, Ord, Hash, Structural)]
pub enum Level {
    /// Debug.
    Debug,
    /// Info.
    Info,
    /// Warn.
    Warn,
    /// Error.
    Error,
}

/// Position of a level in `Debug < Info < Warn < Error`.
pub open spec fn level_rank(l: Level) -> int {
    match l {
        Level::Debug => 0,
        Level::Info => 1,
        Level::Warn => 2,
        Level::Error => 3,
    }
}

/// The bracketed label of a level.
pub open spec fn label_of(l: Level) -> Seq<char> {
    match l {
        Level::Debug => "[DEBUG]"@,
        Level::Info => "[INFO]"@,
        Level::Warn => "[WARN]"@,
        Level::Error => "[ERROR]"@,
    }
}

/// The level a lower-cased name denotes.
pub open spec fn level_named(name: Seq<char>) -> Option<Level> {
    if name == "debug"@ {
        Some(Level::Debug)
    } else if name == "info"@ {
        Some(Level::Info)
    } else if name == "warn"@ || name == "warning"@ {
        Some(Level::Warn)
    } else if name == "error"@ {
        Some(Level::Error)
    } else {
        None
    }
}

/// The level stored under a `u8` code, if any.
pub open spec fn level_of_code(v: u8) -> Option<Level> {
    if v == 0 {
        Some(Level::Debug)
    } else if v == 1 {
        Some(Level::Info)
    } else if v == 2 {
        Some(Level::Warn)
    } else if v == 3 {
        Some(Level::Error)
    } else {
        None
    }
}

/// `TracingLevel::TRACE`, of rank 0.
#[verifier::external_body]
fn tracing_trace() -> (r: TracingLevel)
    ensures
        tracing_rank_of(r) == 0,
{
    TracingLevel::TRACE
}

/// `TracingLevel::DEBUG`, of rank 1.
#[verifier::external_body]
fn tracing_debug() -> (r: TracingLevel)
    ensures
        tracing_rank_of(r) == 1,
{
    TracingLevel::DEBUG
}

/// `TracingLevel::INFO`, of rank 2.
#[verifier::external_body]
fn tracing_info() -> (r: TracingLevel)
    ensures
        tracing_rank_of(r) == 2,
{
    TracingLevel::INFO
}

/// `TracingLevel::WARN`, of rank 3.
#[verifier::external_body]
fn tracing_warn() -> (r: TracingLevel)
    ensures
        tracing_rank_of(r) == 3,
{
    TracingLevel::WARN
}

/// `TracingLevel::ERROR`, of rank 4.
#[verifier::external_body]
fn tracing_error() -> (r: TracingLevel)
    ensures
        tracing_rank_of(r) == 4,
{
    TracingLevel::ERROR
}

/// Which of tracing's five levels a `tracing::Level` is: 0 for TRACE, 1 DEBUG, 2 INFO,
/// 3 WARN, 4 ERROR (the order of its inner `LevelInner` enum).
pub uninterp spec fn tracing_rank_of(level: TracingLevel) -> u8;

/// Which of tracing's five levels `level` is, by matching its constants.
#[verifier::external_body]
fn tracing_rank(level: &TracingLevel) -> (r: u8)
    ensures
        r == tracing_rank_of(*level),
        r <= 4,
{
    match *level {
        TracingLevel::TRACE => 0,
        TracingLevel::DEBUG => 1,
        TracingLevel::INFO => 2,
        TracingLevel::WARN => 3,
        _ => 4,
    }
}

/// The level a tracing rank maps to: TRACE (0) and anything else has none.
pub open spec fn level_for_tracing_rank(rank: u8) -> Option<Level> {
    if rank == 1 {
        Some(Level::Debug)
    } else if rank == 2 {
        Some(Level::Info)
    } else if rank == 3 {
        Some(Level::Warn)
    } else if rank == 4 {
        Some(Level::Error)
    } else {
        None
    }
}

/// Mapping a level to tracing and back gives the level again; TRACE maps to no level.
pub proof fn lemma_tracing_round_trip(l: Level)
    ensures
        level_for_tracing_rank((level_rank(l) + 1) as u8) == Some(l),
        level_for_tracing_rank(0) is None,
{
}

impl Level {
    /// Bracketed label used in formatted output.
    pub fn label(self) -> (r: &'static str)
        ensures
            r@ == label_of(self),
    {
        match self {
            Level::Debug => "[DEBUG]",
            Level::Info => "[INFO]",
            Level::Warn => "[WARN]",
            Level::Error => "[ERROR]",
        }
    }

    /// Map to the corresponding `tracing::Level`: DEBUG, INFO, WARN or ERROR.
    pub fn as_tracing(self) -> (r: TracingLevel)
        ensures
            tracing_rank_of(r) == level_rank(self) + 1,
    {
        match self {
            Level::Debug => tracing_debug(),
            Level::Info => tracing_info(),
            Level::Warn => tracing_warn(),
            Level::Error => tracing_error(),
        }
    }

    /// Parse from a `tracing::Level`. Returns `None` for TRACE.
    pub fn from_tracing(level: TracingLevel) -> (r: Option<Self>)
        ensures
            r == level_for_tracing_rank(tracing_rank_of(level)),
    {
        let rank = tracing_rank(&level);
        if rank == 1 {
            Some(Level::Debug)
        } else if rank == 2 {
            Some(Level::Info)
        } else if rank == 3 {
            Some(Level::Warn)
        } else if rank == 4 {
            Some(Level::Error)
        } else {
            None
        }
    }

    /// The `tracing::Level` for TRACE, which no [`Level`] maps to.
    pub fn tracing_trace_level() -> (r: TracingLevel)
        ensures
            tracing_rank_of(r) == 0,
    {
        tracing_trace()
    }

    /// Encode as a `u8` for atomic storage.
    pub fn as_u8(self) -> (r: u8)
        ensures
            r == level_rank(self),
    {
        match self {
            Level::Debug => 0,
            Level::Info => 1,
            Level::Warn => 2,
            Level::Error => 3,
        }
    }

    /// Decode from a `u8`.
    pub fn from_u8(v: u8) -> (r: Option<Self>)
        ensures
            r == level_of_code(v),
    {
        match v {
            0 => Some(Level::Debug),
            1 => Some(Level::Info),
            2 => Some(Level::Warn),
            3 => Some(Level::Error),
            _ => None,
        }
    }

    /// Parse from a string (case-insensitive). Accepts "debug", "info", "warn", "warning",
    /// "error".
    pub fn from_str(s: &str) -> (r: Option<Self>)
        ensures
            r == level_named(lower_seq(s@)),
    {
        let lower = lower_chars(&chars_of(s));
        if seq_eq(&lower, &chars_of("debug")) {
            Some(Level::Debug)
        } else if seq_eq(&lower, &chars_of("info")) {
            Some(Level::Info)
        } else if seq_eq(&lower, &chars_of("warn")) || seq_eq(&lower, &chars_of("warning")) {
            Some(Level::Warn)
        } else if seq_eq(&lower, &chars_of("error")) {
            Some(Level::Error)
        } else {
            None
        }
    }

    /// `self` is strictly below `other` in `Debug < Info < Warn < Error`.
    pub fn is_below(self, other: Level) -> (r: bool)
        ensures
            r == (level_rank(self) < level_rank(other)),
    {
        self.as_u8() < other.as_u8()
    }
}

/// Encoding as `u8` and decoding back gives the same level.
pub proof fn lemma_level_code_round_trip(l: Level)
    ensures
        level_of_code(level_rank(l) as u8) == Some(l),
{
}

} // verus!
