//! Branded logger: levels, console / file line formats, per-target level overrides and the
//! cleanup of `{:?}` field values. Installing the subscriber is left to the host program.

pub mod level;
pub mod format;
pub mod builder;
pub mod clean;
pub mod console;
pub mod file;
pub mod event;

pub mod init;
pub mod catch;
