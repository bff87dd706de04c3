//! Shared toolkit: a branded logger, a hybrid Supabase sync library and SF Symbol
//! icon support, with the decision logic of each stated and proved.

pub mod text;
pub mod polybase;
pub mod log;
pub mod polysym;
pub mod polysym_build;
