//! Hybrid Supabase sync library: frozen contract, reducer, reconcile planner, registry,
//! encryption framing, error classification and the other pure pieces of the runtime.

pub mod contract;
pub mod reducer;
pub mod events;
pub mod reconcile;
pub mod errors;
pub mod push;
pub mod encryption;
pub mod client;
pub mod kvs;
pub mod realtime;
pub mod registry;
pub mod record;
pub mod assoc;
pub mod edge;
pub mod storage;
pub mod offline_queue;
pub mod persistence;
pub mod remote;
pub mod string_map;
pub mod echo;
pub mod auth;
pub mod coordinator;
pub mod supervisor;
pub mod connection;
pub mod write_flow;
pub mod local_db;
