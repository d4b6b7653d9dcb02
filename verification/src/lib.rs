//! Keyed ("defined") component variants for an ECS: one Rust component type can be
//! registered many times, once per byte key, and each registration gets its own
//! component id. This crate holds the bookkeeping of those registrations and the
//! small decision procedures the query and resource adapters build on.

pub mod access;
pub mod key;
pub mod model;
pub mod register;
pub mod register_laws;
pub mod storage;
pub mod cursor;
pub mod query_state;
pub mod ticks;
pub mod std_calls;
pub mod type_ids;

pub use cursor::ComponentCursor;
pub use key::{DefKey, Key, KeyDisplay};
pub use query_state::AnyQueryState;
pub use register::DefineRegister;
pub use storage::{StorageKind, StorageSwitch};
pub use ticks::ChangeTicks;
