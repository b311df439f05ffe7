//! A small task-manager library: tasks are named units of work with a
//! lifecycle status, kept as an ordered store with unique names.
//!
//! The crate provides the edit-distance matcher used for typo-tolerant
//! lookup, the resolver that maps a queried name to a stored task, the
//! codec for the persisted text format, and the store operations
//! (create, read, delete, list) composed from them.

pub mod codec;
pub mod config;
pub mod distance;
pub mod resolver;
pub mod store;
pub mod text;
