//! Core logic of the Rambit cache service: slugs, store keys, values, the
//! in-memory transactional key-value store, permissions, and the decisions
//! made by the services around storage and tokens.

pub mod slug;
pub mod starc;
pub mod api_errors;
pub mod key;
pub mod value;
pub mod keymap;
pub mod kv;
pub mod mock;
pub mod models;
pub mod services;
pub mod storage;
pub mod tasks;
pub mod text;
pub mod counted;
pub mod order;
