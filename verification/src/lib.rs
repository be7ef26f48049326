//! A single-process, in-memory grocery list: a shared store mapping item
//! names to quantities, guarded by a verified reader/writer lock, together
//! with the four request handlers (add, get, update, delete) that translate
//! validated payloads into store operations and response outcomes.

pub mod handlers;
pub mod laws;
pub mod models;
