//! An in-memory key-value cache with per-key expiration and the
//! line-oriented text protocol that drives it.
//!
//! The crate holds the decisions only: what a store contains after a write,
//! which entries a reader may still see, how a request line is split and
//! answered, and when a session may touch the store. Sockets, locks, threads
//! and the clock belong to the program around it, which hands every call the
//! current instant as a plain number.

pub mod clock;
pub mod command;
pub mod decimal;
pub mod entry;
pub mod laws;
pub mod reply;
pub mod request;
pub mod session;
pub mod store;
pub mod text;
pub mod words;
