//! Core of a small multi-user task tracker served over HTTP: credential
//! hashing and verification, an in-memory session store with identifier
//! rotation, the access guard that gates protected routes, one-shot flash
//! messages, and the user and task records behind the handlers.
//!
//! The HTTP plumbing (routing, rendering, the listener) lives outside this
//! crate; the handlers here are written against plain values, so every
//! decision they make is stated in a contract and checked.

pub mod config;
pub mod error;
pub mod password;
pub mod session;
pub mod tasks;
pub mod templates;
pub mod users;
pub mod utilities;
