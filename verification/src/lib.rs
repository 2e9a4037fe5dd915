//! Session-based authentication core.
//!
//! The library covers credential hashing (a plaintext password becomes a
//! salted, self-describing encoded hash), a user store with unique usernames,
//! a server-side session store keyed by opaque session ids, the per-request
//! authentication session state machine, a capability-set permission check,
//! and the three flows — login, signup, logout — that orchestrate them.

pub mod hasher;
pub mod user;
pub mod user_store;
pub mod session;
pub mod auth_session;
pub mod flows;
