//! Verified core of a small multi-user todo backend: password policy and
//! hashing, user identifiers, session tokens, and the decisions of the
//! authentication and todo services.

pub mod hex;
pub mod user_id;
pub mod session_token;
pub mod password;
pub mod error;
pub mod todo;
pub mod user;
pub mod store;
pub mod service;
pub mod model;
