//! Authentication and session-validation core for a small multiplayer
//! tabletop-game server.
//!
//! The crate covers credential hashing, opaque session-token issuance and
//! verification, and the SQLite-backed user store that session validation
//! depends on. HTTP routing and other transport plumbing live outside this
//! crate and call in through the functions exposed here.

pub mod auth;
pub mod database;
pub mod login;
pub mod rootfile;
pub mod token;
pub mod text;
