//! Triox: a small personal cloud-storage service core.
//!
//! Users register with a name, password and email address, sign in to
//! obtain a signed, time-limited session token, and then operate on files
//! inside a per-user storage subtree. This crate holds the verified core:
//! credential and email validation, the user directory, password hashing,
//! session-token issuance and verification, path sandboxing and the
//! per-user file operations.

pub mod api;
pub mod app_conf;
pub mod apps;
pub mod auth;
pub mod cli;
pub mod config;
pub mod database;
pub mod errors;
pub mod hash;
pub mod jwt;
pub mod strutil;

pub use errors::ServiceError;
pub use errors::ServiceResult;
