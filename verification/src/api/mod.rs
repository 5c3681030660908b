//! The versioned public API.

pub mod v1;
