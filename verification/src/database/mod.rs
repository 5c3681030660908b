//! The user directory: accounts, their invariants, and the operations on
//! them.

pub mod users;
