//! The service's apps; the files app carries the per-user storage.

pub mod files;
