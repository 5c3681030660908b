//! Downloading a file.

use vstd::prelude::*;
use crate::errors::ServiceError;
use crate::errors::ServiceResult;
use super::{resolve_path, resolved_path, traversal_free};
use super::store::{contains_file, content_of, FileStore};

verus! {

/// Reads the file at the resolved path. A read operation: the read-only
/// switch does not apply.
///
/// Rejects traversal in the client path; a path with no file under it is
/// not found; otherwise the stored content comes back whole.
pub fn get(store: &FileStore, username: &str, query_path: &str) -> (r: ServiceResult<Vec<u8>>)
    requires
        store.wf(),
    ensures
        match r {
            Ok(c) => traversal_free(query_path@) && contains_file(
                store.files_view(),
                resolved_path(username@, query_path@),
            ) && c@ == content_of(store.files_view(), resolved_path(username@, query_path@)),
            Err(e) => {
                if !traversal_free(query_path@) {
                    e == ServiceError::PermissionDenied
                } else {
                    e == ServiceError::FileNotFound && !contains_file(
                        store.files_view(),
                        resolved_path(username@, query_path@),
                    )
                }
            },
        },
{
    let full_path = match resolve_path(username, query_path) {
        Ok(p) => p,
        Err(e) => {
            return Err(e);
        },
    };
    match store.find_file(full_path.as_str()) {
        Some(i) => {
            proof {
                super::store::lemma_file_index_unique(
                    store.files_view(),
                    full_path@,
                    i as int,
                );
            }
            Ok(store.content_at(i))
        },
        None => Err(ServiceError::FileNotFound),
    }
}

} // verus!
