//! Deleting a file or a directory tree.

use vstd::prelude::*;
use crate::errors::ServiceError;
use crate::errors::ServiceResult;
use super::{read_only_guard, resolve_path, resolved_path, traversal_free};
use super::store::{
    contains_dir, contains_file, dirs_outside, file_index, files_outside, FileStore,
    lemma_file_index_unique,
};

verus! {

/// Deletes the target at the resolved path: a directory disappears with
/// everything below it, a file alone.
///
/// Mutating: short-circuits while read-only. A path naming neither is
/// not found.
pub fn remove(store: &mut FileStore, read_only: bool, username: &str, query_path: &str) -> (r:
    ServiceResult<()>)
    requires
        old(store).wf(),
    ensures
        final(store).wf(),
        read_only ==> r == Err::<(), ServiceError>(ServiceError::FSReadOnly) && *final(store)
            == *old(store),
        !read_only && !traversal_free(query_path@) ==> r == Err::<(), ServiceError>(
            ServiceError::PermissionDenied,
        ) && *final(store) == *old(store),
        ({
            let key = resolved_path(username@, query_path@);
            &&& (!read_only && traversal_free(query_path@) && contains_dir(
                old(store).dirs_view(),
                key,
            )) ==> r == Ok::<(), ServiceError>(()) && final(store).files_view() == files_outside(
                old(store).files_view(),
                key,
            ) && final(store).dirs_view() == dirs_outside(old(store).dirs_view(), key)
            &&& (!read_only && traversal_free(query_path@) && !contains_dir(
                old(store).dirs_view(),
                key,
            ) && contains_file(old(store).files_view(), key)) ==> r == Ok::<(), ServiceError>(())
                && final(store).files_view() == old(store).files_view().remove(
                file_index(old(store).files_view(), key),
            ) && final(store).dirs_view() == old(store).dirs_view()
            &&& (!read_only && traversal_free(query_path@) && !contains_dir(
                old(store).dirs_view(),
                key,
            ) && !contains_file(old(store).files_view(), key)) ==> r == Err::<(), ServiceError>(
                ServiceError::FileNotFound,
            ) && *final(store) == *old(store)
        }),
{
    if let Err(e) = read_only_guard(read_only) {
        return Err(e);
    }
    let full_path = match resolve_path(username, query_path) {
        Ok(p) => p,
        Err(e) => {
            return Err(e);
        },
    };
    if store.find_dir(full_path.as_str()).is_some() {
        store.remove_tree(full_path.as_str());
        return Ok(());
    }
    match store.find_file(full_path.as_str()) {
        Some(i) => {
            proof {
                lemma_file_index_unique(store.files_view(), full_path@, i as int);
            }
            store.remove_file_at(i);
            Ok(())
        },
        None => Err(ServiceError::FileNotFound),
    }
}

} // verus!
