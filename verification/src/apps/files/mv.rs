//! Moving a file or a directory tree.

use vstd::prelude::*;
use crate::errors::ServiceError;
use crate::errors::ServiceResult;
use super::{read_only_guard, resolve_path, resolved_path, traversal_free};
use super::store::{
    contains_dir, contains_file, content_of, dirs_renamed, file_index, files_renamed, mtime_of,
    spec_put_file, tree_free, FileStore, lemma_file_index_unique,
};

verus! {

/// Relocates the target at `from` to `to`. A directory moves with
/// everything below it and demands a wholly unoccupied destination; a
/// file overwrites a file already at the destination but never a
/// directory.
///
/// Mutating: short-circuits while read-only. A source naming neither a
/// file nor a directory is not found.
pub fn mv(store: &mut FileStore, read_only: bool, username: &str, from: &str, to: &str) -> (r:
    ServiceResult<()>)
    requires
        old(store).wf(),
    ensures
        final(store).wf(),
        read_only ==> r == Err::<(), ServiceError>(ServiceError::FSReadOnly) && *final(store)
            == *old(store),
        !read_only && !traversal_free(from@) ==> r == Err::<(), ServiceError>(
            ServiceError::PermissionDenied,
        ) && *final(store) == *old(store),
        !read_only && traversal_free(from@) && !traversal_free(to@) ==> r == Err::<
            (),
            ServiceError,
        >(ServiceError::PermissionDenied) && *final(store) == *old(store),
        ({
            let src = resolved_path(username@, from@);
            let dst = resolved_path(username@, to@);
            let fv = old(store).files_view();
            let dv = old(store).dirs_view();
            let ok_paths = !read_only && traversal_free(from@) && traversal_free(to@);
            &&& (ok_paths && !contains_dir(dv, src) && !contains_file(fv, src)) ==> r == Err::<
                (),
                ServiceError,
            >(ServiceError::FileNotFound) && *final(store) == *old(store)
            &&& (ok_paths && contains_dir(dv, src) && !tree_free(fv, dv, dst)) ==> r == Err::<
                (),
                ServiceError,
            >(ServiceError::FileExists) && *final(store) == *old(store)
            &&& (ok_paths && contains_dir(dv, src) && tree_free(fv, dv, dst)) ==> r == Ok::<
                (),
                ServiceError,
            >(()) && final(store).files_view() == files_renamed(fv, src, dst) && final(store).dirs_view() == dirs_renamed(dv, src, dst)
            &&& (ok_paths && !contains_dir(dv, src) && contains_file(fv, src) && contains_dir(
                dv,
                dst,
            )) ==> r == Err::<(), ServiceError>(ServiceError::FileExists) && *final(store)
                == *old(store)
            &&& (ok_paths && !contains_dir(dv, src) && contains_file(fv, src) && !contains_dir(
                dv,
                dst,
            )) ==> r == Ok::<(), ServiceError>(()) && final(store).files_view()
                == spec_put_file(
                fv.remove(file_index(fv, src)),
                dst,
                content_of(fv, src),
                mtime_of(fv, src),
            ) && final(store).dirs_view() == dv
        }),
{
    if let Err(e) = read_only_guard(read_only) {
        return Err(e);
    }
    let source_path = match resolve_path(username, from) {
        Ok(p) => p,
        Err(e) => {
            return Err(e);
        },
    };
    let destination_path = match resolve_path(username, to) {
        Ok(p) => p,
        Err(e) => {
            return Err(e);
        },
    };
    if store.find_dir(source_path.as_str()).is_some() {
        if !store.is_tree_free(destination_path.as_str()) {
            return Err(ServiceError::FileExists);
        }
        proof {
            reveal_strlit("data/users/");
            assert(destination_path@.len() > 0);
        }
        store.rename_tree(source_path.as_str(), destination_path.as_str());
        return Ok(());
    }
    let i = match store.find_file(source_path.as_str()) {
        Some(i) => i,
        None => {
            return Err(ServiceError::FileNotFound);
        },
    };
    if store.find_dir(destination_path.as_str()).is_some() {
        return Err(ServiceError::FileExists);
    }
    proof {
        lemma_file_index_unique(store.files_view(), source_path@, i as int);
    }
    let content = store.content_at(i);
    let mtime = store.mtime_at(i);
    store.remove_file_at(i);
    store.put_file(destination_path, content, mtime);
    Ok(())
}

} // verus!
