//! Uploading a file: one multipart part, already read into bytes by the
//! caller, streamed to its destination.

use vstd::prelude::*;
use crate::errors::ServiceError;
use crate::errors::ServiceResult;
use crate::strutil::contains_substr;
use super::{join_path, join_sep, read_only_guard, resolve_path, resolved_path, traversal_free};
use super::store::{spec_put_file, FileStore};

verus! {

/// Where an uploaded part lands: the client directory path resolved into
/// the user's subtree, joined with the part's file name.
pub open spec fn upload_key(
    username: Seq<char>,
    query_path: Seq<char>,
    filename: Seq<char>,
) -> Seq<char> {
    join_sep(resolved_path(username, query_path), filename)
}

/// Stores one uploaded file, overwriting a file already at that path.
///
/// Mutating: short-circuits while read-only. Both the directory path and
/// the part's file name are refused when `..` occurs in them.
pub fn upload(
    store: &mut FileStore,
    read_only: bool,
    username: &str,
    query_path: &str,
    filename: &str,
    content: Vec<u8>,
    now: u64,
) -> (r: ServiceResult<()>)
    requires
        old(store).wf(),
    ensures
        final(store).wf(),
        final(store).dirs_view() == old(store).dirs_view(),
        read_only ==> r == Err::<(), ServiceError>(ServiceError::FSReadOnly) && final(store).files_view() == old(store).files_view(),
        !read_only && !traversal_free(query_path@) ==> r == Err::<(), ServiceError>(
            ServiceError::PermissionDenied,
        ) && final(store).files_view() == old(store).files_view(),
        !read_only && traversal_free(query_path@) && !traversal_free(filename@) ==> r == Err::<
            (),
            ServiceError,
        >(ServiceError::PermissionDenied) && final(store).files_view() == old(store).files_view(),
        !read_only && traversal_free(query_path@) && traversal_free(filename@) ==> r == Ok::<
            (),
            ServiceError,
        >(()) && final(store).files_view() == spec_put_file(
            old(store).files_view(),
            upload_key(username@, query_path@, filename@),
            content@,
            now,
        ),
{
    if let Err(e) = read_only_guard(read_only) {
        return Err(e);
    }
    let base_path = match resolve_path(username, query_path) {
        Ok(p) => p,
        Err(e) => {
            return Err(e);
        },
    };
    let fname_dotdot = contains_substr(filename, "..");
    proof {
        reveal_strlit("..");
        assert(".."@ =~= seq!['.', '.']);
    }
    if fname_dotdot {
        return Err(ServiceError::PermissionDenied);
    }
    let file_path = join_path(base_path.as_str(), filename);
    store.put_file(file_path, content, now);
    Ok(())
}

} // verus!
