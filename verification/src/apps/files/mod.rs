//! The files app: per-user storage scoped to a private subtree, with
//! path sandboxing and a process-wide read-only switch.

pub mod copy;
pub mod create_dir;
pub mod get;
pub mod list;
pub mod mv;
pub mod remove;
pub mod store;
pub mod upload;

use vstd::prelude::*;
use crate::errors::ServiceError;
use crate::errors::ServiceResult;
use crate::strutil::contains_seq;

verus! {

/// Shared struct for extracting paths.
pub struct QueryPath {
    pub path: String,
}

/// Shared struct for moving or copying files.
pub struct SourceAndDest {
    pub from: String,
    pub to: String,
}

/// A client-supplied relative path is rejected whenever `..` occurs in it
/// anywhere: a conservative guard against path traversal.
pub open spec fn traversal_free(p: Seq<char>) -> bool {
    !contains_seq(p, seq!['.', '.'])
}

/// Where a user's tree lives: `data/users/<user>/files/<path>`.
pub open spec fn resolved_path(username: Seq<char>, path: Seq<char>) -> Seq<char> {
    "data/users/"@ + username + "/files/"@ + path
}

/// Translates a client-supplied relative path into the absolute path
/// inside this user's private subtree.
///
/// Rejects any path in which `..` occurs; every accepted path lies under
/// `data/users/<user>/files/`.
pub fn resolve_path(username: &str, query_path: &str) -> (r: ServiceResult<String>)
    ensures
        match r {
            Ok(p) => traversal_free(query_path@) && p@ == resolved_path(username@, query_path@),
            Err(e) => e == ServiceError::PermissionDenied && !traversal_free(query_path@),
        },
{
    let has_dotdot = crate::strutil::contains_substr(query_path, "..");
    proof {
        reveal_strlit("..");
        assert(".."@ =~= seq!['.', '.']);
    }
    if has_dotdot {
        Err(ServiceError::PermissionDenied)
    } else {
        let p = String::from_str("data/users/").concat(username).concat("/files/").concat(
            query_path,
        );
        Ok(p)
    }
}

/// Short-circuits every mutating file operation while the server runs
/// read-only; read operations never consult this.
pub fn read_only_guard(read_only: bool) -> (r: ServiceResult<()>)
    ensures
        r is Ok <==> !read_only,
        r matches Err(e) ==> e == ServiceError::FSReadOnly,
{
    if read_only {
        Err(ServiceError::FSReadOnly)
    } else {
        Ok(())
    }
}

/// Joins a base path and a name, inserting a separator unless the base
/// already ends in one.
pub open spec fn join_sep(base: Seq<char>, name: Seq<char>) -> Seq<char> {
    if base.len() > 0 && base.last() == '/' {
        base + name
    } else {
        base + seq!['/'] + name
    }
}

/// Joins a base path and a name with a single separator.
pub fn join_path(base: &str, name: &str) -> (r: String)
    ensures
        r@ == join_sep(base@, name@),
{
    let blen = base.unicode_len();
    if blen > 0 && base.get_char(blen - 1) == '/' {
        let r = String::from_str(base).concat(name);
        proof {
            assert(r@ =~= join_sep(base@, name@));
        }
        r
    } else {
        let r = String::from_str(base).concat("/").concat(name);
        proof {
            reveal_strlit("/");
            assert("/"@ =~= seq!['/']);
            assert(r@ =~= join_sep(base@, name@));
        }
        r
    }
}

/// The paths under which the files app serves.
pub struct Files {
    pub get: &'static str,
    pub list: &'static str,
    pub upload: &'static str,
    pub mv: &'static str,
    pub copy: &'static str,
    pub remove: &'static str,
    pub create_dir: &'static str,
}

impl Files {
    /// The route table of the files app.
    pub fn new() -> (r: Files)
        ensures
            r.get@ == "/app/files/get"@,
            r.list@ == "/app/files/list"@,
            r.upload@ == "/app/files/upload"@,
            r.mv@ == "/app/files/move"@,
            r.copy@ == "/app/files/copy"@,
            r.remove@ == "/app/files/remove"@,
            r.create_dir@ == "/app/files/create_dir"@,
    {
        Files {
            get: "/app/files/get",
            list: "/app/files/list",
            upload: "/app/files/upload",
            mv: "/app/files/move",
            copy: "/app/files/copy",
            remove: "/app/files/remove",
            create_dir: "/app/files/create_dir",
        }
    }
}

} // verus!
