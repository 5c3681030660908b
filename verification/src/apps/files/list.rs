//! Listing the direct children of a directory.

use vstd::prelude::*;
use crate::errors::ServiceError;
use crate::errors::ServiceResult;
use super::{join_sep, resolve_path, resolved_path, traversal_free};
use super::store::{contains_dir, FileStore};

verus! {

/// One file in a listing: its name, size and last modification time, in
/// seconds since the epoch.
#[derive(Debug)]
pub struct File {
    pub name: String,
    pub size: u64,
    pub last_modified: u64,
}

/// One subdirectory in a listing.
#[derive(Debug)]
pub struct Directory {
    pub name: String,
    pub last_modified: u64,
}

/// File list returned by the `list` service.
#[derive(Debug)]
pub struct ListResponse {
    pub files: Vec<File>,
    pub directories: Vec<Directory>,
}

/// `k` names a direct child of the directory whose paths start with
/// `prefix`: below it, and with no further separator in the rest.
pub open spec fn is_direct_child(k: Seq<char>, prefix: Seq<char>) -> bool {
    prefix.len() < k.len() && k.subrange(0, prefix.len() as int) == prefix && !k.skip(
        prefix.len() as int,
    ).contains('/')
}

/// The name under which a direct child is listed.
pub open spec fn child_name(k: Seq<char>, prefix: Seq<char>) -> Seq<char> {
    k.skip(prefix.len() as int)
}

/// The files directly inside the directory, as (name, size, mtime), in
/// store order.
pub open spec fn children_files(v: Seq<(Seq<char>, Seq<u8>, u64)>, prefix: Seq<char>) -> Seq<
    (Seq<char>, int, u64),
>
    decreases v.len(),
{
    if v.len() == 0 {
        Seq::empty()
    } else {
        let rest = children_files(v.drop_first(), prefix);
        if is_direct_child(v[0].0, prefix) {
            seq![(child_name(v[0].0, prefix), v[0].1.len() as int, v[0].2)] + rest
        } else {
            rest
        }
    }
}

/// The subdirectories directly inside the directory, as (name, mtime),
/// in store order.
pub open spec fn children_dirs(ds: Seq<(Seq<char>, u64)>, prefix: Seq<char>) -> Seq<
    (Seq<char>, u64),
>
    decreases ds.len(),
{
    if ds.len() == 0 {
        Seq::empty()
    } else {
        let rest = children_dirs(ds.drop_first(), prefix);
        if is_direct_child(ds[0].0, prefix) {
            seq![(child_name(ds[0].0, prefix), ds[0].1)] + rest
        } else {
            rest
        }
    }
}

/// The query path with its trailing separators removed: listing accepts
/// a directory path written with or without a final one.
pub open spec fn strip_trailing_slashes(q: Seq<char>) -> Seq<char>
    decreases q.len(),
{
    if q.len() > 0 && q.last() == '/' {
        strip_trailing_slashes(q.drop_last())
    } else {
        q
    }
}

/// A prefix whose complement is all separators, and which does not end
/// in one itself, is exactly the stripped sequence.
proof fn lemma_strip_subrange(q: Seq<char>, b: int)
    requires
        0 <= b <= q.len(),
        forall|k: int| b <= k < q.len() ==> q[k] == '/',
        b > 0 ==> q[b - 1] != '/',
    ensures
        strip_trailing_slashes(q) == q.subrange(0, b),
    decreases q.len(),
{
    if b < q.len() {
        let t = q.drop_last();
        assert(forall|k: int| b <= k < t.len() ==> t[k] == '/');
        lemma_strip_subrange(t, b);
        assert(t.subrange(0, b) =~= q.subrange(0, b));
    } else {
        assert(q.subrange(0, q.len() as int) =~= q);
    }
}

/// Removes trailing separators.
fn strip_slashes<'a>(q: &'a str) -> (r: &'a str)
    ensures
        r@ == strip_trailing_slashes(q@),
{
    let n = q.unicode_len();
    let mut b: usize = n;
    while b > 0 && q.get_char(b - 1) == '/'
        invariant
            n == q@.len(),
            b <= n,
            forall|k: int| b <= k < n ==> q@[k] == '/',
        decreases b,
    {
        b -= 1;
    }
    proof {
        lemma_strip_subrange(q@, b as int);
    }
    q.substring_char(0, b)
}

/// Whether the resolved directory can be listed: the user's root always
/// exists, any other directory must be recorded or hold something.
pub open spec fn listable(
    fv: Seq<(Seq<char>, Seq<u8>, u64)>,
    dv: Seq<(Seq<char>, u64)>,
    key: Seq<char>,
    query_path: Seq<char>,
) -> bool {
    ||| query_path.len() == 0
    ||| contains_dir(dv, key)
    ||| !super::store::tree_free(fv, dv, key)
}

/// Decides `is_direct_child` and hands the name back.
fn direct_child_of(k: &str, prefix: &str) -> (r: Option<String>)
    ensures
        match r {
            Some(name) => is_direct_child(k@, prefix@) && name@ == child_name(k@, prefix@),
            None => !is_direct_child(k@, prefix@),
        },
{
    let klen = k.unicode_len();
    let plen = prefix.unicode_len();
    if plen >= klen {
        return None;
    }
    if !crate::strutil::match_at(k, prefix, 0) {
        return None;
    }
    let rest = k.substring_char(plen, klen);
    proof {
        assert(rest@ =~= k@.skip(prefix@.len() as int));
    }
    match crate::strutil::find_char(rest, '/') {
        Some(_) => None,
        None => {
            proof {
                assert(!rest@.contains('/'));
            }
            Some(String::from_str(rest))
        },
    }
}

/// Lists the direct children of the resolved directory, files and
/// subdirectories apart, without recursing; trailing separators on the
/// query path are ignored. A read operation: the read-only switch does
/// not apply.
pub fn list(store: &FileStore, username: &str, query_path: &str) -> (r: ServiceResult<
    ListResponse,
>)
    requires
        store.wf(),
    ensures
        ({
            let stripped = strip_trailing_slashes(query_path@);
            let key = resolved_path(username@, stripped);
            let prefix = join_sep(key, Seq::<char>::empty());
            match r {
                Ok(resp) => {
                    &&& traversal_free(query_path@)
                    &&& listable(store.files_view(), store.dirs_view(), key, stripped)
                    &&& resp.files@.map_values(
                        |f: File| (f.name@, f.size as int, f.last_modified),
                    ) == children_files(store.files_view(), prefix)
                    &&& resp.directories@.map_values(
                        |d: Directory| (d.name@, d.last_modified),
                    ) == children_dirs(store.dirs_view(), prefix)
                },
                Err(e) => {
                    if !traversal_free(query_path@) {
                        e == ServiceError::PermissionDenied
                    } else {
                        e == ServiceError::FileNotFound && !listable(
                            store.files_view(),
                            store.dirs_view(),
                            key,
                            stripped,
                        )
                    }
                },
            }
        }),
{
    if let Err(e) = resolve_path(username, query_path) {
        return Err(e);
    }
    let stripped = strip_slashes(query_path);
    let full_path = String::from_str("data/users/").concat(username).concat("/files/").concat(
        stripped,
    );
    proof {
        assert(full_path@ =~= resolved_path(username@, strip_trailing_slashes(query_path@)));
    }
    let listable_now = if stripped.unicode_len() == 0 {
        true
    } else if store.find_dir(full_path.as_str()).is_some() {
        true
    } else {
        !store.is_tree_free(full_path.as_str())
    };
    if !listable_now {
        return Err(ServiceError::FileNotFound);
    }
    let prefix = super::join_path(full_path.as_str(), "");
    proof {
        reveal_strlit("");
        assert(""@ =~= Seq::<char>::empty());
        assert(prefix@ == join_sep(full_path@, Seq::<char>::empty()));
    }
    let ghost fv = store.files_view();
    let ghost dv = store.dirs_view();
    let mut files: Vec<File> = Vec::new();
    let n = store.file_count();
    let mut i: usize = 0;
    proof {
        assert(fv.skip(0) =~= fv);
    }
    while i < n
        invariant
            n == fv.len(),
            i <= n,
            fv == store.files_view(),
            prefix@ == join_sep(
                resolved_path(username@, strip_trailing_slashes(query_path@)),
                Seq::<char>::empty(),
            ),
            children_files(fv, prefix@) == files@.map_values(
                |f: File| (f.name@, f.size as int, f.last_modified),
            ) + children_files(fv.skip(i as int), prefix@),
        decreases n - i,
    {
        let ghost rem = fv.skip(i as int);
        proof {
            assert(rem.drop_first() =~= fv.skip(i + 1));
            assert(rem[0] == fv[i as int]);
        }
        let (key, size, mtime) = store.file_meta_at(i);
        if let Some(name) = direct_child_of(key, prefix.as_str()) {
            let ghost before = files@;
            files.push(File { name, size, last_modified: mtime });
            proof {
                assert(files@.map_values(|f: File| (f.name@, f.size as int, f.last_modified))
                    =~= before.map_values(|f: File| (f.name@, f.size as int, f.last_modified))
                    + seq![children_files(rem, prefix@)[0]]);
            }
        }
        i += 1;
    }
    proof {
        assert(fv.skip(n as int) =~= Seq::<(Seq<char>, Seq<u8>, u64)>::empty());
    }
    let mut directories: Vec<Directory> = Vec::new();
    let m = store.dir_count();
    let mut j: usize = 0;
    proof {
        assert(dv.skip(0) =~= dv);
    }
    while j < m
        invariant
            m == dv.len(),
            j <= m,
            dv == store.dirs_view(),
            prefix@ == join_sep(
                resolved_path(username@, strip_trailing_slashes(query_path@)),
                Seq::<char>::empty(),
            ),
            children_dirs(dv, prefix@) == directories@.map_values(
                |d: Directory| (d.name@, d.last_modified),
            ) + children_dirs(dv.skip(j as int), prefix@),
        decreases m - j,
    {
        let ghost rem = dv.skip(j as int);
        proof {
            assert(rem.drop_first() =~= dv.skip(j + 1));
            assert(rem[0] == dv[j as int]);
        }
        let (key, mtime) = store.dir_meta_at(j);
        if let Some(name) = direct_child_of(key, prefix.as_str()) {
            let ghost before = directories@;
            directories.push(Directory { name, last_modified: mtime });
            proof {
                assert(directories@.map_values(|d: Directory| (d.name@, d.last_modified))
                    =~= before.map_values(|d: Directory| (d.name@, d.last_modified)) + seq![
                    children_dirs(rem, prefix@)[0],
                ]);
            }
        }
        j += 1;
    }
    proof {
        assert(dv.skip(m as int) =~= Seq::<(Seq<char>, u64)>::empty());
    }
    Ok(ListResponse { files, directories })
}

} // verus!
