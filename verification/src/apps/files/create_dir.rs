//! Creating a directory, with every missing segment of the path.

use vstd::prelude::*;
use crate::errors::ServiceError;
use crate::errors::ServiceResult;
use crate::strutil::{lemma_split_nonempty, split_spec, split_str};
use super::{read_only_guard, resolve_path, resolved_path, traversal_free};
use super::store::{contains_dir, contains_file, FileStore};

verus! {

/// The path made of the first `n` segments, joined by separators.
pub open spec fn joined_prefix(segs: Seq<Seq<char>>, n: int) -> Seq<char>
    decreases n,
{
    if n <= 1 {
        segs[0]
    } else {
        joined_prefix(segs, n - 1) + seq!['/'] + segs[n - 1]
    }
}

/// Some prefix of the requested path, resolved, already names a file.
pub open spec fn prefix_is_file(
    fv: Seq<(Seq<char>, Seq<u8>, u64)>,
    username: Seq<char>,
    segs: Seq<Seq<char>>,
    n: int,
) -> bool
    decreases n,
{
    if n <= 0 {
        false
    } else {
        prefix_is_file(fv, username, segs, n - 1) || contains_file(
            fv,
            resolved_path(username, joined_prefix(segs, n)),
        )
    }
}

/// The recorded directories after creating every missing segment of the
/// requested path, in order from the outermost in.
pub open spec fn spec_create_dirs(
    dv: Seq<(Seq<char>, u64)>,
    username: Seq<char>,
    segs: Seq<Seq<char>>,
    n: int,
    now: u64,
) -> Seq<(Seq<char>, u64)>
    decreases n,
{
    if n <= 0 {
        dv
    } else {
        let prev = spec_create_dirs(dv, username, segs, n - 1, now);
        let key = resolved_path(username, joined_prefix(segs, n));
        if contains_dir(prev, key) {
            prev
        } else {
            prev.push((key, now))
        }
    }
}

/// A prefix names a file exactly when one of the first `n` joined
/// prefixes resolves to a stored file.
proof fn lemma_prefix_is_file_iff(
    fv: Seq<(Seq<char>, Seq<u8>, u64)>,
    username: Seq<char>,
    segs: Seq<Seq<char>>,
    n: int,
)
    requires
        n >= 0,
    ensures
        prefix_is_file(fv, username, segs, n) <==> exists|m: int|
            1 <= m <= n && contains_file(
                fv,
                #[trigger] resolved_path(username, joined_prefix(segs, m)),
            ),
    decreases n,
{
    if n > 0 {
        lemma_prefix_is_file_iff(fv, username, segs, n - 1);
        if prefix_is_file(fv, username, segs, n) {
            if prefix_is_file(fv, username, segs, n - 1) {
                let m = choose|m: int|
                    1 <= m <= n - 1 && contains_file(
                        fv,
                        #[trigger] resolved_path(username, joined_prefix(segs, m)),
                    );
                assert(1 <= m <= n && contains_file(
                    fv,
                    resolved_path(username, joined_prefix(segs, m)),
                ));
            } else {
                assert(1 <= n <= n && contains_file(
                    fv,
                    resolved_path(username, joined_prefix(segs, n)),
                ));
            }
        }
        if exists|m: int|
            1 <= m <= n && contains_file(
                fv,
                #[trigger] resolved_path(username, joined_prefix(segs, m)),
            ) {
            let m = choose|m: int|
                1 <= m <= n && contains_file(
                    fv,
                    #[trigger] resolved_path(username, joined_prefix(segs, m)),
                );
            if m <= n - 1 {
                assert(1 <= m <= n - 1 && contains_file(
                    fv,
                    resolved_path(username, joined_prefix(segs, m)),
                ));
            }
        }
    }
}

/// Records the requested directory together with every missing segment
/// on the way, outermost first; creating a directory that already exists
/// is not an error.
///
/// Mutating: short-circuits while read-only. A file already stored at
/// the requested path or at any segment of it is a conflict, and nothing
/// is recorded then.
pub fn create_dir(
    store: &mut FileStore,
    read_only: bool,
    username: &str,
    query_path: &str,
    now: u64,
) -> (r: ServiceResult<()>)
    requires
        old(store).wf(),
    ensures
        final(store).wf(),
        final(store).files_view() == old(store).files_view(),
        read_only ==> r == Err::<(), ServiceError>(ServiceError::FSReadOnly) && final(store).dirs_view() == old(store).dirs_view(),
        !read_only && !traversal_free(query_path@) ==> r == Err::<(), ServiceError>(
            ServiceError::PermissionDenied,
        ) && final(store).dirs_view() == old(store).dirs_view(),
        ({
            let segs = split_spec(query_path@, '/');
            &&& (!read_only && traversal_free(query_path@) && prefix_is_file(
                old(store).files_view(),
                username@,
                segs,
                segs.len() as int,
            )) ==> r == Err::<(), ServiceError>(ServiceError::FileExists) && final(store).dirs_view() == old(store).dirs_view()
            &&& (!read_only && traversal_free(query_path@) && !prefix_is_file(
                old(store).files_view(),
                username@,
                segs,
                segs.len() as int,
            )) ==> r == Ok::<(), ServiceError>(()) && final(store).dirs_view()
                == spec_create_dirs(
                old(store).dirs_view(),
                username@,
                segs,
                segs.len() as int,
                now,
            )
        }),
{
    if let Err(e) = read_only_guard(read_only) {
        return Err(e);
    }
    if let Err(e) = resolve_path(username, query_path) {
        return Err(e);
    }
    let ghost fv = store.files_view();
    let ghost dv = store.dirs_view();
    let parts = split_str(query_path, '/');
    let ghost segs = split_spec(query_path@, '/');
    proof {
        lemma_split_nonempty(query_path@, '/');
    }
    let n = parts.len();
    // First pass: build the resolved key of each prefix and refuse the
    // request if any of them already names a file.
    let mut keys: Vec<String> = Vec::new();
    let mut cur: String = String::new();
    let mut i: usize = 0;
    while i < n
        invariant
            !read_only,
            traversal_free(query_path@),
            *store == *old(store),
            store.wf(),
            n == parts@.len(),
            segs == split_spec(query_path@, '/'),
            parts@.map_values(|t: String| t@) == segs,
            fv == store.files_view(),
            i <= n,
            i > 0 ==> cur@ == joined_prefix(segs, i as int),
            keys@.len() == i,
            forall|k: int|
                0 <= k < i ==> (#[trigger] keys@[k])@ == resolved_path(
                    username@,
                    joined_prefix(segs, k + 1),
                ),
            forall|m: int|
                1 <= m <= i ==> !contains_file(
                    fv,
                    #[trigger] resolved_path(username@, joined_prefix(segs, m)),
                ),
        decreases n - i,
    {
        proof {
            assert(parts@.map_values(|t: String| t@)[i as int] == parts@[i as int]@);
        }
        if i == 0 {
            cur = parts[0].clone();
            proof {
                assert(cur@ == joined_prefix(segs, 1));
            }
        } else {
            let next = cur.concat("/").concat(parts[i].as_str());
            cur = next;
            proof {
                reveal_strlit("/");
                assert("/"@ =~= seq!['/']);
                assert(cur@ =~= joined_prefix(segs, i + 1));
            }
        }
        let key = String::from_str("data/users/").concat(username).concat("/files/").concat(
            cur.as_str(),
        );
        proof {
            assert(key@ =~= resolved_path(username@, joined_prefix(segs, i + 1)));
        }
        if store.find_file(key.as_str()).is_some() {
            proof {
                lemma_prefix_is_file_iff(fv, username@, segs, segs.len() as int);
                assert(1 <= i + 1 <= segs.len() && contains_file(
                    fv,
                    resolved_path(username@, joined_prefix(segs, i + 1)),
                ));
            }
            return Err(ServiceError::FileExists);
        }
        keys.push(key);
        i += 1;
    }
    proof {
        lemma_prefix_is_file_iff(fv, username@, segs, segs.len() as int);
    }
    // Second pass: record every prefix not recorded yet, outermost first.
    let mut j: usize = 0;
    while j < n
        invariant
            n == segs.len(),
            keys@.len() == n,
            forall|k: int|
                0 <= k < n ==> (#[trigger] keys@[k])@ == resolved_path(
                    username@,
                    joined_prefix(segs, k + 1),
                ),
            j <= n,
            store.wf(),
            store.files_view() == fv,
            fv == old(store).files_view(),
            dv == old(store).dirs_view(),
            store.dirs_view() == spec_create_dirs(dv, username@, segs, j as int, now),
        decreases n - j,
    {
        if store.find_dir(keys[j].as_str()).is_none() {
            store.add_dir(keys[j].clone(), now);
        }
        j += 1;
    }
    Ok(())
}

} // verus!
