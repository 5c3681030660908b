//! An in-memory model of the storage tree: files as paths with content
//! and a modification time, directories as recorded paths. The real
//! filesystem work happens outside; every decision about it is taken and
//! verified here.

use vstd::prelude::*;
use crate::strutil::str_eq;

verus! {

/// Some file entry carries this path.
pub open spec fn contains_file(v: Seq<(Seq<char>, Seq<u8>, u64)>, k: Seq<char>) -> bool {
    exists|i: int| 0 <= i < v.len() && v[i].0 == k
}

/// The position of the file entry carrying this path.
pub open spec fn file_index(v: Seq<(Seq<char>, Seq<u8>, u64)>, k: Seq<char>) -> int {
    choose|i: int| 0 <= i < v.len() && v[i].0 == k
}

/// The content stored under this path.
pub open spec fn content_of(v: Seq<(Seq<char>, Seq<u8>, u64)>, k: Seq<char>) -> Seq<u8> {
    v[file_index(v, k)].1
}

/// The modification time stored under this path.
pub open spec fn mtime_of(v: Seq<(Seq<char>, Seq<u8>, u64)>, k: Seq<char>) -> u64 {
    v[file_index(v, k)].2
}

/// Some directory entry carries this path.
pub open spec fn contains_dir(d: Seq<(Seq<char>, u64)>, k: Seq<char>) -> bool {
    exists|i: int| 0 <= i < d.len() && d[i].0 == k
}

/// `k` lies strictly inside the directory `d`: below `d` and behind a
/// path separator.
pub open spec fn entry_under(k: Seq<char>, d: Seq<char>) -> bool {
    d.len() < k.len() && k.subrange(0, d.len() as int) == d && k[d.len() as int] == '/'
}

/// Writing `c` under `k` at time `t`: overwrites the entry already
/// carrying `k`, or appends a fresh one.
pub open spec fn spec_put_file(
    v: Seq<(Seq<char>, Seq<u8>, u64)>,
    k: Seq<char>,
    c: Seq<u8>,
    t: u64,
) -> Seq<(Seq<char>, Seq<u8>, u64)> {
    if contains_file(v, k) {
        v.update(file_index(v, k), (k, c, t))
    } else {
        v.push((k, c, t))
    }
}

/// No two file entries share a path and no two directory entries share a
/// path.
pub open spec fn store_keys_unique(
    v: Seq<(Seq<char>, Seq<u8>, u64)>,
    d: Seq<(Seq<char>, u64)>,
) -> bool {
    (forall|i: int, j: int| 0 <= i < j < v.len() ==> v[i].0 != v[j].0) && (forall|i: int, j: int|
        0 <= i < j < d.len() ==> d[i].0 != d[j].0)
}

/// The storage tree of the whole service, files and directories keyed by
/// absolute path.
pub struct FileStore {
    files: Vec<(String, Vec<u8>, u64)>,
    dirs: Vec<(String, u64)>,
}

impl FileStore {
    /// The file entries: path, content and modification time, in
    /// insertion order.
    pub closed spec fn files_view(&self) -> Seq<(Seq<char>, Seq<u8>, u64)> {
        self.files@.map_values(|f: (String, Vec<u8>, u64)| (f.0@, f.1@, f.2))
    }

    /// The recorded directories: path and modification time.
    pub closed spec fn dirs_view(&self) -> Seq<(Seq<char>, u64)> {
        self.dirs@.map_values(|d: (String, u64)| (d.0@, d.1))
    }

    /// The store's invariant: paths unique among files and among
    /// directories.
    pub open spec fn wf(&self) -> bool {
        store_keys_unique(self.files_view(), self.dirs_view())
    }

    /// An empty storage tree.
    pub fn new() -> (r: FileStore)
        ensures
            r.files_view() == Seq::<(Seq<char>, Seq<u8>, u64)>::empty(),
            r.dirs_view() == Seq::<(Seq<char>, u64)>::empty(),
            r.wf(),
    {
        let r = FileStore { files: Vec::new(), dirs: Vec::new() };
        proof {
            assert(r.files_view() =~= Seq::<(Seq<char>, Seq<u8>, u64)>::empty());
            assert(r.dirs_view() =~= Seq::<(Seq<char>, u64)>::empty());
        }
        r
    }

    /// Finds the position of the file entry carrying this path.
    pub(crate) fn find_file(&self, path: &str) -> (r: Option<usize>)
        ensures
            match r {
                Some(i) => i < self.files_view().len() && self.files_view()[i as int].0
                    == path@,
                None => !contains_file(self.files_view(), path@),
            },
    {
        let n = self.files.len();
        let mut i: usize = 0;
        while i < n
            invariant
                n == self.files@.len(),
                i <= n,
                forall|k: int| 0 <= k < i ==> self.files_view()[k].0 != path@,
            decreases n - i,
        {
            proof {
                assert(self.files_view()[i as int].0 == self.files@[i as int].0@);
            }
            if str_eq(self.files[i].0.as_str(), path) {
                return Some(i);
            }
            i += 1;
        }
        None
    }

    /// Finds the position of the directory entry carrying this path.
    pub(crate) fn find_dir(&self, path: &str) -> (r: Option<usize>)
        ensures
            match r {
                Some(i) => i < self.dirs_view().len() && self.dirs_view()[i as int].0 == path@,
                None => !contains_dir(self.dirs_view(), path@),
            },
    {
        let n = self.dirs.len();
        let mut i: usize = 0;
        while i < n
            invariant
                n == self.dirs@.len(),
                i <= n,
                forall|k: int| 0 <= k < i ==> self.dirs_view()[k].0 != path@,
            decreases n - i,
        {
            proof {
                assert(self.dirs_view()[i as int].0 == self.dirs@[i as int].0@);
            }
            if str_eq(self.dirs[i].0.as_str(), path) {
                return Some(i);
            }
            i += 1;
        }
        None
    }

    /// The content stored under position `i`, copied out.
    pub(crate) fn content_at(&self, i: usize) -> (r: Vec<u8>)
        requires
            i < self.files_view().len(),
        ensures
            r@ == self.files_view()[i as int].1,
    {
        vstd::slice::slice_to_vec(self.files[i].1.as_slice())
    }

    /// The modification time stored under position `i`.
    pub(crate) fn mtime_at(&self, i: usize) -> (r: u64)
        requires
            i < self.files_view().len(),
        ensures
            r == self.files_view()[i as int].2,
    {
        self.files[i].2
    }

    /// How many file entries the store holds.
    pub fn file_count(&self) -> (n: usize)
        ensures
            n == self.files_view().len(),
    {
        self.files.len()
    }

    /// How many directory entries the store holds.
    pub fn dir_count(&self) -> (n: usize)
        ensures
            n == self.dirs_view().len(),
    {
        self.dirs.len()
    }

    /// The path, size and modification time of the file entry at
    /// position `i`.
    pub fn file_meta_at(&self, i: usize) -> (r: (&str, u64, u64))
        requires
            i < self.files_view().len(),
        ensures
            r.0@ == self.files_view()[i as int].0,
            r.1 == self.files_view()[i as int].1.len(),
            r.2 == self.files_view()[i as int].2,
    {
        (self.files[i].0.as_str(), self.files[i].1.len() as u64, self.files[i].2)
    }

    /// The path and modification time of the directory entry at
    /// position `j`.
    pub fn dir_meta_at(&self, j: usize) -> (r: (&str, u64))
        requires
            j < self.dirs_view().len(),
        ensures
            r.0@ == self.dirs_view()[j as int].0,
            r.1 == self.dirs_view()[j as int].1,
    {
        (self.dirs[j].0.as_str(), self.dirs[j].1)
    }

    /// Writes `content` under `path` at time `now`, overwriting any entry
    /// already carrying that path.
    pub(crate) fn put_file(&mut self, path: String, content: Vec<u8>, now: u64)
        requires
            old(self).wf(),
        ensures
            final(self).wf(),
            final(self).files_view() == spec_put_file(
                old(self).files_view(),
                path@,
                content@,
                now,
            ),
            final(self).dirs_view() == old(self).dirs_view(),
    {
        let ghost old_view = self.files_view();
        match self.find_file(path.as_str()) {
            Some(i) => {
                proof {
                    lemma_file_index_unique(old_view, path@, i as int);
                }
                self.files.set(i, (path, content, now));
                proof {
                    assert(self.files_view() =~= old_view.update(
                        file_index(old_view, path@),
                        (path@, content@, now),
                    ));
                    assert(self.dirs_view() =~= old(self).dirs_view());
                }
            },
            None => {
                self.files.push((path, content, now));
                proof {
                    assert(self.files_view() =~= old_view.push((path@, content@, now)));
                    assert(self.dirs_view() =~= old(self).dirs_view());
                }
            },
        }
    }
}

impl FileStore {
    /// Records a directory not recorded yet.
    pub(crate) fn add_dir(&mut self, path: String, now: u64)
        requires
            old(self).wf(),
            !contains_dir(old(self).dirs_view(), path@),
        ensures
            final(self).wf(),
            final(self).files_view() == old(self).files_view(),
            final(self).dirs_view() == old(self).dirs_view().push((path@, now)),
    {
        let ghost old_dirs = self.dirs_view();
        self.dirs.push((path, now));
        proof {
            assert(self.files_view() =~= old(self).files_view());
            assert(self.dirs_view() =~= old_dirs.push((path@, now)));
        }
    }
}

/// The file entries that survive deleting the directory `d`: those not
/// strictly under it.
pub open spec fn files_outside(
    v: Seq<(Seq<char>, Seq<u8>, u64)>,
    d: Seq<char>,
) -> Seq<(Seq<char>, Seq<u8>, u64)>
    decreases v.len(),
{
    if v.len() == 0 {
        v
    } else {
        let rest = files_outside(v.drop_first(), d);
        if entry_under(v[0].0, d) {
            rest
        } else {
            seq![v[0]] + rest
        }
    }
}

/// The directory entries that survive deleting the directory `d`: those
/// neither `d` itself nor strictly under it.
pub open spec fn dirs_outside(ds: Seq<(Seq<char>, u64)>, d: Seq<char>) -> Seq<(Seq<char>, u64)>
    decreases ds.len(),
{
    if ds.len() == 0 {
        ds
    } else {
        let rest = dirs_outside(ds.drop_first(), d);
        if ds[0].0 == d || entry_under(ds[0].0, d) {
            rest
        } else {
            seq![ds[0]] + rest
        }
    }
}

/// Every key of `files_outside` is a key of the original.
proof fn lemma_files_outside_sub(v: Seq<(Seq<char>, Seq<u8>, u64)>, d: Seq<char>)
    ensures
        forall|k: Seq<char>|
            contains_file(files_outside(v, d), k) ==> #[trigger] contains_file(v, k),
    decreases v.len(),
{
    if v.len() > 0 {
        lemma_files_outside_sub(v.drop_first(), d);
        assert forall|k: Seq<char>|
            contains_file(files_outside(v, d), k) implies #[trigger] contains_file(v, k) by {
            let res = files_outside(v, d);
            let i = choose|i: int| 0 <= i < res.len() && res[i].0 == k;
            if entry_under(v[0].0, d) {
                assert(contains_file(v.drop_first(), k));
                let j = choose|j: int|
                    0 <= j < v.drop_first().len() && v.drop_first()[j].0 == k;
                assert(v[j + 1].0 == k);
            } else {
                if i == 0 {
                    assert(v[0].0 == k);
                } else {
                    assert(contains_file(v.drop_first(), k));
                    let j = choose|j: int|
                        0 <= j < v.drop_first().len() && v.drop_first()[j].0 == k;
                    assert(v[j + 1].0 == k);
                }
            }
        }
    }
}

/// Deleting a directory keeps file keys unique.
proof fn lemma_files_outside_unique(v: Seq<(Seq<char>, Seq<u8>, u64)>, d: Seq<char>)
    requires
        forall|a: int, b: int| 0 <= a < b < v.len() ==> v[a].0 != v[b].0,
    ensures
        forall|a: int, b: int|
            0 <= a < b < files_outside(v, d).len() ==> files_outside(v, d)[a].0
                != files_outside(v, d)[b].0,
    decreases v.len(),
{
    if v.len() > 0 {
        let t = v.drop_first();
        assert(forall|a: int, b: int| 0 <= a < b < t.len() ==> t[a].0 != t[b].0);
        lemma_files_outside_unique(t, d);
        lemma_files_outside_sub(t, d);
        let res = files_outside(v, d);
        if !entry_under(v[0].0, d) {
            assert forall|a: int, b: int| 0 <= a < b < res.len() implies res[a].0 != res[b].0 by {
                if a == 0 {
                    assert(res[b] == files_outside(t, d)[b - 1]);
                    if res[0].0 == res[b].0 {
                        assert(contains_file(files_outside(t, d), res[0].0));
                        assert(contains_file(t, res[0].0));
                        let j = choose|j: int| 0 <= j < t.len() && t[j].0 == res[0].0;
                        assert(v[j + 1].0 == v[0].0);
                    }
                } else {
                    assert(res[a] == files_outside(t, d)[a - 1]);
                    assert(res[b] == files_outside(t, d)[b - 1]);
                }
            }
        }
    }
}

/// Every key of `dirs_outside` is a key of the original.
proof fn lemma_dirs_outside_sub(ds: Seq<(Seq<char>, u64)>, d: Seq<char>)
    ensures
        forall|k: Seq<char>|
            contains_dir(dirs_outside(ds, d), k) ==> #[trigger] contains_dir(ds, k),
    decreases ds.len(),
{
    if ds.len() > 0 {
        lemma_dirs_outside_sub(ds.drop_first(), d);
        assert forall|k: Seq<char>|
            contains_dir(dirs_outside(ds, d), k) implies #[trigger] contains_dir(ds, k) by {
            let res = dirs_outside(ds, d);
            let i = choose|i: int| 0 <= i < res.len() && res[i].0 == k;
            if ds[0].0 == d || entry_under(ds[0].0, d) || i != 0 {
                if !(ds[0].0 == d || entry_under(ds[0].0, d)) && i == 0 {
                    assert(ds[0].0 == k);
                } else {
                    assert(contains_dir(ds.drop_first(), k));
                    let j = choose|j: int|
                        0 <= j < ds.drop_first().len() && ds.drop_first()[j].0 == k;
                    assert(ds[j + 1].0 == k);
                }
            } else {
                assert(ds[0].0 == k);
            }
        }
    }
}

/// Deleting a directory keeps directory keys unique.
proof fn lemma_dirs_outside_unique(ds: Seq<(Seq<char>, u64)>, d: Seq<char>)
    requires
        forall|a: int, b: int| 0 <= a < b < ds.len() ==> ds[a].0 != ds[b].0,
    ensures
        forall|a: int, b: int|
            0 <= a < b < dirs_outside(ds, d).len() ==> dirs_outside(ds, d)[a].0 != dirs_outside(
                ds,
                d,
            )[b].0,
    decreases ds.len(),
{
    if ds.len() > 0 {
        let t = ds.drop_first();
        assert(forall|a: int, b: int| 0 <= a < b < t.len() ==> t[a].0 != t[b].0);
        lemma_dirs_outside_unique(t, d);
        lemma_dirs_outside_sub(t, d);
        let res = dirs_outside(ds, d);
        if !(ds[0].0 == d || entry_under(ds[0].0, d)) {
            assert forall|a: int, b: int| 0 <= a < b < res.len() implies res[a].0 != res[b].0 by {
                if a == 0 {
                    assert(res[b] == dirs_outside(t, d)[b - 1]);
                    if res[0].0 == res[b].0 {
                        assert(contains_dir(dirs_outside(t, d), res[0].0));
                        assert(contains_dir(t, res[0].0));
                        let j = choose|j: int| 0 <= j < t.len() && t[j].0 == res[0].0;
                        assert(ds[j + 1].0 == ds[0].0);
                    }
                } else {
                    assert(res[a] == dirs_outside(t, d)[a - 1]);
                    assert(res[b] == dirs_outside(t, d)[b - 1]);
                }
            }
        }
    }
}

/// The path of an entry under `src`, relocated under `dst`.
pub open spec fn rename_key(k: Seq<char>, src: Seq<char>, dst: Seq<char>) -> Seq<char> {
    dst + k.skip(src.len() as int)
}

/// The file entries after moving the directory `src` to `dst`: entries
/// under `src` are relocated, the rest stay.
pub open spec fn files_renamed(
    v: Seq<(Seq<char>, Seq<u8>, u64)>,
    src: Seq<char>,
    dst: Seq<char>,
) -> Seq<(Seq<char>, Seq<u8>, u64)>
    decreases v.len(),
{
    if v.len() == 0 {
        v
    } else {
        let rest = files_renamed(v.drop_first(), src, dst);
        if entry_under(v[0].0, src) {
            seq![(rename_key(v[0].0, src, dst), v[0].1, v[0].2)] + rest
        } else {
            seq![v[0]] + rest
        }
    }
}

/// The directory entries after moving the directory `src` to `dst`:
/// `src` itself and entries under it are relocated, the rest stay.
pub open spec fn dirs_renamed(
    ds: Seq<(Seq<char>, u64)>,
    src: Seq<char>,
    dst: Seq<char>,
) -> Seq<(Seq<char>, u64)>
    decreases ds.len(),
{
    if ds.len() == 0 {
        ds
    } else {
        let rest = dirs_renamed(ds.drop_first(), src, dst);
        if ds[0].0 == src {
            seq![(dst, ds[0].1)] + rest
        } else if entry_under(ds[0].0, src) {
            seq![(rename_key(ds[0].0, src, dst), ds[0].1)] + rest
        } else {
            seq![ds[0]] + rest
        }
    }
}

/// An entry under `src` relocates to an entry under `dst`, and the
/// relocation forgets nothing of the old path.
proof fn lemma_rename_key_facts(k: Seq<char>, src: Seq<char>, dst: Seq<char>)
    requires
        entry_under(k, src),
    ensures
        entry_under(rename_key(k, src, dst), dst),
        k =~= src + k.skip(src.len() as int),
{
    let r = rename_key(k, src, dst);
    assert(r.subrange(0, dst.len() as int) =~= dst);
    assert(r[dst.len() as int] == k[src.len() as int]);
}

/// Relocation is injective on paths under `src`.
proof fn lemma_rename_key_injective(k1: Seq<char>, k2: Seq<char>, src: Seq<char>, dst: Seq<char>)
    requires
        entry_under(k1, src),
        entry_under(k2, src),
        rename_key(k1, src, dst) == rename_key(k2, src, dst),
    ensures
        k1 == k2,
{
    lemma_rename_key_facts(k1, src, dst);
    lemma_rename_key_facts(k2, src, dst);
    assert(rename_key(k1, src, dst).skip(dst.len() as int) =~= k1.skip(src.len() as int));
    assert(rename_key(k2, src, dst).skip(dst.len() as int) =~= k2.skip(src.len() as int));
    assert(k1 =~= k2);
}

/// Each key after a move is an untouched original key or the relocation
/// of an original key under `src`.
proof fn lemma_files_renamed_keys(v: Seq<(Seq<char>, Seq<u8>, u64)>, src: Seq<char>, dst: Seq<
    char,
>)
    ensures
        forall|i: int|
            0 <= i < files_renamed(v, src, dst).len() ==> exists|j: int|
                0 <= j < v.len() && ((!entry_under(v[j].0, src) && #[trigger] files_renamed(
                    v,
                    src,
                    dst,
                )[i].0 == v[j].0) || (entry_under(v[j].0, src) && files_renamed(v, src, dst)[i].0
                    == rename_key(v[j].0, src, dst))),
    decreases v.len(),
{
    if v.len() > 0 {
        let t = v.drop_first();
        lemma_files_renamed_keys(t, src, dst);
        let res = files_renamed(v, src, dst);
        assert forall|i: int| 0 <= i < res.len() implies exists|j: int|
            0 <= j < v.len() && ((!entry_under(v[j].0, src) && #[trigger] res[i].0 == v[j].0) || (
            entry_under(v[j].0, src) && res[i].0 == rename_key(v[j].0, src, dst))) by {
            if i == 0 {
                assert(v[0] == v[0]);
                let j = 0int;
                assert(0 <= j < v.len() && ((!entry_under(v[j].0, src) && res[i].0 == v[j].0)
                    || (entry_under(v[j].0, src) && res[i].0 == rename_key(v[j].0, src, dst))));
            } else {
                assert(res[i] == files_renamed(t, src, dst)[i - 1]);
                let j0 = choose|j0: int|
                    0 <= j0 < t.len() && ((!entry_under(t[j0].0, src)
                        && #[trigger] files_renamed(t, src, dst)[i - 1].0 == t[j0].0) || (
                    entry_under(t[j0].0, src) && files_renamed(t, src, dst)[i - 1].0
                        == rename_key(t[j0].0, src, dst)));
                assert(v[j0 + 1] == t[j0]);
                let j = j0 + 1;
                assert(0 <= j < v.len() && ((!entry_under(v[j].0, src) && res[i].0 == v[j].0)
                    || (entry_under(v[j].0, src) && res[i].0 == rename_key(v[j].0, src, dst))));
            }
        }
    }
}

/// Moving a directory keeps file keys unique, provided nothing already
/// lives at or under the destination.
proof fn lemma_files_renamed_unique(v: Seq<(Seq<char>, Seq<u8>, u64)>, src: Seq<char>, dst: Seq<
    char,
>)
    requires
        forall|a: int, b: int| 0 <= a < b < v.len() ==> v[a].0 != v[b].0,
        forall|i: int|
            0 <= i < v.len() ==> #[trigger] v[i].0 != dst && !entry_under(v[i].0, dst),
    ensures
        forall|a: int, b: int|
            0 <= a < b < files_renamed(v, src, dst).len() ==> files_renamed(v, src, dst)[a].0
                != files_renamed(v, src, dst)[b].0,
    decreases v.len(),
{
    if v.len() > 0 {
        let t = v.drop_first();
        assert(forall|a: int, b: int| 0 <= a < b < t.len() ==> t[a].0 != t[b].0);
        assert(forall|i: int|
            0 <= i < t.len() ==> #[trigger] t[i].0 != dst && !entry_under(t[i].0, dst)) by {
            assert(forall|i: int| 0 <= i < t.len() ==> t[i] == v[i + 1]);
        }
        lemma_files_renamed_unique(t, src, dst);
        lemma_files_renamed_keys(t, src, dst);
        let res = files_renamed(v, src, dst);
        let rest = files_renamed(t, src, dst);
        let head_key = res[0].0;
        assert forall|a: int, b: int| 0 <= a < b < res.len() implies res[a].0 != res[b].0 by {
            if a == 0 {
                assert(res[b].0 == rest[b - 1].0);
                let j0 = choose|j0: int|
                    0 <= j0 < t.len() && ((!entry_under(t[j0].0, src) && #[trigger] rest[b
                        - 1].0 == t[j0].0) || (entry_under(t[j0].0, src) && rest[b - 1].0
                        == rename_key(t[j0].0, src, dst)));
                assert(t[j0] == v[j0 + 1]);
                if entry_under(v[0].0, src) {
                    assert(head_key == rename_key(v[0].0, src, dst));
                    lemma_rename_key_facts(v[0].0, src, dst);
                    if entry_under(t[j0].0, src) {
                        if head_key == rest[b - 1].0 {
                            lemma_rename_key_injective(v[0].0, t[j0].0, src, dst);
                        }
                    } else {
                        if head_key == rest[b - 1].0 {
                            assert(entry_under(t[j0].0, dst));
                        }
                    }
                } else {
                    assert(head_key == v[0].0);
                    if entry_under(t[j0].0, src) {
                        if head_key == rest[b - 1].0 {
                            lemma_rename_key_facts(t[j0].0, src, dst);
                            assert(entry_under(v[0].0, dst));
                        }
                    } else {
                        assert(v[0].0 != v[j0 + 1].0);
                    }
                }
            } else {
                assert(res[a].0 == rest[a - 1].0);
                assert(res[b].0 == rest[b - 1].0);
            }
        }
    }
}

/// Each key after a move is an untouched original key, `dst` for `src`,
/// or the relocation of an original key under `src`.
proof fn lemma_dirs_renamed_keys(ds: Seq<(Seq<char>, u64)>, src: Seq<char>, dst: Seq<char>)
    ensures
        forall|i: int|
            0 <= i < dirs_renamed(ds, src, dst).len() ==> exists|j: int|
                0 <= j < ds.len() && ((ds[j].0 == src && #[trigger] dirs_renamed(
                    ds,
                    src,
                    dst,
                )[i].0 == dst) || (ds[j].0 != src && !entry_under(ds[j].0, src) && dirs_renamed(
                    ds,
                    src,
                    dst,
                )[i].0 == ds[j].0) || (ds[j].0 != src && entry_under(ds[j].0, src)
                    && dirs_renamed(ds, src, dst)[i].0 == rename_key(ds[j].0, src, dst))),
    decreases ds.len(),
{
    if ds.len() > 0 {
        let t = ds.drop_first();
        lemma_dirs_renamed_keys(t, src, dst);
        let res = dirs_renamed(ds, src, dst);
        assert forall|i: int| 0 <= i < res.len() implies exists|j: int|
            0 <= j < ds.len() && ((ds[j].0 == src && #[trigger] res[i].0 == dst) || (ds[j].0
                != src && !entry_under(ds[j].0, src) && res[i].0 == ds[j].0) || (ds[j].0 != src
                && entry_under(ds[j].0, src) && res[i].0 == rename_key(ds[j].0, src, dst))) by {
            if i == 0 {
                let j = 0int;
                if ds[0].0 == src {
                    assert(res[0].0 == dst);
                } else if entry_under(ds[0].0, src) {
                    assert(res[0].0 == rename_key(ds[0].0, src, dst));
                } else {
                    assert(res[0].0 == ds[0].0);
                }
                assert(0 <= j < ds.len() && ((ds[j].0 == src && res[i].0 == dst) || (ds[j].0
                    != src && !entry_under(ds[j].0, src) && res[i].0 == ds[j].0) || (ds[j].0
                    != src && entry_under(ds[j].0, src) && res[i].0 == rename_key(
                    ds[j].0,
                    src,
                    dst,
                ))));
            } else {
                assert(res[i] == dirs_renamed(t, src, dst)[i - 1]);
                let j0 = choose|j0: int|
                    0 <= j0 < t.len() && ((t[j0].0 == src && #[trigger] dirs_renamed(
                        t,
                        src,
                        dst,
                    )[i - 1].0 == dst) || (t[j0].0 != src && !entry_under(t[j0].0, src)
                        && dirs_renamed(t, src, dst)[i - 1].0 == t[j0].0) || (t[j0].0 != src
                        && entry_under(t[j0].0, src) && dirs_renamed(t, src, dst)[i - 1].0
                        == rename_key(t[j0].0, src, dst)));
                assert(ds[j0 + 1] == t[j0]);
                let j = j0 + 1;
                assert(0 <= j < ds.len() && ((ds[j].0 == src && res[i].0 == dst) || (ds[j].0
                    != src && !entry_under(ds[j].0, src) && res[i].0 == ds[j].0) || (ds[j].0
                    != src && entry_under(ds[j].0, src) && res[i].0 == rename_key(
                    ds[j].0,
                    src,
                    dst,
                ))));
            }
        }
    }
}

/// Moving a directory keeps directory keys unique, provided nothing
/// already lives at or under the destination.
proof fn lemma_dirs_renamed_unique(ds: Seq<(Seq<char>, u64)>, src: Seq<char>, dst: Seq<char>)
    requires
        forall|a: int, b: int| 0 <= a < b < ds.len() ==> ds[a].0 != ds[b].0,
        forall|i: int|
            0 <= i < ds.len() ==> #[trigger] ds[i].0 != dst && !entry_under(ds[i].0, dst),
        dst.len() > 0,
        !entry_under(dst, dst),
    ensures
        forall|a: int, b: int|
            0 <= a < b < dirs_renamed(ds, src, dst).len() ==> dirs_renamed(ds, src, dst)[a].0
                != dirs_renamed(ds, src, dst)[b].0,
    decreases ds.len(),
{
    if ds.len() > 0 {
        let t = ds.drop_first();
        assert(forall|a: int, b: int| 0 <= a < b < t.len() ==> t[a].0 != t[b].0);
        assert(forall|i: int|
            0 <= i < t.len() ==> #[trigger] t[i].0 != dst && !entry_under(t[i].0, dst)) by {
            assert(forall|i: int| 0 <= i < t.len() ==> t[i] == ds[i + 1]);
        }
        lemma_dirs_renamed_unique(t, src, dst);
        lemma_dirs_renamed_keys(t, src, dst);
        let res = dirs_renamed(ds, src, dst);
        let rest = dirs_renamed(t, src, dst);
        let head_key = res[0].0;
        assert forall|a: int, b: int| 0 <= a < b < res.len() implies res[a].0 != res[b].0 by {
            if a == 0 {
                assert(res[b].0 == rest[b - 1].0);
                let j0 = choose|j0: int|
                    0 <= j0 < t.len() && ((t[j0].0 == src && #[trigger] rest[b - 1].0 == dst)
                        || (t[j0].0 != src && !entry_under(t[j0].0, src) && rest[b - 1].0
                        == t[j0].0) || (t[j0].0 != src && entry_under(t[j0].0, src) && rest[b
                        - 1].0 == rename_key(t[j0].0, src, dst)));
                assert(t[j0] == ds[j0 + 1]);
                if head_key == rest[b - 1].0 {
                    if ds[0].0 == src {
                        assert(head_key == dst);
                        if t[j0].0 == src {
                            assert(ds[0].0 == ds[j0 + 1].0);
                        } else if entry_under(t[j0].0, src) {
                            lemma_rename_key_facts(t[j0].0, src, dst);
                            assert(entry_under(dst, dst));
                        } else {
                            assert(t[j0].0 == dst);
                        }
                    } else if entry_under(ds[0].0, src) {
                        assert(head_key == rename_key(ds[0].0, src, dst));
                        lemma_rename_key_facts(ds[0].0, src, dst);
                        if t[j0].0 == src {
                            assert(entry_under(dst, dst));
                        } else if entry_under(t[j0].0, src) {
                            lemma_rename_key_injective(ds[0].0, t[j0].0, src, dst);
                            assert(ds[0].0 == ds[j0 + 1].0);
                        } else {
                            assert(entry_under(t[j0].0, dst));
                        }
                    } else {
                        assert(head_key == ds[0].0);
                        if t[j0].0 == src {
                            assert(ds[0].0 == dst);
                        } else if entry_under(t[j0].0, src) {
                            lemma_rename_key_facts(t[j0].0, src, dst);
                            assert(entry_under(ds[0].0, dst));
                        } else {
                            assert(ds[0].0 == ds[j0 + 1].0);
                        }
                    }
                }
            } else {
                assert(res[a].0 == rest[a - 1].0);
                assert(res[b].0 == rest[b - 1].0);
            }
        }
    }
}

/// The duplicates that copying the directory `src` to `dst` adds: one
/// relocated entry per file under `src`, carrying the time of the copy.
pub open spec fn copies_of_files(
    v: Seq<(Seq<char>, Seq<u8>, u64)>,
    src: Seq<char>,
    dst: Seq<char>,
    now: u64,
) -> Seq<(Seq<char>, Seq<u8>, u64)>
    decreases v.len(),
{
    if v.len() == 0 {
        v
    } else {
        let rest = copies_of_files(v.drop_first(), src, dst, now);
        if entry_under(v[0].0, src) {
            seq![(rename_key(v[0].0, src, dst), v[0].1, now)] + rest
        } else {
            rest
        }
    }
}

/// The duplicates that copying the directory `src` to `dst` adds among
/// the directories: `dst` for `src` itself, and one relocated entry per
/// directory under `src`.
pub open spec fn copies_of_dirs(
    ds: Seq<(Seq<char>, u64)>,
    src: Seq<char>,
    dst: Seq<char>,
    now: u64,
) -> Seq<(Seq<char>, u64)>
    decreases ds.len(),
{
    if ds.len() == 0 {
        ds
    } else {
        let rest = copies_of_dirs(ds.drop_first(), src, dst, now);
        if ds[0].0 == src {
            seq![(dst, now)] + rest
        } else if entry_under(ds[0].0, src) {
            seq![(rename_key(ds[0].0, src, dst), now)] + rest
        } else {
            rest
        }
    }
}

/// `k` is the relocated form of some original file key under `src`.
pub open spec fn is_file_copy_key(
    v: Seq<(Seq<char>, Seq<u8>, u64)>,
    src: Seq<char>,
    dst: Seq<char>,
    k: Seq<char>,
) -> bool {
    exists|j: int|
        0 <= j < v.len() && #[trigger] entry_under(v[j].0, src) && k == rename_key(
            v[j].0,
            src,
            dst,
        )
}

/// `k` is `dst` standing for `src` itself, or the relocated form of some
/// original directory key under `src`.
pub open spec fn is_dir_copy_key(
    ds: Seq<(Seq<char>, u64)>,
    src: Seq<char>,
    dst: Seq<char>,
    k: Seq<char>,
) -> bool {
    ||| (k == dst && exists|j: int| 0 <= j < ds.len() && (#[trigger] ds[j].0) == src)
    ||| exists|j: int|
        0 <= j < ds.len() && #[trigger] entry_under(ds[j].0, src) && k == rename_key(
            ds[j].0,
            src,
            dst,
        )
}

/// Each key among the file duplicates is the relocation of an original
/// key under `src`.
proof fn lemma_copies_files_keys(
    v: Seq<(Seq<char>, Seq<u8>, u64)>,
    src: Seq<char>,
    dst: Seq<char>,
    now: u64,
)
    ensures
        forall|i: int|
            0 <= i < copies_of_files(v, src, dst, now).len() ==> is_file_copy_key(
                v,
                src,
                dst,
                #[trigger] copies_of_files(v, src, dst, now)[i].0,
            ),
    decreases v.len(),
{
    if v.len() > 0 {
        let t = v.drop_first();
        lemma_copies_files_keys(t, src, dst, now);
        assert forall|i: int|
            0 <= i < copies_of_files(v, src, dst, now).len() implies is_file_copy_key(
            v,
            src,
            dst,
            #[trigger] copies_of_files(v, src, dst, now)[i].0,
        ) by {
            if entry_under(v[0].0, src) && i == 0 {
                assert(entry_under(v[0].0, src) && copies_of_files(v, src, dst, now)[0].0
                    == rename_key(v[0].0, src, dst));
            } else {
                let i0 = if entry_under(v[0].0, src) {
                    i - 1
                } else {
                    i
                };
                assert(copies_of_files(v, src, dst, now)[i].0 == copies_of_files(
                    t,
                    src,
                    dst,
                    now,
                )[i0].0);
                assert(is_file_copy_key(t, src, dst, copies_of_files(t, src, dst, now)[i0].0));
                let j0 = choose|j0: int|
                    0 <= j0 < t.len() && #[trigger] entry_under(t[j0].0, src)
                        && copies_of_files(t, src, dst, now)[i0].0 == rename_key(
                        t[j0].0,
                        src,
                        dst,
                    );
                assert(v[j0 + 1] == t[j0]);
                assert(entry_under(v[j0 + 1].0, src) && copies_of_files(v, src, dst, now)[i].0
                    == rename_key(v[j0 + 1].0, src, dst));
            }
        }
    }
}

/// Copying keeps the duplicate file keys pairwise distinct.
proof fn lemma_copies_files_unique(
    v: Seq<(Seq<char>, Seq<u8>, u64)>,
    src: Seq<char>,
    dst: Seq<char>,
    now: u64,
)
    requires
        forall|a: int, b: int| 0 <= a < b < v.len() ==> v[a].0 != v[b].0,
    ensures
        forall|a: int, b: int|
            0 <= a < b < copies_of_files(v, src, dst, now).len() ==> copies_of_files(
                v,
                src,
                dst,
                now,
            )[a].0 != copies_of_files(v, src, dst, now)[b].0,
    decreases v.len(),
{
    if v.len() > 0 {
        let t = v.drop_first();
        assert(forall|a: int, b: int| 0 <= a < b < t.len() ==> t[a].0 != t[b].0);
        lemma_copies_files_unique(t, src, dst, now);
        lemma_copies_files_keys(t, src, dst, now);
        let res = copies_of_files(v, src, dst, now);
        let rest = copies_of_files(t, src, dst, now);
        if entry_under(v[0].0, src) {
            assert forall|a: int, b: int| 0 <= a < b < res.len() implies res[a].0 != res[b].0 by {
                if a == 0 {
                    assert(res[b].0 == rest[b - 1].0);
                    assert(is_file_copy_key(t, src, dst, rest[b - 1].0));
                    let j0 = choose|j0: int|
                        0 <= j0 < t.len() && #[trigger] entry_under(t[j0].0, src) && rest[b
                            - 1].0 == rename_key(t[j0].0, src, dst);
                    assert(t[j0] == v[j0 + 1]);
                    if res[0].0 == rest[b - 1].0 {
                        lemma_rename_key_injective(v[0].0, t[j0].0, src, dst);
                        assert(v[0].0 == v[j0 + 1].0);
                    }
                } else {
                    assert(res[a].0 == rest[a - 1].0);
                    assert(res[b].0 == rest[b - 1].0);
                }
            }
        }
    }
}

/// Each key among the directory duplicates is `dst` or the relocation of
/// an original key under `src`.
proof fn lemma_copies_dirs_keys(ds: Seq<(Seq<char>, u64)>, src: Seq<char>, dst: Seq<char>, now: u64)
    ensures
        forall|i: int|
            0 <= i < copies_of_dirs(ds, src, dst, now).len() ==> is_dir_copy_key(
                ds,
                src,
                dst,
                #[trigger] copies_of_dirs(ds, src, dst, now)[i].0,
            ),
    decreases ds.len(),
{
    if ds.len() > 0 {
        let t = ds.drop_first();
        lemma_copies_dirs_keys(t, src, dst, now);
        assert forall|i: int|
            0 <= i < copies_of_dirs(ds, src, dst, now).len() implies is_dir_copy_key(
            ds,
            src,
            dst,
            #[trigger] copies_of_dirs(ds, src, dst, now)[i].0,
        ) by {
            let copied = ds[0].0 == src || entry_under(ds[0].0, src);
            if copied && i == 0 {
                if ds[0].0 == src {
                    assert(copies_of_dirs(ds, src, dst, now)[0].0 == dst);
                    assert((ds[0].0) == src);
                } else {
                    assert(entry_under(ds[0].0, src) && copies_of_dirs(ds, src, dst, now)[0].0
                        == rename_key(ds[0].0, src, dst));
                }
            } else {
                let i0 = if copied {
                    i - 1
                } else {
                    i
                };
                assert(copies_of_dirs(ds, src, dst, now)[i].0 == copies_of_dirs(
                    t,
                    src,
                    dst,
                    now,
                )[i0].0);
                assert(is_dir_copy_key(t, src, dst, copies_of_dirs(t, src, dst, now)[i0].0));
                if copies_of_dirs(t, src, dst, now)[i0].0 == dst && exists|j: int|
                    0 <= j < t.len() && (#[trigger] t[j].0) == src {
                    let j0 = choose|j0: int| 0 <= j0 < t.len() && (#[trigger] t[j0].0) == src;
                    assert((ds[j0 + 1].0) == src);
                } else {
                    let j0 = choose|j0: int|
                        0 <= j0 < t.len() && #[trigger] entry_under(t[j0].0, src)
                            && copies_of_dirs(t, src, dst, now)[i0].0 == rename_key(
                            t[j0].0,
                            src,
                            dst,
                        );
                    assert(ds[j0 + 1] == t[j0]);
                    assert(entry_under(ds[j0 + 1].0, src) && copies_of_dirs(
                        ds,
                        src,
                        dst,
                        now,
                    )[i].0 == rename_key(ds[j0 + 1].0, src, dst));
                }
            }
        }
    }
}

/// Copying keeps the duplicate directory keys pairwise distinct.
proof fn lemma_copies_dirs_unique(
    ds: Seq<(Seq<char>, u64)>,
    src: Seq<char>,
    dst: Seq<char>,
    now: u64,
)
    requires
        forall|a: int, b: int| 0 <= a < b < ds.len() ==> ds[a].0 != ds[b].0,
        dst.len() > 0,
    ensures
        forall|a: int, b: int|
            0 <= a < b < copies_of_dirs(ds, src, dst, now).len() ==> copies_of_dirs(
                ds,
                src,
                dst,
                now,
            )[a].0 != copies_of_dirs(ds, src, dst, now)[b].0,
    decreases ds.len(),
{
    if ds.len() > 0 {
        let t = ds.drop_first();
        assert(forall|a: int, b: int| 0 <= a < b < t.len() ==> t[a].0 != t[b].0);
        lemma_copies_dirs_unique(t, src, dst, now);
        lemma_copies_dirs_keys(t, src, dst, now);
        let res = copies_of_dirs(ds, src, dst, now);
        let rest = copies_of_dirs(t, src, dst, now);
        if ds[0].0 == src || entry_under(ds[0].0, src) {
            assert forall|a: int, b: int| 0 <= a < b < res.len() implies res[a].0 != res[b].0 by {
                if a == 0 {
                    assert(res[b].0 == rest[b - 1].0);
                    assert(is_dir_copy_key(t, src, dst, rest[b - 1].0));
                    if res[0].0 == rest[b - 1].0 {
                        if rest[b - 1].0 == dst && exists|j: int|
                            0 <= j < t.len() && (#[trigger] t[j].0) == src {
                            let j0 = choose|j0: int|
                                0 <= j0 < t.len() && (#[trigger] t[j0].0) == src;
                            assert(t[j0] == ds[j0 + 1]);
                            if ds[0].0 == src {
                                assert(ds[0].0 == ds[j0 + 1].0);
                            } else {
                                lemma_rename_key_facts(ds[0].0, src, dst);
                                assert(entry_under(dst, dst));
                            }
                        } else {
                            let j0 = choose|j0: int|
                                0 <= j0 < t.len() && #[trigger] entry_under(t[j0].0, src)
                                    && rest[b - 1].0 == rename_key(t[j0].0, src, dst);
                            assert(t[j0] == ds[j0 + 1]);
                            lemma_rename_key_facts(t[j0].0, src, dst);
                            if ds[0].0 == src {
                                assert(res[0].0 == dst);
                                assert(entry_under(dst, dst));
                            } else {
                                lemma_rename_key_injective(ds[0].0, t[j0].0, src, dst);
                                assert(ds[0].0 == ds[j0 + 1].0);
                            }
                        }
                    }
                } else {
                    assert(res[a].0 == rest[a - 1].0);
                    assert(res[b].0 == rest[b - 1].0);
                }
            }
        }
    }
}

/// Decides `entry_under` on views.
pub(crate) fn is_entry_under(k: &str, d: &str) -> (b: bool)
    ensures
        b == entry_under(k@, d@),
{
    let klen = k.unicode_len();
    let dlen = d.unicode_len();
    if dlen >= klen {
        return false;
    }
    if !crate::strutil::match_at(k, d, 0) {
        return false;
    }
    k.get_char(dlen) == '/'
}

/// Nothing at all lives at `d` or below it.
pub open spec fn tree_free(
    files: Seq<(Seq<char>, Seq<u8>, u64)>,
    dirs: Seq<(Seq<char>, u64)>,
    d: Seq<char>,
) -> bool {
    (forall|i: int|
        0 <= i < files.len() ==> #[trigger] files[i].0 != d && !entry_under(files[i].0, d))
        && (forall|i: int|
        0 <= i < dirs.len() ==> #[trigger] dirs[i].0 != d && !entry_under(dirs[i].0, d))
}

impl FileStore {
    /// Decides `tree_free` for this path.
    pub(crate) fn is_tree_free(&self, d: &str) -> (b: bool)
        ensures
            b == tree_free(self.files_view(), self.dirs_view(), d@),
    {
        let n = self.files.len();
        let mut i: usize = 0;
        while i < n
            invariant
                n == self.files@.len(),
                i <= n,
                forall|k: int|
                    0 <= k < i ==> #[trigger] self.files_view()[k].0 != d@ && !entry_under(
                        self.files_view()[k].0,
                        d@,
                    ),
            decreases n - i,
        {
            proof {
                assert(self.files_view()[i as int].0 == self.files@[i as int].0@);
            }
            if str_eq(self.files[i].0.as_str(), d) || is_entry_under(
                self.files[i].0.as_str(),
                d,
            ) {
                return false;
            }
            i += 1;
        }
        let m = self.dirs.len();
        let mut j: usize = 0;
        while j < m
            invariant
                m == self.dirs@.len(),
                j <= m,
                forall|k: int|
                    0 <= k < self.files_view().len() ==> #[trigger] self.files_view()[k].0 != d@
                        && !entry_under(self.files_view()[k].0, d@),
                forall|k: int|
                    0 <= k < j ==> #[trigger] self.dirs_view()[k].0 != d@ && !entry_under(
                        self.dirs_view()[k].0,
                        d@,
                    ),
            decreases m - j,
        {
            proof {
                assert(self.dirs_view()[j as int].0 == self.dirs@[j as int].0@);
            }
            if str_eq(self.dirs[j].0.as_str(), d) || is_entry_under(self.dirs[j].0.as_str(), d) {
                return false;
            }
            j += 1;
        }
        true
    }

    /// Duplicates the directory at `src` with everything below it under
    /// `dst`, which must be wholly unoccupied; the duplicates carry the
    /// time of the copy.
    pub(crate) fn copy_tree(&mut self, src: &str, dst: &str, now: u64)
        requires
            old(self).wf(),
            tree_free(old(self).files_view(), old(self).dirs_view(), dst@),
            dst@.len() > 0,
        ensures
            final(self).wf(),
            final(self).files_view() == old(self).files_view() + copies_of_files(
                old(self).files_view(),
                src@,
                dst@,
                now,
            ),
            final(self).dirs_view() == old(self).dirs_view() + copies_of_dirs(
                old(self).dirs_view(),
                src@,
                dst@,
                now,
            ),
    {
        let ghost fv = self.files_view();
        let ghost dv = self.dirs_view();
        let n = self.files.len();
        let srclen = src.unicode_len();
        let mut new_files: Vec<(String, Vec<u8>, u64)> = Vec::new();
        let mut i: usize = 0;
        proof {
            assert(fv.skip(0) =~= fv);
        }
        while i < n
            invariant
                n == self.files@.len(),
                i <= n,
                srclen == src@.len(),
                fv == self.files_view(),
                copies_of_files(fv, src@, dst@, now) == new_files@.map_values(
                    |f: (String, Vec<u8>, u64)| (f.0@, f.1@, f.2),
                ) + copies_of_files(fv.skip(i as int), src@, dst@, now),
            decreases n - i,
        {
            let ghost rem = fv.skip(i as int);
            proof {
                assert(rem.drop_first() =~= fv.skip(i + 1));
                assert(rem[0] == fv[i as int]);
                assert(self.files_view()[i as int] == (
                    self.files@[i as int].0@,
                    self.files@[i as int].1@,
                    self.files@[i as int].2,
                ));
            }
            if is_entry_under(self.files[i].0.as_str(), src) {
                let ghost before = new_files@;
                let klen = self.files[i].0.as_str().unicode_len();
                let suffix = self.files[i].0.as_str().substring_char(srclen, klen);
                let new_key = String::from_str(dst).concat(suffix);
                proof {
                    assert(new_key@ =~= rename_key(fv[i as int].0, src@, dst@));
                }
                let entry = (new_key, vstd::slice::slice_to_vec(self.files[i].1.as_slice()), now);
                new_files.push(entry);
                proof {
                    assert(new_files@.map_values(|f: (String, Vec<u8>, u64)| (f.0@, f.1@, f.2))
                        =~= before.map_values(|f: (String, Vec<u8>, u64)| (f.0@, f.1@, f.2))
                        + seq![copies_of_files(rem, src@, dst@, now)[0]]);
                }
            }
            i += 1;
        }
        proof {
            assert(fv.skip(n as int) =~= Seq::<(Seq<char>, Seq<u8>, u64)>::empty());
        }
        self.files.append(&mut new_files);
        let m = self.dirs.len();
        let mut new_dirs: Vec<(String, u64)> = Vec::new();
        let mut j: usize = 0;
        proof {
            assert(dv.skip(0) =~= dv);
        }
        while j < m
            invariant
                m == self.dirs@.len(),
                j <= m,
                srclen == src@.len(),
                dv == self.dirs_view(),
                copies_of_dirs(dv, src@, dst@, now) == new_dirs@.map_values(
                    |e: (String, u64)| (e.0@, e.1),
                ) + copies_of_dirs(dv.skip(j as int), src@, dst@, now),
            decreases m - j,
        {
            let ghost rem = dv.skip(j as int);
            proof {
                assert(rem.drop_first() =~= dv.skip(j + 1));
                assert(rem[0] == dv[j as int]);
                assert(self.dirs_view()[j as int] == (
                    self.dirs@[j as int].0@,
                    self.dirs@[j as int].1,
                ));
            }
            if str_eq(self.dirs[j].0.as_str(), src) {
                let ghost before = new_dirs@;
                new_dirs.push((String::from_str(dst), now));
                proof {
                    assert(new_dirs@.map_values(|e: (String, u64)| (e.0@, e.1)) =~= before
                        .map_values(|e: (String, u64)| (e.0@, e.1)) + seq![
                        copies_of_dirs(rem, src@, dst@, now)[0],
                    ]);
                }
            } else if is_entry_under(self.dirs[j].0.as_str(), src) {
                let ghost before = new_dirs@;
                let klen = self.dirs[j].0.as_str().unicode_len();
                let suffix = self.dirs[j].0.as_str().substring_char(srclen, klen);
                let new_key = String::from_str(dst).concat(suffix);
                proof {
                    assert(new_key@ =~= rename_key(dv[j as int].0, src@, dst@));
                }
                new_dirs.push((new_key, now));
                proof {
                    assert(new_dirs@.map_values(|e: (String, u64)| (e.0@, e.1)) =~= before
                        .map_values(|e: (String, u64)| (e.0@, e.1)) + seq![
                        copies_of_dirs(rem, src@, dst@, now)[0],
                    ]);
                }
            }
            j += 1;
        }
        proof {
            assert(dv.skip(m as int) =~= Seq::<(Seq<char>, u64)>::empty());
        }
        self.dirs.append(&mut new_dirs);
        proof {
            let fcopies = copies_of_files(fv, src@, dst@, now);
            let dcopies = copies_of_dirs(dv, src@, dst@, now);
            assert(self.files_view() =~= fv + fcopies);
            assert(self.dirs_view() =~= dv + dcopies);
            lemma_copies_files_unique(fv, src@, dst@, now);
            lemma_copies_files_keys(fv, src@, dst@, now);
            lemma_copies_dirs_unique(dv, src@, dst@, now);
            lemma_copies_dirs_keys(dv, src@, dst@, now);
            assert forall|a: int, b: int|
                0 <= a < b < self.files_view().len() implies self.files_view()[a].0
                != self.files_view()[b].0 by {
                let w = self.files_view();
                if b < fv.len() {
                    assert(w[a] == fv[a] && w[b] == fv[b]);
                } else if a >= fv.len() {
                    assert(w[a] == fcopies[a - fv.len()] && w[b] == fcopies[b - fv.len()]);
                } else {
                    assert(w[a] == fv[a] && w[b] == fcopies[b - fv.len()]);
                    assert(is_file_copy_key(fv, src@, dst@, fcopies[b - fv.len()].0));
                    let j0 = choose|j0: int|
                        0 <= j0 < fv.len() && #[trigger] entry_under(fv[j0].0, src@)
                            && fcopies[b - fv.len()].0 == rename_key(fv[j0].0, src@, dst@);
                    lemma_rename_key_facts(fv[j0].0, src@, dst@);
                    if w[a].0 == w[b].0 {
                        assert(entry_under(fv[a].0, dst@));
                    }
                }
            }
            assert forall|a: int, b: int|
                0 <= a < b < self.dirs_view().len() implies self.dirs_view()[a].0
                != self.dirs_view()[b].0 by {
                let w = self.dirs_view();
                if b < dv.len() {
                    assert(w[a] == dv[a] && w[b] == dv[b]);
                } else if a >= dv.len() {
                    assert(w[a] == dcopies[a - dv.len()] && w[b] == dcopies[b - dv.len()]);
                } else {
                    assert(w[a] == dv[a] && w[b] == dcopies[b - dv.len()]);
                    assert(is_dir_copy_key(dv, src@, dst@, dcopies[b - dv.len()].0));
                    if w[a].0 == w[b].0 {
                        if dcopies[b - dv.len()].0 == dst@ {
                            assert(dv[a].0 == dst@);
                        } else {
                            let j0 = choose|j0: int|
                                0 <= j0 < dv.len() && #[trigger] entry_under(dv[j0].0, src@)
                                    && dcopies[b - dv.len()].0 == rename_key(
                                    dv[j0].0,
                                    src@,
                                    dst@,
                                );
                            lemma_rename_key_facts(dv[j0].0, src@, dst@);
                            assert(entry_under(dv[a].0, dst@));
                        }
                    }
                }
            }
        }
    }

    /// Moves the directory at `src` with everything below it to `dst`,
    /// which must be wholly unoccupied.
    pub(crate) fn rename_tree(&mut self, src: &str, dst: &str)
        requires
            old(self).wf(),
            tree_free(old(self).files_view(), old(self).dirs_view(), dst@),
            dst@.len() > 0,
        ensures
            final(self).wf(),
            final(self).files_view() == files_renamed(old(self).files_view(), src@, dst@),
            final(self).dirs_view() == dirs_renamed(old(self).dirs_view(), src@, dst@),
    {
        let ghost fv = self.files_view();
        let ghost dv = self.dirs_view();
        let n = self.files.len();
        let srclen = src.unicode_len();
        let mut new_files: Vec<(String, Vec<u8>, u64)> = Vec::new();
        let mut i: usize = 0;
        proof {
            assert(fv.skip(0) =~= fv);
        }
        while i < n
            invariant
                n == self.files@.len(),
                i <= n,
                srclen == src@.len(),
                fv == self.files_view(),
                files_renamed(fv, src@, dst@) == new_files@.map_values(
                    |f: (String, Vec<u8>, u64)| (f.0@, f.1@, f.2),
                ) + files_renamed(fv.skip(i as int), src@, dst@),
            decreases n - i,
        {
            let ghost rem = fv.skip(i as int);
            proof {
                assert(rem.drop_first() =~= fv.skip(i + 1));
                assert(rem[0] == fv[i as int]);
                assert(self.files_view()[i as int] == (
                    self.files@[i as int].0@,
                    self.files@[i as int].1@,
                    self.files@[i as int].2,
                ));
            }
            let ghost before = new_files@;
            let entry = if is_entry_under(self.files[i].0.as_str(), src) {
                let klen = self.files[i].0.as_str().unicode_len();
                let suffix = self.files[i].0.as_str().substring_char(srclen, klen);
                let new_key = String::from_str(dst).concat(suffix);
                proof {
                    assert(new_key@ =~= rename_key(fv[i as int].0, src@, dst@));
                }
                (new_key, vstd::slice::slice_to_vec(self.files[i].1.as_slice()), self.files[i].2)
            } else {
                (
                    self.files[i].0.clone(),
                    vstd::slice::slice_to_vec(self.files[i].1.as_slice()),
                    self.files[i].2,
                )
            };
            new_files.push(entry);
            proof {
                assert(new_files@.map_values(|f: (String, Vec<u8>, u64)| (f.0@, f.1@, f.2))
                    =~= before.map_values(|f: (String, Vec<u8>, u64)| (f.0@, f.1@, f.2)) + seq![
                    files_renamed(rem, src@, dst@)[0],
                ]);
            }
            i += 1;
        }
        proof {
            assert(fv.skip(n as int) =~= Seq::<(Seq<char>, Seq<u8>, u64)>::empty());
        }
        self.files = new_files;
        let m = self.dirs.len();
        let mut new_dirs: Vec<(String, u64)> = Vec::new();
        let mut j: usize = 0;
        proof {
            assert(dv.skip(0) =~= dv);
        }
        while j < m
            invariant
                m == self.dirs@.len(),
                j <= m,
                srclen == src@.len(),
                dv == self.dirs_view(),
                dirs_renamed(dv, src@, dst@) == new_dirs@.map_values(
                    |e: (String, u64)| (e.0@, e.1),
                ) + dirs_renamed(dv.skip(j as int), src@, dst@),
            decreases m - j,
        {
            let ghost rem = dv.skip(j as int);
            proof {
                assert(rem.drop_first() =~= dv.skip(j + 1));
                assert(rem[0] == dv[j as int]);
                assert(self.dirs_view()[j as int] == (
                    self.dirs@[j as int].0@,
                    self.dirs@[j as int].1,
                ));
            }
            let ghost before = new_dirs@;
            let entry = if str_eq(self.dirs[j].0.as_str(), src) {
                (String::from_str(dst), self.dirs[j].1)
            } else if is_entry_under(self.dirs[j].0.as_str(), src) {
                let klen = self.dirs[j].0.as_str().unicode_len();
                let suffix = self.dirs[j].0.as_str().substring_char(srclen, klen);
                let new_key = String::from_str(dst).concat(suffix);
                proof {
                    assert(new_key@ =~= rename_key(dv[j as int].0, src@, dst@));
                }
                (new_key, self.dirs[j].1)
            } else {
                (self.dirs[j].0.clone(), self.dirs[j].1)
            };
            new_dirs.push(entry);
            proof {
                assert(new_dirs@.map_values(|e: (String, u64)| (e.0@, e.1)) =~= before
                    .map_values(|e: (String, u64)| (e.0@, e.1)) + seq![
                    dirs_renamed(rem, src@, dst@)[0],
                ]);
            }
            j += 1;
        }
        proof {
            assert(dv.skip(m as int) =~= Seq::<(Seq<char>, u64)>::empty());
        }
        self.dirs = new_dirs;
        proof {
            lemma_files_renamed_unique(fv, src@, dst@);
            lemma_dirs_renamed_unique(dv, src@, dst@);
        }
    }

    /// Deletes the directory at `d` with everything below it.
    pub(crate) fn remove_tree(&mut self, d: &str)
        requires
            old(self).wf(),
        ensures
            final(self).wf(),
            final(self).files_view() == files_outside(old(self).files_view(), d@),
            final(self).dirs_view() == dirs_outside(old(self).dirs_view(), d@),
    {
        let ghost fv = self.files_view();
        let ghost dv = self.dirs_view();
        let n = self.files.len();
        let mut new_files: Vec<(String, Vec<u8>, u64)> = Vec::new();
        let mut i: usize = 0;
        proof {
            assert(fv.skip(0) =~= fv);
        }
        while i < n
            invariant
                n == self.files@.len(),
                i <= n,
                fv == self.files_view(),
                files_outside(fv, d@) == new_files@.map_values(
                    |f: (String, Vec<u8>, u64)| (f.0@, f.1@, f.2),
                ) + files_outside(fv.skip(i as int), d@),
            decreases n - i,
        {
            let ghost rem = fv.skip(i as int);
            proof {
                assert(rem.drop_first() =~= fv.skip(i + 1));
                assert(rem[0] == fv[i as int]);
                assert(self.files_view()[i as int] == (
                    self.files@[i as int].0@,
                    self.files@[i as int].1@,
                    self.files@[i as int].2,
                ));
            }
            if !is_entry_under(self.files[i].0.as_str(), d) {
                let ghost before = new_files@;
                let entry = (
                    self.files[i].0.clone(),
                    vstd::slice::slice_to_vec(self.files[i].1.as_slice()),
                    self.files[i].2,
                );
                new_files.push(entry);
                proof {
                    assert(new_files@.map_values(|f: (String, Vec<u8>, u64)| (f.0@, f.1@, f.2))
                        =~= before.map_values(|f: (String, Vec<u8>, u64)| (f.0@, f.1@, f.2))
                        + seq![fv[i as int]]);
                }
            }
            i += 1;
        }
        proof {
            assert(fv.skip(n as int) =~= Seq::<(Seq<char>, Seq<u8>, u64)>::empty());
        }
        self.files = new_files;
        let m = self.dirs.len();
        let mut new_dirs: Vec<(String, u64)> = Vec::new();
        let mut j: usize = 0;
        proof {
            assert(dv.skip(0) =~= dv);
        }
        while j < m
            invariant
                m == self.dirs@.len(),
                j <= m,
                dv == self.dirs_view(),
                dirs_outside(dv, d@) == new_dirs@.map_values(|e: (String, u64)| (e.0@, e.1))
                    + dirs_outside(dv.skip(j as int), d@),
            decreases m - j,
        {
            let ghost rem = dv.skip(j as int);
            proof {
                assert(rem.drop_first() =~= dv.skip(j + 1));
                assert(rem[0] == dv[j as int]);
                assert(self.dirs_view()[j as int] == (
                    self.dirs@[j as int].0@,
                    self.dirs@[j as int].1,
                ));
            }
            let same = str_eq(self.dirs[j].0.as_str(), d);
            let under = is_entry_under(self.dirs[j].0.as_str(), d);
            if !(same || under) {
                let ghost before = new_dirs@;
                let entry = (self.dirs[j].0.clone(), self.dirs[j].1);
                new_dirs.push(entry);
                proof {
                    assert(new_dirs@.map_values(|e: (String, u64)| (e.0@, e.1)) =~= before
                        .map_values(|e: (String, u64)| (e.0@, e.1)) + seq![dv[j as int]]);
                }
            }
            j += 1;
        }
        proof {
            assert(dv.skip(m as int) =~= Seq::<(Seq<char>, u64)>::empty());
        }
        self.dirs = new_dirs;
        proof {
            lemma_files_outside_unique(fv, d@);
            lemma_dirs_outside_unique(dv, d@);
        }
    }

    /// Deletes the single file at position `i`.
    pub(crate) fn remove_file_at(&mut self, i: usize)
        requires
            old(self).wf(),
            i < old(self).files_view().len(),
        ensures
            final(self).wf(),
            final(self).files_view() == old(self).files_view().remove(i as int),
            final(self).dirs_view() == old(self).dirs_view(),
    {
        let ghost fv = self.files_view();
        self.files.remove(i);
        proof {
            assert(self.files_view() =~= fv.remove(i as int));
            assert(self.dirs_view() =~= old(self).dirs_view());
            assert forall|a: int, b: int|
                0 <= a < b < self.files_view().len() implies self.files_view()[a].0
                != self.files_view()[b].0 by {
                let a0 = if a < i { a } else { a + 1 };
                let b0 = if b < i { b } else { b + 1 };
                assert(self.files_view()[a] == fv[a0]);
                assert(self.files_view()[b] == fv[b0]);
            }
        }
    }
}

/// Removing an entry keeps file keys unique.
proof fn lemma_remove_keeps_unique(v: Seq<(Seq<char>, Seq<u8>, u64)>, i: int)
    requires
        forall|a: int, b: int| 0 <= a < b < v.len() ==> v[a].0 != v[b].0,
        0 <= i < v.len(),
    ensures
        forall|a: int, b: int|
            0 <= a < b < v.remove(i).len() ==> v.remove(i)[a].0 != v.remove(i)[b].0,
{
    let w = v.remove(i);
    assert forall|a: int, b: int| 0 <= a < b < w.len() implies w[a].0 != w[b].0 by {
        let a0 = if a < i {
            a
        } else {
            a + 1
        };
        let b0 = if b < i {
            b
        } else {
            b + 1
        };
        assert(w[a] == v[a0]);
        assert(w[b] == v[b0]);
    }
}

/// After a file moves from `src` to `dst`, the destination holds exactly
/// the moved content and nothing is left at the source.
pub proof fn lemma_move_file_effect(
    v: Seq<(Seq<char>, Seq<u8>, u64)>,
    src: Seq<char>,
    dst: Seq<char>,
)
    requires
        forall|a: int, b: int| 0 <= a < b < v.len() ==> v[a].0 != v[b].0,
        contains_file(v, src),
        src != dst,
    ensures
        ({
            let v2 = spec_put_file(
                v.remove(file_index(v, src)),
                dst,
                content_of(v, src),
                mtime_of(v, src),
            );
            &&& contains_file(v2, dst)
            &&& content_of(v2, dst) == content_of(v, src)
            &&& !contains_file(v2, src)
        }),
{
    let i = file_index(v, src);
    assert(0 <= i < v.len() && v[i].0 == src);
    let v1 = v.remove(i);
    lemma_remove_keeps_unique(v, i);
    assert(!contains_file(v1, src)) by {
        if contains_file(v1, src) {
            let a = choose|a: int| 0 <= a < v1.len() && v1[a].0 == src;
            let a0 = if a < i {
                a
            } else {
                a + 1
            };
            assert(v1[a] == v[a0]);
            assert(a0 != i);
            if a0 < i {
                assert(v[a0].0 != v[i].0);
            } else {
                assert(v[i].0 != v[a0].0);
            }
        }
    }
    let c = content_of(v, src);
    let t = mtime_of(v, src);
    let v2 = spec_put_file(v1, dst, c, t);
    if contains_file(v1, dst) {
        let j = file_index(v1, dst);
        assert(0 <= j < v1.len() && v1[j].0 == dst);
        assert(v2 == v1.update(j, (dst, c, t)));
        assert(v2[j].0 == dst);
        assert(contains_file(v2, dst));
        assert forall|a: int, b: int| 0 <= a < b < v2.len() implies v2[a].0 != v2[b].0 by {
            assert(v2[a] == if a == j {
                (dst, c, t)
            } else {
                v1[a]
            });
            assert(v2[b] == if b == j {
                (dst, c, t)
            } else {
                v1[b]
            });
        }
        lemma_file_index_unique(v2, dst, j);
        assert(!contains_file(v2, src)) by {
            if contains_file(v2, src) {
                let a = choose|a: int| 0 <= a < v2.len() && v2[a].0 == src;
                assert(a != j);
                assert(v2[a] == v1[a]);
            }
        }
    } else {
        assert(v2 == v1.push((dst, c, t)));
        assert(v2[v1.len() as int].0 == dst);
        assert(contains_file(v2, dst));
        assert forall|a: int, b: int| 0 <= a < b < v2.len() implies v2[a].0 != v2[b].0 by {
            if b < v1.len() {
                assert(v2[a] == v1[a]);
                assert(v2[b] == v1[b]);
            } else {
                assert(v2[b] == (dst, c, t));
                assert(v2[a] == v1[a]);
                assert(!contains_file(v1, dst));
            }
        }
        lemma_file_index_unique(v2, dst, v1.len() as int);
        assert(!contains_file(v2, src)) by {
            if contains_file(v2, src) {
                let a = choose|a: int| 0 <= a < v2.len() && v2[a].0 == src;
                assert(a != v1.len());
                assert(v2[a] == v1[a]);
            }
        }
    }
}

/// The file entry carrying `k` is the one at position `i`.
pub proof fn lemma_file_index_unique(v: Seq<(Seq<char>, Seq<u8>, u64)>, k: Seq<char>, i: int)
    requires
        forall|a: int, b: int| 0 <= a < b < v.len() ==> v[a].0 != v[b].0,
        0 <= i < v.len(),
        v[i].0 == k,
    ensures
        contains_file(v, k),
        file_index(v, k) == i,
{
    assert(contains_file(v, k));
    let j = file_index(v, k);
    if j < i {
        assert(v[j].0 != v[i].0);
    } else if i < j {
        assert(v[i].0 != v[j].0);
    }
}

} // verus!
