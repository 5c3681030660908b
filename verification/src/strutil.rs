//! Verified utilities over strings, viewed as sequences of characters.
//!
//! Everything here is stated against `Seq<char>` views: substring search,
//! first and last occurrence of a character, whitespace trimming, splitting
//! on a separator, and decimal rendering of integers.

use vstd::prelude::*;

verus! {

/// `p` occurs in `s` starting at position `i`.
pub open spec fn matches_at(s: Seq<char>, p: Seq<char>, i: int) -> bool {
    0 <= i && i + p.len() <= s.len() && s.subrange(i, i + p.len() as int) == p
}

/// `p` occurs somewhere in `s`.
pub open spec fn contains_seq(s: Seq<char>, p: Seq<char>) -> bool {
    exists|i: int| matches_at(s, p, i)
}

/// Compares `p` against `s` at position `i`.
pub fn match_at(s: &str, p: &str, i: usize) -> (b: bool)
    requires
        i + p@.len() <= s@.len(),
    ensures
        b == matches_at(s@, p@, i as int),
{
    let n = p.unicode_len();
    let slen = s.unicode_len();
    let mut j: usize = 0;
    while j < n
        invariant
            n == p@.len(),
            slen == s@.len(),
            i + n <= slen,
            j <= n,
            forall|k: int| 0 <= k < j ==> s@[i + k] == p@[k],
        decreases n - j,
    {
        if s.get_char(i + j) != p.get_char(j) {
            assert(s@.subrange(i as int, i + p@.len() as int)[j as int] == s@[i + j]);
            return false;
        }
        j += 1;
    }
    assert(s@.subrange(i as int, i + p@.len() as int) =~= p@);
    true
}

/// Finds the first occurrence of `p` in `s`.
pub fn find_substr(s: &str, p: &str) -> (r: Option<usize>)
    ensures
        match r {
            Some(i) => matches_at(s@, p@, i as int) && forall|k: int|
                0 <= k < i ==> !matches_at(s@, p@, k),
            None => !contains_seq(s@, p@),
        },
{
    let slen = s.unicode_len();
    let plen = p.unicode_len();
    if plen > slen {
        return None;
    }
    if plen == 0 {
        assert(s@.subrange(0, 0) =~= p@);
        return Some(0);
    }
    let mut i: usize = 0;
    while i <= slen - plen
        invariant
            slen == s@.len(),
            plen == p@.len(),
            0 < plen <= slen,
            i <= slen - plen + 1,
            forall|k: int| 0 <= k < i ==> !matches_at(s@, p@, k),
        decreases slen - plen - i + 1,
    {
        if match_at(s, p, i) {
            return Some(i);
        }
        i += 1;
    }
    None
}

/// The position of the first occurrence of `p` in `s`, if any.
pub open spec fn first_match_index(s: Seq<char>, p: Seq<char>) -> Option<int>
    decreases s.len(),
{
    if matches_at(s, p, 0) {
        Some(0)
    } else if s.len() == 0 {
        None
    } else {
        match first_match_index(s.drop_first(), p) {
            Some(i) => Some(i + 1),
            None => None,
        }
    }
}

/// Occurrences shift by one position under dropping the first character.
pub proof fn lemma_matches_shift(s: Seq<char>, p: Seq<char>, k: int)
    requires
        s.len() > 0,
        k >= 0,
    ensures
        matches_at(s, p, k + 1) == matches_at(s.drop_first(), p, k),
{
    if k + 1 + p.len() <= s.len() {
        assert(s.subrange(k + 1, k + 1 + p.len() as int) =~= s.drop_first().subrange(
            k,
            k + p.len() as int,
        ));
    }
}

/// A first occurrence in the sense of `find_substr` is what
/// `first_match_index` returns.
pub proof fn lemma_first_match_index_some(s: Seq<char>, p: Seq<char>, i: int)
    requires
        matches_at(s, p, i),
        forall|k: int| 0 <= k < i ==> !matches_at(s, p, k),
    ensures
        first_match_index(s, p) == Some(i),
    decreases s.len(),
{
    if i == 0 {
    } else {
        assert(!matches_at(s, p, 0));
        assert(s.len() > 0);
        let t = s.drop_first();
        lemma_matches_shift(s, p, i - 1);
        assert(matches_at(t, p, i - 1));
        assert forall|k: int| 0 <= k < i - 1 implies !matches_at(t, p, k) by {
            lemma_matches_shift(s, p, k);
        }
        lemma_first_match_index_some(t, p, i - 1);
    }
}

/// Where `p` does not occur at all, `first_match_index` returns `None`.
pub proof fn lemma_first_match_index_none(s: Seq<char>, p: Seq<char>)
    requires
        !contains_seq(s, p),
    ensures
        first_match_index(s, p) is None,
    decreases s.len(),
{
    assert(!matches_at(s, p, 0));
    if s.len() > 0 {
        let t = s.drop_first();
        assert forall|k: int| !matches_at(t, p, k) by {
            if k >= 0 {
                lemma_matches_shift(s, p, k);
                assert(!matches_at(s, p, k + 1));
            }
        }
        lemma_first_match_index_none(t, p);
    }
}

/// Whether `p` occurs in `s`, matching `contains_seq` on the views.
pub fn contains_substr(s: &str, p: &str) -> (b: bool)
    ensures
        b == contains_seq(s@, p@),
{
    match find_substr(s, p) {
        Some(_) => true,
        None => false,
    }
}

/// Finds the position of the first occurrence of `c` in `s`.
pub fn find_char(s: &str, c: char) -> (r: Option<usize>)
    ensures
        match r {
            Some(i) => i < s@.len() && s@[i as int] == c && forall|k: int|
                0 <= k < i ==> s@[k] != c,
            None => forall|k: int| 0 <= k < s@.len() ==> s@[k] != c,
        },
{
    let n = s.unicode_len();
    let mut i: usize = 0;
    while i < n
        invariant
            n == s@.len(),
            i <= n,
            forall|k: int| 0 <= k < i ==> s@[k] != c,
        decreases n - i,
    {
        if s.get_char(i) == c {
            return Some(i);
        }
        i += 1;
    }
    None
}

/// Whether `c` occurs in `s`.
pub fn contains_char(s: &str, c: char) -> (b: bool)
    ensures
        b == s@.contains(c),
{
    match find_char(s, c) {
        Some(i) => {
            assert(s@.contains(c));
            true
        },
        None => {
            assert(forall|k: int| 0 <= k < s@.len() ==> s@[k] != c);
            assert(!s@.contains(c));
            false
        },
    }
}

/// Finds the position of the last occurrence of `c` in `s`.
pub fn rfind_char(s: &str, c: char) -> (r: Option<usize>)
    ensures
        match r {
            Some(i) => i < s@.len() && s@[i as int] == c && forall|k: int|
                i < k < s@.len() ==> s@[k] != c,
            None => forall|k: int| 0 <= k < s@.len() ==> s@[k] != c,
        },
{
    let n = s.unicode_len();
    let mut i: usize = n;
    while i > 0
        invariant
            n == s@.len(),
            i <= n,
            forall|k: int| i <= k < n ==> s@[k] != c,
        decreases i,
    {
        i -= 1;
        if s.get_char(i) == c {
            return Some(i);
        }
    }
    None
}

/// Character-for-character equality of two strings.
pub fn str_eq(a: &str, b: &str) -> (r: bool)
    ensures
        r == (a@ == b@),
{
    let alen = a.unicode_len();
    let blen = b.unicode_len();
    if alen != blen {
        return false;
    }
    let mut i: usize = 0;
    while i < alen
        invariant
            alen == a@.len(),
            alen == b@.len(),
            i <= alen,
            forall|k: int| 0 <= k < i ==> a@[k] == b@[k],
        decreases alen - i,
    {
        if a.get_char(i) != b.get_char(i) {
            return false;
        }
        i += 1;
    }
    proof {
        assert(a@ =~= b@);
    }
    true
}

/// The whitespace characters that trimming removes.
pub open spec fn is_space(c: char) -> bool {
    c == ' ' || c == '\t' || c == '\r' || c == '\n'
}

/// `s` with leading and trailing whitespace removed.
pub open spec fn trim_spec(s: Seq<char>) -> Seq<char>
    decreases s.len(),
{
    if s.len() > 0 && is_space(s[0]) {
        trim_spec(s.drop_first())
    } else if s.len() > 0 && is_space(s.last()) {
        trim_spec(s.drop_last())
    } else {
        s
    }
}

/// A subrange whose complement is all whitespace, and whose own ends are
/// not, is exactly the trimmed sequence.
proof fn lemma_trim_subrange(s: Seq<char>, a: int, b: int)
    requires
        0 <= a <= b <= s.len(),
        forall|k: int| 0 <= k < a ==> is_space(s[k]),
        forall|k: int| b <= k < s.len() ==> is_space(s[k]),
        a == b || (!is_space(s[a]) && !is_space(s[b - 1])),
    ensures
        trim_spec(s) == s.subrange(a, b),
    decreases s.len(),
{
    if a > 0 {
        let t = s.drop_first();
        assert(forall|k: int| 0 <= k < a - 1 ==> is_space(t[k]));
        assert(forall|k: int| b - 1 <= k < t.len() ==> is_space(t[k]));
        lemma_trim_subrange(t, a - 1, b - 1);
        assert(t.subrange(a - 1, b - 1) =~= s.subrange(a, b));
    } else if b < s.len() {
        assert(is_space(s.last()));
        if s.len() > 0 && is_space(s[0]) {
            assert(a == b);
            let t = s.drop_first();
            assert(forall|k: int| 0 <= k < t.len() ==> is_space(t[k]));
            lemma_trim_subrange(t, 0, 0);
            assert(t.subrange(0, 0) =~= s.subrange(a, b));
        } else {
            let t = s.drop_last();
            assert(forall|k: int| b <= k < t.len() ==> is_space(t[k]));
            lemma_trim_subrange(t, a, b);
            assert(t.subrange(a, b) =~= s.subrange(a, b));
        }
    } else {
        assert(s.subrange(0, s.len() as int) =~= s);
    }
}

/// Trimming cannot lose an occurrence of a pattern free of whitespace.
pub proof fn lemma_trim_preserves_contains(s: Seq<char>, p: Seq<char>)
    requires
        contains_seq(s, p),
        p.len() > 0,
        forall|k: int| 0 <= k < p.len() ==> !is_space(p[k]),
    ensures
        contains_seq(trim_spec(s), p),
    decreases s.len(),
{
    let i = choose|i: int| matches_at(s, p, i);
    assert(s.subrange(i, i + p.len() as int)[0] == s[i]);
    assert(p[0] == s[i]);
    if s.len() > 0 && is_space(s[0]) {
        assert(i != 0);
        lemma_matches_shift(s, p, i - 1);
        assert(matches_at(s.drop_first(), p, i - 1));
        lemma_trim_preserves_contains(s.drop_first(), p);
    } else if s.len() > 0 && is_space(s.last()) {
        assert(s.subrange(i, i + p.len() as int)[p.len() - 1] == s[i + p.len() - 1]);
        assert(p[p.len() - 1] == s[i + p.len() - 1]);
        assert(i + p.len() < s.len());
        assert(s.drop_last().subrange(i, i + p.len() as int) =~= s.subrange(
            i,
            i + p.len() as int,
        ));
        assert(matches_at(s.drop_last(), p, i));
        lemma_trim_preserves_contains(s.drop_last(), p);
    } else {
    }
}

/// Whether `c` is one of the whitespace characters that trimming removes.
pub fn is_space_char(c: char) -> (b: bool)
    ensures
        b == is_space(c),
{
    c == ' ' || c == '\t' || c == '\r' || c == '\n'
}

/// Removes leading and trailing whitespace.
pub fn trim_str<'a>(s: &'a str) -> (r: &'a str)
    ensures
        r@ == trim_spec(s@),
{
    let n = s.unicode_len();
    let mut a: usize = 0;
    while a < n && is_space_char(s.get_char(a))
        invariant
            n == s@.len(),
            a <= n,
            forall|k: int| 0 <= k < a ==> is_space(s@[k]),
        decreases n - a,
    {
        a += 1;
    }
    let mut b: usize = n;
    while b > a && is_space_char(s.get_char(b - 1))
        invariant
            n == s@.len(),
            a <= b <= n,
            forall|k: int| 0 <= k < a ==> is_space(s@[k]),
            forall|k: int| b <= k < n ==> is_space(s@[k]),
        decreases b,
    {
        b -= 1;
    }
    proof {
        lemma_trim_subrange(s@, a as int, b as int);
    }
    s.substring_char(a, b)
}

/// `s` divided at every occurrence of `c`; the separators themselves are
/// dropped, and `n + 1` segments come out of `n` separators.
pub open spec fn split_spec(s: Seq<char>, c: char) -> Seq<Seq<char>>
    decreases s.len(),
{
    if s.len() == 0 {
        seq![Seq::<char>::empty()]
    } else if s[0] == c {
        seq![Seq::<char>::empty()] + split_spec(s.drop_first(), c)
    } else {
        let rest = split_spec(s.drop_first(), c);
        seq![seq![s[0]] + rest[0]] + rest.drop_first()
    }
}

/// Splitting always produces at least one segment.
pub proof fn lemma_split_nonempty(s: Seq<char>, c: char)
    ensures
        split_spec(s, c).len() >= 1,
    decreases s.len(),
{
    if s.len() > 0 {
        lemma_split_nonempty(s.drop_first(), c);
    }
}

/// Divides `s` at every occurrence of `c`.
pub fn split_str(s: &str, c: char) -> (r: Vec<String>)
    ensures
        r@.map_values(|t: String| t@) == split_spec(s@, c),
{
    let n = s.unicode_len();
    let mut parts: Vec<String> = Vec::new();
    let mut cur: String = String::new();
    let mut i: usize = 0;
    proof {
        assert(s@.subrange(0, n as int) =~= s@);
        lemma_split_nonempty(s@, c);
        assert(split_spec(s@, c) =~~= parts@.map_values(|t: String| t@) + prepend_first(
            cur@,
            split_spec(s@.subrange(0, n as int), c),
        ));
    }
    while i < n
        invariant
            n == s@.len(),
            i <= n,
            split_spec(s@, c) == parts@.map_values(|t: String| t@) + prepend_first(
                cur@,
                split_spec(s@.subrange(i as int, n as int), c),
            ),
        decreases n - i,
    {
        let ghost rem = s@.subrange(i as int, n as int);
        let ghost rem2 = s@.subrange(i + 1, n as int);
        let ghost old_parts = parts@;
        let ghost old_cur = cur@;
        proof {
            assert(rem.drop_first() =~= rem2);
            lemma_split_nonempty(rem2, c);
        }
        let ch = s.get_char(i);
        if ch == c {
            parts.push(cur);
            cur = String::new();
            proof {
                assert(split_spec(rem, c) == seq![Seq::<char>::empty()] + split_spec(rem2, c));
                assert(parts@.map_values(|t: String| t@) =~~= old_parts.map_values(
                    |t: String| t@,
                ) + seq![old_cur]);
                assert(prepend_first(old_cur, split_spec(rem, c)) =~~= seq![old_cur]
                    + prepend_first(Seq::<char>::empty(), split_spec(rem2, c)));
                assert(split_spec(s@, c) =~~= parts@.map_values(|t: String| t@)
                    + prepend_first(cur@, split_spec(rem2, c)));
            }
        } else {
            let piece: String = char_to_string(ch);
            cur = cur.concat(piece.as_str());
            proof {
                let rest = split_spec(rem2, c);
                assert(split_spec(rem, c) == seq![seq![rem[0]] + rest[0]] + rest.drop_first());
                assert(rem[0] == s@[i as int]);
                assert(prepend_first(old_cur, split_spec(rem, c)) =~~= prepend_first(
                    cur@,
                    rest,
                ));
                assert(split_spec(s@, c) =~~= parts@.map_values(|t: String| t@)
                    + prepend_first(cur@, rest));
            }
        }
        i += 1;
    }
    let ghost old_parts = parts@;
    let ghost old_cur = cur@;
    parts.push(cur);
    proof {
        assert(s@.subrange(n as int, n as int) =~= Seq::<char>::empty());
        assert(split_spec(Seq::<char>::empty(), c) == seq![Seq::<char>::empty()]);
        assert(prepend_first(old_cur, seq![Seq::<char>::empty()]) =~~= seq![old_cur]);
        assert(parts@.map_values(|t: String| t@) =~~= old_parts.map_values(|t: String| t@)
            + seq![old_cur]);
        assert(parts@.map_values(|t: String| t@) =~~= split_spec(s@, c));
    }
    parts
}

/// The first segment of `ss` with `p` glued to its front.
pub open spec fn prepend_first(p: Seq<char>, ss: Seq<Seq<char>>) -> Seq<Seq<char>> {
    seq![p + ss[0]] + ss.drop_first()
}

/// The character for one decimal digit.
pub open spec fn digit_char(d: int) -> char {
    if d == 0 {
        '0'
    } else if d == 1 {
        '1'
    } else if d == 2 {
        '2'
    } else if d == 3 {
        '3'
    } else if d == 4 {
        '4'
    } else if d == 5 {
        '5'
    } else if d == 6 {
        '6'
    } else if d == 7 {
        '7'
    } else if d == 8 {
        '8'
    } else {
        '9'
    }
}

/// The decimal rendering of a nonnegative integer, most significant digit
/// first and without leading zeros.
pub open spec fn decimal_spec(n: int) -> Seq<char>
    decreases n,
{
    if n < 10 {
        seq![digit_char(n)]
    } else {
        decimal_spec(n / 10) + seq![digit_char(n % 10)]
    }
}

/// Renders `n` in decimal.
pub fn u32_to_string(n: u32) -> (r: String)
    ensures
        r@ == decimal_spec(n as int),
    decreases n,
{
    let d = n % 10;
    let q = n / 10;
    let ds = char_to_string(digit_char_exec(d));
    if q == 0 {
        ds
    } else {
        let prefix = u32_to_string(q);
        prefix.concat(ds.as_str())
    }
}

/// The character for one decimal digit.
pub fn digit_char_exec(d: u32) -> (c: char)
    requires
        d < 10,
    ensures
        c == digit_char(d as int),
{
    match d {
        0 => '0',
        1 => '1',
        2 => '2',
        3 => '3',
        4 => '4',
        5 => '5',
        6 => '6',
        7 => '7',
        8 => '8',
        _ => '9',
    }
}

/// A one-character string.
pub fn char_to_string(c: char) -> (r: String)
    ensures
        r@ == seq![c],
{
    let mut buf: String = String::new();
    append_char(&mut buf, c);
    buf
}

/// Relies on `String::push`: appends one character to the string.
#[verifier::external_body]
fn append_char(s: &mut String, c: char)
    ensures
        final(s)@ == old(s)@ + seq![c],
{
    s.push(c);
}

} // verus!
