//! Character-exact string and relative-path arithmetic: prefix and suffix
//! tests, joining, and the extension rewrite applied to slug-derived paths.

use vstd::prelude::*;

verus! {

/// Position of the last occurrence of `c` in `s`, or `-1`.
pub open spec fn last_pos(s: Seq<char>, c: char) -> int
    decreases s.len(),
{
    if s.len() == 0 {
        -1
    } else if s[s.len() - 1] == c {
        s.len() - 1
    } else {
        last_pos(s.drop_last(), c)
    }
}

/// Characters at and after `j` do not hold `c`, so the scan stops before `j`.
proof fn lemma_last_pos_skip_tail(s: Seq<char>, c: char, j: int)
    requires
        0 <= j <= s.len(),
        forall|k: int| j <= k < s.len() ==> s[k] != c,
    ensures
        last_pos(s, c) == last_pos(s.subrange(0, j), c),
    decreases s.len() - j,
{
    if j < s.len() {
        assert(s.drop_last() =~= s.subrange(0, s.len() - 1));
        lemma_last_pos_skip_tail(s.subrange(0, s.len() - 1), c, j);
        assert(s.subrange(0, s.len() - 1).subrange(0, j) =~= s.subrange(0, j));
    } else {
        assert(s.subrange(0, j) =~= s);
    }
}

/// Exact equality of two strings.
pub fn str_eq(a: &str, b: &str) -> (r: bool)
    ensures
        r == (a@ == b@),
{
    let n = a.unicode_len();
    let m = b.unicode_len();
    if n != m {
        return false;
    }
    let mut i: usize = 0;
    while i < n
        invariant
            n == a@.len(),
            n == b@.len(),
            i <= n,
            forall|j: int| 0 <= j < i ==> a@[j] == b@[j],
        decreases n - i,
    {
        if a.get_char(i) != b.get_char(i) {
            return false;
        }
        i = i + 1;
    }
    proof {
        assert(a@ =~= b@);
    }
    true
}

/// Whether `prefix` is a prefix of `s`.
pub open spec fn spec_starts_with(s: Seq<char>, prefix: Seq<char>) -> bool {
    s.len() >= prefix.len() && s.subrange(0, prefix.len() as int) == prefix
}

pub fn str_starts_with(s: &str, prefix: &str) -> (r: bool)
    ensures
        r == spec_starts_with(s@, prefix@),
{
    let n = s.unicode_len();
    let m = prefix.unicode_len();
    if n < m {
        return false;
    }
    let mut i: usize = 0;
    while i < m
        invariant
            n == s@.len(),
            m == prefix@.len(),
            m <= n,
            i <= m,
            forall|j: int| 0 <= j < i ==> s@[j] == prefix@[j],
        decreases m - i,
    {
        if s.get_char(i) != prefix.get_char(i) {
            proof {
                assert(s@[i as int] != prefix@[i as int]);
            }
            return false;
        }
        i = i + 1;
    }
    proof {
        assert(s@.subrange(0, m as int) =~= prefix@);
    }
    true
}

/// Whether `suffix` is a suffix of `s`.
pub open spec fn spec_ends_with(s: Seq<char>, suffix: Seq<char>) -> bool {
    s.len() >= suffix.len() && s.subrange(s.len() - suffix.len(), s.len() as int) == suffix
}

pub fn str_ends_with(s: &str, suffix: &str) -> (r: bool)
    ensures
        r == spec_ends_with(s@, suffix@),
{
    let n = s.unicode_len();
    let m = suffix.unicode_len();
    if n < m {
        return false;
    }
    let mut i: usize = 0;
    while i < m
        invariant
            n == s@.len(),
            m == suffix@.len(),
            m <= n,
            i <= m,
            forall|j: int| 0 <= j < i ==> s@[n - m + j] == suffix@[j],
        decreases m - i,
    {
        if s.get_char(n - m + i) != suffix.get_char(i) {
            proof {
                assert(s@[n - m + i] != suffix@[i as int]);
            }
            return false;
        }
        i = i + 1;
    }
    proof {
        assert(s@.subrange(n - m, n as int) =~= suffix@);
    }
    true
}

/// `base` and `rel` joined by a single separator: a trailing `/` on `base`
/// is reused, otherwise one is inserted.
pub open spec fn spec_join_path(base: Seq<char>, rel: Seq<char>) -> Seq<char> {
    if base.len() > 0 && base[base.len() - 1] == '/' {
        base + rel
    } else {
        base + seq!['/'] + rel
    }
}

pub fn join_path(base: &str, rel: &str) -> (r: String)
    ensures
        r@ == spec_join_path(base@, rel@),
{
    let n = base.unicode_len();
    let mut out = base.to_owned();
    if n > 0 && base.get_char(n - 1) == '/' {
        out.append(rel);
    } else {
        proof {
            reveal_strlit("/");
        }
        out.append("/");
        out.append(rel);
        proof {
            assert(out@ =~= base@ + seq!['/'] + rel@);
        }
    }
    out
}

/// The path with its extension replaced by `ext`: if the final component
/// holds a `.` after its first character, the last such `.` and what
/// follows it are dropped; then `.` and `ext` are appended. Mirrors how
/// the standard path type rewrites extensions on ordinary file names.
pub open spec fn spec_with_extension(p: Seq<char>, ext: Seq<char>) -> Seq<char> {
    let slash = last_pos(p, '/');
    let dot = last_pos(p, '.');
    if dot > slash + 1 {
        p.subrange(0, dot) + seq!['.'] + ext
    } else {
        p + seq!['.'] + ext
    }
}

/// Scans for the last occurrence of `c`.
fn find_last(s: &str, c: char) -> (r: Option<usize>)
    ensures
        match r {
            Some(i) => i < s@.len() && last_pos(s@, c) == i as int,
            None => last_pos(s@, c) == -1,
        },
{
    let n = s.unicode_len();
    let mut j: usize = n;
    while j > 0
        invariant
            n == s@.len(),
            j <= n,
            forall|k: int| j <= k < n ==> s@[k] != c,
        decreases j,
    {
        if s.get_char(j - 1) == c {
            proof {
                lemma_last_pos_skip_tail(s@, c, j as int);
                assert(s@.subrange(0, j as int).len() == j);
                assert(s@.subrange(0, j as int)[j - 1] == c);
            }
            return Some(j - 1);
        }
        j = j - 1;
    }
    proof {
        lemma_last_pos_skip_tail(s@, c, 0);
        assert(s@.subrange(0, 0) =~= Seq::<char>::empty());
    }
    None
}

pub fn with_extension(path: &str, ext: &str) -> (r: String)
    ensures
        r@ == spec_with_extension(path@, ext@),
{
    proof {
        reveal_strlit(".");
    }
    let slash = find_last(path, '/');
    let dot = find_last(path, '.');
    let keep_to: Option<usize> = match (dot, slash) {
        (Some(d), Some(s)) => if d > 0 && d - 1 > s {
            Some(d)
        } else {
            None
        },
        (Some(d), None) => if d > 0 {
            Some(d)
        } else {
            None
        },
        _ => None,
    };
    match keep_to {
        Some(d) => {
            let mut out = path.substring_char(0, d).to_owned();
            out.append(".");
            out.append(ext);
            proof {
                assert(out@ =~= path@.subrange(0, d as int) + seq!['.'] + ext@);
            }
            out
        },
        None => {
            let mut out = path.to_owned();
            out.append(".");
            out.append(ext);
            proof {
                assert(out@ =~= path@ + seq!['.'] + ext@);
            }
            out
        },
    }
}

/// The directory part of a relative path: everything before the last `/`,
/// or nothing when the path has a single component.
pub open spec fn spec_parent_dir(p: Seq<char>) -> Option<Seq<char>> {
    let slash = last_pos(p, '/');
    if slash >= 0 {
        Some(p.subrange(0, slash))
    } else {
        None
    }
}

pub fn parent_dir(path: &str) -> (r: Option<String>)
    ensures
        match r {
            Some(d) => spec_parent_dir(path@) == Some(d@),
            None => spec_parent_dir(path@) is None,
        },
{
    match find_last(path, '/') {
        Some(i) => Some(path.substring_char(0, i).to_owned()),
        None => None,
    }
}

} // verus!
