//! Path strings: joining a directory to a relative path, stripping a
//! directory prefix, and replacing the extension of the final
//! component.  Paths are plain strings with `/` as the separator.

use vstd::prelude::*;

verus! {

/// `dir` and `rel` joined with a single separator.
pub open spec fn spec_join(dir: Seq<char>, rel: Seq<char>) -> Seq<char> {
    if dir.len() == 0 {
        rel
    } else if dir.last() == '/' {
        dir + rel
    } else {
        dir + seq!['/'] + rel
    }
}

/// `path` with the leading directory `dir` and its separator removed,
/// when `path` starts with them; `path` itself otherwise.
pub open spec fn spec_strip_prefix(path: Seq<char>, dir: Seq<char>) -> Seq<char> {
    if dir.len() == 0 {
        path
    } else if path.len() > dir.len() && path.take(dir.len() as int) == dir && path[dir.len() as int]
        == '/' {
        path.skip(dir.len() as int + 1)
    } else {
        path
    }
}

/// Index of the last occurrence of `c` in `s`, or `-1`.
pub open spec fn last_index_of(s: Seq<char>, c: char) -> int
    decreases s.len(),
{
    if s.len() == 0 {
        -1
    } else if s.last() == c {
        s.len() - 1
    } else {
        last_index_of(s.drop_last(), c)
    }
}

/// `path` with the extension of its final component replaced by `ext`:
/// everything after the component's last dot is cut (a dot that leads
/// the component does not count), and a dot plus `ext` is appended.
pub open spec fn spec_with_extension(path: Seq<char>, ext: Seq<char>) -> Seq<char> {
    let sl = last_index_of(path, '/');
    let dot = last_index_of(path, '.');
    if dot > sl + 1 {
        path.take(dot) + seq!['.'] + ext
    } else {
        path + seq!['.'] + ext
    }
}

/// The logical URL of a relative path: the path rooted with a slash.
pub open spec fn spec_url_of(rel: Seq<char>) -> Seq<char> {
    seq!['/'] + rel
}

pub proof fn lemma_last_index_of(s: Seq<char>, c: char)
    ensures
        -1 <= last_index_of(s, c) < s.len(),
        last_index_of(s, c) >= 0 ==> s[last_index_of(s, c)] == c,
        forall|j: int| last_index_of(s, c) < j < s.len() ==> s[j] != c,
    decreases s.len(),
{
    if s.len() > 0 && s.last() != c {
        lemma_last_index_of(s.drop_last(), c);
        assert forall|j: int| last_index_of(s, c) < j < s.len() implies s[j] != c by {
            if j < s.len() - 1 {
                assert(s.drop_last()[j] == s[j]);
            }
        }
        if last_index_of(s, c) >= 0 {
            assert(s.drop_last()[last_index_of(s.drop_last(), c)] == s[last_index_of(s, c)]);
        }
    }
}

/// Join `dir` and `rel` with a single separator.
pub fn join_path(dir: &str, rel: &str) -> (r: String)
    ensures
        r@ == spec_join(dir@, rel@),
{
    let n = dir.unicode_len();
    if n == 0 {
        return rel.to_owned();
    }
    let lastc = dir.get_char(n - 1);
    if lastc == '/' {
        dir.to_owned().concat(rel)
    } else {
        let r = dir.to_owned().concat("/").concat(rel);
        proof {
            reveal_strlit("/");
            assert(r@ =~= spec_join(dir@, rel@));
        }
        r
    }
}

/// Strip the directory prefix `dir` (with its separator) from `path`,
/// when it leads the path.
pub fn strip_prefix_dir(path: &str, dir: &str) -> (r: String)
    ensures
        r@ == spec_strip_prefix(path@, dir@),
{
    let n = dir.unicode_len();
    let pn = path.unicode_len();
    if n == 0 {
        return path.to_owned();
    }
    if pn > n {
        let head = path.substring_char(0, n);
        if substr_eq(head, dir) {
            if path.get_char(n) == '/' {
                let rest = path.substring_char(n + 1, pn);
                return rest.to_owned();
            }
        }
    }
    path.to_owned()
}

/// Whether two string slices hold the same characters.
pub fn substr_eq(a: &str, b: &str) -> (r: bool)
    ensures
        r == (a@ == b@),
{
    a.to_owned() == b.to_owned()
}

/// Index of the last occurrence of `c`, if any.
#[verifier::loop_isolation(false)]
pub fn find_last(s: &str, c: char) -> (r: Option<usize>)
    ensures
        match r {
            Some(i) => last_index_of(s@, c) == i,
            None => last_index_of(s@, c) == -1,
        },
{
    proof {
        lemma_last_index_of(s@, c);
    }
    let n = s.unicode_len();
    let mut i: usize = n;
    while i > 0
        invariant
            i <= n,
            forall|j: int| i <= j < n ==> s@[j] != c,
        decreases i,
    {
        i = i - 1;
        if s.get_char(i) == c {
            proof {
                assert(last_index_of(s@, c) == i) by {
                    let li = last_index_of(s@, c);
                    if li < i {
                        assert(s@[i as int] != c);
                    }
                    if li > i {
                        assert(s@[li] == c);
                        assert(s@[li] != c);
                    }
                }
            }
            return Some(i);
        }
    }
    proof {
        assert(last_index_of(s@, c) == -1) by {
            let li = last_index_of(s@, c);
            if li >= 0 {
                assert(s@[li] == c);
                assert(s@[li] != c);
            }
        }
    }
    None
}

/// Replace the extension of the final component of `path` by `ext`.
pub fn with_extension(path: &str, ext: &str) -> (r: String)
    ensures
        r@ == spec_with_extension(path@, ext@),
{
    proof {
        reveal_strlit(".");
        lemma_last_index_of(path@, '/');
        lemma_last_index_of(path@, '.');
    }
    let n = path.unicode_len();
    match find_last(path, '.') {
        Some(d) => {
            let is_ext: bool = match find_last(path, '/') {
                Some(s) => d > s + 1,
                None => d > 0,
            };
            if is_ext {
                let stem = path.substring_char(0, d);
                let r = stem.to_owned().concat(".").concat(ext);
                proof {
                    assert(r@ =~= spec_with_extension(path@, ext@));
                }
                r
            } else {
                let r = path.to_owned().concat(".").concat(ext);
                proof {
                    assert(r@ =~= spec_with_extension(path@, ext@));
                }
                r
            }
        },
        None => {
            let r = path.to_owned().concat(".").concat(ext);
            proof {
                assert(r@ =~= spec_with_extension(path@, ext@));
            }
            r
        },
    }
}

/// The logical URL of a relative path.
pub fn url_of(rel: &str) -> (r: String)
    ensures
        r@ == spec_url_of(rel@),
{
    let r = "/".to_owned().concat(rel);
    proof {
        reveal_strlit("/");
        assert(r@ =~= spec_url_of(rel@));
    }
    r
}

} // verus!
