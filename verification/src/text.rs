//! String searching and slicing helpers used by the matcher and the scanner.

use vstd::prelude::*;
use vstd::string::StrSliceExecFns;
use vstd::string::StringExecFns;

verus! {

/// Holds when pattern `p` occurs in `s` starting at position `i`.
pub open spec fn occurs_at(s: Seq<char>, p: Seq<char>, i: int) -> bool {
    0 <= i && i + p.len() <= s.len() && s.subrange(i, i + p.len() as int) == p
}

/// Holds when `p` occurs somewhere in `s`.
pub open spec fn occurs_in(s: Seq<char>, p: Seq<char>) -> bool {
    exists|i: int| occurs_at(s, p, i)
}

/// Holds when `i` is the position of the first occurrence of `p` in `s`.
pub open spec fn first_occurrence_at(s: Seq<char>, p: Seq<char>, i: int) -> bool {
    occurs_at(s, p, i) && forall|j: int| 0 <= j < i ==> !occurs_at(s, p, j)
}

/// The position of the first occurrence of `p` in `s`.
pub open spec fn first_occurrence(s: Seq<char>, p: Seq<char>) -> int {
    choose|i: int| first_occurrence_at(s, p, i)
}

/// `s` with the first occurrence of `p` removed; `s` itself when `p` does not occur.
pub open spec fn strip_first(s: Seq<char>, p: Seq<char>) -> Seq<char> {
    if occurs_in(s, p) {
        let i = first_occurrence(s, p);
        s.subrange(0, i) + s.subrange(i + p.len() as int, s.len() as int)
    } else {
        s
    }
}

/// Holds when `p` is a prefix of `s`.
pub open spec fn starts_with_seq(s: Seq<char>, p: Seq<char>) -> bool {
    p.len() <= s.len() && s.subrange(0, p.len() as int) == p
}

/// An occurrence somewhere has a first occurrence.
pub proof fn lemma_first_occurrence_exists(s: Seq<char>, p: Seq<char>)
    requires
        occurs_in(s, p),
    ensures
        exists|i: int| first_occurrence_at(s, p, i),
{
    let i0 = choose|i: int| occurs_at(s, p, i);
    lemma_first_occurrence_below(s, p, i0);
}

proof fn lemma_first_occurrence_below(s: Seq<char>, p: Seq<char>, i0: int)
    requires
        occurs_at(s, p, i0),
    ensures
        exists|i: int| first_occurrence_at(s, p, i),
    decreases i0,
{
    if exists|j: int| 0 <= j < i0 && occurs_at(s, p, j) {
        let j = choose|j: int| 0 <= j < i0 && occurs_at(s, p, j);
        lemma_first_occurrence_below(s, p, j);
    } else {
        assert(first_occurrence_at(s, p, i0));
    }
}

/// The first occurrence position is unique.
pub proof fn lemma_first_occurrence_unique(s: Seq<char>, p: Seq<char>, i: int, j: int)
    requires
        first_occurrence_at(s, p, i),
        first_occurrence_at(s, p, j),
    ensures
        i == j,
{
}

/// Compares `p` against the characters of `s` starting at position `i`.
fn matches_at(s: &str, p: &str, i: usize) -> (b: bool)
    requires
        i + p@.len() <= s@.len(),
    ensures
        b == occurs_at(s@, p@, i as int),
{
    let n: usize = s.unicode_len();
    let m: usize = p.unicode_len();
    let mut j: usize = 0;
    while j < m
        invariant
            n == s@.len(),
            m == p@.len(),
            i + m <= n,
            j <= m,
            forall|k: int| 0 <= k < j ==> s@[i + k] == p@[k],
        decreases m - j,
    {
        if s.get_char(i + j) != p.get_char(j) {
            proof {
                assert(s@.subrange(i as int, i + m as int)[j as int] == s@[i + j]);
            }
            return false;
        }
        j += 1;
    }
    proof {
        assert(s@.subrange(i as int, i + m as int) =~= p@);
    }
    true
}

/// Finds the position of the first occurrence of `p` in `s`.
pub fn find_first(s: &str, p: &str) -> (r: Option<usize>)
    ensures
        match r {
            Some(i) => first_occurrence_at(s@, p@, i as int),
            None => !occurs_in(s@, p@),
        },
{
    let n: usize = s.unicode_len();
    let m: usize = p.unicode_len();
    if m > n {
        proof {
            assert(forall|i: int| !occurs_at(s@, p@, i));
        }
        return None;
    }
    let mut i: usize = 0;
    while i <= n - m
        invariant
            n == s@.len(),
            m == p@.len(),
            m <= n,
            i <= n - m + 1,
            forall|j: int| 0 <= j < i ==> !occurs_at(s@, p@, j),
        decreases n - m - i + 1,
    {
        if matches_at(s, p, i) {
            return Some(i);
        }
        proof {
            if m == 0 {
                assert(s@.subrange(i as int, i as int) =~= p@);
            }
        }
        i += 1;
    }
    proof {
        assert(forall|j: int| occurs_at(s@, p@, j) ==> 0 <= j <= n - m);
    }
    None
}

/// Tests whether `p` is a prefix of `s`.
pub fn starts_with_str(s: &str, p: &str) -> (b: bool)
    ensures
        b == starts_with_seq(s@, p@),
{
    let n: usize = s.unicode_len();
    let m: usize = p.unicode_len();
    if m > n {
        false
    } else {
        let b = matches_at(s, p, 0);
        proof {
            assert(s@.subrange(0, m as int) == s@.subrange(0int, 0 + m as int));
        }
        b
    }
}

/// Removes the first occurrence of `p` from `s`; returns `s` unchanged when `p`
/// does not occur in it.
pub fn remove_first(s: &str, p: &str) -> (r: String)
    ensures
        r@ == strip_first(s@, p@),
{
    let n: usize = s.unicode_len();
    let m: usize = p.unicode_len();
    match find_first(s, p) {
        Some(i) => {
            proof {
                lemma_first_occurrence_exists(s@, p@);
                let f = first_occurrence(s@, p@);
                lemma_first_occurrence_unique(s@, p@, f, i as int);
            }
            let head = s.substring_char(0, i);
            let tail = s.substring_char(i + m, n);
            let mut r = head.to_owned();
            r.append(tail);
            r
        },
        None => s.to_owned(),
    }
}

/// Concatenates two strings with a single space between them.
pub fn join_with_space(a: &str, b: &str) -> (r: String)
    ensures
        r@ == a@ + " "@ + b@,
{
    let mut r = a.to_owned();
    r.append(" ");
    r.append(b);
    r
}

/// `s` without its trailing `'/'` characters.
pub open spec fn trim_slashes(s: Seq<char>) -> Seq<char>
    decreases s.len(),
{
    if s.len() > 0 && s.last() == '/' {
        trim_slashes(s.drop_last())
    } else {
        s
    }
}

/// The part of `s` after its last `'/'`; all of `s` when it has no `'/'`.
pub open spec fn segment_after_last_slash(s: Seq<char>) -> Seq<char>
    decreases s.len(),
{
    if s.len() == 0 {
        s
    } else if s.last() == '/' {
        Seq::empty()
    } else {
        segment_after_last_slash(s.drop_last()).push(s.last())
    }
}

/// The final path segment of `s`: the part after the last `'/'` once
/// trailing slashes are dropped, so `"/a/b"` and `"/a/b/"` both yield `"b"`;
/// empty when `s` is empty or consists of slashes alone.
pub open spec fn last_segment(s: Seq<char>) -> Seq<char> {
    segment_after_last_slash(trim_slashes(s))
}

proof fn lemma_trim_slashes_at(s: Seq<char>, e: int)
    requires
        0 <= e <= s.len(),
        forall|k: int| e <= k < s.len() ==> s[k] == '/',
        e == 0 || s[e - 1] != '/',
    ensures
        trim_slashes(s) == s.subrange(0, e),
    decreases s.len(),
{
    if s.len() == 0 {
        assert(trim_slashes(s) =~= s.subrange(0, 0));
    } else if e == s.len() {
        assert(trim_slashes(s) =~= s.subrange(0, e));
    } else {
        assert(s.last() == '/');
        assert forall|k: int| e <= k < s.drop_last().len() implies s.drop_last()[k] == '/' by {
            assert(s.drop_last()[k] == s[k]);
        }
        lemma_trim_slashes_at(s.drop_last(), e);
        assert(s.drop_last().subrange(0, e) =~= s.subrange(0, e));
    }
}

proof fn lemma_segment_no_slash(s: Seq<char>)
    requires
        forall|k: int| 0 <= k < s.len() ==> s[k] != '/',
    ensures
        segment_after_last_slash(s) == s,
    decreases s.len(),
{
    if s.len() == 0 {
    } else {
        lemma_segment_no_slash(s.drop_last());
        assert(segment_after_last_slash(s) =~= s);
    }
}

proof fn lemma_segment_after_slash(s: Seq<char>, j: int)
    requires
        0 <= j < s.len(),
        s[j] == '/',
        forall|k: int| j < k < s.len() ==> s[k] != '/',
    ensures
        segment_after_last_slash(s) == s.subrange(j + 1, s.len() as int),
    decreases s.len(),
{
    if j == s.len() - 1 {
        assert(segment_after_last_slash(s) =~= s.subrange(j + 1, s.len() as int));
    } else {
        lemma_segment_after_slash(s.drop_last(), j);
        assert(segment_after_last_slash(s) =~= s.subrange(j + 1, s.len() as int));
    }
}

/// Returns the final path segment of `s`: the part after the last `'/'`,
/// with trailing slashes ignored.
pub fn last_segment_str(s: &str) -> (r: String)
    ensures
        r@ == last_segment(s@),
{
    let n: usize = s.unicode_len();
    let mut e: usize = n;
    while e > 0 && s.get_char(e - 1) == '/'
        invariant
            n == s@.len(),
            e <= n,
            forall|k: int| e <= k < n ==> s@[k] == '/',
        decreases e,
    {
        e -= 1;
    }
    proof {
        lemma_trim_slashes_at(s@, e as int);
    }
    let ghost t = s@.subrange(0, e as int);
    let mut i: usize = 0;
    let mut last: Option<usize> = None;
    while i < e
        invariant
            n == s@.len(),
            e <= n,
            i <= e,
            match last {
                Some(j) => j < i && s@[j as int] == '/' && (forall|k: int|
                    j < k < i ==> s@[k] != '/'),
                None => forall|k: int| 0 <= k < i ==> s@[k] != '/',
            },
        decreases e - i,
    {
        if s.get_char(i) == '/' {
            last = Some(i);
        }
        i += 1;
    }
    match last {
        Some(j) => {
            proof {
                assert(t[j as int] == s@[j as int]);
                assert forall|k: int| j < k < t.len() implies t[k] != '/' by {
                    assert(t[k] == s@[k]);
                }
                lemma_segment_after_slash(t, j as int);
                assert(t.subrange(j + 1, t.len() as int) =~= s@.subrange(j + 1, e as int));
            }
            s.substring_char(j + 1, e).to_owned()
        },
        None => {
            proof {
                assert forall|k: int| 0 <= k < t.len() implies t[k] != '/' by {
                    assert(t[k] == s@[k]);
                }
                lemma_segment_no_slash(t);
                assert(t =~= s@.subrange(0, e as int));
            }
            s.substring_char(0, e).to_owned()
        },
    }
}

} // verus!
