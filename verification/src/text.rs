//! Verified text scanning: finding a character, trimming whitespace and
//! substring search.

use vstd::prelude::*;
use crate::chars::{lemma_run_len_is, run_len, whitespace, ws_pred};

verus! {

/// The position of the first occurrence of `c` in `s`, if any.
pub fn find_char(s: &str, c: char) -> (r: Option<usize>)
    ensures
        match r {
            Some(i) => s@.index_of_first(c) == Some(i as int),
            None => s@.index_of_first(c) is None,
        },
{
    let n = s.unicode_len();
    let mut i: usize = 0;
    while i < n
        invariant
            n == s@.len(),
            0 <= i <= n,
            forall|j: int| 0 <= j < i ==> s@[j] != c,
        decreases n - i,
    {
        if s.get_char(i) == c {
            proof {
                s@.index_of_first_ensures(c);
                assert(s@.contains(c)) by {
                    assert(s@[i as int] == c);
                }
                let k = s@.index_of_first(c)->0;
                assert(s@[k] == c);
            }
            return Some(i);
        }
        i += 1;
    }
    proof {
        s@.index_of_first_ensures(c);
        if s@.index_of_first(c) is Some {
            let k = s@.index_of_first(c)->0;
            assert(s@[k] == c);
        }
    }
    None
}

/// If `c` appears in `s` at position `k` and nowhere earlier, then `k` is
/// the position of its first occurrence.
pub proof fn lemma_first_index_at(s: Seq<char>, c: char, k: int)
    requires
        0 <= k < s.len(),
        s[k] == c,
        forall|j: int| 0 <= j < k ==> s[j] != c,
    ensures
        s.index_of_first(c) == Some(k),
{
    s.index_of_first_ensures(c);
    assert(s.contains(c)) by {
        assert(s[k] == c);
    }
    let i = s.index_of_first(c)->0;
    assert(s[i] == c);
}

/// The length of the leading whitespace run of `s`.
fn leading_ws(s: &str) -> (k: usize)
    ensures
        k <= s@.len(),
        k == run_len(s@, ws_pred()),
        k < s@.len() ==> !whitespace(s@[k as int]),
{
    let n = s.unicode_len();
    let mut i: usize = 0;
    while i < n
        invariant
            n == s@.len(),
            0 <= i <= n,
            forall|j: int| 0 <= j < i ==> whitespace(s@[j]),
        decreases n - i,
    {
        if !s.get_char(i).is_whitespace() {
            proof {
                lemma_run_len_is(s@, ws_pred(), i as int);
            }
            return i;
        }
        i += 1;
    }
    proof {
        lemma_run_len_is(s@, ws_pred(), i as int);
    }
    i
}

/// `s` with leading and trailing whitespace removed: the characters from the
/// end of the leading whitespace run to the start of the trailing one.
pub open spec fn spec_trim(s: Seq<char>) -> Seq<char> {
    let a = run_len(s, ws_pred()) as int;
    let b = s.len() - run_len(s.reverse(), ws_pred());
    if a < b {
        s.subrange(a, b)
    } else {
        Seq::empty()
    }
}

/// Removes leading and trailing whitespace from `s`.
pub fn trim_str<'a>(s: &'a str) -> (r: &'a str)
    ensures
        r@ == spec_trim(s@),
{
    let n = s.unicode_len();
    let a = leading_ws(s);
    if a == n {
        let e = "";
        proof {
            reveal_strlit("");
            assert(e@ =~= Seq::<char>::empty());
        }
        return e;
    }
    let b = trailing_end(s, a);
    s.substring_char(a, b)
}

/// The position just past the last non-whitespace character of `s`, given a
/// non-whitespace character at position `a`.
fn trailing_end(s: &str, a: usize) -> (b: usize)
    requires
        a < s@.len(),
        !whitespace(s@[a as int]),
    ensures
        a < b <= s@.len(),
        b == s@.len() - run_len(s@.reverse(), ws_pred()),
{
    let n = s.unicode_len();
    let mut b: usize = n;
    while b > a
        invariant
            n == s@.len(),
            a <= b <= n,
            a < n,
            !whitespace(s@[a as int]),
            forall|j: int| b <= j < n ==> whitespace(s@[j]),
        decreases b,
    {
        if !s.get_char(b - 1).is_whitespace() {
            proof {
                let rev = s@.reverse();
                assert forall|j: int| 0 <= j < n - b implies ws_pred()(rev[j]) by {
                    assert(rev[j] == s@[n - 1 - j]);
                }
                assert(rev[n - b as int] == s@[b - 1]);
                lemma_run_len_is(rev, ws_pred(), n - b as int);
            }
            return b;
        }
        b -= 1;
    }
    // Never reached: the loop cannot pass the non-whitespace character at
    // `a`, so it always returns from inside.
    proof {
        assert(whitespace(s@[a as int]));
    }
    a + 1
}

/// Whether `needle` occurs as a contiguous run of characters inside `hay`.
pub open spec fn spec_contains(hay: Seq<char>, needle: Seq<char>) -> bool {
    exists|k: int|
        0 <= k && k + needle.len() <= hay.len() && #[trigger] hay.subrange(k, k + needle.len())
            == needle
}

/// Whether `needle` occurs in `hay` starting at position `k`.
fn match_at(hay: &str, needle: &str, k: usize) -> (r: bool)
    requires
        k + needle@.len() <= hay@.len(),
    ensures
        r == (hay@.subrange(k as int, k + needle@.len()) == needle@),
{
    let h = hay.unicode_len();
    let m = needle.unicode_len();
    let mut j: usize = 0;
    while j < m
        invariant
            h == hay@.len(),
            m == needle@.len(),
            k + m <= hay@.len(),
            0 <= j <= m,
            forall|y: int| 0 <= y < j ==> hay@[k + y] == needle@[y],
        decreases m - j,
    {
        if hay.get_char(k + j) != needle.get_char(j) {
            proof {
                let sub = hay@.subrange(k as int, k + needle@.len());
                assert(sub[j as int] == hay@[k + j]);
            }
            return false;
        }
        j += 1;
    }
    proof {
        assert(hay@.subrange(k as int, k + needle@.len()) =~= needle@);
    }
    true
}

/// Whether `needle` is a substring of `hay`, by direct search.
pub fn contains_sub(hay: &str, needle: &str) -> (r: bool)
    ensures
        r == spec_contains(hay@, needle@),
{
    let h = hay.unicode_len();
    let m = needle.unicode_len();
    if m > h {
        return false;
    }
    if m == 0 {
        proof {
            assert(hay@.subrange(0, 0 + needle@.len() as int) =~= needle@);
        }
        return true;
    }
    let mut k: usize = 0;
    while k <= h - m
        invariant
            h == hay@.len(),
            m == needle@.len(),
            1 <= m <= h,
            0 <= k <= h - m + 1,
            forall|x: int|
                0 <= x < k ==> #[trigger] hay@.subrange(x, x + needle@.len()) != needle@,
        decreases h - m - k + 1,
    {
        if match_at(hay, needle, k) {
            return true;
        }
        k += 1;
    }
    proof {
        if spec_contains(hay@, needle@) {
            let x = choose|x: int|
                0 <= x && x + needle@.len() <= hay@.len() && #[trigger] hay@.subrange(
                    x,
                    x + needle@.len(),
                ) == needle@;
            assert(x < k);
        }
    }
    false
}

} // verus!
