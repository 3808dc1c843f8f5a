//! Parsing a user- or project-supplied version specifier into a structured
//! query.

use vstd::prelude::*;
use crate::chars::{alpha_pred, alphabetic, dash_pred, lemma_run_len_is, run_len};
use crate::digits::{parse_u16, spec_parse_u16};
use crate::text::find_char;

verus! {

/// A structured request for a runtime: an optional distribution constraint
/// (a case-sensitive substring of a runtime's bundle identifier or install
/// path) and a required major version.
#[derive(Debug, Clone)]
pub struct Query {
    pub distro: Option<String>,
    pub version: u16,
}

/// The mathematical content of a [`Query`].
pub struct QueryView {
    pub distro: Option<Seq<char>>,
    pub version: u16,
}

/// The view of an optional string.
pub open spec fn opt_view(o: Option<String>) -> Option<Seq<char>> {
    match o {
        Some(s) => Some(s@),
        None => None,
    }
}

impl View for Query {
    type V = QueryView;

    open spec fn view(&self) -> QueryView {
        QueryView { distro: opt_view(self.distro), version: self.version }
    }
}

/// The distribution constraint of a specifier: its maximal leading run of
/// alphabetic characters, or nothing when that run is empty.
pub open spec fn spec_distro_of(s: Seq<char>) -> Option<Seq<char>> {
    if run_len(s, alpha_pred()) == 0 {
        None
    } else {
        Some(s.take(run_len(s, alpha_pred()) as int))
    }
}

/// The version text of a specifier: what is left after dropping the
/// leading run of alphabetic characters and the `-` separators immediately
/// following it.
pub open spec fn spec_remainder(s: Seq<char>) -> Seq<char> {
    let a = run_len(s, alpha_pred()) as int;
    let d = run_len(s.skip(a), dash_pred()) as int;
    s.skip(a + d)
}

/// The token of the remainder that must be a number: the part before the
/// first period, except that the legacy remainder `1.<rest>` yields `<rest>`
/// whole; a remainder without a period is taken entire.
pub open spec fn spec_version_token(s: Seq<char>) -> Seq<char> {
    let rem = spec_remainder(s);
    match rem.index_of_first('.') {
        None => rem,
        Some(i) => if rem.take(i) == seq!['1'] {
            rem.skip(i + 1)
        } else {
            rem.take(i)
        },
    }
}

/// What parsing a specifier yields: a query whose distribution is the leading
/// alphabetic run and whose version is the remainder's version token read as
/// a number, or nothing when that token is no number.
pub open spec fn spec_parse_query(s: Seq<char>) -> Option<QueryView> {
    match spec_parse_u16(spec_version_token(s)) {
        None => None,
        Some(v) => Some(QueryView { distro: spec_distro_of(s), version: v }),
    }
}

/// The length of the leading run of alphabetic characters of `s`.
fn alpha_run(s: &str) -> (k: usize)
    ensures
        k <= s@.len(),
        k == run_len(s@, alpha_pred()),
{
    let n = s.unicode_len();
    let mut i: usize = 0;
    while i < n
        invariant
            n == s@.len(),
            0 <= i <= n,
            forall|j: int| 0 <= j < i ==> alphabetic(s@[j]),
        decreases n - i,
    {
        if !s.get_char(i).is_alphabetic() {
            proof {
                lemma_run_len_is(s@, alpha_pred(), i as int);
            }
            return i;
        }
        i += 1;
    }
    proof {
        lemma_run_len_is(s@, alpha_pred(), i as int);
    }
    i
}

/// The position just past the `-` separators that follow position `from`.
fn dash_run_from(s: &str, from: usize) -> (k: usize)
    requires
        from <= s@.len(),
    ensures
        from <= k <= s@.len(),
        k - from == run_len(s@.skip(from as int), dash_pred()),
{
    let n = s.unicode_len();
    let mut i: usize = from;
    while i < n
        invariant
            n == s@.len(),
            from <= i <= n,
            forall|j: int| from <= j < i ==> s@[j] == '-',
        decreases n - i,
    {
        if !(s.get_char(i) == '-') {
            proof {
                lemma_dash_run(s@, from as int, i as int);
            }
            return i;
        }
        i += 1;
    }
    proof {
        lemma_dash_run(s@, from as int, i as int);
    }
    i
}

/// Transfers the bounds of a scanned `-` run to the run length of the
/// suffix it was scanned in.
proof fn lemma_dash_run(s: Seq<char>, from: int, i: int)
    requires
        0 <= from <= i <= s.len(),
        forall|j: int| from <= j < i ==> s[j] == '-',
        i == s.len() || s[i] != '-',
    ensures
        run_len(s.skip(from), dash_pred()) == i - from,
{
    let t = s.skip(from);
    assert forall|j: int| 0 <= j < i - from implies dash_pred()(t[j]) by {
        assert(t[j] == s[from + j]);
    }
    if i < s.len() {
        assert(t[i - from] == s[i]);
    }
    lemma_run_len_is(t, dash_pred(), i - from);
}

/// The distribution named by a specifier: its maximal leading run of
/// alphabetic characters, or nothing when the specifier starts with anything
/// else.
pub fn get_distro(s: &str) -> (r: Option<String>)
    ensures
        match r {
            None => spec_distro_of(s@) is None,
            Some(d) => spec_distro_of(s@) == Some(d@),
        },
{
    let k = alpha_run(s);
    if k == 0 {
        None
    } else {
        Some(s.substring_char(0, k).to_owned())
    }
}

/// Parses a specifier string into a [`Query`].
///
/// The version is always read from the remainder left after stripping the
/// distribution prefix and any `-` separators, so `temurin-17` yields the
/// same version as `17`; a specifier whose remainder is no number yields
/// nothing.
pub fn get_version_from_input(input: &str) -> (r: Option<Query>)
    ensures
        match r {
            None => spec_parse_query(input@) is None,
            Some(q) => spec_parse_query(input@) == Some(q@),
        },
{
    let distro = get_distro(input);
    let n = input.unicode_len();
    let a = alpha_run(input);
    let k = dash_run_from(input, a);
    proof {
        assert(input@.skip(a as int).skip(k - a) =~= input@.skip(k as int));
    }
    let rem = input.substring_char(k, n);
    let rem_n = rem.unicode_len();
    let tok: &str = match find_char(rem, '.') {
        None => rem,
        Some(i) => {
            proof {
                rem@.index_of_first_ensures('.');
            }
            if i == 1 && rem.get_char(0) == '1' {
                proof {
                    assert(rem@.take(1) =~= seq!['1']);
                }
                rem.substring_char(i + 1, rem_n)
            } else {
                proof {
                    if rem@.take(i as int) == seq!['1'] {
                        assert(rem@.take(i as int).len() == 1);
                        assert(rem@.take(i as int)[0] == rem@[0]);
                    }
                }
                rem.substring_char(0, i)
            }
        },
    };
    assert(tok@ == spec_version_token(input@));
    match parse_u16(tok) {
        None => None,
        Some(v) => Some(Query { distro, version: v }),
    }
}

} // verus!
