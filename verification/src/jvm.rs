//! Installed runtimes and the normalization of their version strings.

use vstd::prelude::*;
use crate::digits::{all_digits, digits_value, parse_u16, spec_parse_u16};
use crate::errors::Error;
use crate::text::{find_char, lemma_first_index_at};

verus! {

/// One installed Java runtime, as reported by the external registry.
///
/// The registry owes every entry a version string containing at least one
/// period; an entry violating that is a data-integrity fault reported as
/// [`Error::MalformedVersion`].
#[derive(Debug, Clone)]
pub struct Jvm {
    pub arch: String,
    pub bundle_id: String,
    pub enabled: bool,
    pub home_path: String,
    pub name: String,
    pub platform_version: String,
    pub vendor: String,
    pub version: String,
}

/// The fields of a runtime shown when listing installed runtimes.
pub struct DisplayJvm {
    pub version: String,
    pub name: String,
    pub arch: String,
}

/// `s` split at its first period into the parts before and after, if a
/// period exists.
pub open spec fn spec_split_at_period(s: Seq<char>) -> Option<(Seq<char>, Seq<char>)> {
    match s.index_of_first('.') {
        Some(i) => Some((s.take(i), s.skip(i + 1))),
        None => None,
    }
}

/// The token of a runtime version string that names the major version: the
/// part before the first period, except that under the legacy scheme
/// `1.<minor>.<rest>` it is `<minor>`, the part between the first two
/// periods.
pub open spec fn spec_major_token(s: Seq<char>) -> Option<Seq<char>> {
    match spec_split_at_period(s) {
        None => None,
        Some((head, rest)) => {
            if head == seq!['1'] {
                match spec_split_at_period(rest) {
                    None => None,
                    Some((minor, _)) => Some(minor),
                }
            } else {
                Some(head)
            }
        },
    }
}

/// The normalized major version of a runtime version string: its major token
/// read as a number, or nothing when the string has no such token or the
/// token is no number.
pub open spec fn spec_normalize(s: Seq<char>) -> Option<u16> {
    match spec_major_token(s) {
        None => None,
        Some(tok) => spec_parse_u16(tok),
    }
}

impl Jvm {
    /// The comparable major version of this runtime, normalized from its raw
    /// version string; a string without the owed period or with a
    /// non-numeric major token is a data-integrity fault.
    pub fn major_version(&self) -> (r: Result<u16, Error>)
        ensures
            match r {
                Ok(m) => spec_normalize(self.version@) == Some(m),
                Err(e) => spec_normalize(self.version@) is None && e == Error::MalformedVersion,
            },
    {
        let v: &str = self.version.as_str();
        let n = v.unicode_len();
        match find_char(v, '.') {
            None => Err(Error::MalformedVersion),
            Some(i) => {
                proof {
                    v@.index_of_first_ensures('.');
                }
                if i == 1 && v.get_char(0) == '1' {
                    proof {
                        assert(v@.take(1) =~= seq!['1']);
                    }
                    let rest = v.substring_char(i + 1, n);
                    match find_char(rest, '.') {
                        None => Err(Error::MalformedVersion),
                        Some(j) => {
                            proof {
                                rest@.index_of_first_ensures('.');
                            }
                            let tok = rest.substring_char(0, j);
                            match parse_u16(tok) {
                                Some(m) => Ok(m),
                                None => Err(Error::MalformedVersion),
                            }
                        },
                    }
                } else {
                    proof {
                        if v@.take(i as int) == seq!['1'] {
                            assert(v@.take(i as int).len() == 1);
                            assert(v@.take(i as int)[0] == v@[0]);
                        }
                    }
                    let head = v.substring_char(0, i);
                    match parse_u16(head) {
                        Some(m) => Ok(m),
                        None => Err(Error::MalformedVersion),
                    }
                }
            },
        }
    }

    /// The fields of this runtime shown when listing installed runtimes.
    pub fn to_display(&self) -> (d: DisplayJvm)
        ensures
            d.version == self.version,
            d.name == self.name,
            d.arch == self.arch,
    {
        DisplayJvm {
            version: self.version.clone(),
            name: self.name.clone(),
            arch: self.arch.clone(),
        }
    }
}

/// A version string of the form `<digits>.<rest>` whose leading digits are
/// not the single digit `1` normalizes to the value of those digits.
pub proof fn lemma_normalize_modern(head: Seq<char>, tail: Seq<char>)
    requires
        head.len() > 0,
        all_digits(head),
        head != seq!['1'],
        digits_value(head) <= u16::MAX,
    ensures
        spec_normalize(head + seq!['.'] + tail) == Some(digits_value(head) as u16),
{
    let s = head + seq!['.'] + tail;
    assert(s[head.len() as int] == '.');
    assert forall|j: int| 0 <= j < head.len() implies s[j] != '.' by {
        assert(s[j] == head[j]);
        assert(crate::digits::is_digit(head[j]));
    }
    lemma_first_index_at(s, '.', head.len() as int);
    assert(s.take(head.len() as int) =~= head);
}

/// A legacy version string `1.<minor>.<rest>` with numeric `<minor>`
/// normalizes to the value of `<minor>`.
pub proof fn lemma_normalize_legacy(minor: Seq<char>, rest: Seq<char>)
    requires
        minor.len() > 0,
        all_digits(minor),
        digits_value(minor) <= u16::MAX,
    ensures
        spec_normalize(seq!['1', '.'] + minor + seq!['.'] + rest) == Some(
            digits_value(minor) as u16,
        ),
{
    let s = seq!['1', '.'] + minor + seq!['.'] + rest;
    assert(s[0] == '1');
    assert(s[1] == '.');
    lemma_first_index_at(s, '.', 1);
    assert(s.take(1) =~= seq!['1']);
    let after = s.skip(2);
    assert(after =~= minor + seq!['.'] + rest);
    assert(after[minor.len() as int] == '.');
    assert forall|j: int| 0 <= j < minor.len() implies after[j] != '.' by {
        assert(after[j] == minor[j]);
        assert(crate::digits::is_digit(minor[j]));
    }
    lemma_first_index_at(after, '.', minor.len() as int);
    assert(after.take(minor.len() as int) =~= minor);
}

/// A version string without any period does not normalize: it is malformed.
pub proof fn lemma_normalize_without_period(s: Seq<char>)
    requires
        forall|i: int| 0 <= i < s.len() ==> s[i] != '.',
    ensures
        spec_normalize(s) is None,
{
    s.index_of_first_ensures('.');
    if s.index_of_first('.') is Some {
        let k = s.index_of_first('.')->0;
        assert(s[k] == '.');
    }
}

} // verus!
