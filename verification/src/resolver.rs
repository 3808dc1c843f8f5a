//! Matching a query against an ordered registry of installed runtimes.

use vstd::prelude::*;
use crate::errors::Error;
use crate::jvm::{spec_normalize, Jvm};
use crate::specifier::{get_version_from_input, spec_parse_query, Query, QueryView};
use crate::text::{contains_sub, spec_contains};

verus! {

/// Whether a runtime satisfies the query's distribution constraint: no
/// constraint is always satisfied, and a constraint must occur as a
/// case-sensitive substring of the runtime's bundle identifier or of its
/// install path.
pub open spec fn spec_distro_matches(q: QueryView, jvm: Jvm) -> bool {
    match q.distro {
        None => true,
        Some(d) => spec_contains(jvm.bundle_id@, d) || spec_contains(jvm.home_path@, d),
    }
}

/// Whether the runtime is compatible with the query's distribution
/// constraint.
pub fn distro_matches(q: &Query, jvm: &Jvm) -> (r: bool)
    ensures
        r == spec_distro_matches(q@, *jvm),
{
    match &q.distro {
        None => true,
        Some(d) => contains_sub(jvm.bundle_id.as_str(), d.as_str()) || contains_sub(
            jvm.home_path.as_str(),
            d.as_str(),
        ),
    }
}

/// Whether a runtime answers the query: its version string normalizes to
/// the requested major version and the distribution constraint is
/// satisfied.
pub open spec fn spec_entry_matches(q: QueryView, jvm: Jvm) -> bool {
    spec_normalize(jvm.version@) == Some(q.version) && spec_distro_matches(q, jvm)
}

/// Whether the scan may pass over a runtime: its version string is well
/// formed, yet it does not answer the query.
pub open spec fn spec_entry_skipped(q: QueryView, jvm: Jvm) -> bool {
    spec_normalize(jvm.version@) is Some && !spec_entry_matches(q, jvm)
}

/// The outcome of scanning a registry for a query.
pub enum Selection {
    /// The position of the first matching entry.
    Found(int),
    /// A scanned entry's version string was malformed before any entry
    /// matched.
    Malformed,
    /// Every entry was scanned, is well formed, and none matches.
    NoMatch,
}

/// The scan of the registry from position `i` on: the first matching entry
/// in the given order wins, and a malformed version string ends the scan at
/// once.
pub open spec fn spec_resolve_from(q: QueryView, jvms: Seq<Jvm>, i: int) -> Selection
    decreases jvms.len() - i,
{
    if i < 0 || i >= jvms.len() {
        Selection::NoMatch
    } else if spec_normalize(jvms[i].version@) is None {
        Selection::Malformed
    } else if spec_entry_matches(q, jvms[i]) {
        Selection::Found(i)
    } else {
        spec_resolve_from(q, jvms, i + 1)
    }
}

/// The scan of the whole registry in its given order.
pub open spec fn spec_resolve(q: QueryView, jvms: Seq<Jvm>) -> Selection {
    spec_resolve_from(q, jvms, 0)
}

/// Selects the first runtime of the registry, in the registry's own order,
/// whose normalized major version equals the query's version and which
/// satisfies the query's distribution constraint.
pub fn resolve(q: Query, jvms: &Vec<Jvm>) -> (r: Result<usize, Error>)
    ensures
        match r {
            Ok(i) => i < jvms@.len() && spec_resolve(q@, jvms@) == Selection::Found(i as int),
            Err(e) => match e {
                Error::MalformedVersion => spec_resolve(q@, jvms@) == Selection::Malformed,
                Error::NoMatchingRuntime(q2) => spec_resolve(q@, jvms@) == Selection::NoMatch
                    && q2 == q,
                _ => false,
            },
        },
{
    let n = jvms.len();
    let mut i: usize = 0;
    while i < n
        invariant
            n == jvms@.len(),
            0 <= i <= n,
            spec_resolve_from(q@, jvms@, 0) == spec_resolve_from(q@, jvms@, i as int),
        decreases n - i,
    {
        let jvm = &jvms[i];
        match jvm.major_version() {
            Err(e) => {
                return Err(e);
            },
            Ok(m) => {
                if m == q.version && distro_matches(&q, jvm) {
                    return Ok(i);
                }
                proof {
                    assert(spec_resolve_from(q@, jvms@, i as int) == spec_resolve_from(
                        q@,
                        jvms@,
                        i + 1,
                    ));
                }
            },
        }
        i += 1;
    }
    Err(Error::NoMatchingRuntime(q))
}

/// From any starting position, the scan finds the first matching entry, and
/// reports no match only when every remaining well-formed entry fails to
/// match.
proof fn lemma_resolve_from_characterization(q: QueryView, jvms: Seq<Jvm>, i: int)
    requires
        0 <= i <= jvms.len(),
    ensures
        match spec_resolve_from(q, jvms, i) {
            Selection::Found(k) => i <= k < jvms.len() && spec_entry_matches(q, jvms[k])
                && forall|j: int| i <= j < k ==> #[trigger] spec_entry_skipped(q, jvms[j]),
            Selection::NoMatch => forall|j: int|
                i <= j < jvms.len() ==> #[trigger] spec_entry_skipped(q, jvms[j]),
            Selection::Malformed => exists|k: int|
                i <= k < jvms.len() && #[trigger] spec_normalize(jvms[k].version@) is None,
        },
    decreases jvms.len() - i,
{
    if i == jvms.len() {
    } else if spec_normalize(jvms[i].version@) is None {
    } else if spec_entry_matches(q, jvms[i]) {
    } else {
        lemma_resolve_from_characterization(q, jvms, i + 1);
    }
}

/// The resolver selects the first entry of the registry, in the registry's
/// given order, that matches the query; it reports no matching runtime
/// exactly when every entry is well formed and none matches, in particular
/// on an empty registry.
pub proof fn lemma_resolver_first_match(q: QueryView, jvms: Seq<Jvm>)
    ensures
        match spec_resolve(q, jvms) {
            Selection::Found(k) => 0 <= k < jvms.len() && spec_entry_matches(q, jvms[k])
                && forall|j: int| 0 <= j < k ==> #[trigger] spec_entry_skipped(q, jvms[j]),
            Selection::NoMatch => forall|j: int|
                0 <= j < jvms.len() ==> #[trigger] spec_entry_skipped(q, jvms[j]),
            Selection::Malformed => exists|k: int|
                0 <= k < jvms.len() && #[trigger] spec_normalize(jvms[k].version@) is None,
        },
{
    lemma_resolve_from_characterization(q, jvms, 0);
}

/// The outcome of resolving a specifier string against a registry.
pub enum Resolution {
    /// The position of the selected runtime.
    Selected(int),
    /// The specifier is no valid query.
    Unparseable,
    /// A scanned entry's version string was malformed.
    Malformed,
    /// No entry matches the parsed query.
    NoMatch,
}

/// The whole pipeline on a specifier string: parse it into a query, then
/// scan the registry.
pub open spec fn spec_resolve_specifier(s: Seq<char>, jvms: Seq<Jvm>) -> Resolution {
    match spec_parse_query(s) {
        None => Resolution::Unparseable,
        Some(qv) => match spec_resolve(qv, jvms) {
            Selection::Found(i) => Resolution::Selected(i),
            Selection::Malformed => Resolution::Malformed,
            Selection::NoMatch => Resolution::NoMatch,
        },
    }
}

/// Parses a specifier string and resolves it against the registry,
/// returning the selected runtime's position or the exact failure.
pub fn resolve_specifier(input: &str, jvms: &Vec<Jvm>) -> (r: Result<usize, Error>)
    ensures
        match r {
            Ok(i) => i < jvms@.len() && spec_resolve_specifier(input@, jvms@)
                == Resolution::Selected(i as int),
            Err(e) => match e {
                Error::UnparseableSpecifier => spec_resolve_specifier(input@, jvms@)
                    == Resolution::Unparseable,
                Error::MalformedVersion => spec_resolve_specifier(input@, jvms@)
                    == Resolution::Malformed,
                Error::NoMatchingRuntime(q2) => spec_resolve_specifier(input@, jvms@)
                    == Resolution::NoMatch && spec_parse_query(input@) == Some(q2@),
                _ => false,
            },
        },
{
    match get_version_from_input(input) {
        None => Err(Error::UnparseableSpecifier),
        Some(q) => resolve(q, jvms),
    }
}

/// Resolution is deterministic: the same specifier resolved against an
/// unchanged registry always yields the same outcome, since it is a
/// function of the specifier and the registry alone.
pub proof fn lemma_resolution_deterministic(
    s1: Seq<char>,
    s2: Seq<char>,
    jvms1: Seq<Jvm>,
    jvms2: Seq<Jvm>,
)
    requires
        s1 == s2,
        jvms1 == jvms2,
    ensures
        spec_resolve_specifier(s1, jvms1) == spec_resolve_specifier(s2, jvms2),
{
}

} // verus!
