//! The failures of version resolution and configuration lookup.

use vstd::prelude::*;
use crate::digits::{spec_render_u16, u16_to_string};
use crate::specifier::Query;

verus! {

/// Every way resolution can fail.
#[derive(Debug)]
pub enum Error {
    /// A runtime's own version string violates the expected grammar: a
    /// data-integrity fault of the external registry, never suppressed by
    /// quiet mode.
    MalformedVersion,
    /// A user- or project-supplied specifier does not match the specifier
    /// grammar.
    UnparseableSpecifier,
    /// No installed runtime satisfies the query; the unmatched query is
    /// carried for diagnostics.
    NoMatchingRuntime(Query),
    /// The cascading search exhausted the directory tree without finding a
    /// configuration file.
    NoConfigFound,
}

/// The diagnostic text for each failure.
pub open spec fn spec_describe(e: Error) -> Seq<char> {
    match e {
        Error::MalformedVersion => "a runtime reports a malformed version: it must contain a period and a numeric major version"@,
        Error::UnparseableSpecifier => "the version specifier was not understood"@,
        Error::NoMatchingRuntime(q) => {
            let head = "no installed runtime matches the requested version "@
                + spec_render_u16(q.version as int);
            match q.distro {
                Some(d) => head + " for distribution "@ + d@,
                None => head,
            }
        },
        Error::NoConfigFound => "no version configuration file was found in this directory or any parent"@,
    }
}

impl Error {
    /// The diagnostic message naming the failure.
    pub fn describe(&self) -> (r: String)
        ensures
            r@ == spec_describe(*self),
    {
        match self {
            Error::MalformedVersion => String::from_str(
                "a runtime reports a malformed version: it must contain a period and a numeric major version",
            ),
            Error::UnparseableSpecifier => String::from_str(
                "the version specifier was not understood",
            ),
            Error::NoMatchingRuntime(q) => {
                let mut msg = String::from_str(
                    "no installed runtime matches the requested version ",
                );
                let rendered = u16_to_string(q.version);
                msg.append(rendered.as_str());
                match &q.distro {
                    Some(d) => {
                        msg.append(" for distribution ");
                        msg.append(d.as_str());
                    },
                    None => {},
                }
                msg
            },
            Error::NoConfigFound => String::from_str(
                "no version configuration file was found in this directory or any parent",
            ),
        }
    }
}

} // verus!
