//! The quiet-mode failure policy: which failures are silent successes, and
//! when a successful selection is announced.

use vstd::prelude::*;
use crate::errors::{spec_describe, Error};
use crate::specifier::opt_view;

verus! {

/// How a failure is reported: whether the process still counts as
/// successful, and the diagnostic message to emit, if any.
pub struct FailureReport {
    pub exit_success: bool,
    pub message: Option<String>,
}

/// Whether quiet mode swallows this failure on this path.  Only the
/// auto-resolution path is quiet-suppressible, and a malformed registry
/// entry never is, since it cannot be attributed to the current query.
pub open spec fn spec_suppressed(e: Error, on_auto_path: bool, quiet: bool) -> bool {
    on_auto_path && quiet && !(e is MalformedVersion)
}

/// Decides how a failure is reported: a suppressed failure becomes a
/// silent success, and any other failure an unsuccessful exit carrying the
/// failure's diagnostic message.
pub fn failure_report(e: &Error, on_auto_path: bool, quiet: bool) -> (r: FailureReport)
    ensures
        r.exit_success == spec_suppressed(*e, on_auto_path, quiet),
        spec_suppressed(*e, on_auto_path, quiet) ==> r.message is None,
        !spec_suppressed(*e, on_auto_path, quiet) ==> match r.message {
            Some(m) => m@ == spec_describe(*e),
            None => false,
        },
{
    let malformed = match e {
        Error::MalformedVersion => true,
        _ => false,
    };
    if on_auto_path && quiet && !malformed {
        FailureReport { exit_success: true, message: None }
    } else {
        FailureReport { exit_success: false, message: Some(e.describe()) }
    }
}

/// Whether a successful selection is announced: outside quiet mode always;
/// in quiet mode only when the selected install path differs from the
/// previously exported one, so that nothing is said when nothing changed.
pub open spec fn spec_announce(
    quiet: bool,
    previous: Option<Seq<char>>,
    selected: Seq<char>,
) -> bool {
    !quiet || match previous {
        None => true,
        Some(p) => p != selected,
    }
}

/// Decides whether selecting the runtime at `selected` is announced, given
/// the previously exported install path, if any.
pub fn should_announce(quiet: bool, previous: &Option<String>, selected: &String) -> (r: bool)
    ensures
        r == spec_announce(quiet, opt_view(*previous), selected@),
{
    if !quiet {
        true
    } else {
        match previous {
            None => true,
            Some(p) => !(*p == *selected),
        }
    }
}

/// The activation announcement naming the selected runtime.
pub fn activation_message(name: &str) -> (r: String)
    ensures
        r@ == "Activating Java "@ + name@,
{
    let mut m = String::from_str("Activating Java ");
    m.append(name);
    m
}

} // verus!
