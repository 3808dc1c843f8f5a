use jvm_select::digits::u16_to_string;
use jvm_select::errors::Error;
use jvm_select::policy::{activation_message, failure_report, should_announce};
use jvm_select::specifier::Query;
use jvm_select::text::{contains_sub, trim_str};

fn no_match_error() -> Error {
    Error::NoMatchingRuntime(Query { distro: None, version: 17 })
}

#[test]
fn quiet_auto_failure_is_a_silent_success() {
    let report = failure_report(&no_match_error(), true, true);
    assert!(report.exit_success);
    assert!(report.message.is_none());
}

#[test]
fn explicit_path_failure_is_reported_even_when_quiet() {
    let report = failure_report(&no_match_error(), false, true);
    assert!(!report.exit_success);
    assert!(report.message.is_some());
}

#[test]
fn non_quiet_auto_failure_is_reported() {
    let report = failure_report(&no_match_error(), true, false);
    assert!(!report.exit_success);
    assert!(report.message.is_some());
}

#[test]
fn malformed_version_is_never_suppressed() {
    let report = failure_report(&Error::MalformedVersion, true, true);
    assert!(!report.exit_success);
    assert!(report.message.is_some());
}

#[test]
fn quiet_config_and_specifier_failures_are_suppressed_on_auto() {
    assert!(failure_report(&Error::NoConfigFound, true, true).exit_success);
    assert!(failure_report(&Error::UnparseableSpecifier, true, true).exit_success);
}

#[test]
fn no_match_message_names_version_and_distribution() {
    let err = Error::NoMatchingRuntime(Query {
        distro: Some("temurin".to_string()),
        version: 17,
    });
    assert_eq!(
        err.describe(),
        "no installed runtime matches the requested version 17 for distribution temurin"
    );
}

#[test]
fn no_match_message_without_distribution() {
    assert_eq!(
        no_match_error().describe(),
        "no installed runtime matches the requested version 17"
    );
}

#[test]
fn announce_always_outside_quiet_mode() {
    let previous = Some("/jvms/temurin-17/Home".to_string());
    assert!(should_announce(false, &previous, &"/jvms/temurin-17/Home".to_string()));
}

#[test]
fn quiet_announce_suppressed_when_path_unchanged() {
    let previous = Some("/jvms/temurin-17/Home".to_string());
    assert!(!should_announce(true, &previous, &"/jvms/temurin-17/Home".to_string()));
}

#[test]
fn quiet_announce_kept_when_path_changes() {
    let previous = Some("/jvms/oracle-21/Home".to_string());
    assert!(should_announce(true, &previous, &"/jvms/temurin-17/Home".to_string()));
    assert!(should_announce(true, &None, &"/jvms/temurin-17/Home".to_string()));
}

#[test]
fn activation_message_names_the_runtime() {
    assert_eq!(activation_message("Eclipse Temurin 17"), "Activating Java Eclipse Temurin 17");
}

#[test]
fn decimal_rendering_of_versions() {
    assert_eq!(u16_to_string(0), "0");
    assert_eq!(u16_to_string(17), "17");
    assert_eq!(u16_to_string(65535), "65535");
}

#[test]
fn trimming_strips_both_ends() {
    assert_eq!(trim_str("  17  \n"), "17");
    assert_eq!(trim_str("\t\n "), "");
    assert_eq!(trim_str("x"), "x");
}

#[test]
fn substring_search_is_exact() {
    assert!(contains_sub("/jvms/temurin-17/Home", "temurin"));
    assert!(!contains_sub("/jvms/temurin-17/Home", "Temurin"));
    assert!(contains_sub("anything", ""));
    assert!(!contains_sub("", "x"));
}
