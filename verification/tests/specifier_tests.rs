use jvm_select::digits::parse_u16;
use jvm_select::specifier::{get_distro, get_version_from_input};

#[test]
fn specifier_bare_integer() {
    let q = get_version_from_input("17").unwrap();
    assert_eq!(q.distro, None);
    assert_eq!(q.version, 17);
}

#[test]
fn specifier_legacy_form() {
    let q = get_version_from_input("1.8").unwrap();
    assert_eq!(q.distro, None);
    assert_eq!(q.version, 8);
}

#[test]
fn specifier_dotted_form_keeps_first_component() {
    let q = get_version_from_input("11.0.2").unwrap();
    assert_eq!(q.distro, None);
    assert_eq!(q.version, 11);
}

#[test]
fn specifier_with_distribution() {
    let q = get_version_from_input("temurin-17").unwrap();
    assert_eq!(q.distro.as_deref(), Some("temurin"));
    assert_eq!(q.version, 17);
}

#[test]
fn specifier_with_distribution_without_separator() {
    let q = get_version_from_input("temurin17").unwrap();
    assert_eq!(q.distro.as_deref(), Some("temurin"));
    assert_eq!(q.version, 17);
}

#[test]
fn specifier_with_distribution_and_legacy_version() {
    let q = get_version_from_input("temurin-1.8").unwrap();
    assert_eq!(q.distro.as_deref(), Some("temurin"));
    assert_eq!(q.version, 8);
}

#[test]
fn specifier_separators_count_only_right_after_the_distribution() {
    let q = get_version_from_input("temurin--17").unwrap();
    assert_eq!(q.distro.as_deref(), Some("temurin"));
    assert_eq!(q.version, 17);
    // A second alphabetic run after the separator is not stripped, so the
    // remainder is no number.
    assert!(get_version_from_input("a-b-9").is_none());
}

#[test]
fn specifier_distribution_alone_is_unparseable() {
    assert!(get_version_from_input("temurin").is_none());
}

#[test]
fn specifier_empty_is_unparseable() {
    assert!(get_version_from_input("").is_none());
}

#[test]
fn specifier_punctuation_is_unparseable() {
    assert!(get_version_from_input("!!").is_none());
}

#[test]
fn distro_of_prefixed_specifier() {
    assert_eq!(get_distro("temurin-17").as_deref(), Some("temurin"));
}

#[test]
fn distro_of_bare_version_is_absent() {
    assert_eq!(get_distro("17"), None);
}

#[test]
fn parse_u16_accepts_largest_value() {
    assert_eq!(parse_u16("65535"), Some(65535));
}

#[test]
fn parse_u16_rejects_overflow() {
    assert_eq!(parse_u16("65536"), None);
}

#[test]
fn parse_u16_rejects_empty_and_mixed_text() {
    assert_eq!(parse_u16(""), None);
    assert_eq!(parse_u16("1a"), None);
    assert_eq!(parse_u16(" 17"), None);
}
