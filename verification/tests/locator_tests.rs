use jvm_select::errors::Error;
use jvm_select::locator::{find_java_line, locate_specifier, DirLevel};

fn level(primary: Option<&str>, secondary: Option<&str>) -> DirLevel {
    DirLevel {
        primary: primary.map(|s| s.to_string()),
        secondary: secondary.map(|s| s.to_string()),
    }
}

#[test]
fn locator_finds_primary_file_in_parent() {
    // The tree /a/b/c, searched from /a/b/c, where /a/b holds a primary
    // config file: the levels run nearest first.
    let levels = vec![
        level(None, None),                  // /a/b/c
        level(Some("  17  \n"), None),      // /a/b
        level(None, None),                  // /a
    ];
    assert_eq!(locate_specifier(&levels).unwrap(), "17");
}

#[test]
fn locator_reads_secondary_java_line() {
    let levels = vec![level(None, Some("ruby 3.2\njava 21\n"))];
    assert_eq!(locate_specifier(&levels).unwrap(), "21");
}

#[test]
fn locator_prefers_primary_over_secondary_at_same_level() {
    let levels = vec![level(Some("11\n"), Some("java 21\n"))];
    assert_eq!(locate_specifier(&levels).unwrap(), "11");
}

#[test]
fn locator_prefers_nearer_level() {
    let levels = vec![
        level(None, Some("java 21\n")),
        level(Some("17\n"), None),
    ];
    assert_eq!(locate_specifier(&levels).unwrap(), "21");
}

#[test]
fn locator_skips_secondary_without_java_line() {
    let levels = vec![
        level(None, Some("ruby 3.2\nnodejs 20\n")),
        level(Some("17\n"), None),
    ];
    assert_eq!(locate_specifier(&levels).unwrap(), "17");
}

#[test]
fn locator_fails_when_no_level_declares_anything() {
    let levels = vec![level(None, None), level(None, None)];
    assert!(matches!(locate_specifier(&levels), Err(Error::NoConfigFound)));
}

#[test]
fn locator_fails_on_empty_tree() {
    let levels: Vec<DirLevel> = Vec::new();
    assert!(matches!(locate_specifier(&levels), Err(Error::NoConfigFound)));
}

#[test]
fn java_line_is_found_among_other_tools() {
    assert_eq!(
        find_java_line("ruby 3.2\njava 21\nnodejs 20\n").as_deref(),
        Some("21")
    );
}

#[test]
fn java_line_requires_the_exact_tool_token() {
    assert_eq!(find_java_line("javascript 1\n"), None);
}

#[test]
fn java_line_tolerates_surrounding_whitespace() {
    assert_eq!(find_java_line("  java temurin-17\n").as_deref(), Some("temurin-17"));
}

#[test]
fn java_line_absent_when_file_is_empty() {
    assert_eq!(find_java_line(""), None);
}
