use jvm_select::errors::Error;
use jvm_select::jvm::Jvm;
use jvm_select::resolver::{distro_matches, resolve_specifier};
use jvm_select::specifier::Query;

fn jvm(bundle_id: &str, home_path: &str, version: &str) -> Jvm {
    Jvm {
        arch: "aarch64".to_string(),
        bundle_id: bundle_id.to_string(),
        enabled: true,
        home_path: home_path.to_string(),
        name: format!("JVM {}", version),
        platform_version: version.to_string(),
        vendor: "Some Vendor".to_string(),
        version: version.to_string(),
    }
}

fn registry() -> Vec<Jvm> {
    vec![
        jvm("com.oracle.java.21", "/jvms/oracle-21/Home", "21.0.1"),
        jvm("net.temurin.17.jdk", "/jvms/temurin-17/Home", "17.0.9"),
        jvm("com.oracle.java.17", "/jvms/oracle-17/Home", "17.0.2"),
        jvm("net.temurin.8.jdk", "/jvms/temurin-8/Home", "1.8.0_392"),
    ]
}

#[test]
fn resolver_returns_first_entry_in_registry_order() {
    let jvms = registry();
    assert_eq!(resolve_specifier("17", &jvms).unwrap(), 1);
}

#[test]
fn resolver_applies_distribution_constraint() {
    let jvms = registry();
    assert_eq!(resolve_specifier("oracle-17", &jvms).unwrap(), 2);
}

#[test]
fn resolver_matches_distribution_in_home_path() {
    let jvms = vec![jvm("com.example.java.17", "/jvms/zulu-17/Home", "17.0.1")];
    assert_eq!(resolve_specifier("zulu-17", &jvms).unwrap(), 0);
}

#[test]
fn resolver_matches_legacy_entry_by_normalized_version() {
    let jvms = registry();
    assert_eq!(resolve_specifier("8", &jvms).unwrap(), 3);
    assert_eq!(resolve_specifier("1.8", &jvms).unwrap(), 3);
}

#[test]
fn resolver_reports_no_matching_runtime() {
    let jvms = registry();
    let err = resolve_specifier("11", &jvms).unwrap_err();
    match err {
        Error::NoMatchingRuntime(q) => {
            assert_eq!(q.version, 11);
            assert_eq!(q.distro, None);
        }
        other => panic!("expected NoMatchingRuntime, got {:?}", other),
    }
}

#[test]
fn resolver_fails_on_empty_registry() {
    let jvms: Vec<Jvm> = Vec::new();
    assert!(matches!(
        resolve_specifier("17", &jvms),
        Err(Error::NoMatchingRuntime(_))
    ));
}

#[test]
fn resolver_reports_malformed_registry_entry() {
    let jvms = vec![
        jvm("com.example.bad", "/jvms/bad/Home", "seventeen"),
        jvm("net.temurin.17.jdk", "/jvms/temurin-17/Home", "17.0.9"),
    ];
    assert!(matches!(
        resolve_specifier("17", &jvms),
        Err(Error::MalformedVersion)
    ));
}

#[test]
fn resolver_reports_unparseable_specifier() {
    let jvms = registry();
    assert!(matches!(
        resolve_specifier("??", &jvms),
        Err(Error::UnparseableSpecifier)
    ));
}

#[test]
fn resolution_is_deterministic_for_unchanged_registry() {
    let jvms = registry();
    let first = resolve_specifier("temurin-17", &jvms).unwrap();
    let second = resolve_specifier("temurin-17", &jvms).unwrap();
    assert_eq!(first, second);
    assert_eq!(first, 1);
}

#[test]
fn distro_match_without_constraint_accepts_everything() {
    let q = Query { distro: None, version: 17 };
    assert!(distro_matches(&q, &jvm("com.oracle.java.17", "/jvms/oracle-17", "17.0.2")));
}

#[test]
fn distro_match_is_case_sensitive_substring() {
    let q = Query { distro: Some("Temurin".to_string()), version: 17 };
    assert!(!distro_matches(&q, &jvm("net.temurin.17.jdk", "/jvms/temurin-17", "17.0.9")));
    let q = Query { distro: Some("temurin".to_string()), version: 17 };
    assert!(distro_matches(&q, &jvm("net.temurin.17.jdk", "/jvms/temurin-17", "17.0.9")));
}
