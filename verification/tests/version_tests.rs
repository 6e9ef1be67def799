use dvm::version::{
    apply_refresh, best_version, compare_version_strings, filter_semver_names,
    find_max_matching_version, is_exact_version, is_semver, is_valid_semver_range,
    normalize_version_text, normalize_versions, parse_deno_version_output, read_or_prompt,
    sort_semver_version, Cached, CatalogRead, Version, VersionArg,
};

fn svec(items: &[&str]) -> Vec<String> {
    items.iter().map(|s| s.to_string()).collect()
}

#[test]
fn test_best_version() {
    let versions = svec(&[
        "0.8.5",
        "0.8.0",
        "0.9.0",
        "1.0.0",
        "1.0.0-alpha",
        "1.0.0-beta",
        "0.5.0",
        "2.0.0",
    ]);
    assert_eq!(
        best_version(&versions, "*"),
        Some(Version::parse("2.0.0").unwrap())
    );
    assert_eq!(
        best_version(&versions, "^1"),
        Some(Version::parse("1.0.0").unwrap())
    );
    assert_eq!(
        best_version(&versions, "~0.8"),
        Some(Version::parse("0.8.5").unwrap())
    );
}

#[test]
fn sort_version() {
    let v1 = String::from("0.2.10-beta");
    let v2 = String::from("0.2.9");
    let v3 = String::from("0.2.10-alpha1");
    let v4 = String::from("1.10.0");
    let v5 = String::from("1.9.2");
    let v6 = String::from("9.9.0");
    let v7 = String::from("10.9.0");

    assert_eq!(sort_semver_version(&v1, &v2), std::cmp::Ordering::Greater);
    assert_eq!(sort_semver_version(&v1, &v3), std::cmp::Ordering::Greater);
    assert_eq!(sort_semver_version(&v4, &v3), std::cmp::Ordering::Greater);
    assert_eq!(sort_semver_version(&v5, &v4), std::cmp::Ordering::Less);
    assert_eq!(sort_semver_version(&v7, &v6), std::cmp::Ordering::Greater);
}

#[test]
fn parse_reads_all_fields() {
    let v = Version::parse("1.2.3-alpha.7+build5").unwrap();
    assert_eq!(v.major, 1);
    assert_eq!(v.minor, 2);
    assert_eq!(v.patch, 3);
    assert_eq!(v.pre, svec(&["alpha", "7"]));
    assert_eq!(v.build, "build5".to_string());

    let plain = Version::parse("10.0.1").unwrap();
    assert!(plain.pre.is_empty());
    assert_eq!(plain.build, String::new());
}

#[test]
fn parse_rejects_non_versions() {
    assert!(Version::parse("1.0").is_none());
    assert!(Version::parse("canary").is_none());
    assert!(Version::parse("^1.0.0").is_none());
    assert!(!is_exact_version("*"));
    assert!(is_exact_version("0.0.0"));
    assert!(is_semver("1.2.3-rc.1"));
}

#[test]
fn requirement_validation() {
    assert!(is_valid_semver_range("^1.0.0"));
    assert!(is_valid_semver_range("*"));
    assert!(is_valid_semver_range("~0.8"));
    assert!(!is_valid_semver_range("not a requirement"));
}

#[test]
fn rendering_round_trips_text() {
    let v = Version::parse("1.2.3-alpha.7+build5").unwrap();
    assert_eq!(v.to_version_string(), "1.2.3-alpha.7+build5".to_string());
    let w = Version::parse("12.0.10").unwrap();
    assert_eq!(w.to_version_string(), "12.0.10".to_string());
}

#[test]
fn precedence_follows_semver_rules() {
    // numeric identifiers compare numerically
    assert_eq!(
        sort_semver_version("1.0.0-2", "1.0.0-10"),
        std::cmp::Ordering::Less
    );
    // numeric identifiers come before alphanumeric ones
    assert_eq!(
        sort_semver_version("1.0.0-1", "1.0.0-alpha"),
        std::cmp::Ordering::Less
    );
    // a shorter identifier list precedes its extensions
    assert_eq!(
        sort_semver_version("1.0.0-rc.1", "1.0.0-rc.1.1"),
        std::cmp::Ordering::Less
    );
    // a release stands above every pre-release of its triple
    assert_eq!(
        sort_semver_version("1.0.0-rc.9", "1.0.0"),
        std::cmp::Ordering::Less
    );
    // build metadata does not participate
    assert_eq!(
        sort_semver_version("1.0.0+a", "1.0.0+b"),
        std::cmp::Ordering::Equal
    );
}

#[test]
fn compare_version_strings_guards_bad_input() {
    assert!(compare_version_strings("1.0.0", "not-a-version").is_none());
    assert_eq!(
        compare_version_strings("2.0.0", "1.9.9"),
        Some(std::cmp::Ordering::Greater)
    );
}

#[test]
fn find_max_matching_version_reports_bad_requirements() {
    let versions = svec(&["1.0.0", "1.2.0"]);
    match find_max_matching_version("definitely not", &versions) {
        Err(dvm::error::DvmError::InvalidVersionReq(t)) => {
            assert_eq!(t, "definitely not".to_string())
        }
        _ => panic!("expected an invalid-requirement error"),
    }
    assert_eq!(
        find_max_matching_version("^1", &versions).unwrap(),
        Some(Version::parse("1.2.0").unwrap())
    );
    assert_eq!(find_max_matching_version("^3", &versions).unwrap(), None);
}

#[test]
fn filter_keeps_version_directories_only() {
    let names = svec(&["1.0.0", "bin", "2.1.0-rc.1", ".dvmstub", "canary"]);
    assert_eq!(filter_semver_names(&names), svec(&["1.0.0", "2.1.0-rc.1"]));
}

#[test]
fn normalization_strips_v_letters() {
    let raw = svec(&["v1.0.0", "1.1.0", "v2.0.0-rc.1"]);
    assert_eq!(
        normalize_versions(&raw),
        svec(&["1.0.0", "1.1.0", "2.0.0-rc.1"])
    );
    assert_eq!(
        normalize_version_text("  v1.7.0\n"),
        "1.7.0".to_string()
    );
}

#[test]
fn deno_report_parsing() {
    assert_eq!(
        parse_deno_version_output("deno 1.14.2\n"),
        Some("1.14.2".to_string())
    );
    assert_eq!(parse_deno_version_output("denno 1.14.2"), None);
}

#[test]
fn staleness_gate() {
    let ttl: u128 = 1000;
    let cache = Cached {
        versions: svec(&["1.0.0"]),
        time: 5_000,
    };
    // older than the TTL: not fresh, so the read demands a prompt
    assert!(!cache.is_fresh(6_500, ttl));
    assert!(matches!(
        read_or_prompt(&Some(cache.clone()), 6_500, ttl),
        CatalogRead::MustPrompt
    ));
    // within the TTL: the cached list is served
    assert!(cache.is_fresh(5_900, ttl));
    match read_or_prompt(&Some(cache), 5_900, ttl) {
        CatalogRead::Fresh(v) => assert_eq!(v, svec(&["1.0.0"])),
        CatalogRead::MustPrompt => panic!("fresh cache must be served"),
    }
    // no cache at all: prompt
    assert!(matches!(
        read_or_prompt(&None, 0, ttl),
        CatalogRead::MustPrompt
    ));
}

#[test]
fn refresh_keeps_old_cache_on_empty_response() {
    let prev = Some(Cached {
        versions: svec(&["1.0.0"]),
        time: 10,
    });
    let (kept, ok) = apply_refresh(prev.clone(), Vec::new(), 99);
    assert!(!ok);
    assert_eq!(kept, prev);

    let (replaced, ok) = apply_refresh(prev, svec(&["1.1.0"]), 99);
    assert!(ok);
    let replaced = replaced.unwrap();
    assert_eq!(replaced.versions, svec(&["1.1.0"]));
    assert_eq!(replaced.time, 99);
}

#[test]
fn version_arg_reading() {
    assert_eq!(
        VersionArg::from_input("1.2.0"),
        VersionArg::Exact(Version::parse("1.2.0").unwrap())
    );
    assert_eq!(
        VersionArg::from_input("^1.0.0"),
        VersionArg::Range("^1.0.0".to_string())
    );
    // neither a version nor a requirement: the wildcard
    assert_eq!(
        VersionArg::from_input("garbage input"),
        VersionArg::Range("*".to_string())
    );
    assert_eq!(
        VersionArg::from_input("^1.0.0").render(),
        "^1.0.0".to_string()
    );
}
