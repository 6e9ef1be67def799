use dvm::meta::{
    alias_set, default_alias_requirement, default_registry, is_default_alias, Alias, DvmMeta,
    VersionMapping,
};
use dvm::version::{Version, VersionArg};

fn svec(items: &[&str]) -> Vec<String> {
    items.iter().map(|s| s.to_string()).collect()
}

fn mapping(required: &str, current: &str) -> VersionMapping {
    VersionMapping {
        required: required.to_string(),
        current: current.to_string(),
    }
}

#[test]
fn cache_validity() {
    // a memo whose requirement still matches its version is valid
    assert!(mapping("^1.0.0", "1.2.0").is_valid_mapping());
    // one whose version escaped the range is not
    assert!(!mapping("^1.0.0", "2.0.0").is_valid_mapping());
    // unparseable text is never valid
    assert!(!mapping("^1.0.0", "one dot two").is_valid_mapping());
    assert!(!mapping("not a range", "1.2.0").is_valid_mapping());
}

#[test]
fn get_treats_invalid_memos_as_misses() {
    let mut meta = DvmMeta::default();
    meta.set_version_mapping("^1.0.0".to_string(), "1.2.0".to_string());
    let installed = svec(&["1.2.0", "2.0.0"]);
    assert_eq!(
        meta.get_version_mapping("^1.0.0", &installed),
        Some("1.2.0".to_string())
    );
    // the version's directory is gone: a miss
    assert_eq!(meta.get_version_mapping("^1.0.0", &svec(&[])), None);
    // the memo no longer satisfies its requirement: a miss
    let mut bad = DvmMeta::default();
    bad.set_version_mapping("^1.0.0".to_string(), "2.0.0".to_string());
    assert_eq!(bad.get_version_mapping("^1.0.0", &installed), None);
    // no memo at all
    assert_eq!(meta.get_version_mapping("~9", &installed), None);
}

#[test]
fn mapping_set_overwrites_by_key() {
    let mut meta = DvmMeta::default();
    meta.set_version_mapping("^1.0.0".to_string(), "1.1.0".to_string());
    meta.set_version_mapping("^1.0.0".to_string(), "1.2.0".to_string());
    assert_eq!(meta.versions.len(), 1);
    assert_eq!(meta.versions[0].current, "1.2.0".to_string());
    meta.delete_version_mapping("^1.0.0");
    assert!(meta.versions.is_empty());
    // deleting an absent key is a no-op
    meta.delete_version_mapping("^1.0.0");
    assert!(meta.versions.is_empty());
}

#[test]
fn prune_drops_invalid_and_missing() {
    let mut meta = DvmMeta::default();
    meta.versions.push(mapping("^1.0.0", "1.2.0"));
    meta.versions.push(mapping("^1.0.0", "2.0.0"));
    meta.versions.push(mapping("~0.8", "0.8.5"));
    meta.prune_invalid(&svec(&["1.2.0"]));
    assert_eq!(meta.versions, vec![mapping("^1.0.0", "1.2.0")]);
}

#[test]
fn alias_protection() {
    let mut meta = DvmMeta::default();
    let before = meta.resolve_version_req("latest");
    // binding the built-in name must not alter its resolution
    meta.set_alias("latest".to_string(), "1.0.0".to_string());
    assert!(meta.alias.is_empty());
    assert_eq!(meta.resolve_version_req("latest"), before);
    assert_eq!(before, VersionArg::Range("*".to_string()));
    // nor may deleting it
    meta.delete_alias("latest");
    assert_eq!(meta.resolve_version_req("latest"), VersionArg::Range("*".to_string()));
}

#[test]
fn user_aliases() {
    let mut meta = DvmMeta::default();
    meta.set_alias("stable".to_string(), "^1.0.0".to_string());
    assert!(meta.has_alias("stable"));
    assert!(meta.has_alias("latest"));
    assert!(!meta.has_alias("nightly"));
    assert_eq!(
        meta.get_alias("stable"),
        Some(VersionArg::Range("^1.0.0".to_string()))
    );
    meta.set_alias("pinned".to_string(), "1.4.0".to_string());
    assert_eq!(
        meta.get_alias("pinned"),
        Some(VersionArg::Exact(Version::parse("1.4.0").unwrap()))
    );
    meta.delete_alias("stable");
    assert!(!meta.has_alias("stable"));
    // resolving a non-alias falls back to the descriptor rules
    assert_eq!(
        meta.resolve_version_req("1.0.0"),
        VersionArg::Exact(Version::parse("1.0.0").unwrap())
    );
}

#[test]
fn alias_set_validates_requirement() {
    let mut meta = DvmMeta::default();
    match alias_set(&mut meta, "broken".to_string(), "no such range".to_string()) {
        Err(dvm::error::DvmError::InvalidVersionReq(t)) => {
            assert_eq!(t, "no such range".to_string())
        }
        _ => panic!("an unparseable requirement must be rejected"),
    }
    assert!(meta.alias.is_empty());
    assert!(alias_set(&mut meta, "stable".to_string(), "^1.0.0".to_string()).is_ok());
    assert_eq!(meta.alias.len(), 1);
}

#[test]
fn listing_starts_with_builtins() {
    let mut meta = DvmMeta::default();
    meta.set_alias("stable".to_string(), "^1.0.0".to_string());
    let all = meta.list_alias();
    assert_eq!(
        all,
        vec![
            Alias { name: "latest".to_string(), required: "*".to_string() },
            Alias { name: "stable".to_string(), required: "^1.0.0".to_string() },
        ]
    );
}

#[test]
fn clean_pass_helpers() {
    let mut meta = DvmMeta::default();
    meta.versions.push(mapping("^1.0.0", "1.2.0"));
    meta.versions.push(mapping("^1.0.0", "2.0.0"));
    assert_eq!(meta.invalid_requireds(), svec(&["^1.0.0"]));
    let dirs = svec(&["1.2.0", "2.0.0", "0.5.0"]);
    assert_eq!(meta.stale_dirs(&dirs), svec(&["0.5.0"]));
}

#[test]
fn defaults_and_paths() {
    assert_eq!(default_registry(), "https://dl.deno.land/".to_string());
    assert!(is_default_alias("latest"));
    assert!(!is_default_alias("stable"));
    assert_eq!(default_alias_requirement("latest"), Some("*"));
    assert_eq!(default_alias_requirement("stable"), None);
    assert_eq!(
        DvmMeta::path("/home/someone/.dvm"),
        "/home/someone/.dvm/dvm-metadata.json".to_string()
    );
    let meta = DvmMeta::default();
    assert!(meta.versions.is_empty() && meta.alias.is_empty());
}

#[test]
fn reload_replaces_tables() {
    let mut meta = DvmMeta::default();
    meta.set_alias("old".to_string(), "*".to_string());
    meta.reload(
        vec![mapping("^1.0.0", "1.2.0")],
        vec![Alias { name: "fresh".to_string(), required: "~2".to_string() }],
    );
    assert_eq!(meta.versions, vec![mapping("^1.0.0", "1.2.0")]);
    assert_eq!(meta.alias.len(), 1);
    assert_eq!(meta.alias[0].name, "fresh".to_string());
    assert_eq!(meta.registry, "https://dl.deno.land/".to_string());
}
