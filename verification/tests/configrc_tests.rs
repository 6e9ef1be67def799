use dvm::configrc::{rc_parse, rc_render, RcStore};
use dvm::utils::load_dvmrc;
use dvm::version::VersionArg;

fn store_with(global: Option<&[(&str, &str)]>, local: Option<&[(&str, &str)]>) -> RcStore {
    let conv = |entries: &[(&str, &str)]| {
        entries
            .iter()
            .map(|(k, v)| (k.to_string(), v.to_string()))
            .collect::<Vec<_>>()
    };
    RcStore {
        local: local.map(conv),
        global: global.map(conv),
    }
}

#[test]
fn parse_reads_key_value_lines() {
    let parsed = rc_parse("registry_binary=A\njunk line\ndeno_version=latest\nempty=");
    assert_eq!(
        parsed,
        vec![
            ("registry_binary".to_string(), "A".to_string()),
            ("deno_version".to_string(), "latest".to_string()),
            ("empty".to_string(), String::new()),
        ]
    );
    // a value may itself contain the separator; only the first one splits
    assert_eq!(
        rc_parse("key=a=b"),
        vec![("key".to_string(), "a=b".to_string())]
    );
}

#[test]
fn render_writes_one_line_per_entry() {
    let store = store_with(Some(&[("a", "1"), ("b", "2")]), None);
    assert_eq!(rc_render(&store, false), Some("a=1\nb=2".to_string()));
    assert_eq!(rc_render(&store, true), None);
    // rendering round-trips through the parser
    let text = rc_render(&store, false).unwrap();
    assert_eq!(
        rc_parse(&text),
        vec![
            ("a".to_string(), "1".to_string()),
            ("b".to_string(), "2".to_string())
        ]
    );
}

#[test]
fn cascade_precedence() {
    // global defines the key, local does not: the global value answers
    let mut store = store_with(Some(&[("registry_binary", "A")]), None);
    assert_eq!(store.rc_get("registry_binary"), Some("A".to_string()));
    // after a local-scoped write, the local value answers ...
    store.rc_update(true, "registry_binary", "B");
    assert_eq!(store.rc_get("registry_binary"), Some("B".to_string()));
    // ... while the global scope still holds the old one
    assert_eq!(rc_render(&store, false), Some("registry_binary=A".to_string()));
    // a key the local file does not define still falls through to global
    store.rc_update(false, "deno_version", "latest");
    assert_eq!(store.rc_get("deno_version"), Some("latest".to_string()));
    assert_eq!(store.rc_get("unknown_key"), None);
    assert!(store.rc_has("deno_version"));
    assert!(!store.rc_has("unknown_key"));
}

#[test]
fn init_writes_default_registries() {
    let mut store = RcStore::new();
    assert!(!store.rc_exists());
    store.rc_init();
    assert!(store.rc_exists());
    assert_eq!(
        store.rc_get("registry_binary"),
        Some("https://dl.deno.land/".to_string())
    );
    assert_eq!(
        store.rc_get("registry_version"),
        Some("https://raw.githubusercontent.com/denoland/dotland/main/versions.json".to_string())
    );
}

#[test]
fn fix_fills_missing_keys() {
    let mut store = store_with(Some(&[("registry_binary", "kept")]), None);
    store.rc_fix();
    assert_eq!(store.rc_get("registry_binary"), Some("kept".to_string()));
    assert!(store.rc_get("registry_version").is_some());
    assert_eq!(store.rc_get("deno_version"), Some("latest".to_string()));
    // with no global file at all, fix initializes it
    let mut fresh = RcStore::new();
    fresh.rc_fix();
    assert!(fresh.rc_exists());
}

#[test]
fn clean_drops_unrecognized_keys() {
    let mut store = store_with(
        Some(&[("registry_binary", "A"), ("stray", "x"), ("deno_version", "latest")]),
        None,
    );
    store.rc_clean(false);
    assert_eq!(
        rc_render(&store, false),
        Some("registry_binary=A\ndeno_version=latest".to_string())
    );
    // cleaning a scope whose file is missing is a no-op
    store.rc_clean(true);
    assert_eq!(rc_render(&store, true), None);
}

#[test]
fn remove_and_unlink() {
    let mut store = store_with(
        Some(&[("a", "1")]),
        Some(&[("a", "2"), ("b", "3"), ("a", "4")]),
    );
    store.rc_remove(true, "a");
    assert_eq!(rc_render(&store, true), Some("b=3".to_string()));
    assert_eq!(store.rc_get("a"), Some("1".to_string()));
    store.rc_unlink(false);
    assert_eq!(store.rc_get("a"), None);
    // removing from a missing scope is a no-op
    store.rc_unlink(true);
    store.rc_remove(true, "b");
    assert_eq!(rc_render(&store, true), None);
}

#[test]
fn ambient_version_fallback() {
    let mut store = RcStore::new();
    // nothing set anywhere: the wildcard
    assert_eq!(load_dvmrc(&store), VersionArg::Range("*".to_string()));
    store.rc_update(false, "deno_version", "^1.0.0");
    assert_eq!(load_dvmrc(&store), VersionArg::Range("^1.0.0".to_string()));
    store.rc_update(true, "deno_version", "1.2.0");
    assert_eq!(
        load_dvmrc(&store),
        VersionArg::Exact(dvm::version::Version::parse("1.2.0").unwrap())
    );
}
