use dvm::cli::{ExecInvocation, RegistryPredefined, split_exec_args};
use dvm::commands::alias::get_upgrade_version;
use dvm::commands::install::{
    classify_download_status, compose_canary_url, compose_url_to_exec, is_version_installed,
    plan_install, DownloadStatus, InstallTarget,
};
use dvm::commands::registry::{registry_apply, registry_binary_value, registry_version_value};
use dvm::commands::run::choose_exec_version;
use dvm::commands::uninstall::plan_uninstall;
use dvm::commands::upgrade::{plan_upgrade, UpgradeStep};
use dvm::commands::use_version::{
    check_reported_version, parse_descriptor, plan_use_mapping, resolve_start,
    resolve_with_catalog, resolve_with_latest, ActiveSlot, ResolutionStep, VersionSpecifier,
};
use dvm::configrc::{rc_render, RcStore};
use dvm::error::DvmError;
use dvm::meta::DvmMeta;
use dvm::version::Version;

fn svec(items: &[&str]) -> Vec<String> {
    items.iter().map(|s| s.to_string()).collect()
}

#[test]
fn exact_version_round_trip() {
    let meta = DvmMeta::default();
    let rc = RcStore::new();
    // a valid version string parses to exactly itself ...
    let spec = parse_descriptor(&meta, &rc, &Some("1.14.2".to_string())).unwrap();
    assert_eq!(
        spec,
        VersionSpecifier::Exact(Version::parse("1.14.2").unwrap())
    );
    // ... resolution chooses it without further lookups ...
    match resolve_start(&meta, &rc, &Some("1.14.2".to_string())).unwrap() {
        ResolutionStep::Chosen(v) => assert_eq!(v, Version::parse("1.14.2").unwrap()),
        _ => panic!("an exact version needs no catalog"),
    }
    // ... and the activation gate accepts only a binary reporting exactly it
    let v = Version::parse("1.14.2").unwrap();
    assert!(check_reported_version("deno 1.14.2\n", &v));
    assert!(!check_reported_version("deno 1.14.3\n", &v));
    assert!(!check_reported_version("something else", &v));
}

#[test]
fn descriptor_rules() {
    let mut meta = DvmMeta::default();
    meta.set_alias("stable".to_string(), "^1.0.0".to_string());
    let rc = RcStore::new();
    assert_eq!(
        parse_descriptor(&meta, &rc, &Some("canary".to_string())).unwrap(),
        VersionSpecifier::Canary
    );
    assert_eq!(
        parse_descriptor(&meta, &rc, &Some("system".to_string())).unwrap(),
        VersionSpecifier::System
    );
    assert_eq!(
        parse_descriptor(&meta, &rc, &Some("stable".to_string())).unwrap(),
        VersionSpecifier::Range("^1.0.0".to_string())
    );
    assert_eq!(
        parse_descriptor(&meta, &rc, &Some("latest".to_string())).unwrap(),
        VersionSpecifier::Range("*".to_string())
    );
    // a raw range is deliberately rejected: ranges must be named by aliases
    match parse_descriptor(&meta, &rc, &Some("^1.0.0".to_string())) {
        Err(DvmError::InvalidVersion(t)) => assert_eq!(t, "^1.0.0".to_string()),
        _ => panic!("raw ranges must be rejected"),
    }
    // no input: fall back to the cascade, then the wildcard
    assert_eq!(
        parse_descriptor(&meta, &rc, &None).unwrap(),
        VersionSpecifier::Range("*".to_string())
    );
    let mut with_rc = RcStore::new();
    with_rc.rc_update(false, "deno_version", "1.2.0");
    assert_eq!(
        parse_descriptor(&meta, &with_rc, &None).unwrap(),
        VersionSpecifier::Exact(Version::parse("1.2.0").unwrap())
    );
}

#[test]
fn resolution_steps() {
    let mut meta = DvmMeta::default();
    meta.set_alias("stable".to_string(), "^1.0.0".to_string());
    let rc = RcStore::new();
    assert!(matches!(
        resolve_start(&meta, &rc, &Some("canary".to_string())).unwrap(),
        ResolutionStep::UseCanary
    ));
    assert!(matches!(
        resolve_start(&meta, &rc, &Some("system".to_string())).unwrap(),
        ResolutionStep::UseSystem
    ));
    // the wildcard asks the registry for the latest release
    assert!(matches!(
        resolve_start(&meta, &rc, &Some("latest".to_string())).unwrap(),
        ResolutionStep::NeedLatest
    ));
    match resolve_start(&meta, &rc, &Some("stable".to_string())).unwrap() {
        ResolutionStep::NeedCatalog(r) => assert_eq!(r, "^1.0.0".to_string()),
        _ => panic!("a proper range needs the catalog"),
    }
}

#[test]
fn catalog_resolution() {
    let catalog = svec(&["1.0.0", "1.2.0", "2.0.0"]);
    assert_eq!(
        resolve_with_catalog("^1.0.0", &catalog).unwrap(),
        Version::parse("1.2.0").unwrap()
    );
    match resolve_with_catalog("^9", &catalog) {
        Err(DvmError::NoVersionSatisfying(t)) => assert_eq!(t, "^9".to_string()),
        _ => panic!("nothing satisfies ^9"),
    }
    match resolve_with_catalog("not a range", &catalog) {
        Err(DvmError::InvalidVersionReq(_)) => {}
        _ => panic!("the range text must be validated"),
    }
    assert_eq!(
        resolve_with_latest(" v1.7.0\n").unwrap(),
        Version::parse("1.7.0").unwrap()
    );
    assert!(matches!(
        resolve_with_latest("<html>mirror down</html>"),
        Err(DvmError::InvalidVersion(_))
    ));
}

#[test]
fn idempotent_activation() {
    let mut slot = ActiveSlot { linked: None };
    slot.activate("1.14.2".to_string());
    let first = slot.linked.clone();
    // activating the already-active version again leaves the slot as it was
    slot.activate("1.14.2".to_string());
    assert_eq!(slot.linked, first);
    // and writes nothing into the resolution cache: an installed version
    // never records a mapping
    let v = Version::parse("1.14.2").unwrap();
    assert_eq!(plan_use_mapping(&"stable".to_string(), true, &v), None);
    // a fresh install of a range key does record one
    assert_eq!(
        plan_use_mapping(&"stable".to_string(), false, &v),
        Some(("stable".to_string(), "1.14.2".to_string()))
    );
    // but an exact key is never memoized
    assert_eq!(plan_use_mapping(&"1.14.2".to_string(), false, &v), None);
    slot.deactivate();
    assert_eq!(slot.linked, None);
}

#[test]
fn install_planning() {
    assert!(matches!(
        plan_install(&Some("canary".to_string())).unwrap(),
        InstallTarget::Canary
    ));
    assert!(matches!(plan_install(&None).unwrap(), InstallTarget::NeedLatest));
    match plan_install(&Some("1.7.0".to_string())).unwrap() {
        InstallTarget::Picked(v) => assert_eq!(v, Version::parse("1.7.0").unwrap()),
        _ => panic!("an exact version must be picked"),
    }
    assert!(matches!(
        plan_install(&Some("nonsense".to_string())),
        Err(DvmError::InvalidVersion(_))
    ));
    let v = Version::parse("1.7.0").unwrap();
    assert!(is_version_installed(&v, &svec(&["1.6.0", "1.7.0"])));
    assert!(!is_version_installed(&v, &svec(&["1.6.0"])));
}

#[test]
fn test_compose_url_to_exec() {
    let v = Version::parse("1.7.0").unwrap();
    let url = compose_url_to_exec(
        "https://dl.deno.land/",
        &v,
        "deno-x86_64-unknown-linux-gnu.zip",
    );
    assert!(
        url == "https://dl.deno.land/release/v1.7.0/deno-x86_64-unknown-linux-gnu.zip".to_string()
            || url
                == "https://dl.deno.js.cn/release/v1.7.0/deno-x86_64-unknown-linux-gnu.zip"
                    .to_string()
    );
    assert_eq!(
        compose_canary_url("https://dl.deno.land/", "abc123", "deno-x86_64-unknown-linux-gnu.zip"),
        "https://dl.deno.land/canary/abc123/deno-x86_64-unknown-linux-gnu.zip".to_string()
    );
}

#[test]
fn download_status_classification() {
    assert!(matches!(classify_download_status(404), DownloadStatus::NotFound));
    assert!(matches!(classify_download_status(500), DownloadStatus::Failed));
    assert!(matches!(classify_download_status(403), DownloadStatus::Failed));
    assert!(matches!(classify_download_status(200), DownloadStatus::Success));
}

#[test]
fn uninstall_planning() {
    let installed = svec(&["1.6.0", "1.7.0"]);
    let current = Some("1.6.0".to_string());
    assert_eq!(
        plan_uninstall("1.7.0", &installed, &current).unwrap(),
        Version::parse("1.7.0").unwrap()
    );
    assert!(matches!(
        plan_uninstall("huh", &installed, &current),
        Err(DvmError::InvalidVersion(_))
    ));
    match plan_uninstall("1.5.0", &installed, &current) {
        Err(DvmError::VersionNotInstalled(t)) => assert_eq!(t, "1.5.0".to_string()),
        _ => panic!("an absent version cannot be uninstalled"),
    }
    // removing the active version is refused
    match plan_uninstall("1.6.0", &installed, &current) {
        Err(DvmError::VersionInUse(t)) => assert_eq!(t, "1.6.0".to_string()),
        _ => panic!("the active version must be protected"),
    }
}

#[test]
fn upgrade_planning() {
    let mut meta = DvmMeta::default();
    meta.set_alias("stable".to_string(), "^1.0.0".to_string());
    meta.set_alias("pinned".to_string(), "1.4.0".to_string());
    meta.set_version_mapping("pinned".to_string(), "1.4.0".to_string());
    let catalog = svec(&["1.0.0", "1.2.0", "2.0.0"]);
    let installed = svec(&["1.4.0"]);

    assert!(matches!(
        plan_upgrade(&meta, "self", &catalog, &installed).unwrap(),
        UpgradeStep::UpgradeSelf
    ));
    assert!(matches!(
        plan_upgrade(&meta, "canary", &catalog, &installed).unwrap(),
        UpgradeStep::UpgradeCanary
    ));
    assert!(matches!(
        plan_upgrade(&meta, "nightly", &catalog, &installed),
        Err(DvmError::UnknownAlias(_))
    ));
    // a memo keyed by a plain alias name is not a valid requirement memo, so
    // validity-checked reads miss it and the pinned version is reinstalled
    match plan_upgrade(&meta, "pinned", &catalog, &installed).unwrap() {
        UpgradeStep::Install { version, record } => {
            assert_eq!(version, Version::parse("1.4.0").unwrap());
            assert_eq!(record, None);
        }
        _ => panic!("an untrusted memo must not count as up to date"),
    }
    // an exact alias whose memo is a requirement naming its version is up to
    // date
    meta.set_alias("1.4".to_string(), "1.4.0".to_string());
    meta.set_version_mapping("1.4".to_string(), "1.4.0".to_string());
    assert!(matches!(
        plan_upgrade(&meta, "1.4", &catalog, &installed).unwrap(),
        UpgradeStep::AlreadyLatest(_)
    ));
    // a range alias installs the catalog's best match and memoizes it
    match plan_upgrade(&meta, "stable", &catalog, &installed).unwrap() {
        UpgradeStep::Install { version, record } => {
            assert_eq!(version, Version::parse("1.2.0").unwrap());
            assert_eq!(record, Some(("stable".to_string(), "1.2.0".to_string())));
        }
        _ => panic!("a range alias upgrades through the catalog"),
    }
}

#[test]
fn upgrade_hints() {
    let remote = svec(&["1.0.0", "1.2.0", "2.0.0"]);
    let local = svec(&["1.0.0"]);
    assert_eq!(
        get_upgrade_version("^1.0.0", &remote, &local).unwrap(),
        Some(Version::parse("1.2.0").unwrap())
    );
    // nothing newer remotely: no hint
    assert_eq!(
        get_upgrade_version("^1.0.0", &remote, &svec(&["1.2.0"])).unwrap(),
        None
    );
    // nothing installed that matches: no hint either
    assert_eq!(get_upgrade_version("^1.0.0", &remote, &svec(&[])).unwrap(), None);
    assert!(matches!(
        get_upgrade_version("borked", &remote, &local),
        Err(DvmError::InvalidVersionReq(_))
    ));
}

#[test]
fn exec_version_choice() {
    let mut meta = DvmMeta::default();
    meta.set_alias("stable".to_string(), "^1.0.0".to_string());
    let catalog = svec(&["1.0.0", "1.2.0", "2.0.0"]);
    assert_eq!(
        choose_exec_version(&meta, &Some("1.6.3".to_string()), &catalog).unwrap(),
        Version::parse("1.6.3").unwrap()
    );
    assert_eq!(
        choose_exec_version(&meta, &Some("stable".to_string()), &catalog).unwrap(),
        Version::parse("1.2.0").unwrap()
    );
    // nothing named: the latest alias
    assert_eq!(
        choose_exec_version(&meta, &None, &catalog).unwrap(),
        Version::parse("2.0.0").unwrap()
    );
    assert!(matches!(
        choose_exec_version(&meta, &Some("mystery".to_string()), &catalog),
        Err(DvmError::InvalidVersion(_))
    ));
}

#[test]
fn registry_values() {
    assert_eq!(
        registry_binary_value("official"),
        Some("https://dl.deno.land/".to_string())
    );
    assert_eq!(registry_binary_value("cn"), Some("https://dl.deno.js.cn/".to_string()));
    assert_eq!(
        registry_binary_value("https://mirror.example/deno/"),
        Some("https://mirror.example/deno/".to_string())
    );
    assert_eq!(registry_binary_value("ftp://nope"), None);
    assert_eq!(
        registry_version_value("official"),
        Some("https://raw.githubusercontent.com/denoland/dotland/main/versions.json".to_string())
    );
    assert_eq!(registry_version_value("cn"), Some("https://dl.deno.js.cn/versions.json".to_string()));
    assert_eq!(registry_version_value("not a url"), None);

    let mut rc = RcStore::new();
    registry_apply(&mut rc, &RegistryPredefined::CN, false);
    assert_eq!(rc.rc_get("registry_binary"), Some("https://dl.deno.js.cn/".to_string()));
    assert_eq!(
        rc.rc_get("registry_version"),
        Some("https://dl.deno.js.cn/versions.json".to_string())
    );
    assert_eq!(rc_render(&rc, true), None);

    assert!(matches!(RegistryPredefined::from_name("official"), Some(RegistryPredefined::Official)));
    assert!(matches!(RegistryPredefined::from_name("cn"), Some(RegistryPredefined::CN)));
    assert!(RegistryPredefined::from_name("eu").is_none());
    assert_eq!(RegistryPredefined::Official.get_binary_url(), "https://dl.deno.land/".to_string());
    assert_eq!(RegistryPredefined::CN.get_version_url(), "https://dl.deno.js.cn/versions.json".to_string());
}

#[test]
fn exec_argument_splitting() {
    let args = svec(&["dvm", "exec", "--version", "1.2.0", "run", "main.ts"]);
    match split_exec_args(&args) {
        ExecInvocation::Run { version, args } => {
            assert_eq!(version, Some("1.2.0".to_string()));
            assert_eq!(args, svec(&["run", "main.ts"]));
        }
        _ => panic!("a flagged version must be picked up"),
    }
    match split_exec_args(&svec(&["dvm", "exec", "-V=1.2.0", "run"])) {
        ExecInvocation::Run { version, args } => {
            assert_eq!(version, Some("1.2.0".to_string()));
            assert_eq!(args, svec(&["run"]));
        }
        _ => panic!("a glued version must be picked up"),
    }
    match split_exec_args(&svec(&["dvm", "exec", "run", "main.ts"])) {
        ExecInvocation::Run { version, args } => {
            assert_eq!(version, None);
            assert_eq!(args, svec(&["run", "main.ts"]));
        }
        _ => panic!("arguments without a version flag pass through"),
    }
    assert!(matches!(
        split_exec_args(&svec(&["dvm", "exec", "--version"])),
        ExecInvocation::MissingVersion
    ));
    assert!(matches!(
        split_exec_args(&svec(&["dvm", "list"])),
        ExecInvocation::NotExec
    ));
    match split_exec_args(&svec(&["dvm", "exec"])) {
        ExecInvocation::Run { version, args } => {
            assert_eq!(version, None);
            assert!(args.is_empty());
        }
        _ => panic!("a bare exec runs with defaults"),
    }
}

#[test]
fn error_messages_name_the_culprit() {
    assert_eq!(
        DvmError::InvalidVersion("wat".to_string()).message(),
        "wat is not a valid semver version or tag".to_string()
    );
    assert_eq!(
        DvmError::InvalidVersionReq("wat".to_string()).message(),
        "wat is not a valid semver range".to_string()
    );
    assert_eq!(
        DvmError::UnknownAlias("wat".to_string()).message(),
        "wat is not a known alias".to_string()
    );
    assert_eq!(
        DvmError::NoVersionSatisfying("^9".to_string()).message(),
        "no version satisfies ^9".to_string()
    );
    assert_eq!(
        DvmError::VersionNotInstalled("1.0.0".to_string()).message(),
        "deno v1.0.0 is not installed".to_string()
    );
    assert_eq!(
        DvmError::VersionInUse("1.0.0".to_string()).message(),
        "deno v1.0.0 is in use".to_string()
    );
}

#[test]
fn path_helpers() {
    assert_eq!(dvm::utils::dvm_versions("/root/.dvm"), "/root/.dvm/versions".to_string());
    assert_eq!(dvm::utils::deno_bin_path("/root/.dvm"), "/root/.dvm/bin/deno".to_string());
    assert_eq!(dvm::utils::deno_canary_path("/root/.dvm"), "/root/.dvm/canary/deno".to_string());
    let v = Version::parse("1.7.0").unwrap();
    assert_eq!(
        dvm::utils::deno_version_path("/root/.dvm", &v),
        "/root/.dvm/versions/1.7.0/deno".to_string()
    );
    assert_eq!(
        dvm::utils::cached_remote_versions_location("/root/.dvm"),
        "/root/.dvm/cached-remote-versions.json".to_string()
    );
    assert!(dvm::utils::is_http_like_url("https://dl.deno.land/"));
    assert!(dvm::utils::is_http_like_url("http://mirror.local/"));
    assert!(!dvm::utils::is_http_like_url("file:///tmp"));
}
