//! The upgrade command's decision: what upgrading one alias amounts to.
use vstd::prelude::*;

use crate::error::DvmError;
use crate::meta::{spec_get_alias, spec_get_mapping, DvmMeta};
use crate::strutil::{seq_views, str_eq};
use crate::version::{
    best_version, spec_is_best, spec_no_match, spec_version_str, Version, VersionArg,
    VersionArgView, VersionView,
};

verus! {

/// What upgrading a name means.
pub enum UpgradeStep {
    /// The manager itself is to be reinstalled.
    UpgradeSelf,
    /// The canary build is to be reinstalled.
    UpgradeCanary,
    /// The alias already resolves to its newest version.
    AlreadyLatest(Version),
    /// Install this version; for a range alias, memoize the resolution.
    Install { version: Version, record: Option<(String, String)> },
}

pub ghost enum UpgradeStepView {
    UpgradeSelf,
    UpgradeCanary,
    AlreadyLatest(VersionView),
    Install { version: VersionView, record: Option<(Seq<char>, Seq<char>)> },
}

impl View for UpgradeStep {
    type V = UpgradeStepView;

    open spec fn view(&self) -> UpgradeStepView {
        match self {
            UpgradeStep::UpgradeSelf => UpgradeStepView::UpgradeSelf,
            UpgradeStep::UpgradeCanary => UpgradeStepView::UpgradeCanary,
            UpgradeStep::AlreadyLatest(v) => UpgradeStepView::AlreadyLatest(v@),
            UpgradeStep::Install { version, record } => UpgradeStepView::Install {
                version: version@,
                record: match record {
                    Some(p) => Some((p.0@, p.1@)),
                    None => None,
                },
            },
        }
    }
}

/// The memoized current version of an alias, or the placeholder when none.
pub open spec fn spec_upgrade_current(
    m: crate::meta::DvmMetaView,
    alias: Seq<char>,
    installed: Seq<Seq<char>>,
) -> Seq<char> {
    match spec_get_mapping(m, alias, installed) {
        Some(c) => c,
        None => "N/A"@,
    }
}

/// Decide an upgrade of one name: the manager's own tag and the canary tag
/// come first; an unknown alias is rejected; an alias bound to an exact
/// version is reinstalled unless its memo already names it; an alias bound
/// to a range installs the catalog's best match and memoizes it.
pub fn plan_upgrade(meta: &DvmMeta, alias: &str, catalog: &Vec<String>, installed: &Vec<String>)
    -> (r: Result<UpgradeStep, DvmError>)
    ensures
        ({
            let current = spec_upgrade_current(meta@, alias@, seq_views(installed@));
            match r {
                Ok(step) => {
                    ||| (alias@ == "self"@ && step is UpgradeSelf)
                    ||| (alias@ != "self"@ && alias@ == "canary"@ && step is UpgradeCanary)
                    ||| (alias@ != "self"@ && alias@ != "canary"@ && (spec_get_alias(
                        meta@,
                        alias@,
                    ) matches Some(VersionArgView::Exact(vv)) && ((current == spec_version_str(vv)
                        && (step@ matches UpgradeStepView::AlreadyLatest(w) && w == vv)) || (
                    current != spec_version_str(vv) && (step@
                        matches UpgradeStepView::Install { version, record } && version == vv
                        && record is None)))))
                    ||| (alias@ != "self"@ && alias@ != "canary"@ && (spec_get_alias(
                        meta@,
                        alias@,
                    ) matches Some(VersionArgView::Range(rq)) && (step@
                        matches UpgradeStepView::Install { version, record } && spec_is_best(
                        rq,
                        seq_views(catalog@),
                        version,
                    ) && record == Some((alias@, spec_version_str(version))))))
                },
                Err(e) => match e {
                    DvmError::UnknownAlias(t) => alias@ != "self"@ && alias@ != "canary"@ && t@
                        == alias@ && spec_get_alias(meta@, alias@) is None,
                    DvmError::NoVersionSatisfying(t) => alias@ != "self"@ && alias@ != "canary"@
                        && (spec_get_alias(meta@, alias@) matches Some(VersionArgView::Range(rq))
                        && t@ == rq && spec_no_match(rq, seq_views(catalog@))),
                    _ => false,
                },
            }
        }),
{
    if str_eq(alias, "self") {
        return Ok(UpgradeStep::UpgradeSelf);
    }
    if str_eq(alias, "canary") {
        return Ok(UpgradeStep::UpgradeCanary);
    }
    let resolved = match meta.get_alias(alias) {
        Some(arg) => arg,
        None => {
            return Err(DvmError::UnknownAlias(alias.to_owned()));
        },
    };
    let current = match meta.get_version_mapping(alias, installed) {
        Some(c) => c,
        None => "N/A".to_owned(),
    };
    match resolved {
        VersionArg::Exact(v) => {
            let text = v.to_version_string();
            if str_eq(current.as_str(), text.as_str()) {
                Ok(UpgradeStep::AlreadyLatest(v))
            } else {
                Ok(UpgradeStep::Install { version: v, record: None })
            }
        },
        VersionArg::Range(rq) => {
            match best_version(catalog, rq.as_str()) {
                Some(v) => {
                    let text = v.to_version_string();
                    Ok(UpgradeStep::Install { version: v, record: Some((alias.to_owned(), text)) })
                },
                None => Err(DvmError::NoVersionSatisfying(rq)),
            }
        },
    }
}

} // verus!
