//! Choosing the version an `exec` invocation runs under: an exact version,
//! an alias (resolved against the catalog when it names a range), or the
//! `latest` alias when nothing is named.
use vstd::prelude::*;

use crate::error::DvmError;
use crate::meta::{spec_get_alias, DvmMeta};
use crate::semver_ops::parsed_version;
use crate::strutil::seq_views;
use crate::version::{
    best_version, spec_is_best, spec_no_match, spec_parsed_view, Version, VersionArg,
    VersionArgView,
};

verus! {

/// The descriptor an `exec` invocation resolves: the named one or `latest`.
pub open spec fn spec_exec_name(version: Option<Seq<char>>) -> Seq<char> {
    match version {
        Some(s) => s,
        None => "latest"@,
    }
}

/// Pick the version to run under: an exact version as given; an alias
/// through its requirement, a range resolved against the catalog; anything
/// else is rejected.
pub fn choose_exec_version(meta: &DvmMeta, version: &Option<String>, catalog: &Vec<String>) -> (r:
    Result<Version, DvmError>)
    ensures
        ({
            let name = spec_exec_name(
                match version {
                    Some(s) => Some(s@),
                    None => None,
                },
            );
            match r {
                Ok(v) => {
                    ||| (parsed_version(name) is Some && v@ == spec_parsed_view(name))
                    ||| (parsed_version(name) is None && (spec_get_alias(meta@, name)
                        matches Some(VersionArgView::Exact(vv)) && v@ == vv))
                    ||| (parsed_version(name) is None && (spec_get_alias(meta@, name)
                        matches Some(VersionArgView::Range(rq)) && spec_is_best(
                        rq,
                        seq_views(catalog@),
                        v@,
                    )))
                },
                Err(e) => match e {
                    DvmError::InvalidVersion(t) => parsed_version(name) is None && spec_get_alias(
                        meta@,
                        name,
                    ) is None && t@ == name,
                    DvmError::NoVersionSatisfying(t) => parsed_version(name) is None && (
                    spec_get_alias(meta@, name) matches Some(VersionArgView::Range(rq)) && t@ == rq
                        && spec_no_match(rq, seq_views(catalog@))),
                    _ => false,
                },
            }
        }),
{
    let name: &str = match version {
        Some(s) => s.as_str(),
        None => "latest",
    };
    if let Some(v) = Version::parse(name) {
        return Ok(v);
    }
    match meta.get_alias(name) {
        Some(VersionArg::Exact(v)) => Ok(v),
        Some(VersionArg::Range(rq)) => {
            match best_version(catalog, rq.as_str()) {
                Some(v) => Ok(v),
                None => Err(DvmError::NoVersionSatisfying(rq)),
            }
        },
        None => Err(DvmError::InvalidVersion(name.to_owned())),
    }
}

} // verus!
