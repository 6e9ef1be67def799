//! The uninstall decision: which version directory may be removed.
use vstd::prelude::*;

use crate::error::DvmError;
use crate::semver_ops::parsed_version;
use crate::strutil::{seq_views, str_eq};
use crate::version::{spec_parsed_view, spec_version_str, Version};

verus! {

/// Decide an uninstall: the argument must be an exact installed version and
/// not the one currently in use — removing the active version is refused.
pub fn plan_uninstall(version: &str, installed: &Vec<String>, current: &Option<String>) -> (r:
    Result<Version, DvmError>)
    ensures
        match r {
            Ok(v) => {
                &&& parsed_version(version@) is Some
                &&& v@ == spec_parsed_view(version@)
                &&& seq_views(installed@).contains(spec_version_str(v@))
                &&& match current {
                    Some(c) => c@ != spec_version_str(v@),
                    None => true,
                }
            },
            Err(e) => match e {
                DvmError::InvalidVersion(t) => parsed_version(version@) is None && t@ == version@,
                DvmError::VersionNotInstalled(t) => parsed_version(version@) is Some && t@
                    == spec_version_str(spec_parsed_view(version@)) && !seq_views(
                    installed@,
                ).contains(spec_version_str(spec_parsed_view(version@))),
                DvmError::VersionInUse(t) => parsed_version(version@) is Some && t@
                    == spec_version_str(spec_parsed_view(version@)) && (current matches Some(c)
                    && c@ == spec_version_str(spec_parsed_view(version@))),
                _ => false,
            },
        },
{
    let v = match Version::parse(version) {
        Some(v) => v,
        None => {
            return Err(DvmError::InvalidVersion(version.to_owned()));
        },
    };
    let text = v.to_version_string();
    if !crate::strutil::vec_contains_str(installed, text.as_str()) {
        return Err(DvmError::VersionNotInstalled(text));
    }
    match current {
        Some(c) => {
            if str_eq(c.as_str(), text.as_str()) {
                return Err(DvmError::VersionInUse(text));
            }
        },
        None => {},
    }
    Ok(v)
}

} // verus!
