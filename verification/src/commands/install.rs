//! Decisions of the install flow: what to install, where its archive lives,
//! whether it is already present, and how a download response reads.
use vstd::prelude::*;

use crate::error::DvmError;
use crate::semver_ops::parsed_version;
use crate::strutil::{seq_views, str_eq, vec_contains_str};
use crate::version::{spec_parsed_view, spec_version_str, Version};

verus! {

/// What an install invocation asks for.
pub enum InstallTarget {
    /// The continuously updated canary build, tracked by hash.
    Canary,
    /// The named exact version.
    Picked(Version),
    /// No version named: the registry's latest release.
    NeedLatest,
}

pub ghost enum InstallTargetView {
    Canary,
    Picked(crate::version::VersionView),
    NeedLatest,
}

impl View for InstallTarget {
    type V = InstallTargetView;

    open spec fn view(&self) -> InstallTargetView {
        match self {
            InstallTarget::Canary => InstallTargetView::Canary,
            InstallTarget::Picked(v) => InstallTargetView::Picked(v@),
            InstallTarget::NeedLatest => InstallTargetView::NeedLatest,
        }
    }
}

/// Read an install invocation's version argument: the canary tag, an exact
/// version, nothing (meaning latest), or a rejected string.
pub fn plan_install(version: &Option<String>) -> (r: Result<InstallTarget, DvmError>)
    ensures
        match r {
            Ok(t) => match version {
                Some(s) => (s@ == "canary"@ && t is Canary) || (s@ != "canary"@
                    && parsed_version(s@) is Some && (t@ matches InstallTargetView::Picked(v) && v
                    == spec_parsed_view(s@))),
                None => t is NeedLatest,
            },
            Err(e) => version matches Some(s) && s@ != "canary"@ && parsed_version(s@) is None && (
            e matches DvmError::InvalidVersion(t) && t@ == s@),
        },
{
    match version {
        Some(s) => {
            if str_eq(s.as_str(), "canary") {
                Ok(InstallTarget::Canary)
            } else {
                match Version::parse(s.as_str()) {
                    Some(v) => Ok(InstallTarget::Picked(v)),
                    None => Err(DvmError::InvalidVersion(s.clone())),
                }
            }
        },
        None => Ok(InstallTarget::NeedLatest),
    }
}

/// Whether the version's directory name appears among the installed ones.
pub fn is_version_installed(version: &Version, installed: &Vec<String>) -> (r: bool)
    ensures
        r == seq_views(installed@).contains(spec_version_str(version@)),
{
    let text = version.to_version_string();
    vec_contains_str(installed, text.as_str())
}

/// The archive URL of a release, under the binary registry.
pub fn compose_url_to_exec(registry: &str, version: &Version, archive: &str) -> (r: String)
    ensures
        r@ == registry@ + "release/v"@ + spec_version_str(version@) + "/"@ + archive@,
{
    let mut out = registry.to_owned();
    out.append("release/v");
    let vs = version.to_version_string();
    out.append(vs.as_str());
    out.append("/");
    out.append(archive);
    out
}

/// The archive URL of a canary build, tracked by hash.
pub fn compose_canary_url(registry: &str, hash: &str, archive: &str) -> (r: String)
    ensures
        r@ == registry@ + "canary/"@ + hash@ + "/"@ + archive@,
{
    let mut out = registry.to_owned();
    out.append("canary/");
    out.append(hash);
    out.append("/");
    out.append(archive);
    out
}

/// How a download response's status reads.
pub enum DownloadStatus {
    /// The version does not exist at the registry.
    NotFound,
    /// Some other client or server failure.
    Failed,
    /// The archive came through.
    Success,
}

pub fn classify_download_status(code: u16) -> (r: DownloadStatus)
    ensures
        code == 404 ==> r is NotFound,
        code != 404 && 400 <= code <= 599 ==> r is Failed,
        !(400 <= code <= 599) ==> r is Success,
{
    if code == 404 {
        DownloadStatus::NotFound
    } else if 400 <= code && code <= 599 {
        DownloadStatus::Failed
    } else {
        DownloadStatus::Success
    }
}

} // verus!
