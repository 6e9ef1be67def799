//! Small helpers: the well-known paths under the manager's home directory,
//! the clock, and the ambient-version fallback.
use vstd::prelude::*;

use crate::configrc::{spec_rc_get, RcStore};
use crate::consts::{DVM_CONFIGRC_KEY_DENO_VERSION};
use crate::strutil::{seq_starts_with, str_starts_with};
use crate::version::{spec_version_arg_of, spec_version_str, Version, VersionArg};

verus! {

/// Milliseconds since the epoch. Relies on `std::time::SystemTime::now`;
/// nothing can be promised of the clock's reading.
#[verifier::external_body]
pub fn now() -> u128 {
    match std::time::SystemTime::now().duration_since(std::time::UNIX_EPOCH) {
        Ok(d) => d.as_millis(),
        Err(_) => 0,
    }
}

/// The directory holding the installed versions.
pub fn dvm_versions(root: &str) -> (r: String)
    ensures
        r@ == root@ + "/versions"@,
{
    let mut out = root.to_owned();
    out.append("/versions");
    out
}

/// The canary build's executable path.
pub fn deno_canary_path(root: &str) -> (r: String)
    ensures
        r@ == root@ + "/canary/deno"@,
{
    let mut out = root.to_owned();
    out.append("/canary/deno");
    out
}

/// The active slot: the one executable path the environment sees.
pub fn deno_bin_path(root: &str) -> (r: String)
    ensures
        r@ == root@ + "/bin/deno"@,
{
    let mut out = root.to_owned();
    out.append("/bin/deno");
    out
}

/// Where a given version's executable lives.
pub fn deno_version_path(root: &str, version: &Version) -> (r: String)
    ensures
        r@ == root@ + "/versions/"@ + spec_version_str(version@) + "/deno"@,
{
    let mut out = root.to_owned();
    out.append("/versions/");
    let v = version.to_version_string();
    out.append(v.as_str());
    out.append("/deno");
    out
}

/// Where the remote version list is cached.
pub fn cached_remote_versions_location(root: &str) -> (r: String)
    ensures
        r@ == root@ + "/cached-remote-versions.json"@,
{
    let mut out = root.to_owned();
    out.append("/cached-remote-versions.json");
    out
}

/// A URL with an HTTP or HTTPS scheme.
pub open spec fn spec_is_http_like_url(s: Seq<char>) -> bool {
    seq_starts_with(s, "http://"@) || seq_starts_with(s, "https://"@)
}

pub fn is_http_like_url(url: &str) -> (r: bool)
    ensures
        r == spec_is_http_like_url(url@),
{
    str_starts_with(url, "http://") || str_starts_with(url, "https://")
}

/// The version argument the configuration cascade asks for when the user
/// gives none: the active-version key, local scope first, or the wildcard.
pub fn load_dvmrc(store: &RcStore) -> (r: VersionArg)
    ensures
        r@ == match spec_rc_get(store@, DVM_CONFIGRC_KEY_DENO_VERSION@) {
            Some(v) => spec_version_arg_of(v),
            None => spec_version_arg_of("*"@),
        },
        r.wf(),
{
    match store.rc_get(DVM_CONFIGRC_KEY_DENO_VERSION) {
        Some(v) => VersionArg::from_input(v.as_str()),
        None => VersionArg::from_input("*"),
    }
}

} // verus!
