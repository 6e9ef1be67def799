//! Fixed registry endpoints, file names and configuration keys.
use vstd::prelude::*;

verus! {

pub const REGISTRY_OFFICIAL: &'static str = "https://dl.deno.land/";

pub const REGISTRY_CN: &'static str = "https://dl.deno.js.cn/";

pub const REGISTRY_LIST_OFFICIAL: &'static str =
    "https://raw.githubusercontent.com/denoland/dotland/main/versions.json";

pub const REGISTRY_LIST_CN: &'static str = "https://dl.deno.js.cn/versions.json";

pub const REGISTRY_LATEST_RELEASE_PATH: &'static str = "release-latest.txt";

pub const REGISTRY_LATEST_CANARY_PATH: &'static str = "canary-latest.txt";

pub const REGISTRY_NAME_CN: &'static str = "cn";

pub const REGISTRY_NAME_OFFICIAL: &'static str = "official";

pub const DVM_CACHE_PATH_PREFIX: &'static str = "versions";

pub const DVM_CACHE_REMOTE_PATH: &'static str = "cached-remote-versions.json";

pub const DVM_CANARY_PATH_PREFIX: &'static str = "canary";

/// How long the cached remote version list stays fresh, in milliseconds.
pub const DVM_CACHE_INVALID_TIMEOUT: u128 = 60 * 60 * 24 * 7 * 1000;

pub const DVM_CONFIGRC_FILENAME: &'static str = ".dvmrc";

pub const DVM_CONFIGRC_KEY_DENO_VERSION: &'static str = "deno_version";

pub const DVM_CONFIGRC_KEY_REGISTRY_VERSION: &'static str = "registry_version";

pub const DVM_CONFIGRC_KEY_REGISTRY_BINARY: &'static str = "registry_binary";

pub const DVM_VERSION_CANARY: &'static str = "canary";

pub const DVM_VERSION_LATEST: &'static str = "latest";

pub const DVM_VERSION_SYSTEM: &'static str = "system";

pub const DVM_VERSION_SELF: &'static str = "self";

pub const DVM_VERSION_INVALID: &'static str = "N/A";

pub const DENO_EXE: &'static str = "deno";

} // verus!
