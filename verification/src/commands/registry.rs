//! The registry command's decisions: what a custom registry argument means
//! and how a predefined choice lands in the configuration cascade.
use vstd::prelude::*;

use crate::cli::RegistryPredefined;
use crate::configrc::{spec_rc_update, RcStore};
use crate::consts::{
    DVM_CONFIGRC_KEY_REGISTRY_BINARY, DVM_CONFIGRC_KEY_REGISTRY_VERSION, REGISTRY_CN,
    REGISTRY_LIST_CN, REGISTRY_LIST_OFFICIAL, REGISTRY_NAME_CN, REGISTRY_NAME_OFFICIAL,
    REGISTRY_OFFICIAL,
};
use crate::strutil::str_eq;
use crate::utils::{is_http_like_url, spec_is_http_like_url};

verus! {

/// What a custom binary-registry argument stands for: a predefined name, a
/// URL taken as given, or nothing.
pub fn registry_binary_value(custom: &str) -> (r: Option<String>)
    ensures
        match r {
            Some(v) => (custom@ == REGISTRY_NAME_OFFICIAL@ && v@ == REGISTRY_OFFICIAL@) || (custom@
                == REGISTRY_NAME_CN@ && v@ == REGISTRY_CN@) || (custom@ != REGISTRY_NAME_OFFICIAL@
                && custom@ != REGISTRY_NAME_CN@ && spec_is_http_like_url(custom@) && v@
                == custom@),
            None => custom@ != REGISTRY_NAME_OFFICIAL@ && custom@ != REGISTRY_NAME_CN@
                && !spec_is_http_like_url(custom@),
        },
{
    if str_eq(custom, REGISTRY_NAME_OFFICIAL) {
        Some(REGISTRY_OFFICIAL.to_owned())
    } else if str_eq(custom, REGISTRY_NAME_CN) {
        Some(REGISTRY_CN.to_owned())
    } else if is_http_like_url(custom) {
        Some(custom.to_owned())
    } else {
        None
    }
}

/// What a custom version-registry argument stands for.
pub fn registry_version_value(custom: &str) -> (r: Option<String>)
    ensures
        match r {
            Some(v) => (custom@ == REGISTRY_NAME_OFFICIAL@ && v@ == REGISTRY_LIST_OFFICIAL@) || (
            custom@ == REGISTRY_NAME_CN@ && v@ == REGISTRY_LIST_CN@) || (custom@
                != REGISTRY_NAME_OFFICIAL@ && custom@ != REGISTRY_NAME_CN@ && spec_is_http_like_url(
                custom@,
            ) && v@ == custom@),
            None => custom@ != REGISTRY_NAME_OFFICIAL@ && custom@ != REGISTRY_NAME_CN@
                && !spec_is_http_like_url(custom@),
        },
{
    if str_eq(custom, REGISTRY_NAME_OFFICIAL) {
        Some(REGISTRY_LIST_OFFICIAL.to_owned())
    } else if str_eq(custom, REGISTRY_NAME_CN) {
        Some(REGISTRY_LIST_CN.to_owned())
    } else if is_http_like_url(custom) {
        Some(custom.to_owned())
    } else {
        None
    }
}

/// Point both registry keys at a predefined registry, in one scope.
pub fn registry_apply(rc: &mut RcStore, predefined: &RegistryPredefined, write_local: bool)
    ensures
        predefined is Official ==> final(rc)@ == spec_rc_update(
            spec_rc_update(
                old(rc)@,
                write_local,
                DVM_CONFIGRC_KEY_REGISTRY_BINARY@,
                REGISTRY_OFFICIAL@,
            ),
            write_local,
            DVM_CONFIGRC_KEY_REGISTRY_VERSION@,
            REGISTRY_LIST_OFFICIAL@,
        ),
        predefined is CN ==> final(rc)@ == spec_rc_update(
            spec_rc_update(old(rc)@, write_local, DVM_CONFIGRC_KEY_REGISTRY_BINARY@, REGISTRY_CN@),
            write_local,
            DVM_CONFIGRC_KEY_REGISTRY_VERSION@,
            REGISTRY_LIST_CN@,
        ),
{
    let binary = predefined.get_binary_url();
    let version = predefined.get_version_url();
    rc.rc_update(write_local, DVM_CONFIGRC_KEY_REGISTRY_BINARY, binary.as_str());
    rc.rc_update(write_local, DVM_CONFIGRC_KEY_REGISTRY_VERSION, version.as_str());
}

} // verus!
