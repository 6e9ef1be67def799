//! The alias command's upgrade hint: whether a requirement could resolve
//! higher against the remote catalog than against what is installed.
use vstd::prelude::*;

use crate::error::DvmError;
use crate::semver_ops::req_parse_ok;
use crate::strutil::seq_views;
use crate::version::{
    best_version, cmp_precedence, is_valid_semver_range, spec_is_best, spec_no_match,
    spec_version_lt, Version, VersionView,
};

verus! {

/// The pending upgrade for a requirement: the remote maximum satisfying it,
/// surfaced only when it strictly exceeds the installed maximum.
pub fn get_upgrade_version(required: &str, remote: &Vec<String>, local: &Vec<String>) -> (r:
    Result<Option<Version>, DvmError>)
    ensures
        match r {
            Ok(o) => req_parse_ok(required@) && match o {
                Some(v) => spec_is_best(required@, seq_views(remote@), v@) && (exists|
                    w: VersionView,
                |
                    #[trigger] spec_is_best(required@, seq_views(local@), w) && spec_version_lt(
                        w,
                        v@,
                    )),
                None => {
                    ||| spec_no_match(required@, seq_views(remote@))
                    ||| spec_no_match(required@, seq_views(local@))
                    ||| exists|rv: VersionView, lv: VersionView|
                        #[trigger] spec_is_best(required@, seq_views(remote@), rv)
                            && #[trigger] spec_is_best(required@, seq_views(local@), lv)
                            && !spec_version_lt(lv, rv)
                },
            },
            Err(e) => !req_parse_ok(required@) && (e matches DvmError::InvalidVersionReq(t) && t@
                == required@),
        },
{
    if !is_valid_semver_range(required) {
        return Err(DvmError::InvalidVersionReq(required.to_owned()));
    }
    let max_remote = best_version(remote, required);
    let max_local = best_version(local, required);
    match (max_remote, max_local) {
        (Some(rv), Some(lv)) => {
            if matches!(cmp_precedence(&lv, &rv), core::cmp::Ordering::Less) {
                Ok(Some(rv))
            } else {
                Ok(None)
            }
        },
        _ => Ok(None),
    }
}

} // verus!
