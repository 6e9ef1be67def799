//! The trusted boundary to the `semver` crate. Parsing a version, parsing a
//! requirement and evaluating a requirement against a version are all pure
//! functions of their input strings, so each result is given a name that the
//! rest of the library reasons with; nothing else about the crate is assumed.
use vstd::prelude::*;

verus! {

/// The fields of a successfully parsed semantic version: the numeric triple
/// and the raw pre-release and build-metadata strings (each a dot-separated
/// identifier list, possibly empty).
pub ghost struct SpecVersion {
    pub major: u64,
    pub minor: u64,
    pub patch: u64,
    pub pre: Seq<char>,
    pub build: Seq<char>,
}

/// What `semver::Version::parse` returns on `s`: `None` when the text is not
/// an exact semantic version.
pub uninterp spec fn parsed_version(s: Seq<char>) -> Option<SpecVersion>;

/// Whether `semver::VersionReq::parse` accepts `s` as a requirement.
pub uninterp spec fn req_parse_ok(s: Seq<char>) -> bool;

/// Whether the requirement `req` matches the version `ver`, as decided by
/// `semver::VersionReq::matches` on the parsed values.
pub uninterp spec fn req_matches(req: Seq<char>, ver: Seq<char>) -> bool;

/// Relies on `semver::Version::parse`: success and the parsed fields depend
/// on the input characters alone; `Prerelease` and `BuildMetadata` expose
/// their text through `as_str`.
#[verifier::external_body]
pub(crate) fn semver_parse_raw(s: &str) -> (r: Option<(u64, u64, u64, String, String)>)
    ensures
        match r {
            Some(t) => parsed_version(s@) == Some(
                SpecVersion { major: t.0, minor: t.1, patch: t.2, pre: t.3@, build: t.4@ },
            ),
            None => parsed_version(s@) is None,
        },
{
    match semver::Version::parse(s) {
        Ok(v) => Some((
            v.major,
            v.minor,
            v.patch,
            v.pre.as_str().to_string(),
            v.build.as_str().to_string(),
        )),
        Err(_) => None,
    }
}

/// Relies on `semver::VersionReq::parse`: acceptance depends on the input
/// characters alone, and the documentation states that `"*"` parses (it is
/// the published `VersionReq::STAR`).
#[verifier::external_body]
pub(crate) fn semver_req_parse_ok(s: &str) -> (r: bool)
    ensures
        r == req_parse_ok(s@),
        s@ == "*"@ ==> r,
{
    semver::VersionReq::parse(s).is_ok()
}

/// Relies on `semver::VersionReq::parse`, `semver::Version::parse` and
/// `semver::VersionReq::matches`: on inputs that parse, the verdict depends
/// on the two input strings alone.
#[verifier::external_body]
pub(crate) fn semver_req_matches(req: &str, ver: &str) -> (r: bool)
    requires
        req_parse_ok(req@),
        parsed_version(ver@) is Some,
    ensures
        r == req_matches(req@, ver@),
{
    match (semver::VersionReq::parse(req), semver::Version::parse(ver)) {
        (Ok(r), Ok(v)) => r.matches(&v),
        _ => false,
    }
}

} // verus!
