//! Resolving a descriptor to a concrete version and activating it: the
//! specifier grammar, the resolution state machine, the active-slot model
//! and the post-swap self-verification gate.
use vstd::prelude::*;

use crate::configrc::{spec_rc_get, RcStoreView, RcStore};
use crate::consts::DVM_CONFIGRC_KEY_DENO_VERSION;
use crate::error::DvmError;
use crate::meta::{spec_get_alias, DvmMeta, DvmMetaView};
use crate::semver_ops::{parsed_version, req_parse_ok};
use crate::strutil::{seq_views, spec_trim, str_eq, trim_str};
use crate::version::{
    best_version, spec_is_best, spec_no_match, spec_parsed_view, spec_version_arg_of,
    spec_version_str, Version, VersionArg, VersionArgView, VersionView,
};

verus! {

/// What a descriptor means: one of the two special tags, an exact version,
/// or a named range.
#[derive(Debug, Clone, PartialEq, Eq)]
pub enum VersionSpecifier {
    Canary,
    System,
    Exact(Version),
    Range(String),
}

pub ghost enum VersionSpecifierView {
    Canary,
    System,
    Exact(VersionView),
    Range(Seq<char>),
}

impl View for VersionSpecifier {
    type V = VersionSpecifierView;

    open spec fn view(&self) -> VersionSpecifierView {
        match self {
            VersionSpecifier::Canary => VersionSpecifierView::Canary,
            VersionSpecifier::System => VersionSpecifierView::System,
            VersionSpecifier::Exact(v) => VersionSpecifierView::Exact(v@),
            VersionSpecifier::Range(s) => VersionSpecifierView::Range(s@),
        }
    }
}

impl VersionSpecifier {
    /// A range specifier always carries a requirement that parses.
    pub open spec fn wf(self) -> bool {
        match self {
            VersionSpecifier::Range(s) => req_parse_ok(s@),
            _ => true,
        }
    }
}

pub open spec fn spec_of_arg(v: VersionArgView) -> VersionSpecifierView {
    match v {
        VersionArgView::Exact(vv) => VersionSpecifierView::Exact(vv),
        VersionArgView::Range(s) => VersionSpecifierView::Range(s),
    }
}

/// How a descriptor parses, in order: the two dedicated tags; an exact
/// version; a known alias, resolved one level; anything else is rejected —
/// raw ranges are only accepted through aliases. An absent descriptor falls
/// back to the cascade's active-version key, and failing that the wildcard.
pub open spec fn spec_parse_descriptor(
    m: DvmMetaView,
    rc: RcStoreView,
    input: Option<Seq<char>>,
) -> Result<VersionSpecifierView, Seq<char>> {
    match input {
        Some(s) => if s == "canary"@ {
            Ok(VersionSpecifierView::Canary)
        } else if s == "system"@ {
            Ok(VersionSpecifierView::System)
        } else if parsed_version(s) is Some {
            Ok(VersionSpecifierView::Exact(spec_parsed_view(s)))
        } else {
            match spec_get_alias(m, s) {
                Some(arg) => Ok(spec_of_arg(arg)),
                None => Err(s),
            }
        },
        None => Ok(
            spec_of_arg(
                match spec_rc_get(rc, DVM_CONFIGRC_KEY_DENO_VERSION@) {
                    Some(v) => spec_version_arg_of(v),
                    None => spec_version_arg_of("*"@),
                },
            ),
        ),
    }
}

fn of_arg(arg: VersionArg) -> (r: VersionSpecifier)
    requires
        arg.wf(),
    ensures
        r@ == spec_of_arg(arg@),
        r.wf(),
{
    match arg {
        VersionArg::Exact(v) => VersionSpecifier::Exact(v),
        VersionArg::Range(s) => VersionSpecifier::Range(s),
    }
}

/// Parse a descriptor against the alias tables and the cascade; a string
/// that is neither a tag, an exact version nor a known alias is rejected.
pub fn parse_descriptor(meta: &DvmMeta, rc: &RcStore, input: &Option<String>) -> (r: Result<
    VersionSpecifier,
    DvmError,
>)
    ensures
        match r {
            Ok(s) => spec_parse_descriptor(
                meta@,
                rc@,
                match input {
                    Some(i) => Some(i@),
                    None => None,
                },
            ) == Ok::<VersionSpecifierView, Seq<char>>(s@) && s.wf(),
            Err(e) => spec_parse_descriptor(
                meta@,
                rc@,
                match input {
                    Some(i) => Some(i@),
                    None => None,
                },
            ) matches Err(t) && (e matches DvmError::InvalidVersion(u) && u@ == t),
        },
{
    match input {
        Some(s) => {
            if str_eq(s.as_str(), "canary") {
                Ok(VersionSpecifier::Canary)
            } else if str_eq(s.as_str(), "system") {
                Ok(VersionSpecifier::System)
            } else if let Some(v) = Version::parse(s.as_str()) {
                Ok(VersionSpecifier::Exact(v))
            } else {
                match meta.get_alias(s.as_str()) {
                    Some(arg) => Ok(of_arg(arg)),
                    None => Err(DvmError::InvalidVersion(s.clone())),
                }
            }
        },
        None => Ok(of_arg(crate::utils::load_dvmrc(rc))),
    }
}

/// The next move the resolver asks for.
pub enum ResolutionStep {
    /// Switch to the canary build.
    UseCanary,
    /// Remove the slot so the system's own runtime shows through.
    UseSystem,
    /// The wildcard range: ask the registry for the latest release.
    NeedLatest,
    /// A proper range: resolve it against the version catalog.
    NeedCatalog(String),
    /// An exact version was named.
    Chosen(Version),
}

pub ghost enum ResolutionStepView {
    UseCanary,
    UseSystem,
    NeedLatest,
    NeedCatalog(Seq<char>),
    Chosen(VersionView),
}

impl View for ResolutionStep {
    type V = ResolutionStepView;

    open spec fn view(&self) -> ResolutionStepView {
        match self {
            ResolutionStep::UseCanary => ResolutionStepView::UseCanary,
            ResolutionStep::UseSystem => ResolutionStepView::UseSystem,
            ResolutionStep::NeedLatest => ResolutionStepView::NeedLatest,
            ResolutionStep::NeedCatalog(s) => ResolutionStepView::NeedCatalog(s@),
            ResolutionStep::Chosen(v) => ResolutionStepView::Chosen(v@),
        }
    }
}

pub open spec fn spec_resolve_step(s: VersionSpecifierView) -> ResolutionStepView {
    match s {
        VersionSpecifierView::Canary => ResolutionStepView::UseCanary,
        VersionSpecifierView::System => ResolutionStepView::UseSystem,
        VersionSpecifierView::Exact(v) => ResolutionStepView::Chosen(v),
        VersionSpecifierView::Range(r) => if r == "*"@ {
            ResolutionStepView::NeedLatest
        } else {
            ResolutionStepView::NeedCatalog(r)
        },
    }
}

/// Parse the descriptor and decide the next move; the whole front half of a
/// `use` invocation, up to the first outside work it needs.
pub fn resolve_start(meta: &DvmMeta, rc: &RcStore, input: &Option<String>) -> (r: Result<
    ResolutionStep,
    DvmError,
>)
    ensures
        match r {
            Ok(step) => {
                &&& spec_parse_descriptor(
                    meta@,
                    rc@,
                    match input {
                        Some(i) => Some(i@),
                        None => None,
                    },
                ) matches Ok(s) && step@ == spec_resolve_step(s)
                &&& step@ matches ResolutionStepView::NeedCatalog(t) ==> req_parse_ok(t)
            },
            Err(e) => spec_parse_descriptor(
                meta@,
                rc@,
                match input {
                    Some(i) => Some(i@),
                    None => None,
                },
            ) matches Err(t) && (e matches DvmError::InvalidVersion(u) && u@ == t),
        },
{
    let specifier = match parse_descriptor(meta, rc, input) {
        Ok(s) => s,
        Err(e) => {
            return Err(e);
        },
    };
    match specifier {
        VersionSpecifier::Canary => Ok(ResolutionStep::UseCanary),
        VersionSpecifier::System => Ok(ResolutionStep::UseSystem),
        VersionSpecifier::Exact(v) => Ok(ResolutionStep::Chosen(v)),
        VersionSpecifier::Range(s) => {
            if str_eq(s.as_str(), "*") {
                Ok(ResolutionStep::NeedLatest)
            } else {
                Ok(ResolutionStep::NeedCatalog(s))
            }
        },
    }
}

/// Pick the highest catalog version satisfying the range; the range text is
/// validated here, so any caller may pass any string.
pub fn resolve_with_catalog(range: &str, catalog: &Vec<String>) -> (r: Result<Version, DvmError>)
    ensures
        match r {
            Ok(v) => req_parse_ok(range@) && spec_is_best(range@, seq_views(catalog@), v@),
            Err(e) => {
                ||| (!req_parse_ok(range@) && (e matches DvmError::InvalidVersionReq(t) && t@
                    == range@))
                ||| (req_parse_ok(range@) && spec_no_match(range@, seq_views(catalog@)) && (e
                    matches DvmError::NoVersionSatisfying(t) && t@ == range@))
            },
        },
{
    if !crate::version::is_valid_semver_range(range) {
        return Err(DvmError::InvalidVersionReq(range.to_owned()));
    }
    match best_version(catalog, range) {
        Some(v) => Ok(v),
        None => Err(DvmError::NoVersionSatisfying(range.to_owned())),
    }
}

/// Read the registry's latest-release response into a version.
pub fn resolve_with_latest(body: &str) -> (r: Result<Version, DvmError>)
    ensures
        ({
            let cleaned = crate::strutil::spec_remove_char(spec_trim(body@), 'v');
            match r {
                Ok(v) => parsed_version(cleaned) is Some && v@ == spec_parsed_view(cleaned),
                Err(e) => parsed_version(cleaned) is None && (e
                    matches DvmError::InvalidVersion(t) && t@ == cleaned),
            }
        }),
{
    let cleaned = crate::version::normalize_version_text(body);
    match Version::parse(cleaned.as_str()) {
        Some(v) => Ok(v),
        None => Err(DvmError::InvalidVersion(cleaned)),
    }
}

// ---------------------------------------------------------------------------
// Activation
// ---------------------------------------------------------------------------
/// The single globally visible executable slot: which version's binary the
/// hard link points at, `None` when the slot is absent (system mode).
pub struct ActiveSlot {
    pub linked: Option<String>,
}

pub ghost struct ActiveSlotView {
    pub linked: Option<Seq<char>>,
}

impl View for ActiveSlot {
    type V = ActiveSlotView;

    open spec fn view(&self) -> ActiveSlotView {
        ActiveSlotView {
            linked: match self.linked {
                Some(ref v) => Some(v@),
                None => None,
            },
        }
    }
}

/// The slot after an activation: replaced whole, never mutated in place.
pub open spec fn spec_activate(slot: ActiveSlotView, version_text: Seq<char>) -> ActiveSlotView {
    ActiveSlotView { linked: Some(version_text) }
}

impl ActiveSlot {
    /// Repoint the slot at a version's binary.
    pub fn activate(&mut self, version_text: String)
        ensures
            final(self)@ == spec_activate(old(self)@, version_text@),
    {
        self.linked = Some(version_text);
    }

    /// Remove the slot entirely, handing the environment back to whatever
    /// runtime it had on its own.
    pub fn deactivate(&mut self)
        ensures
            final(self)@.linked is None,
    {
        self.linked = None;
    }
}

/// What the self-verification gate accepts: the candidate binary's trimmed
/// `-V` report must name exactly the expected version.
pub open spec fn spec_report_matches(reported: Seq<char>, expected: VersionView) -> bool {
    spec_trim(reported) == "deno "@ + spec_version_str(expected)
}

/// Decide the self-verification gate: a mismatch means the install is
/// corrupted or mislabeled and the swap must not happen.
pub fn check_reported_version(reported: &str, expected: &Version) -> (r: bool)
    ensures
        r == spec_report_matches(reported@, expected@),
{
    let trimmed = trim_str(reported);
    let mut want = "deno ".to_owned();
    let vs = expected.to_version_string();
    want.append(vs.as_str());
    str_eq(trimmed, want.as_str())
}

/// Whether resolving `raw_key` is to be memoized after a `use`: only when
/// the version had to be freshly installed, and only for a range or alias
/// key — an exact version is already unambiguous.
pub open spec fn spec_use_mapping(
    raw_key: Seq<char>,
    was_installed: bool,
    used: VersionView,
) -> Option<(Seq<char>, Seq<char>)> {
    if was_installed {
        None
    } else if parsed_version(raw_key) is Some {
        None
    } else {
        Some((raw_key, spec_version_str(used)))
    }
}

/// The resolution-cache write a finished `use` performs, if any: the pair to
/// hand to `set_version_mapping`.
pub fn plan_use_mapping(raw_key: &String, was_installed: bool, used: &Version) -> (r: Option<
    (String, String),
>)
    ensures
        match r {
            Some(p) => spec_use_mapping(raw_key@, was_installed, used@) == Some((p.0@, p.1@)),
            None => spec_use_mapping(raw_key@, was_installed, used@) is None,
        },
{
    if was_installed {
        None
    } else if crate::version::is_exact_version(raw_key.as_str()) {
        None
    } else {
        Some((raw_key.clone(), used.to_version_string()))
    }
}

// ---------------------------------------------------------------------------
// Laws of activation
// ---------------------------------------------------------------------------
/// Activating a version is idempotent: a second activation of the same
/// version leaves the slot exactly where the first put it; and activating a
/// version that is already installed writes nothing into the resolution
/// cache, so repeating an activation leaves the cache untouched.
pub proof fn lemma_idempotent_activation(
    slot: ActiveSlotView,
    version_text: Seq<char>,
    raw_key: Seq<char>,
    used: VersionView,
)
    ensures
        spec_activate(spec_activate(slot, version_text), version_text) == spec_activate(
            slot,
            version_text,
        ),
        spec_use_mapping(raw_key, true, used) is None,
{
}

/// An exact version string round-trips: parsed as a descriptor it is the
/// exact specifier of the version it denotes, resolution chooses exactly
/// that version, and the activation gate accepts a binary precisely when its
/// report names that version. (The two dedicated tags are excluded; the
/// parser claims them first.)
pub proof fn lemma_exact_round_trip(
    m: DvmMetaView,
    rc: RcStoreView,
    s: Seq<char>,
    reported: Seq<char>,
)
    requires
        parsed_version(s) is Some,
        s != "canary"@,
        s != "system"@,
    ensures
        spec_parse_descriptor(m, rc, Some(s)) == Ok::<VersionSpecifierView, Seq<char>>(
            VersionSpecifierView::Exact(spec_parsed_view(s)),
        ),
        spec_resolve_step(VersionSpecifierView::Exact(spec_parsed_view(s)))
            == ResolutionStepView::Chosen(spec_parsed_view(s)),
        spec_report_matches(reported, spec_parsed_view(s)) == (spec_trim(reported) == "deno "@
            + spec_version_str(spec_parsed_view(s))),
{
}

} // verus!
