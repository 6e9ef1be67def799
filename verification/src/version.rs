//! The semantic-version model: a numeric triple with pre-release identifiers
//! and build metadata, parsed through the `semver` crate and ordered by the
//! precedence rules of the SemVer specification (numeric identifiers compare
//! numerically, numeric before alphanumeric, alphanumeric in ASCII order, a
//! release above every pre-release of the same triple; build metadata does
//! not participate).
use vstd::prelude::*;

use crate::error::DvmError;
use crate::semver_ops::{
    parsed_version, req_matches, req_parse_ok, semver_parse_raw, semver_req_matches,
    semver_req_parse_ok, SpecVersion,
};
use crate::strutil::{seq_views, spec_remove_char, spec_split, spec_u64_string, split_char, push_u64};

verus! {

/// One installed or published runtime version.
#[derive(Debug, Clone, PartialEq, Eq)]
pub struct Version {
    pub major: u64,
    pub minor: u64,
    pub patch: u64,
    /// Pre-release identifiers, in order; empty for a release.
    pub pre: Vec<String>,
    /// Raw build metadata; empty when absent. Ignored by precedence.
    pub build: String,
}

pub ghost struct VersionView {
    pub major: u64,
    pub minor: u64,
    pub patch: u64,
    pub pre: Seq<Seq<char>>,
    pub build: Seq<char>,
}

impl View for Version {
    type V = VersionView;

    open spec fn view(&self) -> VersionView {
        VersionView {
            major: self.major,
            minor: self.minor,
            patch: self.patch,
            pre: seq_views(self.pre@),
            build: self.build@,
        }
    }
}

/// The identifier list of a raw pre-release or build string: empty when the
/// string is empty, otherwise the dot-separated parts.
pub open spec fn spec_pre_ids(pre: Seq<char>) -> Seq<Seq<char>> {
    if pre.len() == 0 {
        Seq::empty()
    } else {
        spec_split(pre, '.')
    }
}

/// The model a parsed version presents, given the raw fields the parser saw.
pub open spec fn spec_version_of(sv: SpecVersion) -> VersionView {
    VersionView {
        major: sv.major,
        minor: sv.minor,
        patch: sv.patch,
        pre: spec_pre_ids(sv.pre),
        build: sv.build,
    }
}

/// The model of the version that `s` parses to; meaningful only when
/// `parsed_version(s)` is `Some`.
pub open spec fn spec_parsed_view(s: Seq<char>) -> VersionView
    recommends
        parsed_version(s) is Some,
{
    spec_version_of(parsed_version(s)->Some_0)
}

impl Version {
    /// Parse an exact semantic version; `None` when `s` is not one.
    pub fn parse(s: &str) -> (r: Option<Version>)
        ensures
            match r {
                Some(v) => parsed_version(s@) is Some && v@ == spec_parsed_view(s@),
                None => parsed_version(s@) is None,
            },
    {
        match semver_parse_raw(s) {
            None => None,
            Some((major, minor, patch, pre, build)) => {
                let pre_ids: Vec<String> = if pre.as_str().unicode_len() == 0 {
                    Vec::new()
                } else {
                    split_char(pre.as_str(), '.')
                };
                proof {
                    assert(seq_views(pre_ids@) =~~= spec_pre_ids(pre@));
                }
                Some(Version { major, minor, patch, pre: pre_ids, build })
            },
        }
    }
}

/// Whether `s` parses as an exact semantic version.
pub fn is_exact_version(input: &str) -> (r: bool)
    ensures
        r == (parsed_version(input@) is Some),
{
    Version::parse(input).is_some()
}

/// Whether `version` parses as an exact semantic version.
pub fn is_semver(version: &str) -> (r: bool)
    ensures
        r == (parsed_version(version@) is Some),
{
    is_exact_version(version)
}

// ---------------------------------------------------------------------------
// Precedence order
// ---------------------------------------------------------------------------
/// Strict lexicographic order on character sequences, by code point, with a
/// proper prefix below its extensions.
pub open spec fn spec_lex_lt(a: Seq<char>, b: Seq<char>) -> bool
    decreases a.len(),
{
    if b.len() == 0 {
        false
    } else if a.len() == 0 {
        true
    } else if a[0] == b[0] {
        spec_lex_lt(a.drop_first(), b.drop_first())
    } else {
        (a[0] as u32) < (b[0] as u32)
    }
}

/// A numeric identifier: every character a decimal digit.
pub open spec fn spec_is_num_id(x: Seq<char>) -> bool {
    forall|i: int| 0 <= i < x.len() ==> 48 <= #[trigger] (x[i] as u32) <= 57
}

/// Strict order on single pre-release identifiers: numeric ones compare
/// numerically (no leading zeros, so by length and then lexically), numeric
/// ones come before alphanumeric ones, alphanumeric ones compare in ASCII
/// order.
pub open spec fn spec_id_lt(x: Seq<char>, y: Seq<char>) -> bool {
    if spec_is_num_id(x) && spec_is_num_id(y) {
        x.len() < y.len() || (x.len() == y.len() && spec_lex_lt(x, y))
    } else if spec_is_num_id(x) {
        true
    } else if spec_is_num_id(y) {
        false
    } else {
        spec_lex_lt(x, y)
    }
}

/// Strict lexicographic order on identifier lists, a shorter list below its
/// extensions.
pub open spec fn spec_ids_lt(a: Seq<Seq<char>>, b: Seq<Seq<char>>) -> bool
    decreases a.len(),
{
    if b.len() == 0 {
        false
    } else if a.len() == 0 {
        true
    } else if a[0] == b[0] {
        spec_ids_lt(a.drop_first(), b.drop_first())
    } else {
        spec_id_lt(a[0], b[0])
    }
}

/// Strict order on pre-release lists: an empty list marks a release, which
/// stands above every pre-release of the same numeric triple.
pub open spec fn spec_pre_lt(a: Seq<Seq<char>>, b: Seq<Seq<char>>) -> bool {
    if a.len() == 0 {
        false
    } else if b.len() == 0 {
        true
    } else {
        spec_ids_lt(a, b)
    }
}

/// Strict precedence order on versions.
pub open spec fn spec_version_lt(a: VersionView, b: VersionView) -> bool {
    if a.major != b.major {
        a.major < b.major
    } else if a.minor != b.minor {
        a.minor < b.minor
    } else if a.patch != b.patch {
        a.patch < b.patch
    } else {
        spec_pre_lt(a.pre, b.pre)
    }
}

pub open spec fn spec_version_le(a: VersionView, b: VersionView) -> bool {
    !spec_version_lt(b, a)
}

/// Equal precedence: the same triple and the same pre-release identifiers.
pub open spec fn spec_precedence_eq(a: VersionView, b: VersionView) -> bool {
    a.major == b.major && a.minor == b.minor && a.patch == b.patch && a.pre == b.pre
}

proof fn lemma_lex_lt_irrefl(x: Seq<char>)
    ensures
        !spec_lex_lt(x, x),
    decreases x.len(),
{
    if x.len() > 0 {
        lemma_lex_lt_irrefl(x.drop_first());
    }
}

proof fn lemma_lex_lt_trans(x: Seq<char>, y: Seq<char>, z: Seq<char>)
    requires
        spec_lex_lt(x, y),
        spec_lex_lt(y, z),
    ensures
        spec_lex_lt(x, z),
    decreases x.len() + y.len() + z.len(),
{
    if x.len() > 0 && y.len() > 0 && z.len() > 0 && x[0] == y[0] && y[0] == z[0] {
        lemma_lex_lt_trans(x.drop_first(), y.drop_first(), z.drop_first());
    }
}

proof fn lemma_id_lt_irrefl(x: Seq<char>)
    ensures
        !spec_id_lt(x, x),
{
    lemma_lex_lt_irrefl(x);
}

proof fn lemma_id_lt_trans(x: Seq<char>, y: Seq<char>, z: Seq<char>)
    requires
        spec_id_lt(x, y),
        spec_id_lt(y, z),
    ensures
        spec_id_lt(x, z),
{
    if spec_is_num_id(x) && spec_is_num_id(y) && spec_is_num_id(z) {
        if x.len() == y.len() && y.len() == z.len() {
            lemma_lex_lt_trans(x, y, z);
        }
    } else if !spec_is_num_id(x) && !spec_is_num_id(y) && !spec_is_num_id(z) {
        lemma_lex_lt_trans(x, y, z);
    }
}

proof fn lemma_ids_lt_irrefl(a: Seq<Seq<char>>)
    ensures
        !spec_ids_lt(a, a),
    decreases a.len(),
{
    if a.len() > 0 {
        lemma_id_lt_irrefl(a[0]);
        lemma_ids_lt_irrefl(a.drop_first());
    }
}

proof fn lemma_ids_lt_trans(a: Seq<Seq<char>>, b: Seq<Seq<char>>, c: Seq<Seq<char>>)
    requires
        spec_ids_lt(a, b),
        spec_ids_lt(b, c),
    ensures
        spec_ids_lt(a, c),
    decreases a.len() + b.len() + c.len(),
{
    if a.len() > 0 && b.len() > 0 && c.len() > 0 {
        if a[0] == b[0] && b[0] == c[0] {
            lemma_ids_lt_trans(a.drop_first(), b.drop_first(), c.drop_first());
        } else if a[0] == b[0] || b[0] == c[0] {
            // exactly one head comparison is by identifier order; it carries over
        } else {
            lemma_id_lt_trans(a[0], b[0], c[0]);
            if a[0] == c[0] {
                lemma_id_lt_irrefl(a[0]);
            }
        }
    }
}

/// No version has lower precedence than itself.
pub proof fn lemma_version_lt_irrefl(a: VersionView)
    ensures
        !spec_version_lt(a, a),
{
    if a.pre.len() > 0 {
        lemma_ids_lt_irrefl(a.pre);
    }
}

/// Precedence is transitive; together with the exec comparison being total,
/// this is what lets a loop compute a maximum.
pub proof fn lemma_version_lt_trans(a: VersionView, b: VersionView, c: VersionView)
    requires
        spec_version_lt(a, b),
        spec_version_lt(b, c),
    ensures
        spec_version_lt(a, c),
{
    if a.major == b.major && b.major == c.major && a.minor == b.minor && b.minor == c.minor
        && a.patch == b.patch && b.patch == c.patch {
        if a.pre.len() > 0 && b.pre.len() > 0 && c.pre.len() > 0 {
            lemma_ids_lt_trans(a.pre, b.pre, c.pre);
        }
    }
}

proof fn lemma_char_code_injective(a: char, b: char)
    requires
        (a as u32) == (b as u32),
    ensures
        a == b,
{
}

proof fn lemma_lex_lt_connex(x: Seq<char>, y: Seq<char>)
    requires
        !spec_lex_lt(x, y),
        !spec_lex_lt(y, x),
    ensures
        x == y,
    decreases x.len(),
{
    if x.len() > 0 && y.len() > 0 {
        if x[0] == y[0] {
            lemma_lex_lt_connex(x.drop_first(), y.drop_first());
            assert(x =~= seq![x[0]] + x.drop_first());
            assert(y =~= seq![y[0]] + y.drop_first());
        } else {
            lemma_char_code_injective(x[0], y[0]);
        }
    } else {
        assert(x =~= y);
    }
}

proof fn lemma_id_lt_connex(x: Seq<char>, y: Seq<char>)
    requires
        !spec_id_lt(x, y),
        !spec_id_lt(y, x),
    ensures
        x == y,
{
    lemma_lex_lt_connex(x, y);
}

proof fn lemma_ids_lt_connex(a: Seq<Seq<char>>, b: Seq<Seq<char>>)
    requires
        !spec_ids_lt(a, b),
        !spec_ids_lt(b, a),
    ensures
        a == b,
    decreases a.len(),
{
    if a.len() > 0 && b.len() > 0 {
        if a[0] == b[0] {
            lemma_ids_lt_connex(a.drop_first(), b.drop_first());
            assert(a =~= seq![a[0]] + a.drop_first());
            assert(b =~= seq![b[0]] + b.drop_first());
        } else {
            lemma_id_lt_connex(a[0], b[0]);
        }
    } else {
        assert(a =~= b);
    }
}

/// Precedence is total: any two versions compare, or stand at the same
/// precedence (the same triple and pre-release identifiers; build metadata
/// never separates them).
pub proof fn lemma_version_order_total(a: VersionView, b: VersionView)
    ensures
        spec_version_lt(a, b) || spec_version_lt(b, a) || spec_precedence_eq(a, b),
{
    if !spec_version_lt(a, b) && !spec_version_lt(b, a) {
        if a.major == b.major && a.minor == b.minor && a.patch == b.patch {
            if a.pre.len() > 0 && b.pre.len() > 0 {
                lemma_ids_lt_connex(a.pre, b.pre);
            } else {
                assert(a.pre =~= b.pre);
            }
        }
    }
}

// ---------------------------------------------------------------------------
// Executable comparison
// ---------------------------------------------------------------------------
proof fn lemma_lex_skip(a: Seq<char>, b: Seq<char>, i: int)
    requires
        0 <= i <= a.len(),
        i <= b.len(),
        forall|j: int| 0 <= j < i ==> a[j] == b[j],
    ensures
        spec_lex_lt(a, b) == spec_lex_lt(
            a.subrange(i, a.len() as int),
            b.subrange(i, b.len() as int),
        ),
    decreases i,
{
    if i > 0 {
        lemma_lex_skip(a.drop_first(), b.drop_first(), i - 1);
        assert(a.drop_first().subrange(i - 1, a.drop_first().len() as int) =~= a.subrange(
            i,
            a.len() as int,
        ));
        assert(b.drop_first().subrange(i - 1, b.drop_first().len() as int) =~= b.subrange(
            i,
            b.len() as int,
        ));
    } else {
        assert(a.subrange(0, a.len() as int) =~= a);
        assert(b.subrange(0, b.len() as int) =~= b);
    }
}

fn lex_cmp(a: &str, b: &str) -> (o: core::cmp::Ordering)
    ensures
        (o is Less) == spec_lex_lt(a@, b@),
        (o is Greater) == spec_lex_lt(b@, a@),
        (o is Equal) == (a@ == b@),
{
    let a_len = a.unicode_len();
    let b_len = b.unicode_len();
    let min = if a_len < b_len {
        a_len
    } else {
        b_len
    };
    let mut i: usize = 0;
    while i < min
        invariant
            a_len == a@.len(),
            b_len == b@.len(),
            min <= a_len,
            min <= b_len,
            min == if a_len < b_len { a_len } else { b_len },
            i <= min,
            forall|j: int| 0 <= j < i ==> a@[j] == b@[j],
        decreases min - i,
    {
        let ca = a.get_char(i);
        let cb = b.get_char(i);
        if ca != cb {
            proof {
                lemma_lex_skip(a@, b@, i as int);
                lemma_lex_skip(b@, a@, i as int);
            }
            if (ca as u32) < (cb as u32) {
                return core::cmp::Ordering::Less;
            } else {
                return core::cmp::Ordering::Greater;
            }
        }
        i += 1;
    }
    proof {
        lemma_lex_skip(a@, b@, min as int);
        lemma_lex_skip(b@, a@, min as int);
        if a_len == b_len {
            assert(a@ =~= b@);
        }
    }
    if a_len == b_len {
        core::cmp::Ordering::Equal
    } else if a_len < b_len {
        core::cmp::Ordering::Less
    } else {
        core::cmp::Ordering::Greater
    }
}

fn is_num_id(s: &str) -> (r: bool)
    ensures
        r == spec_is_num_id(s@),
{
    let len = s.unicode_len();
    let mut i: usize = 0;
    while i < len
        invariant
            len == s@.len(),
            i <= len,
            forall|j: int| 0 <= j < i ==> 48 <= #[trigger] (s@[j] as u32) <= 57,
        decreases len - i,
    {
        let c = s.get_char(i);
        if (c as u32) < 48 || (c as u32) > 57 {
            return false;
        }
        i += 1;
    }
    true
}

fn id_cmp(a: &str, b: &str) -> (o: core::cmp::Ordering)
    ensures
        (o is Less) == spec_id_lt(a@, b@),
        (o is Greater) == spec_id_lt(b@, a@),
        (o is Equal) == (a@ == b@),
{
    let a_num = is_num_id(a);
    let b_num = is_num_id(b);
    if a_num && b_num {
        let a_len = a.unicode_len();
        let b_len = b.unicode_len();
        if a_len < b_len {
            core::cmp::Ordering::Less
        } else if a_len > b_len {
            core::cmp::Ordering::Greater
        } else {
            lex_cmp(a, b)
        }
    } else if a_num {
        core::cmp::Ordering::Less
    } else if b_num {
        core::cmp::Ordering::Greater
    } else {
        lex_cmp(a, b)
    }
}

proof fn lemma_ids_skip(a: Seq<Seq<char>>, b: Seq<Seq<char>>, i: int)
    requires
        0 <= i <= a.len(),
        i <= b.len(),
        forall|j: int| 0 <= j < i ==> a[j] == b[j],
    ensures
        spec_ids_lt(a, b) == spec_ids_lt(
            a.subrange(i, a.len() as int),
            b.subrange(i, b.len() as int),
        ),
    decreases i,
{
    if i > 0 {
        lemma_ids_skip(a.drop_first(), b.drop_first(), i - 1);
        assert(a.drop_first().subrange(i - 1, a.drop_first().len() as int) =~= a.subrange(
            i,
            a.len() as int,
        ));
        assert(b.drop_first().subrange(i - 1, b.drop_first().len() as int) =~= b.subrange(
            i,
            b.len() as int,
        ));
    } else {
        assert(a.subrange(0, a.len() as int) =~= a);
        assert(b.subrange(0, b.len() as int) =~= b);
    }
}

fn ids_cmp(a: &Vec<String>, b: &Vec<String>) -> (o: core::cmp::Ordering)
    ensures
        (o is Less) == spec_ids_lt(seq_views(a@), seq_views(b@)),
        (o is Greater) == spec_ids_lt(seq_views(b@), seq_views(a@)),
        (o is Equal) == (seq_views(a@) == seq_views(b@)),
{
    let a_len = a.len();
    let b_len = b.len();
    let min = if a_len < b_len {
        a_len
    } else {
        b_len
    };
    let mut i: usize = 0;
    while i < min
        invariant
            a_len == a@.len(),
            b_len == b@.len(),
            min <= a_len,
            min <= b_len,
            min == if a_len < b_len { a_len } else { b_len },
            i <= min,
            forall|j: int| 0 <= j < i ==> seq_views(a@)[j] == seq_views(b@)[j],
        decreases min - i,
    {
        let o = id_cmp(a[i].as_str(), b[i].as_str());
        if !matches!(o, core::cmp::Ordering::Equal) {
            proof {
                lemma_ids_skip(seq_views(a@), seq_views(b@), i as int);
                lemma_ids_skip(seq_views(b@), seq_views(a@), i as int);
            }
            return o;
        }
        i += 1;
    }
    proof {
        lemma_ids_skip(seq_views(a@), seq_views(b@), min as int);
        lemma_ids_skip(seq_views(b@), seq_views(a@), min as int);
        if a_len == b_len {
            assert(seq_views(a@) =~= seq_views(b@));
        }
    }
    if a_len == b_len {
        core::cmp::Ordering::Equal
    } else if a_len < b_len {
        core::cmp::Ordering::Less
    } else {
        core::cmp::Ordering::Greater
    }
}

/// Compare two versions by SemVer precedence; build metadata is disregarded,
/// so `Equal` means equal precedence, not identical text.
pub fn cmp_precedence(a: &Version, b: &Version) -> (o: core::cmp::Ordering)
    ensures
        (o is Less) == spec_version_lt(a@, b@),
        (o is Greater) == spec_version_lt(b@, a@),
        (o is Equal) == spec_precedence_eq(a@, b@),
{
    if a.major != b.major {
        if a.major < b.major {
            return core::cmp::Ordering::Less;
        } else {
            return core::cmp::Ordering::Greater;
        }
    }
    if a.minor != b.minor {
        if a.minor < b.minor {
            return core::cmp::Ordering::Less;
        } else {
            return core::cmp::Ordering::Greater;
        }
    }
    if a.patch != b.patch {
        if a.patch < b.patch {
            return core::cmp::Ordering::Less;
        } else {
            return core::cmp::Ordering::Greater;
        }
    }
    let a_empty = a.pre.len() == 0;
    let b_empty = b.pre.len() == 0;
    if a_empty && b_empty {
        proof {
            assert(seq_views(a.pre@) =~= seq_views(b.pre@));
        }
        core::cmp::Ordering::Equal
    } else if a_empty {
        core::cmp::Ordering::Greater
    } else if b_empty {
        core::cmp::Ordering::Less
    } else {
        ids_cmp(&a.pre, &b.pre)
    }
}

// ---------------------------------------------------------------------------
// Rendering
// ---------------------------------------------------------------------------
/// Identifiers joined with dots.
pub open spec fn spec_join_ids(ids: Seq<Seq<char>>) -> Seq<char>
    decreases ids.len(),
{
    if ids.len() == 0 {
        Seq::empty()
    } else if ids.len() == 1 {
        ids[0]
    } else {
        spec_join_ids(ids.drop_last()) + seq!['.'] + ids.last()
    }
}

/// The canonical text of a version: the dotted triple, `-` before the
/// pre-release identifiers and `+` before the build metadata.
pub open spec fn spec_version_str(v: VersionView) -> Seq<char> {
    spec_u64_string(v.major as int) + seq!['.'] + spec_u64_string(v.minor as int) + seq!['.']
        + spec_u64_string(v.patch as int) + (if v.pre.len() > 0 {
        seq!['-'] + spec_join_ids(v.pre)
    } else {
        Seq::empty()
    }) + (if v.build.len() > 0 {
        seq!['+'] + v.build
    } else {
        Seq::empty()
    })
}

impl Version {
    /// Render the version as its canonical text.
    pub fn to_version_string(&self) -> (r: String)
        ensures
            r@ == spec_version_str(self@),
    {
        proof {
            reveal_strlit(".");
            reveal_strlit("-");
            reveal_strlit("+");
        }
        let mut out = String::new();
        push_u64(&mut out, self.major);
        out.append(".");
        push_u64(&mut out, self.minor);
        out.append(".");
        push_u64(&mut out, self.patch);
        if self.pre.len() > 0 {
            out.append("-");
            let mut i: usize = 0;
            let ghost head = out@;
            while i < self.pre.len()
                invariant
                    0 < i <= self.pre@.len() || (i == 0 && self.pre@.len() > 0),
                    "."@ =~= seq!['.'],
                    out@ == head + spec_join_ids(seq_views(self.pre@).subrange(0, i as int)),
                decreases self.pre@.len() - i,
            {
                if i > 0 {
                    out.append(".");
                }
                out.append(self.pre[i].as_str());
                proof {
                    let ids = seq_views(self.pre@);
                    assert(ids.subrange(0, i + 1int).drop_last() =~= ids.subrange(0, i as int));
                    assert(ids.subrange(0, i + 1int).last() == ids[i as int]);
                }
                i += 1;
            }
            proof {
                assert(seq_views(self.pre@).subrange(0, self.pre@.len() as int) =~= seq_views(
                    self.pre@,
                ));
            }
        }
        if self.build.as_str().unicode_len() > 0 {
            out.append("+");
            out.append(self.build.as_str());
        }
        proof {
            assert(out@ =~= spec_version_str(self@));
        }
        out
    }
}

// ---------------------------------------------------------------------------
// Version arguments: an exact version or a named requirement
// ---------------------------------------------------------------------------
/// A parsed version descriptor: an exact version, or a semantic-version
/// range kept as its source text.
#[derive(Debug, Clone, PartialEq, Eq)]
pub enum VersionArg {
    Exact(Version),
    Range(String),
}

pub ghost enum VersionArgView {
    Exact(VersionView),
    Range(Seq<char>),
}

impl View for VersionArg {
    type V = VersionArgView;

    open spec fn view(&self) -> VersionArgView {
        match self {
            VersionArg::Exact(v) => VersionArgView::Exact(v@),
            VersionArg::Range(s) => VersionArgView::Range(s@),
        }
    }
}

/// How a descriptor string reads as a version argument: an exact version if
/// it parses as one, else the range it denotes if it parses as a requirement,
/// else the wildcard range.
pub open spec fn spec_version_arg_of(s: Seq<char>) -> VersionArgView {
    if parsed_version(s) is Some {
        VersionArgView::Exact(spec_parsed_view(s))
    } else if req_parse_ok(s) {
        VersionArgView::Range(s)
    } else {
        VersionArgView::Range("*"@)
    }
}

impl VersionArg {
    /// A range argument always carries a requirement that parses.
    pub open spec fn wf(self) -> bool {
        match self {
            VersionArg::Exact(_) => true,
            VersionArg::Range(s) => req_parse_ok(s@),
        }
    }

    /// Read a descriptor string; never fails, falling back to the wildcard
    /// range when the text is neither a version nor a requirement.
    pub fn from_input(s: &str) -> (r: VersionArg)
        ensures
            r@ == spec_version_arg_of(s@),
            r.wf(),
    {
        if let Some(v) = Version::parse(s) {
            VersionArg::Exact(v)
        } else if semver_req_parse_ok(s) {
            VersionArg::Range(s.to_owned())
        } else {
            let star = "*";
            let ok = semver_req_parse_ok(star);
            assert(ok);
            VersionArg::Range(star.to_owned())
        }
    }

    /// The text this argument reads back as: the canonical version text for
    /// an exact version, the range text otherwise.
    pub fn render(&self) -> (r: String)
        ensures
            r@ == match self@ {
                VersionArgView::Exact(v) => spec_version_str(v),
                VersionArgView::Range(s) => s,
            },
    {
        match self {
            VersionArg::Exact(v) => v.to_version_string(),
            VersionArg::Range(s) => s.clone(),
        }
    }
}

// ---------------------------------------------------------------------------
// Requirements and best-version selection
// ---------------------------------------------------------------------------
/// Whether `input` parses as a semantic-version requirement.
pub fn is_valid_semver_range(input: &str) -> (r: bool)
    ensures
        r == req_parse_ok(input@),
{
    semver_req_parse_ok(input)
}

/// `s` parses as a version and satisfies the requirement `req`.
pub open spec fn candidate_ok(req: Seq<char>, s: Seq<char>) -> bool {
    parsed_version(s) is Some && req_matches(req, s)
}

/// `v` is a highest-precedence candidate: it is one of the candidates that
/// parse and satisfy `req`, and no such candidate stands above it.
pub open spec fn spec_is_best(req: Seq<char>, cands: Seq<Seq<char>>, v: VersionView) -> bool {
    &&& exists|i: int|
        0 <= i < cands.len() && #[trigger] candidate_ok(req, cands[i]) && v == spec_parsed_view(
            cands[i],
        )
    &&& forall|i: int|
        0 <= i < cands.len() && #[trigger] candidate_ok(req, cands[i]) ==> spec_version_le(
            spec_parsed_view(cands[i]),
            v,
        )
}

/// No candidate parses and satisfies `req`.
pub open spec fn spec_no_match(req: Seq<char>, cands: Seq<Seq<char>>) -> bool {
    forall|i: int| 0 <= i < cands.len() ==> !candidate_ok(req, #[trigger] cands[i])
}

/// The choice with the highest precedence among those that parse and satisfy
/// `required`; `None` when no choice does. Between choices of equal
/// precedence the earlier one is kept.
pub fn best_version(choices: &Vec<String>, required: &str) -> (r: Option<Version>)
    requires
        req_parse_ok(required@),
    ensures
        match r {
            Some(v) => spec_is_best(required@, seq_views(choices@), v@),
            None => spec_no_match(required@, seq_views(choices@)),
        },
{
    let mut best: Option<Version> = None;
    let len = choices.len();
    let mut idx: usize = 0;
    while idx < len
        invariant
            req_parse_ok(required@),
            len == choices@.len(),
            idx <= len,
            match best {
                Some(bv) => {
                    &&& exists|i: int|
                        0 <= i < idx && #[trigger] candidate_ok(required@, seq_views(choices@)[i])
                            && bv@ == spec_parsed_view(seq_views(choices@)[i])
                    &&& forall|i: int|
                        0 <= i < idx && #[trigger] candidate_ok(required@, seq_views(choices@)[i])
                            ==> spec_version_le(spec_parsed_view(seq_views(choices@)[i]), bv@)
                },
                None => forall|i: int|
                    0 <= i < idx ==> !candidate_ok(required@, #[trigger] seq_views(choices@)[i]),
            },
        decreases len - idx,
    {
        let cand = &choices[idx];
        if let Some(v) = Version::parse(cand.as_str()) {
            if semver_req_matches(required, cand.as_str()) {
                assert(candidate_ok(required@, seq_views(choices@)[idx as int]));
                proof {
                    lemma_version_lt_irrefl(v@);
                }
                match &best {
                    None => {
                        best = Some(v);
                    },
                    Some(b) => {
                        if matches!(cmp_precedence(b, &v), core::cmp::Ordering::Less) {
                            proof {
                                let ghost bv = b@;
                                assert forall|i: int|
                                    0 <= i < idx && #[trigger] candidate_ok(
                                        required@,
                                        seq_views(choices@)[i],
                                    ) implies spec_version_le(
                                    spec_parsed_view(seq_views(choices@)[i]),
                                    v@,
                                ) by {
                                    let w = spec_parsed_view(seq_views(choices@)[i]);
                                    if spec_version_lt(v@, w) {
                                        lemma_version_lt_trans(bv, v@, w);
                                    }
                                }
                            }
                            best = Some(v);
                        }
                    },
                }
            }
        }
        idx += 1;
    }
    best
}

/// The highest version among `candidates` that satisfies the requirement
/// text, or an error when the text is not a requirement.
pub fn find_max_matching_version(version_req_str: &str, candidates: &Vec<String>) -> (r: Result<
    Option<Version>,
    DvmError,
>)
    ensures
        match r {
            Ok(o) => req_parse_ok(version_req_str@) && match o {
                Some(v) => spec_is_best(version_req_str@, seq_views(candidates@), v@),
                None => spec_no_match(version_req_str@, seq_views(candidates@)),
            },
            Err(e) => !req_parse_ok(version_req_str@) && (e matches DvmError::InvalidVersionReq(t)
                && t@ == version_req_str@),
        },
{
    if !semver_req_parse_ok(version_req_str) {
        return Err(DvmError::InvalidVersionReq(version_req_str.to_owned()));
    }
    Ok(best_version(candidates, version_req_str))
}

/// Compare two version strings by precedence; both must be exact versions.
pub fn sort_semver_version(s1: &str, s2: &str) -> (o: core::cmp::Ordering)
    requires
        parsed_version(s1@) is Some,
        parsed_version(s2@) is Some,
    ensures
        (o is Less) == spec_version_lt(spec_parsed_view(s1@), spec_parsed_view(s2@)),
        (o is Greater) == spec_version_lt(spec_parsed_view(s2@), spec_parsed_view(s1@)),
        (o is Equal) == spec_precedence_eq(spec_parsed_view(s1@), spec_parsed_view(s2@)),
{
    let v1 = Version::parse(s1).unwrap();
    let v2 = Version::parse(s2).unwrap();
    cmp_precedence(&v1, &v2)
}

/// Compare two version strings by precedence, `None` when either is not an
/// exact version.
pub fn compare_version_strings(s1: &str, s2: &str) -> (r: Option<core::cmp::Ordering>)
    ensures
        match r {
            Some(o) => {
                &&& parsed_version(s1@) is Some
                &&& parsed_version(s2@) is Some
                &&& (o is Less) == spec_version_lt(spec_parsed_view(s1@), spec_parsed_view(s2@))
                &&& (o is Greater) == spec_version_lt(spec_parsed_view(s2@), spec_parsed_view(s1@))
                &&& (o is Equal) == spec_precedence_eq(spec_parsed_view(s1@), spec_parsed_view(s2@))
            },
            None => parsed_version(s1@) is None || parsed_version(s2@) is None,
        },
{
    if is_exact_version(s1) && is_exact_version(s2) {
        Some(sort_semver_version(s1, s2))
    } else {
        None
    }
}

/// The names that parse as exact versions, in their original order; the
/// installed-version listing keeps only directories named this way.
pub fn filter_semver_names(names: &Vec<String>) -> (r: Vec<String>)
    ensures
        seq_views(r@) == seq_views(names@).filter(|s: Seq<char>| parsed_version(s) is Some),
{
    let ghost pred = |s: Seq<char>| parsed_version(s) is Some;
    let mut out: Vec<String> = Vec::new();
    let len = names.len();
    let mut i: usize = 0;
    proof {
        reveal(Seq::filter);
        assert(seq_views(out@) =~~= seq_views(names@).subrange(0, 0).filter(pred));
    }
    while i < len
        invariant
            len == names@.len(),
            i <= len,
            seq_views(out@) == seq_views(names@).subrange(0, i as int).filter(
                |s: Seq<char>| parsed_version(s) is Some,
            ),
        decreases len - i,
    {
        proof {
            reveal(Seq::filter);
            assert(seq_views(names@).subrange(0, i + 1int).drop_last() =~= seq_views(
                names@,
            ).subrange(0, i as int));
        }
        if is_semver(names[i].as_str()) {
            out.push(names[i].clone());
            proof {
                assert(seq_views(out@) =~~= seq_views(out@.drop_last()).push(out@.last()@));
            }
        }
        i += 1;
    }
    proof {
        assert(seq_views(names@).subrange(0, len as int) =~= seq_views(names@));
    }
    out
}

// ---------------------------------------------------------------------------
// The remote catalog cache
// ---------------------------------------------------------------------------
/// The cached remote version list together with the moment it was fetched
/// (milliseconds since the epoch).
#[derive(Debug, Clone, PartialEq, Eq)]
pub struct Cached {
    pub versions: Vec<String>,
    pub time: u128,
}

impl Cached {
    /// Whether the cache is still fresh at `now_ms`: the age has not reached
    /// `ttl_ms`. A stale cache is never served silently; the caller must ask
    /// before refreshing.
    pub fn is_fresh(&self, now_ms: u128, ttl_ms: u128) -> (r: bool)
        ensures
            r == ((now_ms as int) - (self.time as int) < ttl_ms as int),
    {
        if now_ms <= self.time {
            now_ms < self.time || ttl_ms > 0
        } else {
            now_ms - self.time < ttl_ms
        }
    }
}

/// What a read of the catalog cache decides: a fresh list to use, or the need
/// to ask the user for a refresh first.
pub enum CatalogRead {
    Fresh(Vec<String>),
    MustPrompt,
}

/// Read the catalog cache: the cached list when a fetch timestamp exists and
/// is fresh, otherwise the demand to prompt.
pub fn read_or_prompt(cache: &Option<Cached>, now_ms: u128, ttl_ms: u128) -> (r: CatalogRead)
    ensures
        match cache {
            Some(c) => if (now_ms as int) - (c.time as int) < ttl_ms as int {
                r matches CatalogRead::Fresh(v) && seq_views(v@) == seq_views(c.versions@)
            } else {
                r is MustPrompt
            },
            None => r is MustPrompt,
        },
{
    match cache {
        Some(c) => {
            if c.is_fresh(now_ms, ttl_ms) {
                let copy = c.versions.clone();
                proof {
                    assert forall|i: int| 0 <= i < copy@.len() implies copy@[i]@
                        == c.versions@[i]@ by {
                        assert(cloned(c.versions@[i], copy@[i]));
                    }
                    assert(seq_views(copy@) =~= seq_views(c.versions@));
                }
                CatalogRead::Fresh(copy)
            } else {
                CatalogRead::MustPrompt
            }
        },
        None => CatalogRead::MustPrompt,
    }
}

/// Apply a refresh attempt: an empty fetched list is a failed refresh and
/// leaves the previous cache intact; otherwise the cache is replaced whole.
pub fn apply_refresh(prev: Option<Cached>, fetched: Vec<String>, now_ms: u128) -> (r: (
    Option<Cached>,
    bool,
))
    ensures
        fetched@.len() == 0 ==> r.0 == prev && r.1 == false,
        fetched@.len() > 0 ==> r.1 == true && (r.0 matches Some(c) && c.versions@ == fetched@
            && c.time == now_ms),
{
    if fetched.len() == 0 {
        (prev, false)
    } else {
        (Some(Cached { versions: fetched, time: now_ms }), true)
    }
}

/// Strip every `v` prefix letter from the published version names, as the
/// registry lists them `v1.2.3`.
pub fn normalize_versions(raw: &Vec<String>) -> (r: Vec<String>)
    ensures
        r@.len() == raw@.len(),
        forall|i: int| 0 <= i < raw@.len() ==> #[trigger] r@[i]@ == spec_remove_char(
            raw@[i]@,
            'v',
        ),
{
    let mut out: Vec<String> = Vec::new();
    let len = raw.len();
    let mut i: usize = 0;
    while i < len
        invariant
            len == raw@.len(),
            i <= len,
            out@.len() == i,
            forall|j: int| 0 <= j < i ==> #[trigger] out@[j]@ == spec_remove_char(raw@[j]@, 'v'),
        decreases len - i,
    {
        out.push(crate::strutil::remove_char(raw[i].as_str(), 'v'));
        i += 1;
    }
    out
}

/// A registry's latest-release response, trimmed and with the `v` prefix
/// letters removed.
pub fn normalize_version_text(body: &str) -> (r: String)
    ensures
        r@ == spec_remove_char(crate::strutil::spec_trim(body@), 'v'),
{
    let trimmed = crate::strutil::trim_str(body);
    crate::strutil::remove_char(trimmed, 'v')
}

/// Read the version out of the runtime's own `-V` report, which prints
/// `deno <version>`.
pub fn parse_deno_version_output(output: &str) -> (r: Option<String>)
    ensures
        ({
            let t = crate::strutil::spec_trim(output@);
            match r {
                Some(v) => crate::strutil::seq_starts_with(t, "deno "@) && v@ == t.subrange(
                    5,
                    t.len() as int,
                ),
                None => !crate::strutil::seq_starts_with(t, "deno "@),
            }
        }),
{
    proof {
        reveal_strlit("deno ");
    }
    let trimmed = crate::strutil::trim_str(output);
    if crate::strutil::str_starts_with(trimmed, "deno ") {
        let len = trimmed.unicode_len();
        Some(trimmed.substring_char(5, len).to_owned())
    } else {
        None
    }
}

} // verus!
