//! The persistent meta store: the requirement→installed-version memo
//! (resolution cache) and the name→requirement alias table. Everything here
//! is pure bookkeeping over plain values; reading and writing the backing
//! file is the caller's business.
use vstd::prelude::*;

use crate::consts::REGISTRY_OFFICIAL;
use crate::error::DvmError;
use crate::semver_ops::{parsed_version, req_matches, req_parse_ok, semver_req_parse_ok};
use crate::strutil::{seq_views, str_eq};
use crate::version::{spec_version_arg_of, VersionArg, VersionArgView};

verus! {

/// One memoized resolution: a requirement (a range, or an alias name bound
/// to one) and the concrete installed version it resolved to.
#[derive(Debug, Clone, PartialEq, Eq)]
pub struct VersionMapping {
    pub required: String,
    pub current: String,
}

pub ghost struct VersionMappingView {
    pub required: Seq<char>,
    pub current: Seq<char>,
}

impl View for VersionMapping {
    type V = VersionMappingView;

    open spec fn view(&self) -> VersionMappingView {
        VersionMappingView { required: self.required@, current: self.current@ }
    }
}

/// A user-defined alias: a name bound to a requirement.
#[derive(Debug, Clone, PartialEq, Eq)]
pub struct Alias {
    pub name: String,
    pub required: String,
}

pub ghost struct AliasView {
    pub name: Seq<char>,
    pub required: Seq<char>,
}

impl View for Alias {
    type V = AliasView;

    open spec fn view(&self) -> AliasView {
        AliasView { name: self.name@, required: self.required@ }
    }
}

/// The whole persistent meta store.
#[derive(Debug, Clone, PartialEq, Eq)]
pub struct DvmMeta {
    pub registry: String,
    pub versions: Vec<VersionMapping>,
    pub alias: Vec<Alias>,
}

pub ghost struct DvmMetaView {
    pub registry: Seq<char>,
    pub versions: Seq<VersionMappingView>,
    pub alias: Seq<AliasView>,
}

impl View for DvmMeta {
    type V = DvmMetaView;

    open spec fn view(&self) -> DvmMetaView {
        DvmMetaView {
            registry: self.registry@,
            versions: self.versions@.map_values(|m: VersionMapping| m@),
            alias: self.alias@.map_values(|a: Alias| a@),
        }
    }
}

/// The built-in alias table: `latest` names the wildcard requirement. It is
/// compiled in and never persisted.
pub open spec fn spec_is_default_alias(name: Seq<char>) -> bool {
    name == "latest"@
}

pub fn is_default_alias(name: &str) -> (r: bool)
    ensures
        r == spec_is_default_alias(name@),
{
    str_eq(name, "latest")
}

/// The requirement a built-in alias stands for.
pub fn default_alias_requirement(name: &str) -> (r: Option<&'static str>)
    ensures
        match r {
            Some(s) => spec_is_default_alias(name@) && s@ == "*"@,
            None => !spec_is_default_alias(name@),
        },
{
    if is_default_alias(name) {
        Some("*")
    } else {
        None
    }
}

/// The registry new stores point at.
pub fn default_registry() -> (r: String)
    ensures
        r@ == REGISTRY_OFFICIAL@,
{
    REGISTRY_OFFICIAL.to_owned()
}

// ---------------------------------------------------------------------------
// First-match lookups
// ---------------------------------------------------------------------------
/// Index of the first mapping stored under `required`.
pub open spec fn spec_first_mapping(ms: Seq<VersionMappingView>, required: Seq<char>) -> Option<
    int,
>
    decreases ms.len(),
{
    if ms.len() == 0 {
        None
    } else if ms[0].required == required {
        Some(0)
    } else {
        match spec_first_mapping(ms.drop_first(), required) {
            Some(i) => Some(i + 1),
            None => None,
        }
    }
}

proof fn lemma_first_mapping_some(ms: Seq<VersionMappingView>, required: Seq<char>, i: int)
    requires
        0 <= i < ms.len(),
        ms[i].required == required,
        forall|j: int| 0 <= j < i ==> ms[j].required != required,
    ensures
        spec_first_mapping(ms, required) == Some(i),
    decreases i,
{
    if i > 0 {
        lemma_first_mapping_some(ms.drop_first(), required, i - 1);
    }
}

proof fn lemma_first_mapping_none(ms: Seq<VersionMappingView>, required: Seq<char>)
    requires
        forall|j: int| 0 <= j < ms.len() ==> ms[j].required != required,
    ensures
        spec_first_mapping(ms, required) is None,
    decreases ms.len(),
{
    if ms.len() > 0 {
        lemma_first_mapping_none(ms.drop_first(), required);
    }
}

/// Index of the first alias named `name`.
pub open spec fn spec_first_alias(al: Seq<AliasView>, name: Seq<char>) -> Option<int>
    decreases al.len(),
{
    if al.len() == 0 {
        None
    } else if al[0].name == name {
        Some(0)
    } else {
        match spec_first_alias(al.drop_first(), name) {
            Some(i) => Some(i + 1),
            None => None,
        }
    }
}

proof fn lemma_first_alias_some(al: Seq<AliasView>, name: Seq<char>, i: int)
    requires
        0 <= i < al.len(),
        al[i].name == name,
        forall|j: int| 0 <= j < i ==> al[j].name != name,
    ensures
        spec_first_alias(al, name) == Some(i),
    decreases i,
{
    if i > 0 {
        lemma_first_alias_some(al.drop_first(), name, i - 1);
    }
}

proof fn lemma_first_alias_none(al: Seq<AliasView>, name: Seq<char>)
    requires
        forall|j: int| 0 <= j < al.len() ==> al[j].name != name,
    ensures
        spec_first_alias(al, name) is None,
    decreases al.len(),
{
    if al.len() > 0 {
        lemma_first_alias_none(al.drop_first(), name);
    }
}

fn find_mapping(versions: &Vec<VersionMapping>, required: &str) -> (r: Option<usize>)
    ensures
        match r {
            Some(i) => spec_first_mapping(versions@.map_values(|m: VersionMapping| m@), required@)
                == Some(i as int) && i < versions@.len() && versions@.map_values(
                |m: VersionMapping| m@,
            )[i as int].required == required@,
            None => spec_first_mapping(
                versions@.map_values(|m: VersionMapping| m@),
                required@,
            ) is None,
        },
{
    let ghost ms = versions@.map_values(|m: VersionMapping| m@);
    let mut i: usize = 0;
    while i < versions.len()
        invariant
            ms == versions@.map_values(|m: VersionMapping| m@),
            i <= versions@.len(),
            forall|j: int| 0 <= j < i ==> ms[j].required != required@,
        decreases versions@.len() - i,
    {
        if str_eq(versions[i].required.as_str(), required) {
            proof {
                lemma_first_mapping_some(ms, required@, i as int);
            }
            return Some(i);
        }
        i += 1;
    }
    proof {
        lemma_first_mapping_none(ms, required@);
    }
    None
}

fn find_alias(alias: &Vec<Alias>, name: &str) -> (r: Option<usize>)
    ensures
        match r {
            Some(i) => spec_first_alias(alias@.map_values(|a: Alias| a@), name@) == Some(i as int)
                && i < alias@.len() && alias@.map_values(|a: Alias| a@)[i as int].name == name@,
            None => spec_first_alias(alias@.map_values(|a: Alias| a@), name@) is None,
        },
{
    let ghost al = alias@.map_values(|a: Alias| a@);
    let mut i: usize = 0;
    while i < alias.len()
        invariant
            al == alias@.map_values(|a: Alias| a@),
            i <= alias@.len(),
            forall|j: int| 0 <= j < i ==> al[j].name != name@,
        decreases alias@.len() - i,
    {
        if str_eq(alias[i].name.as_str(), name) {
            proof {
                lemma_first_alias_some(al, name@, i as int);
            }
            return Some(i);
        }
        i += 1;
    }
    proof {
        lemma_first_alias_none(al, name@);
    }
    None
}

// ---------------------------------------------------------------------------
// Validity and the spec models of each operation
// ---------------------------------------------------------------------------
/// A mapping is textually valid when its version parses, its requirement
/// parses, and the requirement still matches the version. Validity is always
/// recomputed, never stored.
pub open spec fn spec_mapping_valid(m: VersionMappingView) -> bool {
    parsed_version(m.current) is Some && req_parse_ok(m.required) && req_matches(
        m.required,
        m.current,
    )
}

/// What `get_version_mapping` answers: the memoized version, but only when
/// the entry is currently valid and its version is still installed. An
/// invalid entry is a cache miss.
pub open spec fn spec_get_mapping(
    m: DvmMetaView,
    required: Seq<char>,
    installed: Seq<Seq<char>>,
) -> Option<Seq<char>> {
    match spec_first_mapping(m.versions, required) {
        Some(i) => {
            let entry = m.versions[i];
            if spec_mapping_valid(entry) && installed.contains(entry.current) {
                Some(entry.current)
            } else {
                None
            }
        },
        None => None,
    }
}

pub open spec fn spec_set_mapping(
    m: DvmMetaView,
    required: Seq<char>,
    current: Seq<char>,
) -> DvmMetaView {
    let entry = VersionMappingView { required, current };
    match spec_first_mapping(m.versions, required) {
        Some(i) => DvmMetaView { versions: m.versions.update(i, entry), ..m },
        None => DvmMetaView { versions: m.versions.push(entry), ..m },
    }
}

pub open spec fn spec_delete_mapping(m: DvmMetaView, required: Seq<char>) -> DvmMetaView {
    match spec_first_mapping(m.versions, required) {
        Some(i) => DvmMetaView { versions: m.versions.remove(i), ..m },
        None => m,
    }
}

pub open spec fn spec_set_alias(
    m: DvmMetaView,
    name: Seq<char>,
    required: Seq<char>,
) -> DvmMetaView {
    if spec_is_default_alias(name) {
        m
    } else {
        let entry = AliasView { name, required };
        match spec_first_alias(m.alias, name) {
            Some(i) => DvmMetaView { alias: m.alias.update(i, entry), ..m },
            None => DvmMetaView { alias: m.alias.push(entry), ..m },
        }
    }
}

pub open spec fn spec_delete_alias(m: DvmMetaView, name: Seq<char>) -> DvmMetaView {
    match spec_first_alias(m.alias, name) {
        Some(i) => DvmMetaView { alias: m.alias.remove(i), ..m },
        None => m,
    }
}

/// What `get_alias` answers: built-ins first, then the user table, each
/// requirement read back through the descriptor rules.
pub open spec fn spec_get_alias(m: DvmMetaView, name: Seq<char>) -> Option<VersionArgView> {
    if spec_is_default_alias(name) {
        Some(spec_version_arg_of("*"@))
    } else {
        match spec_first_alias(m.alias, name) {
            Some(i) => Some(spec_version_arg_of(m.alias[i].required)),
            None => None,
        }
    }
}

/// What `resolve_version_req` answers: the alias's requirement when the name
/// is one, otherwise the text itself read through the descriptor rules.
pub open spec fn spec_resolve(m: DvmMetaView, required: Seq<char>) -> VersionArgView {
    match spec_get_alias(m, required) {
        Some(v) => v,
        None => spec_version_arg_of(required),
    }
}

impl VersionMapping {
    /// Recompute whether this memo can still be trusted.
    pub fn is_valid_mapping(&self) -> (r: bool)
        ensures
            r == spec_mapping_valid(self@),
    {
        if crate::version::Version::parse(self.current.as_str()).is_none() {
            return false;
        }
        if !semver_req_parse_ok(self.required.as_str()) {
            return false;
        }
        crate::semver_ops::semver_req_matches(self.required.as_str(), self.current.as_str())
    }
}

impl Default for DvmMeta {
    /// An empty store pointing at the official registry.
    fn default() -> (r: DvmMeta)
        ensures
            r@.registry == REGISTRY_OFFICIAL@,
            r@.versions.len() == 0,
            r@.alias.len() == 0,
    {
        let r = DvmMeta { registry: default_registry(), versions: Vec::new(), alias: Vec::new() };
        proof {
            assert(r@.versions =~= Seq::<VersionMappingView>::empty());
            assert(r@.alias =~= Seq::<AliasView>::empty());
        }
        r
    }
}

impl DvmMeta {
    /// Where the store lives under the manager's home directory.
    pub fn path(root: &str) -> (r: String)
        ensures
            r@ == root@ + "/dvm-metadata.json"@,
    {
        let mut out = root.to_owned();
        out.append("/dvm-metadata.json");
        out
    }

    /// Memoize `required` as resolving to `current`, overwriting by key.
    pub fn set_version_mapping(&mut self, required: String, current: String)
        ensures
            final(self)@ == spec_set_mapping(old(self)@, required@, current@),
    {
        let entry = VersionMapping { required: required.clone(), current };
        match find_mapping(&self.versions, required.as_str()) {
            Some(i) => {
                self.versions.set(i, entry);
                proof {
                    assert(self@.versions =~= spec_set_mapping(
                        old(self)@,
                        required@,
                        entry@.current,
                    ).versions);
                }
            },
            None => {
                self.versions.push(entry);
                proof {
                    assert(self@.versions =~= spec_set_mapping(
                        old(self)@,
                        required@,
                        entry@.current,
                    ).versions);
                }
            },
        }
    }

    /// The memoized version for `required`, provided the entry is still
    /// valid and names a version in `installed`; `None` otherwise.
    pub fn get_version_mapping(&self, required: &str, installed: &Vec<String>) -> (r: Option<
        String,
    >)
        ensures
            match r {
                Some(v) => spec_get_mapping(self@, required@, seq_views(installed@)) == Some(v@),
                None => spec_get_mapping(self@, required@, seq_views(installed@)) is None,
            },
    {
        match find_mapping(&self.versions, required) {
            Some(i) => {
                let entry = &self.versions[i];
                if entry.is_valid_mapping() && crate::strutil::vec_contains_str(
                    installed,
                    entry.current.as_str(),
                ) {
                    Some(entry.current.clone())
                } else {
                    None
                }
            },
            None => None,
        }
    }

    /// Forget the memo for `required`, if any.
    pub fn delete_version_mapping(&mut self, required: &str)
        ensures
            final(self)@ == spec_delete_mapping(old(self)@, required@),
    {
        match find_mapping(&self.versions, required) {
            Some(i) => {
                self.versions.remove(i);
                proof {
                    assert(self@.versions =~= spec_delete_mapping(old(self)@, required@).versions);
                }
            },
            None => {},
        }
    }

    /// Drop every memo that is no longer valid or whose version is no longer
    /// installed; run when the store is loaded from disk.
    pub fn prune_invalid(&mut self, installed: &Vec<String>)
        ensures
            final(self)@.registry == old(self)@.registry,
            final(self)@.alias == old(self)@.alias,
            final(self)@.versions == old(self)@.versions.filter(
                |m: VersionMappingView| spec_mapping_valid(m) && seq_views(installed@).contains(
                    m.current,
                ),
            ),
    {
        let ghost pred = |m: VersionMappingView| spec_mapping_valid(m) && seq_views(
            installed@,
        ).contains(m.current);
        let mut kept: Vec<VersionMapping> = Vec::new();
        let len = self.versions.len();
        let mut i: usize = 0;
        proof {
            reveal(Seq::filter);
            assert(kept@.map_values(|m: VersionMapping| m@) =~= old(
                self,
            )@.versions.subrange(0, 0).filter(pred));
        }
        while i < len
            invariant
                len == self.versions@.len(),
                self == old(self),
                kept@.map_values(|m: VersionMapping| m@) == old(self)@.versions.subrange(
                    0,
                    i as int,
                ).filter(
                    |m: VersionMappingView| spec_mapping_valid(m) && seq_views(
                        installed@,
                    ).contains(m.current),
                ),
                i <= len,
            decreases len - i,
        {
            proof {
                reveal(Seq::filter);
                assert(old(self)@.versions.subrange(0, i + 1int).drop_last() =~= old(
                    self,
                )@.versions.subrange(0, i as int));
            }
            let entry = &self.versions[i];
            if entry.is_valid_mapping() && crate::strutil::vec_contains_str(
                installed,
                entry.current.as_str(),
            ) {
                kept.push(
                    VersionMapping {
                        required: entry.required.clone(),
                        current: entry.current.clone(),
                    },
                );
                proof {
                    assert(kept@.map_values(|m: VersionMapping| m@) =~= kept@.drop_last().map_values(
                        |m: VersionMapping| m@,
                    ).push(kept@.last()@));
                }
            }
            i += 1;
        }
        proof {
            assert(old(self)@.versions.subrange(0, len as int) =~= old(self)@.versions);
        }
        self.versions = kept;
    }

    /// Bind `name` to `required` in the user table; a built-in name is left
    /// untouched to protect the compiled-in aliases.
    pub fn set_alias(&mut self, name: String, required: String)
        ensures
            final(self)@ == spec_set_alias(old(self)@, name@, required@),
    {
        if is_default_alias(name.as_str()) {
            return ;
        }
        let entry = Alias { name: name.clone(), required };
        match find_alias(&self.alias, name.as_str()) {
            Some(i) => {
                self.alias.set(i, entry);
                proof {
                    assert(self@.alias =~= spec_set_alias(old(self)@, name@, entry@.required).alias);
                }
            },
            None => {
                self.alias.push(entry);
                proof {
                    assert(self@.alias =~= spec_set_alias(old(self)@, name@, entry@.required).alias);
                }
            },
        }
    }

    /// Whether `name` names a built-in or user-defined alias.
    pub fn has_alias(&self, name: &str) -> (r: bool)
        ensures
            r == (spec_get_alias(self@, name@) is Some),
    {
        if is_default_alias(name) {
            return true;
        }
        find_alias(&self.alias, name).is_some()
    }

    /// The requirement `name` stands for, read through the descriptor rules;
    /// built-ins take precedence over the user table.
    pub fn get_alias(&self, name: &str) -> (r: Option<VersionArg>)
        ensures
            match r {
                Some(v) => spec_get_alias(self@, name@) == Some(v@) && v.wf(),
                None => spec_get_alias(self@, name@) is None,
            },
    {
        if let Some(req) = default_alias_requirement(name) {
            return Some(VersionArg::from_input(req));
        }
        match find_alias(&self.alias, name) {
            Some(i) => Some(VersionArg::from_input(self.alias[i].required.as_str())),
            None => None,
        }
    }

    /// Remove a user alias; a missing name, and thus every built-in, is a
    /// no-op.
    pub fn delete_alias(&mut self, name: &str)
        ensures
            final(self)@ == spec_delete_alias(old(self)@, name@),
    {
        match find_alias(&self.alias, name) {
            Some(i) => {
                self.alias.remove(i);
                proof {
                    assert(self@.alias =~= spec_delete_alias(old(self)@, name@).alias);
                }
            },
            None => {},
        }
    }

    /// Read `required` as a version argument, resolving it through the alias
    /// tables exactly one level.
    pub fn resolve_version_req(&self, required: &str) -> (r: VersionArg)
        ensures
            r@ == spec_resolve(self@, required@),
            r.wf(),
    {
        match self.get_alias(required) {
            Some(v) => v,
            None => VersionArg::from_input(required),
        }
    }

    /// All aliases: the built-ins in their fixed order, then the user table.
    pub fn list_alias(&self) -> (r: Vec<Alias>)
        ensures
            r@.map_values(|a: Alias| a@) == seq![
                AliasView { name: "latest"@, required: "*"@ },
            ] + self@.alias,
    {
        let mut out: Vec<Alias> = Vec::new();
        out.push(Alias { name: "latest".to_owned(), required: "*".to_owned() });
        let len = self.alias.len();
        let mut i: usize = 0;
        proof {
            assert(out@.map_values(|a: Alias| a@) =~= seq![
                AliasView { name: "latest"@, required: "*"@ },
            ] + self@.alias.subrange(0, 0));
        }
        while i < len
            invariant
                len == self.alias@.len(),
                i <= len,
                out@.map_values(|a: Alias| a@) == seq![
                    AliasView { name: "latest"@, required: "*"@ },
                ] + self@.alias.subrange(0, i as int),
            decreases len - i,
        {
            out.push(
                Alias {
                    name: self.alias[i].name.clone(),
                    required: self.alias[i].required.clone(),
                },
            );
            proof {
                assert(out@.map_values(|a: Alias| a@) =~= out@.drop_last().map_values(
                    |a: Alias| a@,
                ).push(out@.last()@));
                assert(self@.alias.subrange(0, i + 1int) =~= self@.alias.subrange(
                    0,
                    i as int,
                ).push(self@.alias[i as int]));
                assert(out@.last()@ == self@.alias[i as int]);
                assert((seq![AliasView { name: "latest"@, required: "*"@ }] + self@.alias.subrange(
                    0,
                    i as int,
                )).push(self@.alias[i as int]) =~= seq![
                    AliasView { name: "latest"@, required: "*"@ },
                ] + self@.alias.subrange(0, i + 1int));
                assert(out@.map_values(|a: Alias| a@) =~= seq![
                    AliasView { name: "latest"@, required: "*"@ },
                ] + self@.alias.subrange(0, i + 1int));
            }
            i += 1;
        }
        proof {
            assert(self@.alias.subrange(0, len as int) =~= self@.alias);
            assert(out@.map_values(|a: Alias| a@) =~= seq![
                AliasView { name: "latest"@, required: "*"@ },
            ] + self@.alias);
        }
        out
    }

    /// Replace the stored tables with freshly loaded ones, keeping the
    /// registry setting.
    pub fn reload(&mut self, versions: Vec<VersionMapping>, alias: Vec<Alias>)
        ensures
            final(self)@.registry == old(self)@.registry,
            final(self)@.versions == versions@.map_values(|m: VersionMapping| m@),
            final(self)@.alias == alias@.map_values(|a: Alias| a@),
    {
        self.versions = versions;
        self.alias = alias;
    }

    /// The requirements of every mapping that is no longer textually valid;
    /// the clean pass deletes these.
    pub fn invalid_requireds(&self) -> (r: Vec<String>)
        ensures
            seq_views(r@) == self@.versions.filter(
                |m: VersionMappingView| !spec_mapping_valid(m),
            ).map_values(|m: VersionMappingView| m.required),
    {
        let mut out: Vec<String> = Vec::new();
        let len = self.versions.len();
        let mut i: usize = 0;
        proof {
            reveal(Seq::filter);
            assert(seq_views(out@) =~~= self@.versions.subrange(0, 0).filter(
                |m: VersionMappingView| !spec_mapping_valid(m),
            ).map_values(|m: VersionMappingView| m.required));
        }
        while i < len
            invariant
                len == self.versions@.len(),
                i <= len,
                seq_views(out@) == self@.versions.subrange(0, i as int).filter(
                    |m: VersionMappingView| !spec_mapping_valid(m),
                ).map_values(|m: VersionMappingView| m.required),
            decreases len - i,
        {
            proof {
                reveal(Seq::filter);
                assert(self@.versions.subrange(0, i + 1int).drop_last() =~= self@.versions.subrange(
                    0,
                    i as int,
                ));
            }
            if !self.versions[i].is_valid_mapping() {
                out.push(self.versions[i].required.clone());
                proof {
                    reveal(Seq::filter);
                    assert(seq_views(out@) =~~= seq_views(out@.drop_last()).push(out@.last()@));
                    assert(self@.versions.subrange(0, i + 1int).last() == self@.versions[i as int]);
                    assert(self@.versions.subrange(0, i + 1int).filter(
                        |m: VersionMappingView| !spec_mapping_valid(m),
                    ) =~= self@.versions.subrange(0, i as int).filter(
                        |m: VersionMappingView| !spec_mapping_valid(m),
                    ).push(self@.versions[i as int]));
                    assert(self@.versions.subrange(0, i + 1int).filter(
                        |m: VersionMappingView| !spec_mapping_valid(m),
                    ).map_values(|m: VersionMappingView| m.required) =~= self@.versions.subrange(
                        0,
                        i as int,
                    ).filter(|m: VersionMappingView| !spec_mapping_valid(m)).map_values(
                        |m: VersionMappingView| m.required,
                    ).push(self@.versions[i as int].required));
                }
            } else {
                proof {
                    reveal(Seq::filter);
                    assert(self@.versions.subrange(0, i + 1int).filter(
                        |m: VersionMappingView| !spec_mapping_valid(m),
                    ) =~= self@.versions.subrange(0, i as int).filter(
                        |m: VersionMappingView| !spec_mapping_valid(m),
                    ));
                }
            }
            i += 1;
        }
        proof {
            assert(self@.versions.subrange(0, len as int) =~= self@.versions);
        }
        out
    }

    /// Among the installed version directories, those that no mapping points
    /// at; the clean pass removes their files.
    pub fn stale_dirs(&self, dirs: &Vec<String>) -> (r: Vec<String>)
        ensures
            seq_views(r@) == seq_views(dirs@).filter(
                |d: Seq<char>| !exists|i: int|
                    0 <= i < self@.versions.len() && #[trigger] self@.versions[i].current == d,
            ),
    {
        let ghost pred = |d: Seq<char>| !exists|i: int|
            0 <= i < self@.versions.len() && #[trigger] self@.versions[i].current == d;
        let mut out: Vec<String> = Vec::new();
        let len = dirs.len();
        let mut i: usize = 0;
        proof {
            reveal(Seq::filter);
            assert(seq_views(out@) =~~= seq_views(dirs@).subrange(0, 0).filter(pred));
        }
        while i < len
            invariant
                len == dirs@.len(),
                i <= len,
                seq_views(out@) == seq_views(dirs@).subrange(0, i as int).filter(
                    |d: Seq<char>| !exists|k: int|
                        0 <= k < self@.versions.len() && #[trigger] self@.versions[k].current == d,
                ),
            decreases len - i,
        {
            proof {
                reveal(Seq::filter);
                assert(seq_views(dirs@).subrange(0, i + 1int).drop_last() =~= seq_views(
                    dirs@,
                ).subrange(0, i as int));
            }
            let mut referenced = false;
            let vlen = self.versions.len();
            let mut k: usize = 0;
            while k < vlen
                invariant
                    vlen == self.versions@.len(),
                    k <= vlen,
                    i < len,
                    len == dirs@.len(),
                    referenced == exists|j: int|
                        0 <= j < k && #[trigger] self@.versions[j].current == seq_views(
                            dirs@,
                        )[i as int],
                decreases vlen - k,
            {
                if str_eq(self.versions[k].current.as_str(), dirs[i].as_str()) {
                    proof {
                        assert(self@.versions[k as int].current == seq_views(dirs@)[i as int]);
                    }
                    referenced = true;
                }
                k += 1;
            }
            if !referenced {
                out.push(dirs[i].clone());
                proof {
                    assert(seq_views(out@) =~~= seq_views(out@.drop_last()).push(out@.last()@));
                }
            }
            i += 1;
        }
        proof {
            assert(seq_views(dirs@).subrange(0, len as int) =~= seq_views(dirs@));
        }
        out
    }
}

/// Validate and store a user alias: the requirement must parse; a built-in
/// name is silently protected.
pub fn alias_set(meta: &mut DvmMeta, name: String, content: String) -> (r: Result<(), DvmError>)
    ensures
        match r {
            Ok(()) => req_parse_ok(content@) && final(meta)@ == spec_set_alias(
                old(meta)@,
                name@,
                content@,
            ),
            Err(e) => !req_parse_ok(content@) && final(meta)@ == old(meta)@ && (e
                matches DvmError::InvalidVersionReq(t) && t@ == content@),
        },
{
    if !semver_req_parse_ok(content.as_str()) {
        return Err(DvmError::InvalidVersionReq(content));
    }
    meta.set_alias(name, content);
    Ok(())
}

// ---------------------------------------------------------------------------
// Laws of the resolution cache
// ---------------------------------------------------------------------------
proof fn lemma_first_mapping_bounds(ms: Seq<VersionMappingView>, required: Seq<char>)
    ensures
        match spec_first_mapping(ms, required) {
            Some(i) => 0 <= i < ms.len() && ms[i].required == required && forall|j: int|
                0 <= j < i ==> ms[j].required != required,
            None => true,
        },
    decreases ms.len(),
{
    if ms.len() > 0 && ms[0].required != required {
        lemma_first_mapping_bounds(ms.drop_first(), required);
        match spec_first_mapping(ms.drop_first(), required) {
            Some(i) => {
                assert(ms[i + 1] == ms.drop_first()[i]);
                assert forall|j: int| 0 <= j < i + 1 implies ms[j].required != required by {
                    if j >= 1 {
                        assert(ms[j] == ms.drop_first()[j - 1]);
                    }
                }
            },
            None => {},
        }
    }
}

/// Law of the memo store: a freshly written memo answers its own key — it is
/// served back exactly while it is still textually valid and its version is
/// still installed, and never otherwise.
pub proof fn lemma_memo_write_then_read(
    m: DvmMetaView,
    required: Seq<char>,
    current: Seq<char>,
    installed: Seq<Seq<char>>,
)
    ensures
        spec_get_mapping(spec_set_mapping(m, required, current), required, installed) == (if (
        spec_mapping_valid(VersionMappingView { required, current }) && installed.contains(current)
        ) {
            Some(current)
        } else {
            None::<Seq<char>>
        }),
{
    let entry = VersionMappingView { required, current };
    lemma_first_mapping_bounds(m.versions, required);
    match spec_first_mapping(m.versions, required) {
        Some(i) => {
            lemma_first_mapping_some(m.versions.update(i, entry), required, i);
        },
        None => {
            lemma_first_mapping_none_forall(m.versions, required);
            lemma_first_mapping_some(m.versions.push(entry), required, m.versions.len() as int);
        },
    }
}

proof fn lemma_first_mapping_none_forall(ms: Seq<VersionMappingView>, required: Seq<char>)
    requires
        spec_first_mapping(ms, required) is None,
    ensures
        forall|j: int| 0 <= j < ms.len() ==> ms[j].required != required,
    decreases ms.len(),
{
    if ms.len() > 0 {
        if ms[0].required != required {
            lemma_first_mapping_none_forall(ms.drop_first(), required);
            assert forall|j: int| 0 <= j < ms.len() implies ms[j].required != required by {
                if j >= 1 {
                    assert(ms[j] == ms.drop_first()[j - 1]);
                }
            }
        }
    }
}

// ---------------------------------------------------------------------------
// Law: built-in aliases are protected
// ---------------------------------------------------------------------------
/// Setting an alias under a built-in name changes nothing: the store is left
/// as it was, every later resolution answers as before, and the built-in
/// name keeps resolving to its compiled-in requirement.
pub proof fn lemma_builtin_alias_protected(
    m: DvmMetaView,
    name: Seq<char>,
    required: Seq<char>,
    query: Seq<char>,
)
    requires
        spec_is_default_alias(name),
    ensures
        spec_set_alias(m, name, required) == m,
        spec_resolve(spec_set_alias(m, name, required), query) == spec_resolve(m, query),
        spec_get_alias(m, name) == Some(spec_version_arg_of("*"@)),
{
}

} // verus!
