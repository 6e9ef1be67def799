//! Command data as the front end hands it over, and the special-case
//! splitting of `exec` invocations, whose trailing arguments must not be
//! parsed as the manager's own.
use vstd::prelude::*;

use crate::consts::{
    REGISTRY_CN, REGISTRY_LIST_CN, REGISTRY_LIST_OFFICIAL, REGISTRY_NAME_CN,
    REGISTRY_NAME_OFFICIAL, REGISTRY_OFFICIAL,
};
use crate::strutil::{seq_starts_with, seq_views, str_eq, str_starts_with};

verus! {

#[derive(Debug, Clone, PartialEq, Eq)]
pub enum AliasCommands {
    Assign { name: String, content: String },
    Unset { name: String },
    List,
}

#[derive(Debug, Clone, PartialEq, Eq)]
pub enum BinaryRegistryCommands {
    Show,
    Assign { custom: String, write_local: bool },
}

#[derive(Debug, Clone, PartialEq, Eq)]
pub enum VersionRegistryCommands {
    Show,
    Assign { custom: String, write_local: bool },
}

#[derive(Debug, Clone, PartialEq, Eq)]
pub enum RegistryCommands {
    List,
    Show,
    Assign { predefined: RegistryPredefined, write_local: bool },
    Binary { sub: BinaryRegistryCommands },
    Version { sub: VersionRegistryCommands },
}

/// The two compiled-in registries.
#[derive(Debug, Clone, PartialEq, Eq)]
pub enum RegistryPredefined {
    Official,
    CN,
}

impl RegistryPredefined {
    /// Read a registry name; case matters.
    pub fn from_name(input: &str) -> (r: Option<RegistryPredefined>)
        ensures
            match r {
                Some(p) => (input@ == REGISTRY_NAME_OFFICIAL@ && p is Official) || (input@
                    == REGISTRY_NAME_CN@ && p is CN),
                None => input@ != REGISTRY_NAME_OFFICIAL@ && input@ != REGISTRY_NAME_CN@,
            },
    {
        if str_eq(input, REGISTRY_NAME_OFFICIAL) {
            Some(RegistryPredefined::Official)
        } else if str_eq(input, REGISTRY_NAME_CN) {
            Some(RegistryPredefined::CN)
        } else {
            None
        }
    }

    /// The version-list endpoint of this registry.
    pub fn get_version_url(&self) -> (r: String)
        ensures
            self is Official ==> r@ == REGISTRY_LIST_OFFICIAL@,
            self is CN ==> r@ == REGISTRY_LIST_CN@,
    {
        match self {
            RegistryPredefined::Official => REGISTRY_LIST_OFFICIAL.to_owned(),
            RegistryPredefined::CN => REGISTRY_LIST_CN.to_owned(),
        }
    }

    /// The binary-download endpoint of this registry.
    pub fn get_binary_url(&self) -> (r: String)
        ensures
            self is Official ==> r@ == REGISTRY_OFFICIAL@,
            self is CN ==> r@ == REGISTRY_CN@,
    {
        match self {
            RegistryPredefined::Official => REGISTRY_OFFICIAL.to_owned(),
            RegistryPredefined::CN => REGISTRY_CN.to_owned(),
        }
    }
}

// ---------------------------------------------------------------------------
// Splitting an `exec` invocation's arguments
// ---------------------------------------------------------------------------
/// How a raw argument vector reads when the first word names the `exec`
/// command.
pub enum ExecInvocation {
    /// The invocation is not an `exec` one.
    NotExec,
    /// A bare version flag with nothing after it; fatal.
    MissingVersion,
    /// Run with an optional version and the remaining arguments.
    Run { version: Option<String>, args: Vec<String> },
}

pub ghost enum ExecInvocationView {
    NotExec,
    MissingVersion,
    Run { version: Option<Seq<char>>, args: Seq<Seq<char>> },
}

impl View for ExecInvocation {
    type V = ExecInvocationView;

    open spec fn view(&self) -> ExecInvocationView {
        match self {
            ExecInvocation::NotExec => ExecInvocationView::NotExec,
            ExecInvocation::MissingVersion => ExecInvocationView::MissingVersion,
            ExecInvocation::Run { version, args } => ExecInvocationView::Run {
                version: match version {
                    Some(v) => Some(v@),
                    None => None,
                },
                args: seq_views(args@),
            },
        }
    }
}

/// `s` with `prefix` removed when it begins with it, `s` itself otherwise.
pub open spec fn spec_strip_prefix(s: Seq<char>, prefix: Seq<char>) -> Seq<char> {
    if seq_starts_with(s, prefix) {
        s.subrange(prefix.len() as int, s.len() as int)
    } else {
        s
    }
}

fn strip_prefix(s: &str, prefix: &str) -> (r: String)
    ensures
        r@ == spec_strip_prefix(s@, prefix@),
{
    if str_starts_with(s, prefix) {
        let p_len = prefix.unicode_len();
        let len = s.unicode_len();
        s.substring_char(p_len, len).to_owned()
    } else {
        s.to_owned()
    }
}

/// How the raw arguments split: the word after the program name must be
/// `exec`; a version comes either behind a separate version flag or glued to
/// one with `=`; everything after it belongs to the executed command.
pub open spec fn spec_split_exec(args: Seq<Seq<char>>) -> ExecInvocationView {
    if args.len() < 2 || args[1] != "exec"@ {
        ExecInvocationView::NotExec
    } else if args.len() == 2 {
        ExecInvocationView::Run { version: None, args: Seq::empty() }
    } else if args[2] == "--version"@ || args[2] == "-V"@ {
        if args.len() > 3 {
            ExecInvocationView::Run {
                version: Some(args[3]),
                args: args.subrange(4, args.len() as int),
            }
        } else {
            ExecInvocationView::MissingVersion
        }
    } else if seq_starts_with(args[2], "--version="@) || seq_starts_with(args[2], "-V="@) {
        ExecInvocationView::Run {
            version: Some(spec_strip_prefix(spec_strip_prefix(args[2], "-V="@), "--version="@)),
            args: args.subrange(3, args.len() as int),
        }
    } else {
        ExecInvocationView::Run { version: None, args: args.subrange(2, args.len() as int) }
    }
}

fn vec_tail(v: &Vec<String>, from: usize) -> (r: Vec<String>)
    requires
        from <= v@.len(),
    ensures
        seq_views(r@) == seq_views(v@).subrange(from as int, v@.len() as int),
{
    let mut out: Vec<String> = Vec::new();
    let len = v.len();
    let mut i: usize = from;
    proof {
        assert(seq_views(out@) =~~= seq_views(v@).subrange(from as int, from as int));
    }
    while i < len
        invariant
            from <= i <= len,
            len == v@.len(),
            seq_views(out@) == seq_views(v@).subrange(from as int, i as int),
        decreases len - i,
    {
        out.push(v[i].clone());
        proof {
            assert(seq_views(out@) =~~= seq_views(out@.drop_last()).push(out@.last()@));
            assert(seq_views(v@).subrange(from as int, i + 1int) =~= seq_views(v@).subrange(
                from as int,
                i as int,
            ).push(seq_views(v@)[i as int]));
        }
        i += 1;
    }
    out
}

/// Split a raw argument vector as an `exec` invocation.
pub fn split_exec_args(args: &Vec<String>) -> (r: ExecInvocation)
    ensures
        r@ == spec_split_exec(seq_views(args@)),
{
    if args.len() < 2 || !str_eq(args[1].as_str(), "exec") {
        return ExecInvocation::NotExec;
    }
    if args.len() == 2 {
        let empty: Vec<String> = Vec::new();
        proof {
            assert(seq_views(empty@) =~~= Seq::<Seq<char>>::empty());
        }
        return ExecInvocation::Run { version: None, args: empty };
    }
    let second = args[2].as_str();
    if str_eq(second, "--version") || str_eq(second, "-V") {
        if args.len() > 3 {
            ExecInvocation::Run { version: Some(args[3].clone()), args: vec_tail(args, 4) }
        } else {
            ExecInvocation::MissingVersion
        }
    } else if str_starts_with(second, "--version=") || str_starts_with(second, "-V=") {
        let stripped = strip_prefix(second, "-V=");
        let version = strip_prefix(stripped.as_str(), "--version=");
        ExecInvocation::Run { version: Some(version), args: vec_tail(args, 3) }
    } else {
        ExecInvocation::Run { version: None, args: vec_tail(args, 2) }
    }
}

} // verus!
