//! The configuration cascade: `key=value` text at two well-known scopes, a
//! directory-local file and a user-global one. Reads fall through per key
//! from local to global; writes target exactly one scope. The store works on
//! the two files' contents; reading and writing the files themselves is the
//! caller's business.
use vstd::prelude::*;

use crate::consts::{
    DVM_CONFIGRC_KEY_DENO_VERSION, DVM_CONFIGRC_KEY_REGISTRY_BINARY,
    DVM_CONFIGRC_KEY_REGISTRY_VERSION, REGISTRY_LIST_OFFICIAL, REGISTRY_OFFICIAL,
};
use crate::strutil::{find_char, spec_find, spec_split, split_char, str_eq};

verus! {

/// One `key=value` line.
pub ghost struct RcEntry {
    pub key: Seq<char>,
    pub value: Seq<char>,
}

/// The views of a scope's entries.
pub open spec fn entry_views(v: Seq<(String, String)>) -> Seq<RcEntry> {
    v.map_values(|p: (String, String)| RcEntry { key: p.0@, value: p.1@ })
}

/// Both scopes of the cascade; `None` marks a scope whose file does not
/// exist.
pub struct RcStore {
    pub local: Option<Vec<(String, String)>>,
    pub global: Option<Vec<(String, String)>>,
}

pub ghost struct RcStoreView {
    pub local: Option<Seq<RcEntry>>,
    pub global: Option<Seq<RcEntry>>,
}

impl View for RcStore {
    type V = RcStoreView;

    open spec fn view(&self) -> RcStoreView {
        RcStoreView {
            local: match self.local {
                Some(ref v) => Some(entry_views(v@)),
                None => None,
            },
            global: match self.global {
                Some(ref v) => Some(entry_views(v@)),
                None => None,
            },
        }
    }
}

// ---------------------------------------------------------------------------
// Parsing and rendering a scope's file content
// ---------------------------------------------------------------------------
/// How one line reads: the text before the first `=` is the key, everything
/// after it the value; a line without `=` carries nothing.
pub open spec fn spec_line_kv(line: Seq<char>) -> Option<RcEntry> {
    match spec_find(line, '=') {
        Some(i) => Some(
            RcEntry { key: line.subrange(0, i), value: line.subrange(i + 1, line.len() as int) },
        ),
        None => None,
    }
}

pub open spec fn spec_rc_parse_lines(lines: Seq<Seq<char>>) -> Seq<RcEntry>
    decreases lines.len(),
{
    if lines.len() == 0 {
        Seq::empty()
    } else {
        spec_rc_parse_lines(lines.drop_last()) + match spec_line_kv(lines.last()) {
            Some(e) => seq![e],
            None => Seq::empty(),
        }
    }
}

/// What a scope's file content parses to: its lines' key/value pairs, lines
/// without `=` ignored.
pub open spec fn spec_rc_parse(content: Seq<char>) -> Seq<RcEntry> {
    spec_rc_parse_lines(spec_split(content, '\n'))
}

/// Parse a scope's file content.
pub fn rc_parse(content: &str) -> (r: Vec<(String, String)>)
    ensures
        entry_views(r@) == spec_rc_parse(content@),
{
    let lines = split_char(content, '\n');
    let ghost line_views = crate::strutil::seq_views(lines@);
    let mut out: Vec<(String, String)> = Vec::new();
    let len = lines.len();
    let mut i: usize = 0;
    proof {
        assert(entry_views(out@) =~~= spec_rc_parse_lines(line_views.subrange(0, 0)));
    }
    while i < len
        invariant
            len == lines@.len(),
            i <= len,
            line_views == crate::strutil::seq_views(lines@),
            entry_views(out@) == spec_rc_parse_lines(line_views.subrange(0, i as int)),
        decreases len - i,
    {
        proof {
            assert(line_views.subrange(0, i + 1int).drop_last() =~= line_views.subrange(
                0,
                i as int,
            ));
            assert(line_views.subrange(0, i + 1int).last() == line_views[i as int]);
        }
        let line = lines[i].as_str();
        match find_char(line, '=') {
            Some(p) => {
                let len_line = line.unicode_len();
                let key = line.substring_char(0, p).to_owned();
                let value = line.substring_char(p + 1, len_line).to_owned();
                out.push((key, value));
                proof {
                    assert(entry_views(out@) =~~= entry_views(out@.drop_last()).push(
                        RcEntry { key: out@.last().0@, value: out@.last().1@ },
                    ));
                    assert(entry_views(out@) =~~= spec_rc_parse_lines(
                        line_views.subrange(0, i + 1int),
                    ));
                }
            },
            None => {
                proof {
                    assert(entry_views(out@) =~~= spec_rc_parse_lines(
                        line_views.subrange(0, i + 1int),
                    ));
                }
            },
        }
        i += 1;
    }
    proof {
        assert(line_views.subrange(0, len as int) =~= line_views);
    }
    out
}

/// The text a scope is written back as: one `key=value` per line.
pub open spec fn spec_rc_render(es: Seq<RcEntry>) -> Seq<char>
    decreases es.len(),
{
    if es.len() == 0 {
        Seq::empty()
    } else if es.len() == 1 {
        es[0].key + seq!['='] + es[0].value
    } else {
        spec_rc_render(es.drop_last()) + seq!['\n'] + es.last().key + seq!['='] + es.last().value
    }
}

/// Render a scope's entries back to file content; `None` when the scope does
/// not exist and so nothing is to be written.
pub fn rc_render(store: &RcStore, is_local: bool) -> (r: Option<String>)
    ensures
        ({
            let scope = if is_local {
                store@.local
            } else {
                store@.global
            };
            match r {
                Some(s) => scope matches Some(es) && s@ == spec_rc_render(es),
                None => scope is None,
            }
        }),
{
    proof {
        reveal_strlit("=");
        reveal_strlit("\n");
    }
    let scope = if is_local {
        &store.local
    } else {
        &store.global
    };
    match scope {
        None => None,
        Some(entries) => {
            let ghost es = entry_views(entries@);
            let mut out = String::new();
            let len = entries.len();
            let mut i: usize = 0;
            proof {
                assert(out@ =~= spec_rc_render(es.subrange(0, 0)));
            }
            while i < len
                invariant
                    len == entries@.len(),
                    i <= len,
                    es == entry_views(entries@),
                    "="@ =~= seq!['='],
                    "\n"@ =~= seq!['\n'],
                    out@ == spec_rc_render(es.subrange(0, i as int)),
                decreases len - i,
            {
                if i > 0 {
                    out.append("\n");
                }
                out.append(entries[i].0.as_str());
                out.append("=");
                out.append(entries[i].1.as_str());
                proof {
                    assert(es.subrange(0, i + 1int).drop_last() =~= es.subrange(0, i as int));
                    assert(es.subrange(0, i + 1int).last() == es[i as int]);
                    assert(out@ =~= spec_rc_render(es.subrange(0, i + 1int)));
                }
                i += 1;
            }
            proof {
                assert(es.subrange(0, len as int) =~= es);
            }
            Some(out)
        },
    }
}

// ---------------------------------------------------------------------------
// Lookup and upsert within one scope
// ---------------------------------------------------------------------------
/// Index of the first entry under `key`.
pub open spec fn spec_first_entry(es: Seq<RcEntry>, key: Seq<char>) -> Option<int>
    decreases es.len(),
{
    if es.len() == 0 {
        None
    } else if es[0].key == key {
        Some(0)
    } else {
        match spec_first_entry(es.drop_first(), key) {
            Some(i) => Some(i + 1),
            None => None,
        }
    }
}

proof fn lemma_first_entry_some(es: Seq<RcEntry>, key: Seq<char>, i: int)
    requires
        0 <= i < es.len(),
        es[i].key == key,
        forall|j: int| 0 <= j < i ==> es[j].key != key,
    ensures
        spec_first_entry(es, key) == Some(i),
    decreases i,
{
    if i > 0 {
        lemma_first_entry_some(es.drop_first(), key, i - 1);
    }
}

proof fn lemma_first_entry_none(es: Seq<RcEntry>, key: Seq<char>)
    requires
        forall|j: int| 0 <= j < es.len() ==> es[j].key != key,
    ensures
        spec_first_entry(es, key) is None,
    decreases es.len(),
{
    if es.len() > 0 {
        lemma_first_entry_none(es.drop_first(), key);
    }
}

/// The value stored under `key` in one scope, from its first entry.
pub open spec fn spec_scope_get(es: Seq<RcEntry>, key: Seq<char>) -> Option<Seq<char>> {
    match spec_first_entry(es, key) {
        Some(i) => Some(es[i].value),
        None => None,
    }
}

/// One scope after setting `key` to `value`: overwritten in place, or
/// appended.
pub open spec fn spec_upsert(es: Seq<RcEntry>, key: Seq<char>, value: Seq<char>) -> Seq<RcEntry> {
    match spec_first_entry(es, key) {
        Some(i) => es.update(i, RcEntry { key, value }),
        None => es.push(RcEntry { key, value }),
    }
}

fn find_entry(entries: &Vec<(String, String)>, key: &str) -> (r: Option<usize>)
    ensures
        match r {
            Some(i) => spec_first_entry(entry_views(entries@), key@) == Some(i as int) && i
                < entries@.len() && entry_views(entries@)[i as int].key == key@,
            None => spec_first_entry(entry_views(entries@), key@) is None,
        },
{
    let ghost es = entry_views(entries@);
    let mut i: usize = 0;
    while i < entries.len()
        invariant
            es == entry_views(entries@),
            i <= entries@.len(),
            forall|j: int| 0 <= j < i ==> es[j].key != key@,
        decreases entries@.len() - i,
    {
        if str_eq(entries[i].0.as_str(), key) {
            proof {
                lemma_first_entry_some(es, key@, i as int);
            }
            return Some(i);
        }
        i += 1;
    }
    proof {
        lemma_first_entry_none(es, key@);
    }
    None
}

fn scope_upsert(entries: &mut Vec<(String, String)>, key: &str, value: &str)
    ensures
        entry_views(final(entries)@) == spec_upsert(entry_views(old(entries)@), key@, value@),
{
    let pair = (key.to_owned(), value.to_owned());
    match find_entry(entries, key) {
        Some(i) => {
            entries.set(i, pair);
            proof {
                assert(entry_views(entries@) =~~= spec_upsert(
                    entry_views(old(entries)@),
                    key@,
                    value@,
                ));
            }
        },
        None => {
            entries.push(pair);
            proof {
                assert(entry_views(entries@) =~~= spec_upsert(
                    entry_views(old(entries)@),
                    key@,
                    value@,
                ));
            }
        },
    }
}

// ---------------------------------------------------------------------------
// The cascade
// ---------------------------------------------------------------------------
/// What a read answers: the local scope's value when its file exists and
/// defines the key, else the global scope's; undefined keys fall through per
/// key, not per file.
pub open spec fn spec_rc_get(s: RcStoreView, key: Seq<char>) -> Option<Seq<char>> {
    let from_global = match s.global {
        Some(g) => spec_scope_get(g, key),
        None => None,
    };
    match s.local {
        Some(l) => match spec_scope_get(l, key) {
            Some(v) => Some(v),
            None => from_global,
        },
        None => from_global,
    }
}

pub open spec fn spec_scope_or_empty(o: Option<Seq<RcEntry>>) -> Seq<RcEntry> {
    match o {
        Some(s) => s,
        None => Seq::empty(),
    }
}

/// The store after a write of `key=value` to one scope: that scope's file is
/// created if missing; the other scope is never touched.
pub open spec fn spec_rc_update(
    s: RcStoreView,
    is_local: bool,
    key: Seq<char>,
    value: Seq<char>,
) -> RcStoreView {
    if is_local {
        RcStoreView { local: Some(spec_upsert(spec_scope_or_empty(s.local), key, value)), ..s }
    } else {
        RcStoreView { global: Some(spec_upsert(spec_scope_or_empty(s.global), key, value)), ..s }
    }
}

/// The store after initializing the global scope with the default registry
/// endpoints.
pub open spec fn spec_rc_init(s: RcStoreView) -> RcStoreView {
    spec_rc_update(
        spec_rc_update(s, false, DVM_CONFIGRC_KEY_REGISTRY_BINARY@, REGISTRY_OFFICIAL@),
        false,
        DVM_CONFIGRC_KEY_REGISTRY_VERSION@,
        REGISTRY_LIST_OFFICIAL@,
    )
}

/// The three recognized keys are pairwise distinct.
proof fn lemma_rc_keys_distinct()
    ensures
        DVM_CONFIGRC_KEY_REGISTRY_BINARY@ != DVM_CONFIGRC_KEY_REGISTRY_VERSION@,
        DVM_CONFIGRC_KEY_REGISTRY_BINARY@ != DVM_CONFIGRC_KEY_DENO_VERSION@,
        DVM_CONFIGRC_KEY_REGISTRY_VERSION@ != DVM_CONFIGRC_KEY_DENO_VERSION@,
{
    reveal_strlit("registry_binary");
    reveal_strlit("registry_version");
    reveal_strlit("deno_version");
    assert(DVM_CONFIGRC_KEY_REGISTRY_BINARY@.len() == 15);
    assert(DVM_CONFIGRC_KEY_REGISTRY_VERSION@.len() == 16);
    assert(DVM_CONFIGRC_KEY_DENO_VERSION@.len() == 12);
}

impl RcStore {
    /// A store with neither file yet.
    pub fn new() -> (r: RcStore)
        ensures
            r@.local is None,
            r@.global is None,
    {
        RcStore { local: None, global: None }
    }

    /// Whether the user-global file exists.
    pub fn rc_exists(&self) -> (r: bool)
        ensures
            r == (self@.global is Some),
    {
        self.global.is_some()
    }

    /// Write the default registry endpoints to the global scope.
    pub fn rc_init(&mut self)
        ensures
            final(self)@ == spec_rc_init(old(self)@),
    {
        self.rc_update(false, DVM_CONFIGRC_KEY_REGISTRY_BINARY, REGISTRY_OFFICIAL);
        self.rc_update(false, DVM_CONFIGRC_KEY_REGISTRY_VERSION, REGISTRY_LIST_OFFICIAL);
    }

    /// The value under `key`, local scope first, then global.
    pub fn rc_get(&self, key: &str) -> (r: Option<String>)
        ensures
            match r {
                Some(v) => spec_rc_get(self@, key@) == Some(v@),
                None => spec_rc_get(self@, key@) is None,
            },
    {
        if let Some(ref entries) = self.local {
            if let Some(i) = find_entry(entries, key) {
                return Some(entries[i].1.clone());
            }
        }
        if let Some(ref entries) = self.global {
            if let Some(i) = find_entry(entries, key) {
                return Some(entries[i].1.clone());
            }
        }
        None
    }

    /// Whether any scope defines `key`.
    pub fn rc_has(&self, key: &str) -> (r: bool)
        ensures
            r == (spec_rc_get(self@, key@) is Some),
    {
        self.rc_get(key).is_some()
    }

    /// Set `key` to `value` in exactly one scope, creating its file if
    /// missing.
    pub fn rc_update(&mut self, is_local: bool, key: &str, value: &str)
        ensures
            final(self)@ == spec_rc_update(old(self)@, is_local, key@, value@),
    {
        if is_local {
            if self.local.is_none() {
                self.local = Some(Vec::new());
                proof {
                    assert(entry_views(self.local->Some_0@) =~= spec_scope_or_empty(
                        old(self)@.local,
                    ));
                }
            }
            match self.local {
                Some(ref mut entries) => scope_upsert(entries, key, value),
                None => {},
            }
        } else {
            if self.global.is_none() {
                self.global = Some(Vec::new());
                proof {
                    assert(entry_views(self.global->Some_0@) =~= spec_scope_or_empty(
                        old(self)@.global,
                    ));
                }
            }
            match self.global {
                Some(ref mut entries) => scope_upsert(entries, key, value),
                None => {},
            }
        }
    }

    /// Ensure the global file exists and every recognized key is defined
    /// somewhere: missing ones get their defaults written to the global
    /// scope.
    pub fn rc_fix(&mut self)
        ensures
            final(self)@.local == old(self)@.local,
            spec_rc_get(final(self)@, DVM_CONFIGRC_KEY_REGISTRY_BINARY@) is Some,
            spec_rc_get(final(self)@, DVM_CONFIGRC_KEY_REGISTRY_VERSION@) is Some,
            old(self)@.global is Some ==> spec_rc_get(
                final(self)@,
                DVM_CONFIGRC_KEY_DENO_VERSION@,
            ) is Some,
    {
        if !self.rc_exists() {
            self.rc_init();
            proof {
                lemma_rc_keys_distinct();
                lemma_upsert_get(
                    spec_scope_or_empty(old(self)@.global),
                    DVM_CONFIGRC_KEY_REGISTRY_BINARY@,
                    REGISTRY_OFFICIAL@,
                );
                lemma_upsert_get(
                    spec_upsert(
                        spec_scope_or_empty(old(self)@.global),
                        DVM_CONFIGRC_KEY_REGISTRY_BINARY@,
                        REGISTRY_OFFICIAL@,
                    ),
                    DVM_CONFIGRC_KEY_REGISTRY_VERSION@,
                    REGISTRY_LIST_OFFICIAL@,
                );
                lemma_upsert_get_other(
                    spec_upsert(
                        spec_scope_or_empty(old(self)@.global),
                        DVM_CONFIGRC_KEY_REGISTRY_BINARY@,
                        REGISTRY_OFFICIAL@,
                    ),
                    DVM_CONFIGRC_KEY_REGISTRY_VERSION@,
                    REGISTRY_LIST_OFFICIAL@,
                    DVM_CONFIGRC_KEY_REGISTRY_BINARY@,
                );
            }
        } else {
            if !self.rc_has(DVM_CONFIGRC_KEY_REGISTRY_BINARY) {
                self.rc_update(false, DVM_CONFIGRC_KEY_REGISTRY_BINARY, REGISTRY_OFFICIAL);
            }
            if !self.rc_has(DVM_CONFIGRC_KEY_REGISTRY_VERSION) {
                self.rc_update(false, DVM_CONFIGRC_KEY_REGISTRY_VERSION, REGISTRY_LIST_OFFICIAL);
            }
            if !self.rc_has(DVM_CONFIGRC_KEY_DENO_VERSION) {
                self.rc_update(false, DVM_CONFIGRC_KEY_DENO_VERSION, "latest");
            }
            proof {
                lemma_rc_fix_keys(old(self)@, self@);
            }
        }
    }

    /// Remove every entry under `key` from one scope; a missing file is a
    /// no-op.
    pub fn rc_remove(&mut self, is_local: bool, key: &str)
        ensures
            ({
                let scope = if is_local {
                    old(self)@.local
                } else {
                    old(self)@.global
                };
                let kept = if is_local {
                    final(self)@.local
                } else {
                    final(self)@.global
                };
                let other_before = if is_local {
                    old(self)@.global
                } else {
                    old(self)@.local
                };
                let other_after = if is_local {
                    final(self)@.global
                } else {
                    final(self)@.local
                };
                &&& other_after == other_before
                &&& match scope {
                    Some(es) => kept matches Some(ks) && ks == es.filter(
                        |e: RcEntry| e.key != key@,
                    ),
                    None => kept is None,
                }
            }),
    {
        let scope = if is_local {
            &mut self.local
        } else {
            &mut self.global
        };
        match scope {
            Some(ref mut entries) => {
                scope_retain_other_keys(entries, key);
            },
            None => {},
        }
    }

    /// Keep only the recognized keys in one scope; the global file is
    /// initialized first if missing. Unknown keys are dropped.
    pub fn rc_clean(&mut self, is_local: bool)
        ensures
            ({
                let after_init = if old(self)@.global is None {
                    spec_rc_init(old(self)@)
                } else {
                    old(self)@
                };
                let scope = if is_local {
                    after_init.local
                } else {
                    after_init.global
                };
                let kept = if is_local {
                    final(self)@.local
                } else {
                    final(self)@.global
                };
                let other_before = if is_local {
                    after_init.global
                } else {
                    after_init.local
                };
                let other_after = if is_local {
                    final(self)@.global
                } else {
                    final(self)@.local
                };
                &&& other_after == other_before
                &&& match scope {
                    Some(es) => kept matches Some(ks) && ks == es.filter(
                        |e: RcEntry| e.key == DVM_CONFIGRC_KEY_DENO_VERSION@ || e.key
                            == DVM_CONFIGRC_KEY_REGISTRY_BINARY@ || e.key
                            == DVM_CONFIGRC_KEY_REGISTRY_VERSION@,
                    ),
                    None => kept is None,
                }
            }),
    {
        if !self.rc_exists() {
            self.rc_init();
        }
        let scope = if is_local {
            &mut self.local
        } else {
            &mut self.global
        };
        match scope {
            Some(ref mut entries) => {
                scope_retain_known_keys(entries);
            },
            None => {},
        }
    }

    /// Forget a scope entirely, as deleting its file does.
    pub fn rc_unlink(&mut self, is_local: bool)
        ensures
            is_local ==> final(self)@.local is None && final(self)@.global == old(self)@.global,
            !is_local ==> final(self)@.global is None && final(self)@.local == old(self)@.local,
    {
        if is_local {
            self.local = None;
        } else {
            self.global = None;
        }
    }
}

fn scope_retain_other_keys(entries: &mut Vec<(String, String)>, key: &str)
    ensures
        entry_views(final(entries)@) == entry_views(old(entries)@).filter(
            |e: RcEntry| e.key != key@,
        ),
{
    let mut kept: Vec<(String, String)> = Vec::new();
    let len = entries.len();
    let mut i: usize = 0;
    proof {
        reveal(Seq::filter);
        assert(entry_views(kept@) =~~= entry_views(old(entries)@).subrange(0, 0).filter(
            |e: RcEntry| e.key != key@,
        ));
    }
    while i < len
        invariant
            len == entries@.len(),
            entries == old(entries),
            i <= len,
            entry_views(kept@) == entry_views(old(entries)@).subrange(0, i as int).filter(
                |e: RcEntry| e.key != key@,
            ),
        decreases len - i,
    {
        proof {
            reveal(Seq::filter);
            assert(entry_views(old(entries)@).subrange(0, i + 1int).drop_last() =~= entry_views(
                old(entries)@,
            ).subrange(0, i as int));
            assert(entry_views(old(entries)@).subrange(0, i + 1int).last() == entry_views(
                old(entries)@,
            )[i as int]);
        }
        if !str_eq(entries[i].0.as_str(), key) {
            kept.push((entries[i].0.clone(), entries[i].1.clone()));
            proof {
                assert(entry_views(kept@) =~~= entry_views(kept@.drop_last()).push(
                    RcEntry { key: kept@.last().0@, value: kept@.last().1@ },
                ));
            }
        }
        i += 1;
    }
    proof {
        assert(entry_views(old(entries)@).subrange(0, len as int) =~= entry_views(old(entries)@));
    }
    *entries = kept;
}

fn scope_retain_known_keys(entries: &mut Vec<(String, String)>)
    ensures
        entry_views(final(entries)@) == entry_views(old(entries)@).filter(
            |e: RcEntry| e.key == DVM_CONFIGRC_KEY_DENO_VERSION@ || e.key
                == DVM_CONFIGRC_KEY_REGISTRY_BINARY@ || e.key == DVM_CONFIGRC_KEY_REGISTRY_VERSION@,
        ),
{
    let mut kept: Vec<(String, String)> = Vec::new();
    let len = entries.len();
    let mut i: usize = 0;
    proof {
        reveal(Seq::filter);
        assert(entry_views(kept@) =~~= entry_views(old(entries)@).subrange(0, 0).filter(
            |e: RcEntry| e.key == DVM_CONFIGRC_KEY_DENO_VERSION@ || e.key
                == DVM_CONFIGRC_KEY_REGISTRY_BINARY@ || e.key == DVM_CONFIGRC_KEY_REGISTRY_VERSION@,
        ));
    }
    while i < len
        invariant
            len == entries@.len(),
            entries == old(entries),
            i <= len,
            entry_views(kept@) == entry_views(old(entries)@).subrange(0, i as int).filter(
                |e: RcEntry| e.key == DVM_CONFIGRC_KEY_DENO_VERSION@ || e.key
                    == DVM_CONFIGRC_KEY_REGISTRY_BINARY@ || e.key
                    == DVM_CONFIGRC_KEY_REGISTRY_VERSION@,
            ),
        decreases len - i,
    {
        proof {
            reveal(Seq::filter);
            assert(entry_views(old(entries)@).subrange(0, i + 1int).drop_last() =~= entry_views(
                old(entries)@,
            ).subrange(0, i as int));
            assert(entry_views(old(entries)@).subrange(0, i + 1int).last() == entry_views(
                old(entries)@,
            )[i as int]);
        }
        if str_eq(entries[i].0.as_str(), DVM_CONFIGRC_KEY_DENO_VERSION) || str_eq(
            entries[i].0.as_str(),
            DVM_CONFIGRC_KEY_REGISTRY_BINARY,
        ) || str_eq(entries[i].0.as_str(), DVM_CONFIGRC_KEY_REGISTRY_VERSION) {
            kept.push((entries[i].0.clone(), entries[i].1.clone()));
            proof {
                assert(entry_views(kept@) =~~= entry_views(kept@.drop_last()).push(
                    RcEntry { key: kept@.last().0@, value: kept@.last().1@ },
                ));
            }
        }
        i += 1;
    }
    proof {
        assert(entry_views(old(entries)@).subrange(0, len as int) =~= entry_views(old(entries)@));
    }
    *entries = kept;
}

// ---------------------------------------------------------------------------
// Laws of the cascade
// ---------------------------------------------------------------------------
/// After setting a key in a scope, that scope answers with the new value.
pub proof fn lemma_upsert_get(es: Seq<RcEntry>, key: Seq<char>, value: Seq<char>)
    ensures
        spec_scope_get(spec_upsert(es, key, value), key) == Some(value),
{
    match spec_first_entry(es, key) {
        Some(i) => {
            lemma_first_entry_bounds(es, key);
            lemma_first_entry_some(es.update(i, RcEntry { key, value }), key, i);
        },
        None => {
            lemma_first_entry_not_found(es, key);
            lemma_first_entry_some(es.push(RcEntry { key, value }), key, es.len() as int);
        },
    }
}

/// Setting one key leaves every other key's answer unchanged.
pub proof fn lemma_upsert_get_other(
    es: Seq<RcEntry>,
    key: Seq<char>,
    value: Seq<char>,
    other: Seq<char>,
)
    requires
        other != key,
    ensures
        spec_scope_get(spec_upsert(es, key, value), other) == spec_scope_get(es, other),
    decreases es.len(),
{
    let updated = spec_upsert(es, key, value);
    lemma_first_entry_bounds(es, key);
    lemma_first_entry_bounds(es, other);
    lemma_first_entry_bounds(updated, other);
    match spec_first_entry(es, key) {
        Some(i) => {
            lemma_first_entry_same(es, es.update(i, RcEntry { key, value }), other);
        },
        None => {
            match spec_first_entry(es, other) {
                Some(j) => {
                    lemma_first_entry_some(es.push(RcEntry { key, value }), other, j);
                },
                None => {
                    lemma_first_entry_not_found(es, other);
                    lemma_first_entry_none(es.push(RcEntry { key, value }), other);
                },
            }
        },
    }
}

/// A found index is in range, keyed right, and first.
proof fn lemma_first_entry_bounds(es: Seq<RcEntry>, key: Seq<char>)
    ensures
        match spec_first_entry(es, key) {
            Some(i) => 0 <= i < es.len() && es[i].key == key && forall|j: int|
                0 <= j < i ==> es[j].key != key,
            None => true,
        },
    decreases es.len(),
{
    if es.len() > 0 && es[0].key != key {
        lemma_first_entry_bounds(es.drop_first(), key);
        match spec_first_entry(es.drop_first(), key) {
            Some(i) => {
                assert(spec_first_entry(es, key) == Some(i + 1));
                assert(es[i + 1] == es.drop_first()[i]);
                assert forall|j: int| 0 <= j < i + 1 implies es[j].key != key by {
                    if j >= 1 {
                        assert(es[j] == es.drop_first()[j - 1]);
                    }
                }
            },
            None => {},
        }
    }
}

/// When no entry carries the key, every index misses it.
proof fn lemma_first_entry_not_found(es: Seq<RcEntry>, key: Seq<char>)
    requires
        spec_first_entry(es, key) is None,
    ensures
        forall|j: int| 0 <= j < es.len() ==> es[j].key != key,
    decreases es.len(),
{
    if es.len() > 0 {
        if es[0].key != key {
            lemma_first_entry_not_found(es.drop_first(), key);
            assert forall|j: int| 0 <= j < es.len() implies es[j].key != key by {
                if j >= 1 {
                    assert(es[j] == es.drop_first()[j - 1]);
                }
            }
        }
    }
}

/// Two scopes that agree on which entries carry `key`, and on those entries'
/// values, answer `key` alike.
proof fn lemma_first_entry_same(es: Seq<RcEntry>, fs: Seq<RcEntry>, key: Seq<char>)
    requires
        es.len() == fs.len(),
        forall|j: int|
            0 <= j < es.len() ==> ((es[j].key == key) == (fs[j].key == key)) && (es[j].key == key
                ==> es[j] == fs[j]),
    ensures
        spec_scope_get(es, key) == spec_scope_get(fs, key),
{
    lemma_first_entry_bounds(es, key);
    lemma_first_entry_bounds(fs, key);
    match spec_first_entry(es, key) {
        Some(i) => {
            lemma_first_entry_some(fs, key, i);
        },
        None => {
            lemma_first_entry_not_found(es, key);
            lemma_first_entry_none(fs, key);
        },
    }
}

proof fn lemma_rc_fix_keys(before: RcStoreView, after: RcStoreView)
    requires
        after == ({
            let s1 = if spec_rc_get(before, DVM_CONFIGRC_KEY_REGISTRY_BINARY@) is None {
                spec_rc_update(
                    before,
                    false,
                    DVM_CONFIGRC_KEY_REGISTRY_BINARY@,
                    REGISTRY_OFFICIAL@,
                )
            } else {
                before
            };
            let s2 = if spec_rc_get(s1, DVM_CONFIGRC_KEY_REGISTRY_VERSION@) is None {
                spec_rc_update(
                    s1,
                    false,
                    DVM_CONFIGRC_KEY_REGISTRY_VERSION@,
                    REGISTRY_LIST_OFFICIAL@,
                )
            } else {
                s1
            };
            if spec_rc_get(s2, DVM_CONFIGRC_KEY_DENO_VERSION@) is None {
                spec_rc_update(s2, false, DVM_CONFIGRC_KEY_DENO_VERSION@, "latest"@)
            } else {
                s2
            }
        }),
    ensures
        spec_rc_get(after, DVM_CONFIGRC_KEY_REGISTRY_BINARY@) is Some,
        spec_rc_get(after, DVM_CONFIGRC_KEY_REGISTRY_VERSION@) is Some,
        spec_rc_get(after, DVM_CONFIGRC_KEY_DENO_VERSION@) is Some,
{
    let kb = DVM_CONFIGRC_KEY_REGISTRY_BINARY@;
    let kv = DVM_CONFIGRC_KEY_REGISTRY_VERSION@;
    let kd = DVM_CONFIGRC_KEY_DENO_VERSION@;
    lemma_rc_keys_distinct();
    let s1 = if spec_rc_get(before, kb) is None {
        spec_rc_update(before, false, kb, REGISTRY_OFFICIAL@)
    } else {
        before
    };
    let s2 = if spec_rc_get(s1, kv) is None {
        spec_rc_update(s1, false, kv, REGISTRY_LIST_OFFICIAL@)
    } else {
        s1
    };
    if spec_rc_get(before, kb) is None {
        lemma_upsert_get(spec_scope_or_empty(before.global), kb, REGISTRY_OFFICIAL@);
    }
    if spec_rc_get(s1, kv) is None {
        lemma_upsert_get(spec_scope_or_empty(s1.global), kv, REGISTRY_LIST_OFFICIAL@);
        lemma_upsert_get_other(spec_scope_or_empty(s1.global), kv, REGISTRY_LIST_OFFICIAL@, kb);
    }
    if spec_rc_get(s2, kd) is None {
        lemma_upsert_get(spec_scope_or_empty(s2.global), kd, "latest"@);
        lemma_upsert_get_other(spec_scope_or_empty(s2.global), kd, "latest"@, kb);
        lemma_upsert_get_other(spec_scope_or_empty(s2.global), kd, "latest"@, kv);
    }
}

/// An entry the file format can carry faithfully: line breaks appear in
/// neither field, and the key holds no `=`.
pub open spec fn spec_entry_wf(e: RcEntry) -> bool {
    &&& forall|i: int| 0 <= i < e.key.len() ==> e.key[i] != '\n' && e.key[i] != '='
    &&& forall|i: int| 0 <= i < e.value.len() ==> e.value[i] != '\n'
}

/// One rendered line.
pub open spec fn spec_entry_line(e: RcEntry) -> Seq<char> {
    e.key + seq!['='] + e.value
}

proof fn lemma_line_kv_round_trip(e: RcEntry)
    requires
        spec_entry_wf(e),
    ensures
        spec_line_kv(spec_entry_line(e)) == Some(e),
{
    crate::strutil::lemma_find_concat(e.key, e.value, '=');
    let line = spec_entry_line(e);
    assert(line.subrange(0, e.key.len() as int) =~= e.key);
    assert(line.subrange(e.key.len() as int + 1, line.len() as int) =~= e.value);
}

proof fn lemma_render_split(es: Seq<RcEntry>)
    requires
        es.len() >= 1,
        forall|j: int| 0 <= j < es.len() ==> spec_entry_wf(#[trigger] es[j]),
    ensures
        spec_split(spec_rc_render(es), '\n') == es.map_values(|e: RcEntry| spec_entry_line(e)),
    decreases es.len(),
{
    let line_of = |e: RcEntry| spec_entry_line(e);
    if es.len() == 1 {
        let line = spec_entry_line(es[0]);
        assert(spec_rc_render(es) == line);
        assert(Seq::<char>::empty() + line =~= line);
        crate::strutil::lemma_split_extend_no_sep(Seq::<char>::empty(), line, '\n');
        assert(spec_split(Seq::<char>::empty(), '\n') =~= seq![Seq::<char>::empty()]);
        assert(spec_split(line, '\n') =~= seq![line]);
        assert(es.map_values(line_of) =~= seq![line]);
    } else {
        lemma_render_split(es.drop_last());
        let head = spec_rc_render(es.drop_last());
        let line = spec_entry_line(es.last());
        assert(spec_rc_render(es) == head + seq!['\n'] + es.last().key + seq!['=']
            + es.last().value);
        assert(spec_rc_render(es) =~= (head + seq!['\n']) + line);
        crate::strutil::lemma_split_extend_sep(head, '\n');
        crate::strutil::lemma_split_extend_no_sep(head + seq!['\n'], line, '\n');
        let with_sep = spec_split(head, '\n') + seq![Seq::<char>::empty()];
        assert(spec_split(spec_rc_render(es), '\n') == with_sep.update(
            with_sep.len() - 1,
            with_sep.last() + line,
        ));
        assert(with_sep.last() + line =~= line);
        assert(with_sep.update(with_sep.len() - 1, line) =~= es.drop_last().map_values(line_of)
            + seq![line]);
        assert(es.map_values(line_of) =~= es.drop_last().map_values(line_of) + seq![line]);
    }
}

proof fn lemma_parse_lines_of_entries(es: Seq<RcEntry>)
    requires
        forall|j: int| 0 <= j < es.len() ==> spec_entry_wf(#[trigger] es[j]),
    ensures
        spec_rc_parse_lines(es.map_values(|e: RcEntry| spec_entry_line(e))) == es,
    decreases es.len(),
{
    let line_of = |e: RcEntry| spec_entry_line(e);
    if es.len() == 0 {
        assert(es.map_values(line_of) =~= Seq::<Seq<char>>::empty());
        assert(spec_rc_parse_lines(es.map_values(line_of)) =~= es);
    } else {
        lemma_parse_lines_of_entries(es.drop_last());
        lemma_line_kv_round_trip(es.last());
        let lines = es.map_values(line_of);
        assert(lines.drop_last() =~= es.drop_last().map_values(line_of));
        assert(lines.last() == spec_entry_line(es.last()));
        assert(spec_rc_parse_lines(lines) =~= es.drop_last().push(es.last()));
        assert(es.drop_last().push(es.last()) =~= es);
    }
}

/// Round trip of the file format: a scope written out and read back yields
/// exactly the entries it held, provided each entry is one the format can
/// carry (no line breaks, no `=` in a key). An empty scope reads back empty.
pub proof fn lemma_rc_render_parse_round_trip(es: Seq<RcEntry>)
    requires
        forall|j: int| 0 <= j < es.len() ==> spec_entry_wf(#[trigger] es[j]),
    ensures
        spec_rc_parse(spec_rc_render(es)) == es,
{
    if es.len() == 0 {
        assert(spec_rc_render(es) =~= Seq::<char>::empty());
        let lines = spec_split(Seq::<char>::empty(), '\n');
        assert(lines =~= seq![Seq::<char>::empty()]);
        assert(lines.drop_last() =~= Seq::<Seq<char>>::empty());
        assert(spec_rc_parse_lines(Seq::<Seq<char>>::empty()) =~= Seq::<RcEntry>::empty());
        assert(spec_line_kv(lines.last()) is None);
        assert(spec_rc_parse_lines(lines) =~= Seq::<RcEntry>::empty());
        assert(spec_rc_parse(spec_rc_render(es)) =~= es);
    } else {
        lemma_render_split(es);
        lemma_parse_lines_of_entries(es);
    }
}

/// Law of the cascade: after a local-scoped write of `key=value`, a read of
/// `key` answers `value` while the global scope is untouched; and with no
/// local definition of `key`, a read answers the global value.
pub proof fn lemma_cascade_precedence(s: RcStoreView, key: Seq<char>, value: Seq<char>)
    ensures
        spec_rc_get(spec_rc_update(s, true, key, value), key) == Some(value),
        spec_rc_update(s, true, key, value).global == s.global,
        (match s.local {
            Some(l) => spec_scope_get(l, key) is None,
            None => true,
        }) ==> spec_rc_get(s, key) == (match s.global {
            Some(g) => spec_scope_get(g, key),
            None => None,
        }),
{
    lemma_upsert_get(spec_scope_or_empty(s.local), key, value);
}

} // verus!
