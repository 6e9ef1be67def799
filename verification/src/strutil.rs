//! Verified helpers over `String` and `&str`: equality, prefix tests,
//! searching, splitting, trimming and decimal rendering. All contracts are
//! stated over the `Seq<char>` views of the inputs.
use vstd::prelude::*;

verus! {

/// `s` begins with `prefix`.
pub open spec fn seq_starts_with(s: Seq<char>, prefix: Seq<char>) -> bool {
    s.len() >= prefix.len() && s.subrange(0, prefix.len() as int) == prefix
}

/// The views of a sequence of strings.
pub open spec fn seq_views(v: Seq<String>) -> Seq<Seq<char>> {
    v.map_values(|s: String| s@)
}

pub fn str_eq(a: &str, b: &str) -> (r: bool)
    ensures
        r == (a@ == b@),
{
    let a_len = a.unicode_len();
    let b_len = b.unicode_len();
    if a_len != b_len {
        return false;
    }
    let mut i: usize = 0;
    while i < a_len
        invariant
            a_len == a@.len(),
            b_len == b@.len(),
            a_len == b_len,
            i <= a_len,
            forall|j: int| 0 <= j < i ==> a@[j] == b@[j],
        decreases a_len - i,
    {
        if a.get_char(i) != b.get_char(i) {
            return false;
        }
        i += 1;
    }
    proof {
        assert(a@ =~= b@);
    }
    true
}

pub fn str_starts_with(s: &str, prefix: &str) -> (r: bool)
    ensures
        r == seq_starts_with(s@, prefix@),
{
    let s_len = s.unicode_len();
    let p_len = prefix.unicode_len();
    if s_len < p_len {
        return false;
    }
    let head = s.substring_char(0, p_len);
    str_eq(head, prefix)
}

/// Index of the first occurrence of `c` in `s`.
pub open spec fn spec_find(s: Seq<char>, c: char) -> Option<int>
    decreases s.len(),
{
    if s.len() == 0 {
        None
    } else if s[0] == c {
        Some(0)
    } else {
        match spec_find(s.drop_first(), c) {
            Some(i) => Some(i + 1),
            None => None,
        }
    }
}

proof fn lemma_find_some(s: Seq<char>, c: char, i: int)
    requires
        0 <= i < s.len(),
        s[i] == c,
        forall|j: int| 0 <= j < i ==> s[j] != c,
    ensures
        spec_find(s, c) == Some(i),
    decreases i,
{
    if i == 0 {
    } else {
        lemma_find_some(s.drop_first(), c, i - 1);
    }
}

proof fn lemma_find_none(s: Seq<char>, c: char)
    requires
        forall|j: int| 0 <= j < s.len() ==> s[j] != c,
    ensures
        spec_find(s, c) is None,
    decreases s.len(),
{
    if s.len() > 0 {
        lemma_find_none(s.drop_first(), c);
    }
}

pub fn find_char(s: &str, c: char) -> (r: Option<usize>)
    ensures
        match r {
            Some(i) => spec_find(s@, c) == Some(i as int) && i < s@.len() && s@[i as int] == c,
            None => spec_find(s@, c) is None,
        },
{
    let len = s.unicode_len();
    let mut i: usize = 0;
    while i < len
        invariant
            len == s@.len(),
            i <= len,
            forall|j: int| 0 <= j < i ==> s@[j] != c,
        decreases len - i,
    {
        if s.get_char(i) == c {
            proof {
                lemma_find_some(s@, c, i as int);
            }
            return Some(i);
        }
        i += 1;
    }
    proof {
        lemma_find_none(s@, c);
    }
    None
}

/// `s` split at every occurrence of `sep`; always at least one part, and the
/// separators themselves do not appear in any part.
pub open spec fn spec_split(s: Seq<char>, sep: char) -> Seq<Seq<char>>
    decreases s.len(),
{
    if s.len() == 0 {
        seq![Seq::<char>::empty()]
    } else {
        let parts = spec_split(s.drop_last(), sep);
        if s.last() == sep {
            parts + seq![Seq::<char>::empty()]
        } else {
            parts.update(parts.len() - 1, parts.last() + seq![s.last()])
        }
    }
}

pub proof fn lemma_split_len(s: Seq<char>, sep: char)
    ensures
        spec_split(s, sep).len() >= 1,
    decreases s.len(),
{
    if s.len() > 0 {
        lemma_split_len(s.drop_last(), sep);
    }
}

/// Appending separator-free text extends the last part and nothing else.
pub proof fn lemma_split_extend_no_sep(s: Seq<char>, t: Seq<char>, sep: char)
    requires
        forall|i: int| 0 <= i < t.len() ==> t[i] != sep,
    ensures
        spec_split(s + t, sep) == spec_split(s, sep).update(
            spec_split(s, sep).len() - 1,
            spec_split(s, sep).last() + t,
        ),
    decreases t.len(),
{
    lemma_split_len(s, sep);
    let parts = spec_split(s, sep);
    if t.len() == 0 {
        assert(s + t =~= s);
        assert(parts.last() + t =~= parts.last());
        assert(parts.update(parts.len() - 1, parts.last() + t) =~= parts);
    } else {
        lemma_split_extend_no_sep(s, t.drop_last(), sep);
        assert((s + t).drop_last() =~= s + t.drop_last());
        assert((s + t).last() == t.last());
        let mid = parts.update(parts.len() - 1, parts.last() + t.drop_last());
        assert(spec_split(s + t, sep) == mid.update(mid.len() - 1, mid.last() + seq![t.last()]));
        assert(parts.last() + t.drop_last() + seq![t.last()] =~= parts.last() + t);
        assert(mid.update(mid.len() - 1, mid.last() + seq![t.last()]) =~= parts.update(
            parts.len() - 1,
            parts.last() + t,
        ));
    }
}

/// Appending the separator closes the current part and opens an empty one.
pub proof fn lemma_split_extend_sep(s: Seq<char>, sep: char)
    ensures
        spec_split(s + seq![sep], sep) == spec_split(s, sep) + seq![Seq::<char>::empty()],
{
    assert((s + seq![sep]).drop_last() =~= s);
    assert((s + seq![sep]).last() == sep);
}

/// Searching text that holds the target only at position `k.len()` finds it
/// there.
pub proof fn lemma_find_concat(k: Seq<char>, v: Seq<char>, c: char)
    requires
        forall|i: int| 0 <= i < k.len() ==> k[i] != c,
    ensures
        spec_find(k + seq![c] + v, c) == Some(k.len() as int),
    decreases k.len(),
{
    let s = k + seq![c] + v;
    if k.len() == 0 {
        assert(s[0] == c);
    } else {
        assert(s[0] == k[0]);
        lemma_find_concat(k.drop_first(), v, c);
        assert(s.drop_first() =~= k.drop_first() + seq![c] + v);
    }
}

pub fn split_char(s: &str, sep: char) -> (r: Vec<String>)
    ensures
        seq_views(r@) == spec_split(s@, sep),
        r@.len() >= 1,
{
    let len = s.unicode_len();
    let mut parts: Vec<String> = Vec::new();
    let mut start: usize = 0;
    let mut i: usize = 0;
    proof {
        assert(seq_views(parts@) + seq![s@.subrange(0, 0)] =~~= spec_split(
            s@.subrange(0, 0),
            sep,
        ));
    }
    while i < len
        invariant
            len == s@.len(),
            start <= i <= len,
            seq_views(parts@) + seq![s@.subrange(start as int, i as int)] == spec_split(
                s@.subrange(0, i as int),
                sep,
            ),
        decreases len - i,
    {
        let ghost prefix = s@.subrange(0, i as int);
        let ghost next_prefix = s@.subrange(0, i + 1int);
        proof {
            assert(next_prefix.drop_last() =~= prefix);
            lemma_split_len(prefix, sep);
        }
        if s.get_char(i) == sep {
            let part = s.substring_char(start, i).to_owned();
            parts.push(part);
            start = i + 1;
            proof {
                assert(seq_views(parts@) =~~= seq_views(parts@.drop_last())
                    + seq![parts@.last()@]);
                assert(seq_views(parts@) + seq![s@.subrange(start as int, i + 1int)]
                    =~~= spec_split(next_prefix, sep));
            }
        } else {
            proof {
                let parts_prev = spec_split(prefix, sep);
                assert(spec_split(next_prefix, sep) == parts_prev.update(
                    parts_prev.len() - 1,
                    parts_prev.last() + seq![s@[i as int]],
                ));
                assert(s@.subrange(start as int, i + 1int) =~= s@.subrange(
                    start as int,
                    i as int,
                ) + seq![s@[i as int]]);
                assert(seq_views(parts@) + seq![s@.subrange(start as int, i + 1int)]
                    =~~= spec_split(next_prefix, sep));
            }
        }
        i += 1;
    }
    let tail = s.substring_char(start, len).to_owned();
    parts.push(tail);
    proof {
        assert(s@.subrange(0, len as int) =~= s@);
        assert(seq_views(parts@) =~~= seq_views(parts@.drop_last()) + seq![parts@.last()@]);
        assert(seq_views(parts@) =~~= spec_split(s@, sep));
        lemma_split_len(s@, sep);
    }
    parts
}

/// ASCII whitespace, as trimmed from registry responses and command output.
pub open spec fn spec_is_space(c: char) -> bool {
    c == ' ' || c == '\t' || c == '\n' || c == '\r'
}

fn is_space(c: char) -> (r: bool)
    ensures
        r == spec_is_space(c),
{
    c == ' ' || c == '\t' || c == '\n' || c == '\r'
}

pub open spec fn spec_trim_start(s: Seq<char>) -> Seq<char>
    decreases s.len(),
{
    if s.len() > 0 && spec_is_space(s[0]) {
        spec_trim_start(s.drop_first())
    } else {
        s
    }
}

pub open spec fn spec_trim_end(s: Seq<char>) -> Seq<char>
    decreases s.len(),
{
    if s.len() > 0 && spec_is_space(s.last()) {
        spec_trim_end(s.drop_last())
    } else {
        s
    }
}

/// `s` with leading and trailing ASCII whitespace removed.
pub open spec fn spec_trim(s: Seq<char>) -> Seq<char> {
    spec_trim_end(spec_trim_start(s))
}

proof fn lemma_trim_start_skip(s: Seq<char>, i: int)
    requires
        0 <= i <= s.len(),
        forall|j: int| 0 <= j < i ==> spec_is_space(s[j]),
    ensures
        spec_trim_start(s) == spec_trim_start(s.subrange(i, s.len() as int)),
    decreases i,
{
    if i > 0 {
        assert(spec_trim_start(s) == spec_trim_start(s.drop_first()));
        lemma_trim_start_skip(s.drop_first(), i - 1);
        assert(s.drop_first().subrange(i - 1, s.drop_first().len() as int) =~= s.subrange(
            i,
            s.len() as int,
        ));
    } else {
        assert(s.subrange(0, s.len() as int) =~= s);
    }
}

proof fn lemma_trim_end_skip(s: Seq<char>, i: int)
    requires
        0 <= i <= s.len(),
        forall|j: int| i <= j < s.len() ==> spec_is_space(s[j]),
    ensures
        spec_trim_end(s) == spec_trim_end(s.subrange(0, i)),
    decreases s.len() - i,
{
    if i < s.len() {
        assert(spec_trim_end(s) == spec_trim_end(s.drop_last()));
        lemma_trim_end_skip(s.drop_last(), i);
        assert(s.drop_last().subrange(0, i) =~= s.subrange(0, i));
    } else {
        assert(s.subrange(0, s.len() as int) =~= s);
    }
}

pub fn trim_str<'a>(s: &'a str) -> (r: &'a str)
    ensures
        r@ == spec_trim(s@),
{
    let len = s.unicode_len();
    let mut from: usize = 0;
    while from < len && is_space(s.get_char(from))
        invariant
            len == s@.len(),
            from <= len,
            forall|j: int| 0 <= j < from ==> spec_is_space(s@[j]),
        decreases len - from,
    {
        from += 1;
    }
    let mut to: usize = len;
    while to > from && is_space(s.get_char(to - 1))
        invariant
            len == s@.len(),
            from <= to <= len,
            forall|j: int| 0 <= j < from ==> spec_is_space(s@[j]),
            forall|j: int| to <= j < len ==> spec_is_space(s@[j]),
        decreases to,
    {
        to -= 1;
    }
    let r = s.substring_char(from, to);
    proof {
        lemma_trim_start_skip(s@, from as int);
        let suffix = s@.subrange(from as int, len as int);
        if to > from {
            // suffix does not start with space, so trim_start leaves it alone
            assert(!spec_is_space(suffix[0]));
            assert(spec_trim_start(suffix) == suffix);
            lemma_trim_end_skip(suffix, to - from);
            assert(suffix.subrange(0, to - from) =~= s@.subrange(from as int, to as int));
        } else {
            assert(suffix =~= Seq::<char>::empty());
            assert(r@ =~= Seq::<char>::empty());
        }
    }
    r
}

/// `s` with every occurrence of `c` removed.
pub open spec fn spec_remove_char(s: Seq<char>, c: char) -> Seq<char>
    decreases s.len(),
{
    if s.len() == 0 {
        Seq::empty()
    } else if s.last() == c {
        spec_remove_char(s.drop_last(), c)
    } else {
        spec_remove_char(s.drop_last(), c) + seq![s.last()]
    }
}

pub fn remove_char(s: &str, c: char) -> (r: String)
    ensures
        r@ == spec_remove_char(s@, c),
{
    let len = s.unicode_len();
    let mut out = String::new();
    let mut start: usize = 0;
    let mut i: usize = 0;
    while i < len
        invariant
            len == s@.len(),
            start <= i <= len,
            forall|j: int| start <= j < i ==> s@[j] != c,
            out@ + s@.subrange(start as int, i as int) =~= spec_remove_char(
                s@.subrange(0, i as int),
                c,
            ),
        decreases len - i,
    {
        proof {
            assert(s@.subrange(0, i + 1int).drop_last() =~= s@.subrange(0, i as int));
        }
        if s.get_char(i) == c {
            out.append(s.substring_char(start, i));
            start = i + 1;
            proof {
                assert(out@ + s@.subrange(start as int, i + 1int) =~= spec_remove_char(
                    s@.subrange(0, i + 1int),
                    c,
                ));
            }
        } else {
            proof {
                assert(out@ + s@.subrange(start as int, i + 1int) =~= spec_remove_char(
                    s@.subrange(0, i + 1int),
                    c,
                ));
            }
        }
        i += 1;
    }
    out.append(s.substring_char(start, len));
    proof {
        assert(s@.subrange(0, len as int) =~= s@);
        assert(out@ =~= spec_remove_char(s@, c));
    }
    out
}

/// The decimal digit character for `d`, which must lie below ten.
pub open spec fn spec_digit_char(d: int) -> char {
    if d == 0 {
        '0'
    } else if d == 1 {
        '1'
    } else if d == 2 {
        '2'
    } else if d == 3 {
        '3'
    } else if d == 4 {
        '4'
    } else if d == 5 {
        '5'
    } else if d == 6 {
        '6'
    } else if d == 7 {
        '7'
    } else if d == 8 {
        '8'
    } else {
        '9'
    }
}

/// The decimal rendering of `n`, without leading zeros.
pub open spec fn spec_u64_string(n: int) -> Seq<char>
    decreases n,
{
    if n < 10 {
        seq![spec_digit_char(n)]
    } else {
        spec_u64_string(n / 10) + seq![spec_digit_char(n % 10)]
    }
}

fn digit_str(d: u64) -> (r: &'static str)
    requires
        d < 10,
    ensures
        r@ =~= seq![spec_digit_char(d as int)],
{
    proof {
        reveal_strlit("0");
        reveal_strlit("1");
        reveal_strlit("2");
        reveal_strlit("3");
        reveal_strlit("4");
        reveal_strlit("5");
        reveal_strlit("6");
        reveal_strlit("7");
        reveal_strlit("8");
        reveal_strlit("9");
    }
    if d == 0 {
        "0"
    } else if d == 1 {
        "1"
    } else if d == 2 {
        "2"
    } else if d == 3 {
        "3"
    } else if d == 4 {
        "4"
    } else if d == 5 {
        "5"
    } else if d == 6 {
        "6"
    } else if d == 7 {
        "7"
    } else if d == 8 {
        "8"
    } else {
        "9"
    }
}

pub fn push_u64(out: &mut String, n: u64)
    ensures
        final(out)@ == old(out)@ + spec_u64_string(n as int),
    decreases n,
{
    if n >= 10 {
        push_u64(out, n / 10);
        out.append(digit_str(n % 10));
    } else {
        out.append(digit_str(n));
    }
}

pub fn u64_to_string(n: u64) -> (r: String)
    ensures
        r@ == spec_u64_string(n as int),
{
    let mut out = String::new();
    push_u64(&mut out, n);
    proof {
        assert(out@ =~= spec_u64_string(n as int));
    }
    out
}

pub fn vec_contains_str(v: &Vec<String>, s: &str) -> (r: bool)
    ensures
        r == seq_views(v@).contains(s@),
{
    let mut i: usize = 0;
    while i < v.len()
        invariant
            i <= v@.len(),
            forall|j: int| 0 <= j < i ==> seq_views(v@)[j] != s@,
        decreases v@.len() - i,
    {
        if str_eq(v[i].as_str(), s) {
            assert(seq_views(v@)[i as int] == s@);
            return true;
        }
        i += 1;
    }
    false
}

} // verus!
