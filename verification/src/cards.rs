//! A2App card text transforms: the rewrites a generated Splash card goes
//! through before it is rendered (card-id tagging of notify calls, safe
//! containers, full-bleed image fitting, `{{state.*}}` substitution, the
//! `// name:` directive) and the handling of ```` ```runsplash ```` blocks
//! in a reply.

use vstd::prelude::*;
use crate::text::{
    ascii_lower, before_char, chars_of, contains, decimal, extend_chars, find, find_from, find_in,
    is_ascii_alnum, is_ascii_alpha, is_ascii_digit, lemma_next_occ_bounds, lemma_next_occ_shift,
    matches_at, next_occ, occurs_at, push_decimal, push_range, push_str, rfind, rfind_from,
    scan_to_char, skip_ws_back, trim_end,
    skip_run, skip_run_back, starts_with, string_of, to_ascii_lower, trim, trim_bounds, trim_char,
    trim_end_char,
};

verus! {

broadcast use vstd::string::group_string_axioms;

// ---------------------------------------------------------------------------
// Literals
// ---------------------------------------------------------------------------

pub open spec fn notify_call() -> Seq<char> {
    seq!['a', 'g', 'e', 'n', 't', '.', 'n', 'o', 't', 'i', 'f', 'y', '(']
}

pub open spec fn notify_dq() -> Seq<char> {
    seq!['a', 'g', 'e', 'n', 't', '.', 'n', 'o', 't', 'i', 'f', 'y', '(', '"']
}

fn notify_dq_chars() -> (v: Vec<char>)
    ensures
        v@ == notify_dq(),
{
    let v = vec!['a', 'g', 'e', 'n', 't', '.', 'n', 'o', 't', 'i', 'f', 'y', '(', '"'];
    assert(v@ == notify_dq());
    v
}

pub open spec fn notify_sq() -> Seq<char> {
    seq!['a', 'g', 'e', 'n', 't', '.', 'n', 'o', 't', 'i', 'f', 'y', '(', '\'']
}

fn notify_sq_chars() -> (v: Vec<char>)
    ensures
        v@ == notify_sq(),
{
    let v = vec!['a', 'g', 'e', 'n', 't', '.', 'n', 'o', 't', 'i', 'f', 'y', '(', '\''];
    assert(v@ == notify_sq());
    v
}

pub open spec fn view_open() -> Seq<char> {
    seq!['V', 'i', 'e', 'w', '{']
}

fn view_open_chars() -> (v: Vec<char>)
    ensures
        v@ == view_open(),
{
    let v = vec!['V', 'i', 'e', 'w', '{'];
    assert(v@ == view_open());
    v
}

pub open spec fn view_replacement() -> Seq<char> {
    seq!['R', 'o', 'u', 'n', 'd', 'e', 'd', 'V', 'i', 'e', 'w', '{', 'n', 'e', 'w', '_', 'b', 'a', 't', 'c', 'h', ':', ' ', 't', 'r', 'u', 'e', ' ', 'd', 'r', 'a', 'w', '_', 'b', 'g', '.', 'c', 'o', 'l', 'o', 'r', ':', ' ', '#', '0', '0', '0', '0', '0', '0', '0', '0', ' ', 'd', 'r', 'a', 'w', '_', 'b', 'g', '.', 'b', 'o', 'r', 'd', 'e', 'r', '_', 'r', 'a', 'd', 'i', 'u', 's', ':', ' ', '0', '.', '0', ' ']
}

fn view_replacement_chars() -> (v: Vec<char>)
    ensures
        v@ == view_replacement(),
{
    let v = vec!['R', 'o', 'u', 'n', 'd', 'e', 'd', 'V', 'i', 'e', 'w', '{', 'n', 'e', 'w', '_', 'b', 'a', 't', 'c', 'h', ':', ' ', 't', 'r', 'u', 'e', ' ', 'd', 'r', 'a', 'w', '_', 'b', 'g', '.', 'c', 'o', 'l', 'o', 'r', ':', ' ', '#', '0', '0', '0', '0', '0', '0', '0', '0', ' ', 'd', 'r', 'a', 'w', '_', 'b', 'g', '.', 'b', 'o', 'r', 'd', 'e', 'r', '_', 'r', 'a', 'd', 'i', 'u', 's', ':', ' ', '0', '.', '0', ' '];
    assert(v@ == view_replacement());
    v
}

// ---------------------------------------------------------------------------
// Replacing every occurrence
// ---------------------------------------------------------------------------

/// `str::replace(p, r)` for a non-empty pattern: occurrences are replaced
/// left to right, without overlap.
pub open spec fn replace_all(s: Seq<char>, p: Seq<char>, r: Seq<char>) -> Seq<char>
    decreases s.len(),
{
    if p.len() == 0 || s.len() == 0 {
        s
    } else if starts_with(s, p) {
        r + replace_all(s.skip(p.len() as int), p, r)
    } else {
        seq![s[0]] + replace_all(s.skip(1), p, r)
    }
}

pub fn replace_all_chars(v: &Vec<char>, p: &Vec<char>, r: &Vec<char>) -> (out: Vec<char>)
    requires
        p.len() > 0,
    ensures
        out@ == replace_all(v@, p@, r@),
{
    let n = v.len();
    let plen = p.len();
    let mut out: Vec<char> = Vec::new();
    let mut i: usize = 0;
    assert(v@.skip(0) == v@);
    while i < n
        invariant
            i <= n == v.len(),
            plen == p.len() > 0,
            out@ + replace_all(v@.skip(i as int), p@, r@) == replace_all(v@, p@, r@),
        decreases n - i,
    {
        let ghost rest = v@.skip(i as int);
        let ghost before = out@;
        if matches_at(v, i, n, p) {
            assert(rest.take(plen as int) == v@.subrange(i as int, i + plen));
            assert(rest.skip(plen as int) == v@.skip(i + plen));
            extend_chars(&mut out, r, 0, r.len());
            assert(r@.subrange(0, r@.len() as int) == r@);
            assert(before + (r@ + replace_all(v@.skip(i + plen), p@, r@)) == (before + r@)
                + replace_all(v@.skip(i + plen), p@, r@));
            i = i + plen;
        } else {
            assert(plen <= rest.len() ==> rest.take(plen as int) == v@.subrange(
                i as int,
                i + plen,
            ));
            assert(rest.skip(1) == v@.skip(i + 1));
            assert(rest[0] == v@[i as int]);
            out.push(v[i]);
            assert(before + (seq![v@[i as int]] + replace_all(v@.skip(i + 1), p@, r@)) == before.push(
                v@[i as int],
            ) + replace_all(v@.skip(i + 1), p@, r@));
            i = i + 1;
        }
    }
    assert(v@.skip(n as int).len() == 0);
    assert(out@ + v@.skip(n as int) == out@);
    out
}

// ---------------------------------------------------------------------------
// Notify tagging
// ---------------------------------------------------------------------------

/// `agent.notify("` / `agent.notify('` tagged with the card id.
pub open spec fn tagged(prefix: Seq<char>, item_id: nat) -> Seq<char> {
    prefix + decimal(item_id) + seq![':']
}

pub open spec fn spec_tag_notify_calls(body: Seq<char>, item_id: nat) -> Seq<char> {
    replace_all(
        replace_all(body, notify_dq(), tagged(notify_dq(), item_id)),
        notify_sq(),
        tagged(notify_sq(), item_id),
    )
}

fn tagged_chars(prefix: &Vec<char>, item_id: usize) -> (v: Vec<char>)
    ensures
        v@ == tagged(prefix@, item_id as nat),
{
    let mut s = String::new();
    push_decimal(&mut s, item_id as u64);
    let d = chars_of(s.as_str());
    let mut v: Vec<char> = Vec::new();
    extend_chars(&mut v, prefix, 0, prefix.len());
    extend_chars(&mut v, &d, 0, d.len());
    v.push(':');
    assert(prefix@.subrange(0, prefix@.len() as int) == prefix@);
    assert(d@.subrange(0, d@.len() as int) == d@);
    v
}

/// Tag every `agent.notify("<ev>"` / `agent.notify('<ev>'` in a Splash body
/// with the owning card's id, giving `agent.notify("<item_id>:<ev>"`, so a
/// button press routes back to the card that fired it.
pub fn tag_notify_calls(body: &str, item_id: usize) -> (r: String)
    ensures
        r@ == spec_tag_notify_calls(body@, item_id as nat),
{
    let v = chars_of(body);
    let dq = notify_dq_chars();
    let sq = notify_sq_chars();
    let dq_t = tagged_chars(&dq, item_id);
    let sq_t = tagged_chars(&sq, item_id);
    let once = replace_all_chars(&v, &dq, &dq_t);
    let twice = replace_all_chars(&once, &sq, &sq_t);
    let r = string_of(&twice, 0, twice.len());
    assert(twice@.subrange(0, twice@.len() as int) == twice@);
    r
}

// ---------------------------------------------------------------------------
// Bare `View{`
// ---------------------------------------------------------------------------

/// The rewrite of `s`, given whether the character before it is an ASCII
/// letter: every `View{` not preceded by a letter becomes the replacement
/// container; one preceded by a letter (`RoundedView{`, `SolidView{`, …)
/// is kept.
pub open spec fn neutralize_from(s: Seq<char>, prev_alpha: bool) -> Seq<char>
    decreases s.len(),
{
    if s.len() == 0 {
        s
    } else if starts_with(s, view_open()) {
        (if prev_alpha {
            view_open()
        } else {
            view_replacement()
        }) + neutralize_from(s.skip(5), false)
    } else {
        seq![s[0]] + neutralize_from(s.skip(1), is_ascii_alpha(s[0]))
    }
}

pub open spec fn spec_neutralize_bare_view(s: Seq<char>) -> Seq<char> {
    neutralize_from(s, false)
}

fn is_alpha(c: char) -> (b: bool)
    ensures
        b == is_ascii_alpha(c),
{
    ('a' <= c && c <= 'z') || ('A' <= c && c <= 'Z')
}

/// Rewrite each bare `View{` (not preceded by an ASCII letter) into a
/// transparent `RoundedView{`, which the Splash evaluator renders; a bare
/// `View{` would crash it.
pub fn neutralize_bare_view(body: &str) -> (r: String)
    ensures
        r@ == spec_neutralize_bare_view(body@),
{
    let v = chars_of(body);
    let n = v.len();
    let pat = view_open_chars();
    let repl = view_replacement_chars();
    let mut out: Vec<char> = Vec::new();
    let mut i: usize = 0;
    let mut prev_alpha = false;
    assert(v@.skip(0) == v@);
    while i < n
        invariant
            i <= n == v.len(),
            pat@ == view_open(),
            repl@ == view_replacement(),
            out@ + neutralize_from(v@.skip(i as int), prev_alpha) == spec_neutralize_bare_view(
                v@,
            ),
        decreases n - i,
    {
        let ghost rest = v@.skip(i as int);
        let ghost before = out@;
        if matches_at(&v, i, n, &pat) {
            assert(rest.take(5) == v@.subrange(i as int, i + 5));
            assert(rest.skip(5) == v@.skip(i + 5));
            if prev_alpha {
                extend_chars(&mut out, &pat, 0, 5);
                assert(pat@.subrange(0, 5) == pat@);
                assert(before + (view_open() + neutralize_from(v@.skip(i + 5), false)) == (before
                    + view_open()) + neutralize_from(v@.skip(i + 5), false));
            } else {
                extend_chars(&mut out, &repl, 0, repl.len());
                assert(repl@.subrange(0, repl@.len() as int) == repl@);
                assert(before + (view_replacement() + neutralize_from(v@.skip(i + 5), false)) == (
                before + view_replacement()) + neutralize_from(v@.skip(i + 5), false));
            }
            prev_alpha = false;
            i = i + 5;
        } else {
            assert(5 <= rest.len() ==> rest.take(5) == v@.subrange(i as int, i + 5));
            assert(rest.skip(1) == v@.skip(i + 1));
            assert(rest[0] == v@[i as int]);
            let c = v[i];
            out.push(c);
            assert(before + (seq![c] + neutralize_from(v@.skip(i + 1), is_ascii_alpha(c)))
                == before.push(c) + neutralize_from(v@.skip(i + 1), is_ascii_alpha(c)));
            prev_alpha = is_alpha(c);
            i = i + 1;
        }
    }
    assert(v@.skip(n as int).len() == 0);
    assert(out@ + v@.skip(n as int) == out@);
    let r = string_of(&out, 0, out.len());
    assert(out@.subrange(0, out@.len() as int) == out@);
    r
}

pub open spec fn state_open() -> Seq<char> {
    seq!['{', '{', 's', 't', 'a', 't', 'e', '.']
}

fn state_open_chars() -> (v: Vec<char>)
    ensures
        v@ == state_open(),
{
    let v = vec!['{', '{', 's', 't', 'a', 't', 'e', '.'];
    assert(v@ == state_open());
    v
}

pub open spec fn close_braces() -> Seq<char> {
    seq!['}', '}']
}

fn close_braces_chars() -> (v: Vec<char>)
    ensures
        v@ == close_braces(),
{
    let v = vec!['}', '}'];
    assert(v@ == close_braces());
    v
}

pub open spec fn name_directive() -> Seq<char> {
    seq!['/', '/', ' ', 'n', 'a', 'm', 'e', ':']
}

fn name_directive_chars() -> (v: Vec<char>)
    ensures
        v@ == name_directive(),
{
    let v = vec!['/', '/', ' ', 'n', 'a', 'm', 'e', ':'];
    assert(v@ == name_directive());
    v
}

pub open spec fn name_directive_tight() -> Seq<char> {
    seq!['/', '/', 'n', 'a', 'm', 'e', ':']
}

fn name_directive_tight_chars() -> (v: Vec<char>)
    ensures
        v@ == name_directive_tight(),
{
    let v = vec!['/', '/', 'n', 'a', 'm', 'e', ':'];
    assert(v@ == name_directive_tight());
    v
}

// ---------------------------------------------------------------------------
// Per-card state
// ---------------------------------------------------------------------------

/// The value stored under `key`, if any (the first entry with that key).
pub open spec fn state_lookup(e: Seq<(Seq<char>, Seq<char>)>, key: Seq<char>) -> Option<Seq<char>>
    decreases e.len(),
{
    if e.len() == 0 {
        None
    } else if e[0].0 == key {
        Some(e[0].1)
    } else {
        state_lookup(e.drop_first(), key)
    }
}

proof fn lemma_lookup_update(
    e: Seq<(Seq<char>, Seq<char>)>,
    i: int,
    key: Seq<char>,
    val: Seq<char>,
    k: Seq<char>,
)
    requires
        0 <= i < e.len(),
        e[i].0 == key,
        forall|j: int| 0 <= j < i ==> e[j].0 != key,
    ensures
        state_lookup(e.update(i, (key, val)), k) == if k == key {
            Some(val)
        } else {
            state_lookup(e, k)
        },
    decreases i,
{
    let u = e.update(i, (key, val));
    if i > 0 {
        assert(u.drop_first() == e.drop_first().update(i - 1, (key, val)));
        lemma_lookup_update(e.drop_first(), i - 1, key, val, k);
        assert(u[0] == e[0]);
    } else {
        assert(u.drop_first() == e.drop_first());
    }
}

proof fn lemma_lookup_push(e: Seq<(Seq<char>, Seq<char>)>, key: Seq<char>, val: Seq<char>, k: Seq<char>)
    requires
        state_lookup(e, key) is None,
    ensures
        state_lookup(e.push((key, val)), k) == if k == key {
            Some(val)
        } else {
            state_lookup(e, k)
        },
    decreases e.len(),
{
    let u = e.push((key, val));
    if e.len() > 0 {
        assert(u.drop_first() == e.drop_first().push((key, val)));
        assert(u[0] == e[0]);
        lemma_lookup_push(e.drop_first(), key, val, k);
    } else {
        assert(u.drop_first() == Seq::<(Seq<char>, Seq<char>)>::empty());
        assert(u[0] == (key, val));
        assert(state_lookup(u.drop_first(), k) is None);
    }
}

/// One card's live state: string values under string keys.
pub struct CardState {
    entries: Vec<(String, String)>,
}

impl CardState {
    pub closed spec fn entries_view(&self) -> Seq<(Seq<char>, Seq<char>)> {
        self.entries@.map_values(|e: (String, String)| (e.0@, e.1@))
    }

    /// The value under `key` in the model.
    pub open spec fn value_of(&self, key: Seq<char>) -> Option<Seq<char>> {
        state_lookup(self.entries_view(), key)
    }

    pub fn new() -> (s: Self)
        ensures
            forall|k: Seq<char>| #[trigger] s.value_of(k) is None,
    {
        let s = CardState { entries: Vec::new() };
        assert(s.entries_view() == Seq::<(Seq<char>, Seq<char>)>::empty());
        s
    }

    /// The value under `key`.
    pub fn get(&self, key: &str) -> (r: Option<&String>)
        ensures
            match r {
                Some(v) => self.value_of(key@) == Some(v@),
                None => self.value_of(key@) is None,
            },
    {
        let n = self.entries.len();
        let mut i: usize = 0;
        let ghost e = self.entries_view();
        assert(e.skip(0) == e);
        while i < n
            invariant
                n == self.entries@.len(),
                e == self.entries_view(),
                i <= n,
                state_lookup(e, key@) == state_lookup(e.skip(i as int), key@),
            decreases n - i,
        {
            let ghost rest = e.skip(i as int);
            assert(rest[0] == (self.entries@[i as int].0@, self.entries@[i as int].1@));
            if crate::text::str_eq(self.entries[i].0.as_str(), key) {
                return Some(&self.entries[i].1);
            }
            assert(rest.drop_first() == e.skip(i + 1));
            i = i + 1;
        }
        None
    }

    /// Store `value` under `key`, replacing any previous value.
    pub fn insert(&mut self, key: String, value: String)
        ensures
            forall|k: Seq<char>|
                #[trigger] final(self).value_of(k) == if k == key@ {
                    Some(value@)
                } else {
                    old(self).value_of(k)
                },
    {
        let n = self.entries.len();
        let ghost e = self.entries_view();
        let mut i: usize = 0;
        while i < n
            invariant
                n == self.entries@.len(),
                e == self.entries_view(),
                e == old(self).entries_view(),
                i <= n,
                forall|j: int| 0 <= j < i ==> e[j].0 != key@,
            decreases n - i,
        {
            assert(e[i as int] == (self.entries@[i as int].0@, self.entries@[i as int].1@));
            if crate::text::str_eq(self.entries[i].0.as_str(), key.as_str()) {
                let ghost kv = key@;
                let ghost vv = value@;
                self.entries.set(i, (key, value));
                assert(self.entries_view() == e.update(i as int, (kv, vv)));
                assert forall|k: Seq<char>| #[trigger] self.value_of(k) == if k == kv {
                    Some(vv)
                } else {
                    state_lookup(e, k)
                } by {
                    lemma_lookup_update(e, i as int, kv, vv, k);
                }
                return;
            }
            i = i + 1;
        }
        assert(state_lookup(e, key@) is None) by {
            lemma_lookup_absent(e, key@);
        }
        let ghost kv = key@;
        let ghost vv = value@;
        self.entries.push((key, value));
        assert(self.entries_view() == e.push((kv, vv)));
        assert forall|k: Seq<char>| #[trigger] self.value_of(k) == if k == kv {
            Some(vv)
        } else {
            state_lookup(e, k)
        } by {
            lemma_lookup_push(e, kv, vv, k);
        }
    }
}

proof fn lemma_lookup_absent(e: Seq<(Seq<char>, Seq<char>)>, key: Seq<char>)
    requires
        forall|j: int| 0 <= j < e.len() ==> e[j].0 != key,
    ensures
        state_lookup(e, key) is None,
    decreases e.len(),
{
    if e.len() > 0 {
        assert forall|j: int| 0 <= j < e.drop_first().len() implies e.drop_first()[j].0 != key by {
            assert(e.drop_first()[j] == e[j + 1]);
        }
        lemma_lookup_absent(e.drop_first(), key);
    }
}

/// A state value as rendered: the stored string, or `"0"` when missing.
pub open spec fn value_or_zero(st: Seq<(Seq<char>, Seq<char>)>, key: Seq<char>) -> Seq<char> {
    match state_lookup(st, key) {
        Some(v) => v,
        None => seq!['0'],
    }
}

// ---------------------------------------------------------------------------
// `{{state.<key>}}` substitution
// ---------------------------------------------------------------------------

/// Replace each `{{state.<key>}}` with the card's value for the trimmed
/// key (`0` when missing); an unterminated token and the rest after it are
/// kept verbatim.
pub open spec fn spec_substitute_state_keys(s: Seq<char>, st: Seq<(Seq<char>, Seq<char>)>) -> Seq<char>
    decreases s.len(),
{
    match find(s, state_open()) {
        None => s,
        Some(pos) => {
            let after = s.skip(pos + 8);
            match find(after, close_braces()) {
                None => s,
                Some(end) => if 0 <= pos && pos + 8 <= s.len() && 0 <= end && end + 2
                    <= after.len() {
                    s.take(pos) + value_or_zero(st, trim(after.take(end)))
                        + spec_substitute_state_keys(after.skip(end + 2), st)
                } else {
                    s
                },
            }
        },
    }
}

/// Substitute the `{{state.<key>}}` tokens of `text` with this card's
/// values. Missing keys render `0`.
pub fn substitute_state_keys(text: &str, state: &CardState) -> (r: String)
    ensures
        r@ == spec_substitute_state_keys(text@, state.entries_view()),
{
    let v = chars_of(text);
    let n = v.len();
    let open = state_open_chars();
    let close = close_braces_chars();
    let ghost st = state.entries_view();
    let mut out = String::new();
    let mut i: usize = 0;
    assert(v@.subrange(0, n as int) == v@);
    loop
        invariant
            i <= n == v.len(),
            v@ == text@,
            open@ == state_open(),
            close@ == close_braces(),
            st == state.entries_view(),
            out@ + spec_substitute_state_keys(v@.subrange(i as int, n as int), st)
                == spec_substitute_state_keys(v@, st),
        decreases n - i,
    {
        let ghost rest = v@.subrange(i as int, n as int);
        let ghost before = out@;
        match find_in(&v, i, n, &open) {
            None => {
                push_range(&mut out, &v, i, n);
                return out;
            },
            Some(pos) => {
                let a = i + pos + 8;
                assert(rest.skip(pos + 8) == v@.subrange(a as int, n as int));
                match find_in(&v, a, n, &close) {
                    None => {
                        push_range(&mut out, &v, i, n);
                        return out;
                    },
                    Some(end) => {
                        let (x, y) = trim_bounds(&v, a, a + end);
                        assert(rest.skip(pos + 8).take(end as int) == v@.subrange(
                            a as int,
                            a + end,
                        ));
                        push_range(&mut out, &v, i, i + pos);
                        assert(rest.take(pos as int) == v@.subrange(i as int, i + pos));
                        let key = string_of(&v, x, y);
                        match state.get(key.as_str()) {
                            Some(val) => push_str(&mut out, val.as_str()),
                            None => {
                                out.push('0');
                                assert(seq!['0'] == Seq::<char>::empty().push('0'));
                            },
                        }
                        assert(rest.skip(pos + 8).skip(end + 2) == v@.subrange(
                            a + end + 2,
                            n as int,
                        ));
                        assert(before + (rest.take(pos as int) + value_or_zero(st, key@)
                            + spec_substitute_state_keys(v@.subrange(a + end + 2, n as int), st))
                            == before + rest.take(pos as int) + value_or_zero(st, key@)
                            + spec_substitute_state_keys(v@.subrange(a + end + 2, n as int), st));
                        i = a + end + 2;
                    },
                }
            },
        }
    }
}


// ---------------------------------------------------------------------------
// Lines and the `// name:` directive
// ---------------------------------------------------------------------------

/// A line without the `\r` of a `\r\n` ending.
pub open spec fn strip_cr(l: Seq<char>) -> Seq<char> {
    if l.len() > 0 && l.last() == '\r' {
        l.drop_last()
    } else {
        l
    }
}

/// The first item `str::lines` yields for non-empty `s`.
pub open spec fn first_line(s: Seq<char>) -> Seq<char> {
    let k = before_char(s, '\n');
    if k < s.len() {
        strip_cr(s.take(k as int))
    } else {
        s
    }
}

/// What follows the `// name:` (or `//name:`) directive on a trimmed line.
pub open spec fn name_directive_rest(t: Seq<char>) -> Option<Seq<char>> {
    if starts_with(t, name_directive()) {
        Some(t.skip(8))
    } else if starts_with(t, name_directive_tight()) {
        Some(t.skip(7))
    } else {
        None
    }
}

pub open spec fn slug_char(c: char) -> char {
    if is_ascii_alnum(c) {
        ascii_lower(c)
    } else {
        '-'
    }
}

/// A card name as a stable kebab slug: ASCII letters and digits lowered,
/// everything else `-`, outer dashes trimmed.
pub open spec fn card_slug(r: Seq<char>) -> Seq<char> {
    trim_char(trim(r).map_values(|c: char| slug_char(c)), '-')
}

pub open spec fn take48(s: Seq<char>) -> Seq<char> {
    if s.len() <= 48 {
        s
    } else {
        s.take(48)
    }
}

pub open spec fn is_ascii_upper(c: char) -> bool {
    'A' <= c && c <= 'Z'
}

/// The card name found scanning the lines of `s`: the first non-empty slug
/// of a `// name:` directive, looking no further than the first line that
/// starts with an upper-case letter (where widget code begins).
pub open spec fn name_from(s: Seq<char>) -> Option<Seq<char>>
    decreases s.len(),
{
    if s.len() == 0 {
        None
    } else {
        let k = before_char(s, '\n');
        let t = trim(first_line(s));
        let slug = match name_directive_rest(t) {
            Some(r) => card_slug(r),
            None => Seq::empty(),
        };
        if slug.len() > 0 {
            Some(take48(slug))
        } else if t.len() > 0 && is_ascii_upper(t[0]) {
            None
        } else if k >= s.len() {
            None
        } else {
            name_from(s.skip(k as int + 1))
        }
    }
}

/// The end (exclusive) of the line starting at `i`, its `\r` of a `\r\n`
/// ending removed, and where the line's `\n` is (`n` when none).
pub fn line_at(v: &Vec<char>, i: usize, n: usize) -> (r: (usize, usize))
    requires
        i < n == v.len(),
    ensures
        i <= r.0 <= r.1 <= n,
        v@.subrange(i as int, r.0 as int) == first_line(v@.subrange(i as int, n as int)),
        r.1 - i == before_char(v@.subrange(i as int, n as int), '\n'),
{
    let k = scan_to_char(v, i, n, '\n');
    let ghost s = v@.subrange(i as int, n as int);
    if k < n {
        assert(s.take((k - i) as int) == v@.subrange(i as int, k as int));
        if k > i && v[k - 1] == '\r' {
            assert(v@.subrange(i as int, k as int).drop_last() == v@.subrange(i as int, k - 1));
            (k - 1, k)
        } else {
            (k, k)
        }
    } else {
        (n, n)
    }
}

/// The slug of `v[lo..hi]` (the text after a name directive).
fn slug_of(v: &Vec<char>, lo: usize, hi: usize) -> (r: Vec<char>)
    requires
        lo <= hi <= v.len(),
    ensures
        r@ == card_slug(v@.subrange(lo as int, hi as int)),
{
    let (p, q) = trim_bounds(v, lo, hi);
    let mut m: Vec<char> = Vec::new();
    let mut k = p;
    while k < q
        invariant
            lo <= p <= k <= q <= hi <= v.len(),
            m@ == v@.subrange(p as int, k as int).map_values(|c: char| slug_char(c)),
        decreases q - k,
    {
        let c = v[k];
        let d = if is_ascii_alnum_char(c) {
            to_ascii_lower(c)
        } else {
            '-'
        };
        m.push(d);
        assert(v@.subrange(p as int, k + 1).map_values(|c: char| slug_char(c)) == v@.subrange(
            p as int,
            k as int,
        ).map_values(|c: char| slug_char(c)).push(slug_char(c)));
        k = k + 1;
    }
    let ml = m.len();
    let a = skip_run(&m, 0, ml, '-');
    assert(m@.subrange(0, ml as int) == m@);
    assert(m@.skip(a as int) == m@.subrange(a as int, ml as int));
    let b = skip_run_back(&m, a, ml, '-');
    let mut r: Vec<char> = Vec::new();
    extend_chars(&mut r, &m, a, b);
    assert(trim_end_char(m@.subrange(a as int, ml as int), '-') == m@.subrange(a as int, b as int));
    r
}

fn is_ascii_alnum_char(c: char) -> (b: bool)
    ensures
        b == is_ascii_alnum(c),
{
    ('a' <= c && c <= 'z') || ('A' <= c && c <= 'Z') || ('0' <= c && c <= '9')
}

/// Extract the card name from the `// name: <slug>` directive the model
/// puts on the first line of a card body, as a kebab slug of at most 48
/// characters.
pub fn extract_card_name(body: &str) -> (r: Option<String>)
    ensures
        match r {
            Some(s) => name_from(body@) == Some(s@),
            None => name_from(body@) is None,
        },
{
    let v = chars_of(body);
    let n = v.len();
    let dir = name_directive_chars();
    let dir2 = name_directive_tight_chars();
    let mut i: usize = 0;
    assert(v@.subrange(0, n as int) == body@);
    while i < n
        invariant
            i <= n == v.len(),
            dir@ == name_directive(),
            dir2@ == name_directive_tight(),
            name_from(body@) == name_from(v@.subrange(i as int, n as int)),
        decreases n - i,
    {
        let (le, k) = line_at(&v, i, n);
        let (x, y) = trim_bounds(&v, i, le);
        let ghost t = v@.subrange(x as int, y as int);
        let d1 = matches_at(&v, x, y, &dir);
        let d2 = matches_at(&v, x, y, &dir2);
        assert(d1 == starts_with(t, name_directive())) by {
            if x + 8 <= y {
                assert(t.take(8) == v@.subrange(x as int, x + 8));
            }
        }
        assert(d2 == starts_with(t, name_directive_tight())) by {
            if x + 7 <= y {
                assert(t.take(7) == v@.subrange(x as int, x + 7));
            }
        }
        if d1 || d2 {
            let start = if d1 {
                x + 8
            } else {
                x + 7
            };
            assert(t.skip((start - x) as int) == v@.subrange(start as int, y as int));
            let slug = slug_of(&v, start, y);
            if slug.len() > 0 {
                let take = if slug.len() <= 48 {
                    slug.len()
                } else {
                    48
                };
                assert(slug@.len() <= 48 ==> slug@.subrange(0, take as int) == slug@);
                assert(slug@.len() > 48 ==> slug@.subrange(0, take as int) == slug@.take(48));
                return Some(string_of(&slug, 0, take));
            }
        }
        if x < y && 'A' <= v[x] && v[x] <= 'Z' {
            return None;
        }
        if k >= n {
            return None;
        }
        let next = k + 1;
        assert(v@.subrange(i as int, n as int).skip((k - i + 1) as int) == v@.subrange(
            next as int,
            n as int,
        ));
        i = next;
    }
    None
}

/// `lines().filter(|l| !is_name_line(l)).join("\n")` over `s`, where
/// `first` says no line has been kept yet.
pub open spec fn strip_scan(s: Seq<char>, first: bool) -> Seq<char>
    decreases s.len(),
{
    if s.len() == 0 {
        Seq::empty()
    } else {
        let k = before_char(s, '\n');
        let line = first_line(s);
        let t = trim(line);
        let kept = !starts_with(t, name_directive()) && !starts_with(t, name_directive_tight());
        let piece = if kept {
            (if first {
                Seq::empty()
            } else {
                seq!['\n']
            }) + line
        } else {
            Seq::empty()
        };
        if k >= s.len() {
            piece
        } else {
            piece + strip_scan(s.skip(k as int + 1), first && !kept)
        }
    }
}

pub open spec fn spec_strip_card_name_line(body: Seq<char>) -> Seq<char> {
    if !contains(body, name_directive()) && !contains(body, name_directive_tight()) {
        body
    } else {
        strip_scan(body, true)
    }
}

/// Drop the `// name:` directive line(s) before the body reaches the
/// Splash evaluator, which does not accept `//` comments. Only lines whose
/// trimmed text starts with the directive are removed; a body without any
/// directive is returned as is.
pub fn strip_card_name_line(body: &str) -> (r: String)
    ensures
        r@ == spec_strip_card_name_line(body@),
{
    let v = chars_of(body);
    let n = v.len();
    let dir = name_directive_chars();
    let dir2 = name_directive_tight_chars();
    assert(v@.subrange(0, n as int) == body@);
    if find_in(&v, 0, n, &dir).is_none() && find_in(&v, 0, n, &dir2).is_none() {
        return String::from_str(body);
    }
    let mut out = String::new();
    let mut first = true;
    let mut i: usize = 0;
    while i < n
        invariant
            i <= n == v.len(),
            dir@ == name_directive(),
            dir2@ == name_directive_tight(),
            v@ == body@,
            out@ + strip_scan(v@.subrange(i as int, n as int), first) == strip_scan(body@, true),
        decreases n - i,
    {
        let ghost before = out@;
        let ghost first0 = first;
        let (le, k) = line_at(&v, i, n);
        let (x, y) = trim_bounds(&v, i, le);
        let ghost t = v@.subrange(x as int, y as int);
        let d1 = matches_at(&v, x, y, &dir);
        let d2 = matches_at(&v, x, y, &dir2);
        assert(d1 == starts_with(t, name_directive())) by {
            if x + 8 <= y {
                assert(t.take(8) == v@.subrange(x as int, x + 8));
            }
        }
        assert(d2 == starts_with(t, name_directive_tight())) by {
            if x + 7 <= y {
                assert(t.take(7) == v@.subrange(x as int, x + 7));
            }
        }
        let kept = !d1 && !d2;
        if kept {
            if !first {
                out.push('\n');
            }
            push_range(&mut out, &v, i, le);
            first = false;
        }
        let ghost piece = if kept {
            (if first0 {
                Seq::empty()
            } else {
                seq!['\n']
            }) + v@.subrange(i as int, le as int)
        } else {
            Seq::<char>::empty()
        };
        assert(out@ == before + piece);
        if k >= n {
            assert(out@ + strip_scan(v@.subrange(n as int, n as int), first) == out@);
            i = n;
        } else {
            let next = k + 1;
            assert(v@.subrange(i as int, n as int).skip((k - i + 1) as int) == v@.subrange(
                next as int,
                n as int,
            ));
            assert(before + (piece + strip_scan(v@.subrange(next as int, n as int), first)) == (
            before + piece) + strip_scan(v@.subrange(next as int, n as int), first));
            i = next;
        }
    }
    assert(v@.subrange(n as int, n as int).len() == 0);
    out
}

pub open spec fn height_key() -> Seq<char> {
    seq!['h', 'e', 'i', 'g', 'h', 't', ':', ' ']
}

fn height_key_chars() -> (v: Vec<char>)
    ensures
        v@ == height_key(),
{
    let v = vec!['h', 'e', 'i', 'g', 'h', 't', ':', ' '];
    assert(v@ == height_key());
    v
}

pub open spec fn height_700() -> Seq<char> {
    seq!['h', 'e', 'i', 'g', 'h', 't', ':', ' ', '7', '0', '0']
}

fn height_700_chars() -> (v: Vec<char>)
    ensures
        v@ == height_700(),
{
    let v = vec!['h', 'e', 'i', 'g', 'h', 't', ':', ' ', '7', '0', '0'];
    assert(v@ == height_700());
    v
}

pub open spec fn height_1200() -> Seq<char> {
    seq!['h', 'e', 'i', 'g', 'h', 't', ':', ' ', '1', '2', '0', '0']
}

fn height_1200_chars() -> (v: Vec<char>)
    ensures
        v@ == height_1200(),
{
    let v = vec!['h', 'e', 'i', 'g', 'h', 't', ':', ' ', '1', '2', '0', '0'];
    assert(v@ == height_1200());
    v
}

pub open spec fn image_open() -> Seq<char> {
    seq!['I', 'm', 'a', 'g', 'e', '{']
}

fn image_open_chars() -> (v: Vec<char>)
    ensures
        v@ == image_open(),
{
    let v = vec!['I', 'm', 'a', 'g', 'e', '{'];
    assert(v@ == image_open());
    v
}

pub open spec fn fit_biggest() -> Seq<char> {
    seq!['I', 'm', 'a', 'g', 'e', 'F', 'i', 't', '.', 'B', 'i', 'g', 'g', 'e', 's', 't']
}

fn fit_biggest_chars() -> (v: Vec<char>)
    ensures
        v@ == fit_biggest(),
{
    let v = vec!['I', 'm', 'a', 'g', 'e', 'F', 'i', 't', '.', 'B', 'i', 'g', 'g', 'e', 's', 't'];
    assert(v@ == fit_biggest());
    v
}

pub open spec fn fit_smallest() -> Seq<char> {
    seq!['I', 'm', 'a', 'g', 'e', 'F', 'i', 't', '.', 'S', 'm', 'a', 'l', 'l', 'e', 's', 't']
}

fn fit_smallest_chars() -> (v: Vec<char>)
    ensures
        v@ == fit_smallest(),
{
    let v = vec!['I', 'm', 'a', 'g', 'e', 'F', 'i', 't', '.', 'S', 'm', 'a', 'l', 'l', 'e', 's', 't'];
    assert(v@ == fit_smallest());
    v
}

pub open spec fn fit_vertical() -> Seq<char> {
    seq!['I', 'm', 'a', 'g', 'e', 'F', 'i', 't', '.', 'V', 'e', 'r', 't', 'i', 'c', 'a', 'l']
}

fn fit_vertical_chars() -> (v: Vec<char>)
    ensures
        v@ == fit_vertical(),
{
    let v = vec!['I', 'm', 'a', 'g', 'e', 'F', 'i', 't', '.', 'V', 'e', 'r', 't', 'i', 'c', 'a', 'l'];
    assert(v@ == fit_vertical());
    v
}

pub open spec fn fit_horizontal() -> Seq<char> {
    seq!['I', 'm', 'a', 'g', 'e', 'F', 'i', 't', '.', 'H', 'o', 'r', 'i', 'z', 'o', 'n', 't', 'a', 'l']
}

fn fit_horizontal_chars() -> (v: Vec<char>)
    ensures
        v@ == fit_horizontal(),
{
    let v = vec!['I', 'm', 'a', 'g', 'e', 'F', 'i', 't', '.', 'H', 'o', 'r', 'i', 'z', 'o', 'n', 't', 'a', 'l'];
    assert(v@ == fit_horizontal());
    v
}

pub open spec fn fit_stretch() -> Seq<char> {
    seq!['I', 'm', 'a', 'g', 'e', 'F', 'i', 't', '.', 'S', 't', 'r', 'e', 't', 'c', 'h']
}

fn fit_stretch_chars() -> (v: Vec<char>)
    ensures
        v@ == fit_stretch(),
{
    let v = vec!['I', 'm', 'a', 'g', 'e', 'F', 'i', 't', '.', 'S', 't', 'r', 'e', 't', 'c', 'h'];
    assert(v@ == fit_stretch());
    v
}

pub open spec fn fit_size() -> Seq<char> {
    seq!['I', 'm', 'a', 'g', 'e', 'F', 'i', 't', '.', 'S', 'i', 'z', 'e']
}

fn fit_size_chars() -> (v: Vec<char>)
    ensures
        v@ == fit_size(),
{
    let v = vec!['I', 'm', 'a', 'g', 'e', 'F', 'i', 't', '.', 'S', 'i', 'z', 'e'];
    assert(v@ == fit_size());
    v
}

pub open spec fn fit_crop() -> Seq<char> {
    seq!['I', 'm', 'a', 'g', 'e', 'F', 'i', 't', '.', 'C', 'r', 'o', 'p', 'T', 'o', 'F', 'i', 'l', 'l']
}

fn fit_crop_chars() -> (v: Vec<char>)
    ensures
        v@ == fit_crop(),
{
    let v = vec!['I', 'm', 'a', 'g', 'e', 'F', 'i', 't', '.', 'C', 'r', 'o', 'p', 'T', 'o', 'F', 'i', 'l', 'l'];
    assert(v@ == fit_crop());
    v
}

pub open spec fn fit_dot() -> Seq<char> {
    seq!['I', 'm', 'a', 'g', 'e', 'F', 'i', 't', '.']
}

fn fit_dot_chars() -> (v: Vec<char>)
    ensures
        v@ == fit_dot(),
{
    let v = vec!['I', 'm', 'a', 'g', 'e', 'F', 'i', 't', '.'];
    assert(v@ == fit_dot());
    v
}

pub open spec fn fit_prefix() -> Seq<char> {
    seq![' ', 'f', 'i', 't', ':', ' ', 'I', 'm', 'a', 'g', 'e', 'F', 'i', 't', '.', 'C', 'r', 'o', 'p', 'T', 'o', 'F', 'i', 'l', 'l']
}

fn fit_prefix_chars() -> (v: Vec<char>)
    ensures
        v@ == fit_prefix(),
{
    let v = vec![' ', 'f', 'i', 't', ':', ' ', 'I', 'm', 'a', 'g', 'e', 'F', 'i', 't', '.', 'C', 'r', 'o', 'p', 'T', 'o', 'F', 'i', 'l', 'l'];
    assert(v@ == fit_prefix());
    v
}

pub open spec fn height_fill() -> Seq<char> {
    seq!['h', 'e', 'i', 'g', 'h', 't', ':', ' ', 'F', 'i', 'l', 'l']
}

fn height_fill_chars() -> (v: Vec<char>)
    ensures
        v@ == height_fill(),
{
    let v = vec!['h', 'e', 'i', 'g', 'h', 't', ':', ' ', 'F', 'i', 'l', 'l'];
    assert(v@ == height_fill());
    v
}

pub open spec fn height_fill_tight() -> Seq<char> {
    seq!['h', 'e', 'i', 'g', 'h', 't', ':', 'F', 'i', 'l', 'l']
}

fn height_fill_tight_chars() -> (v: Vec<char>)
    ensures
        v@ == height_fill_tight(),
{
    let v = vec!['h', 'e', 'i', 'g', 'h', 't', ':', 'F', 'i', 'l', 'l'];
    assert(v@ == height_fill_tight());
    v
}

pub open spec fn runsplash_open() -> Seq<char> {
    seq!['`', '`', '`', 'r', 'u', 'n', 's', 'p', 'l', 'a', 's', 'h']
}

fn runsplash_open_chars() -> (v: Vec<char>)
    ensures
        v@ == runsplash_open(),
{
    let v = vec!['`', '`', '`', 'r', 'u', 'n', 's', 'p', 'l', 'a', 's', 'h'];
    assert(v@ == runsplash_open());
    v
}

pub open spec fn fence3() -> Seq<char> {
    seq!['`', '`', '`']
}

fn fence3_chars() -> (v: Vec<char>)
    ensures
        v@ == fence3(),
{
    let v = vec!['`', '`', '`'];
    assert(v@ == fence3());
    v
}

pub open spec fn building_note() -> Seq<char> {
    seq!['\u{1f6e0}', ' ', 'B', 'u', 'i', 'l', 'd', 'i', 'n', 'g', ' ', 'a', 'p', 'p', ' ', 'U', 'I', '\u{2026}']
}

fn building_note_chars() -> (v: Vec<char>)
    ensures
        v@ == building_note(),
{
    let v = vec!['\u{1f6e0}', ' ', 'B', 'u', 'i', 'l', 'd', 'i', 'n', 'g', ' ', 'a', 'p', 'p', ' ', 'U', 'I', '\u{2026}'];
    assert(v@ == building_note());
    v
}

// ---------------------------------------------------------------------------
// Card root height
// ---------------------------------------------------------------------------

pub open spec fn digit_val(c: char) -> nat {
    ((c as u32) - 48) as nat
}

/// The number written by the decimal digits `d`.
pub open spec fn digits_value(d: Seq<char>) -> nat
    decreases d.len(),
{
    if d.len() == 0 {
        0
    } else {
        digits_value(d.drop_last()) * 10 + digit_val(d.last())
    }
}

/// Number of leading ASCII digits.
pub open spec fn digit_run(s: Seq<char>) -> nat
    decreases s.len(),
{
    if s.len() > 0 && is_ascii_digit(s[0]) {
        1 + digit_run(s.drop_first())
    } else {
        0
    }
}

/// The first explicit `height: <n>` with `700 <= n <= u32::MAX` found
/// scanning `s` from the left.
pub open spec fn root_height_from(s: Seq<char>) -> Option<u32>
    decreases s.len(),
{
    match find(s, height_key()) {
        None => None,
        Some(p) => if 0 <= p && p + 8 <= s.len() {
            let rest = s.skip(p + 8);
            let d = rest.take(digit_run(rest) as int);
            if d.len() > 0 && digits_value(d) <= u32::MAX && digits_value(d) >= 700 {
                Some(digits_value(d) as u32)
            } else {
                root_height_from(rest)
            }
        } else {
            None
        },
    }
}

fn skip_digits(v: &Vec<char>, lo: usize, hi: usize) -> (i: usize)
    requires
        lo <= hi <= v.len(),
    ensures
        lo <= i <= hi,
        i - lo == digit_run(v@.subrange(lo as int, hi as int)),
        forall|m: int| lo <= m < i ==> is_ascii_digit(#[trigger] v@[m]),
{
    let mut i = lo;
    while i < hi && '0' <= v[i] && v[i] <= '9'
        invariant
            lo <= i <= hi <= v.len(),
            digit_run(v@.subrange(lo as int, hi as int)) == (i - lo) + digit_run(
                v@.subrange(i as int, hi as int),
            ),
            forall|m: int| lo <= m < i ==> is_ascii_digit(#[trigger] v@[m]),
        decreases hi - i,
    {
        assert(v@.subrange(i as int, hi as int).drop_first() == v@.subrange(i + 1, hi as int));
        i = i + 1;
    }
    i
}

/// The value of the digits `v[lo..hi]`, or `None` when it exceeds `u32::MAX`
/// (`str::parse::<u32>` on a string of digits).
fn parse_digits_u32(v: &Vec<char>, lo: usize, hi: usize) -> (r: Option<u32>)
    requires
        lo <= hi <= v.len(),
        forall|m: int| lo <= m < hi ==> is_ascii_digit(#[trigger] v@[m]),
    ensures
        match r {
            Some(x) => x == digits_value(v@.subrange(lo as int, hi as int)),
            None => digits_value(v@.subrange(lo as int, hi as int)) > u32::MAX,
        },
{
    let mut acc: u64 = 0;
    let mut over = false;
    let mut k = lo;
    while k < hi
        invariant
            lo <= k <= hi <= v.len(),
            forall|m: int| lo <= m < hi ==> is_ascii_digit(#[trigger] v@[m]),
            over ==> digits_value(v@.subrange(lo as int, k as int)) > u32::MAX,
            !over ==> acc == digits_value(v@.subrange(lo as int, k as int)) && acc <= u32::MAX,
        decreases hi - k,
    {
        let c = v[k];
        assert(is_ascii_digit(v@[k as int]));
        assert(v@.subrange(lo as int, k + 1).drop_last() == v@.subrange(lo as int, k as int));
        assert(v@.subrange(lo as int, k + 1).last() == c);
        if !over {
            let d = ((c as u32) - 48) as u64;
            acc = acc * 10 + d;
            if acc > 4294967295 {
                over = true;
            }
        }
        k = k + 1;
    }
    if over {
        None
    } else {
        Some(acc as u32)
    }
}

/// The first explicit `height: <n>` with `n >= 700` in a card body — the
/// card root's fixed height.
pub fn card_root_height(body: &str) -> (r: Option<u32>)
    ensures
        r == root_height_from(body@),
{
    let v = chars_of(body);
    card_root_height_chars(&v)
}

fn card_root_height_chars(v: &Vec<char>) -> (r: Option<u32>)
    ensures
        r == root_height_from(v@),
{
    let n = v.len();
    let key = height_key_chars();
    let mut i: usize = 0;
    assert(v@.subrange(0, n as int) == v@);
    while i < n
        invariant
            i <= n == v.len(),
            key@ == height_key(),
            root_height_from(v@) == root_height_from(v@.subrange(i as int, n as int)),
        decreases n - i,
    {
        let ghost rest = v@.subrange(i as int, n as int);
        match find_in(v, i, n, &key) {
            None => {
                return None;
            },
            Some(p) => {
                let s = i + p + 8;
                assert(rest.skip(p + 8) == v@.subrange(s as int, n as int));
                let e = skip_digits(v, s, n);
                assert(v@.subrange(s as int, n as int).take((e - s) as int) == v@.subrange(
                    s as int,
                    e as int,
                ));
                if e > s {
                    match parse_digits_u32(v, s, e) {
                        Some(x) => {
                            if x >= 700 {
                                return Some(x);
                            }
                        },
                        None => {},
                    }
                }
                i = s;
            },
        }
    }
    assert(v@.subrange(n as int, n as int).len() == 0);
    None
}

// ---------------------------------------------------------------------------
// Full-bleed images
// ---------------------------------------------------------------------------

/// Fixed height of a full-screen card root and its background image.
pub const FULLBLEED_CARD_HEIGHT: u32 = 1200;

/// `height: <full_h>`.
pub open spec fn height_of(full_h: u32) -> Seq<char> {
    height_key() + decimal(full_h as nat)
}

/// What `rewrite_image_fit_crop` makes of an image's properties.
pub open spec fn spec_rewrite_image_fit_crop(inner: Seq<char>, full_h: u32) -> Seq<char> {
    let s1 = replace_all(inner, fit_biggest(), fit_crop());
    let s2 = replace_all(s1, fit_smallest(), fit_crop());
    let s3 = replace_all(s2, fit_vertical(), fit_crop());
    let s4 = replace_all(s3, fit_horizontal(), fit_crop());
    let s5 = replace_all(s4, fit_stretch(), fit_crop());
    let s6 = replace_all(s5, fit_size(), fit_crop());
    let s7 = if contains(s6, fit_dot()) {
        s6
    } else {
        fit_prefix() + s6
    };
    replace_all(replace_all(s7, height_fill(), height_of(full_h)), height_fill_tight(), height_of(full_h))
}

fn height_of_chars(full_h: u32) -> (v: Vec<char>)
    ensures
        v@ == height_of(full_h),
{
    let mut s = String::new();
    push_decimal(&mut s, full_h as u64);
    let d = chars_of(s.as_str());
    let mut v = height_key_chars();
    extend_chars(&mut v, &d, 0, d.len());
    assert(d@.subrange(0, d@.len() as int) == d@);
    v
}

fn rewrite_chars(inner: &Vec<char>, full_h: u32) -> (r: Vec<char>)
    ensures
        r@ == spec_rewrite_image_fit_crop(inner@, full_h),
{
    let crop = fit_crop_chars();
    let s1 = replace_all_chars(inner, &fit_biggest_chars(), &crop);
    let s2 = replace_all_chars(&s1, &fit_smallest_chars(), &crop);
    let s3 = replace_all_chars(&s2, &fit_vertical_chars(), &crop);
    let s4 = replace_all_chars(&s3, &fit_horizontal_chars(), &crop);
    let s5 = replace_all_chars(&s4, &fit_stretch_chars(), &crop);
    let s6 = replace_all_chars(&s5, &fit_size_chars(), &crop);
    let n6 = s6.len();
    assert(s6@.subrange(0, n6 as int) == s6@);
    let s7 = if find_in(&s6, 0, n6, &fit_dot_chars()).is_some() {
        s6
    } else {
        let mut p = fit_prefix_chars();
        extend_chars(&mut p, &s6, 0, n6);
        p
    };
    let h = height_of_chars(full_h);
    let s8 = replace_all_chars(&s7, &height_fill_chars(), &h);
    replace_all_chars(&s8, &height_fill_tight_chars(), &h)
}

/// Make a full-bleed image cover its box: every other `ImageFit.*` becomes
/// `ImageFit.CropToFill` (added when no fit is given), and `height: Fill`
/// becomes the fixed `height: <full_h>`.
pub fn rewrite_image_fit_crop(inner: &str, full_h: u32) -> (r: String)
    ensures
        r@ == spec_rewrite_image_fit_crop(inner@, full_h),
{
    let v = chars_of(inner);
    let r = rewrite_chars(&v, full_h);
    let out = string_of(&r, 0, r.len());
    assert(r@.subrange(0, r@.len() as int) == r@);
    out
}

/// Index of the `}` closing the brace opened at or after `j`, with `depth`
/// braces already open; the end of `b` when unbalanced.
pub open spec fn close_from(b: Seq<char>, j: int, depth: int) -> int
    decreases b.len() - j,
{
    if j < 0 || j >= b.len() {
        b.len() as int
    } else if b[j] == '{' {
        close_from(b, j + 1, depth + 1)
    } else if b[j] == '}' {
        if depth - 1 == 0 {
            j
        } else {
            close_from(b, j + 1, depth - 1)
        }
    } else {
        close_from(b, j + 1, depth)
    }
}

pub proof fn lemma_close_from_bounds(b: Seq<char>, j: int, depth: int)
    requires
        0 <= j,
    ensures
        j <= close_from(b, j, depth) || j > b.len(),
        close_from(b, j, depth) <= b.len(),
    decreases b.len() - j,
{
    if j < b.len() {
        if b[j] == '{' {
            lemma_close_from_bounds(b, j + 1, depth + 1);
        } else if b[j] == '}' {
            if depth - 1 != 0 {
                lemma_close_from_bounds(b, j + 1, depth - 1);
            }
        } else {
            lemma_close_from_bounds(b, j + 1, depth);
        }
    }
}

pub open spec fn full_bleed(inner: Seq<char>) -> bool {
    contains(inner, height_fill()) || contains(inner, height_fill_tight())
}

/// The output for `b[i..]` of the full-bleed image pass.
pub open spec fn fit_from(b: Seq<char>, i: int, h: u32) -> Seq<char>
    decreases b.len() - i,
{
    if i < 0 || i > b.len() {
        Seq::empty()
    } else {
        match next_occ(b, image_open(), i) {
            None => b.subrange(i, b.len() as int),
            Some(start) => {
                proof {
                    lemma_next_occ_bounds(b, image_open(), i);
                }
                let brace = start + 5;
                let part = start > 0 && is_ascii_alnum(b[start - 1]);
                let j = close_from(b, brace, 0);
                proof {
                    lemma_close_from_bounds(b, brace, 0);
                }
                if part || j >= b.len() {
                    b.subrange(i, brace + 1) + fit_from(b, brace + 1, h)
                } else {
                    let inner = b.subrange(brace + 1, j);
                    b.subrange(i, brace + 1) + (if full_bleed(inner) {
                        spec_rewrite_image_fit_crop(inner, h)
                    } else {
                        inner
                    }) + seq!['}'] + fit_from(b, j + 1, h)
                }
            },
        }
    }
}

pub open spec fn spec_force_fullbleed_image_fit(body: Seq<char>) -> Seq<char> {
    if !contains(body, image_open()) {
        body
    } else {
        let b1 = replace_all(body, height_700(), height_1200());
        let h = match root_height_from(b1) {
            Some(x) => x,
            None => FULLBLEED_CARD_HEIGHT,
        };
        fit_from(b1, 0, h)
    }
}

/// `close_from(v@, brace, 0)` where `v[brace]` is `{`.
fn close_index(v: &Vec<char>, brace: usize) -> (j: usize)
    requires
        brace < v.len(),
        v@[brace as int] == '{',
    ensures
        j as int == close_from(v@, brace as int, 0),
        brace < j <= v.len(),
{
    let n = v.len();
    let mut depth: u64 = 1;
    let mut j = brace + 1;
    proof {
        lemma_close_from_bounds(v@, brace as int, 0);
    }
    while j < n
        invariant
            brace < j <= n == v.len(),
            1 <= depth <= j - brace,
            close_from(v@, brace as int, 0) == close_from(v@, j as int, depth as int),
        decreases n - j,
    {
        if v[j] == '{' {
            depth = depth + 1;
        } else if v[j] == '}' {
            if depth == 1 {
                return j;
            }
            depth = depth - 1;
        }
        j = j + 1;
    }
    n
}


proof fn lemma_fit_from_end(b: Seq<char>, h: u32)
    ensures
        fit_from(b, b.len() as int, h) == Seq::<char>::empty(),
{
    assert(!occurs_at(b, image_open(), b.len() as int));
    assert(next_occ(b, image_open(), b.len() as int + 1) is None);
    assert(next_occ(b, image_open(), b.len() as int) is None);
    assert(b.subrange(b.len() as int, b.len() as int) == Seq::<char>::empty());
}

/// One step of the full-bleed pass at `i`: appends the output for the
/// stretch up to the next resume point and returns that point.
fn fit_step(v: &Vec<char>, i: usize, h: u32, img: &Vec<char>, out: &mut Vec<char>) -> (i2: usize)
    requires
        i < v.len(),
        img@ == image_open(),
    ensures
        i < i2 <= v.len(),
        final(out)@.len() >= old(out)@.len(),
        final(out)@.take(old(out)@.len() as int) == old(out)@,
        fit_from(v@, i as int, h) == final(out)@.skip(old(out)@.len() as int) + fit_from(
            v@,
            i2 as int,
            h,
        ),
{
    let n = v.len();
    let ghost o = out@;
    proof {
        assert(v@.subrange(0, n as int) == v@);
    }
    match find_from(v, i, n, img) {
        None => {
            extend_chars(out, v, i, n);
            proof {
                lemma_fit_from_end(v@, h);
            }
            assert(fit_from(v@, i as int, h) == v@.subrange(i as int, n as int));
            assert(out@.skip(o.len() as int) == v@.subrange(i as int, n as int));
            assert(out@.take(o.len() as int) == o);
            n
        },
        Some(start) => {
            let brace = start + 5;
            assert(v@.subrange(start as int, start + 6)[5] == '{');
            assert(v@[brace as int] == '{');
            let part = start > 0 && is_ascii_alnum_char(v[start - 1]);
            let j = close_index(v, brace);
            extend_chars(out, v, i, brace + 1);
            assert(next_occ(v@, image_open(), i as int) == Some(start as int));
            if part || j >= n {
                assert(fit_from(v@, i as int, h) == v@.subrange(i as int, brace + 1) + fit_from(
                    v@,
                    brace + 1,
                    h,
                ));
                assert(out@.skip(o.len() as int) == v@.subrange(i as int, brace + 1));
                assert(out@.take(o.len() as int) == o);
                brace + 1
            } else {
                let ghost o1 = out@;
                let mut inner: Vec<char> = Vec::new();
                extend_chars(&mut inner, v, brace + 1, j);
                let ni = inner.len();
                assert(inner@.subrange(0, ni as int) == inner@);
                let fb1 = find_in(&inner, 0, ni, &height_fill_chars()).is_some();
                let fb2 = find_in(&inner, 0, ni, &height_fill_tight_chars()).is_some();
                let ghost piece = if full_bleed(inner@) {
                    spec_rewrite_image_fit_crop(inner@, h)
                } else {
                    inner@
                };
                if fb1 || fb2 {
                    let rw = rewrite_chars(&inner, h);
                    extend_chars(out, &rw, 0, rw.len());
                    assert(rw@.subrange(0, rw@.len() as int) == rw@);
                } else {
                    extend_chars(out, &inner, 0, ni);
                }
                assert(out@ == o1 + piece);
                out.push('}');
                assert(out@ == o + v@.subrange(i as int, brace + 1) + piece + seq!['}']);
                assert(out@.skip(o.len() as int) == v@.subrange(i as int, brace + 1) + piece
                    + seq!['}']);
                assert(out@.take(o.len() as int) == o);
                assert(inner@ == v@.subrange(brace + 1, j as int));
                assert(fit_from(v@, i as int, h) == v@.subrange(i as int, brace + 1) + piece
                    + seq!['}'] + fit_from(v@, j + 1, h));
                j + 1
            }
        },
    }
}

/// Force every full-bleed background `Image{…}` (one sized `height: Fill`)
/// to crop-to-fill at the card root's height: `height: 700` roots become
/// 1200, the image height is pinned to the root height (first
/// `height: <n>` with `n >= 700`, else 1200), and the image fit rewritten.
/// A body without any `Image{` is returned as is.
#[verifier::rlimit(40)]
pub fn force_fullbleed_image_fit(body: &str) -> (r: String)
    ensures
        r@ == spec_force_fullbleed_image_fit(body@),
{
    let v0 = chars_of(body);
    let n0 = v0.len();
    let img = image_open_chars();
    assert(v0@.subrange(0, n0 as int) == v0@);
    if find_in(&v0, 0, n0, &img).is_none() {
        return String::from_str(body);
    }
    let v = replace_all_chars(&v0, &height_700_chars(), &height_1200_chars());
    let h = match card_root_height_chars(&v) {
        Some(x) => x,
        None => FULLBLEED_CARD_HEIGHT,
    };
    let n = v.len();
    let mut out: Vec<char> = Vec::new();
    let mut i: usize = 0;
    while i < n
        invariant
            i <= n == v.len(),
            img@ == image_open(),
            out@ + fit_from(v@, i as int, h) == fit_from(v@, 0, h),
        decreases n - i,
    {
        let ghost before = out@;
        let i2 = fit_step(&v, i, h, &img, &mut out);
        assert(before + (out@.skip(before.len() as int) + fit_from(v@, i2 as int, h)) == out@
            + fit_from(v@, i2 as int, h)) by {
            assert(before + out@.skip(before.len() as int) == out@);
        }
        i = i2;
    }
    proof {
        lemma_fit_from_end(v@, h);
    }
    let r = string_of(&out, 0, out.len());
    assert(out@.subrange(0, out@.len() as int) == out@);
    r
}


// ---------------------------------------------------------------------------
// Runsplash blocks in a reply
// ---------------------------------------------------------------------------

/// The full preparation of a raw Splash body for one card.
pub open spec fn spec_substitute_card_state(
    body: Seq<char>,
    item_id: nat,
    st: Seq<(Seq<char>, Seq<char>)>,
) -> Seq<char> {
    spec_tag_notify_calls(
        spec_force_fullbleed_image_fit(
            spec_neutralize_bare_view(
                spec_substitute_state_keys(spec_strip_card_name_line(body), st),
            ),
        ),
        item_id,
    )
}

/// Prepare a raw Splash body for a specific card: drop the `// name:`
/// directive, substitute its state values, neutralize bare `View{`, fit
/// full-bleed images, and tag its notify calls with the card id.
pub fn substitute_card_state(body: &str, item_id: usize, state: &CardState) -> (r: String)
    ensures
        r@ == spec_substitute_card_state(body@, item_id as nat, state.entries_view()),
{
    let named = strip_card_name_line(body);
    let subst = substitute_state_keys(named.as_str(), state);
    let safe = neutralize_bare_view(subst.as_str());
    let fitted = force_fullbleed_image_fit(safe.as_str());
    tag_notify_calls(fitted.as_str(), item_id)
}

pub open spec fn ends_with_newline(s: Seq<char>) -> bool {
    s.len() > 0 && s.last() == '\n'
}

/// The output for `rest` of `resolve_a2app_card`: each ```` ```runsplash ````
/// block's body (up to the next ```` ``` ````) prepared for the card, the
/// closing fence kept on its own line; everything else verbatim.
pub open spec fn resolve_scan(
    rest: Seq<char>,
    item_id: nat,
    st: Seq<(Seq<char>, Seq<char>)>,
) -> Seq<char>
    decreases rest.len(),
{
    match find(rest, runsplash_open()) {
        None => rest,
        Some(open) => {
            proof {
                lemma_next_occ_bounds(rest, runsplash_open(), 0);
            }
            let am = open + 12;
            let le = match find(rest.skip(am), seq!['\n']) {
                Some(nl) => am + nl + 1,
                None => rest.len() as int,
            };
            proof {
                lemma_next_occ_bounds(rest.skip(am), seq!['\n'], 0);
            }
            let bar = rest.skip(le);
            match find(bar, fence3()) {
                Some(close) => {
                    proof {
                        lemma_next_occ_bounds(bar, fence3(), 0);
                    }
                    let sub = spec_substitute_card_state(bar.take(close), item_id, st);
                    rest.take(le) + sub + (if ends_with_newline(sub) {
                        Seq::empty()
                    } else {
                        seq!['\n']
                    }) + resolve_scan(bar.skip(close), item_id, st)
                },
                None => rest.take(le) + spec_substitute_card_state(bar, item_id, st),
            }
        },
    }
}

/// Substitute state and tag notify calls only inside the ```` ```runsplash ````
/// blocks of a message; prose and other fences are left verbatim.
pub fn resolve_a2app_card(text: &str, item_id: usize, state: &CardState) -> (r: String)
    ensures
        r@ == resolve_scan(text@, item_id as nat, state.entries_view()),
{
    let v = chars_of(text);
    let n = v.len();
    let ghost st = state.entries_view();
    let mut out = String::new();
    let mut i: usize = 0;
    assert(v@.subrange(0, n as int) == v@);
    loop
        invariant
            i <= n == v.len(),
            v@ == text@,
            st == state.entries_view(),
            out@ + resolve_scan(v@.subrange(i as int, n as int), item_id as nat, st)
                == resolve_scan(text@, item_id as nat, st),
        decreases n - i,
    {
        let ghost before = out@;
        match resolve_step(&v, i, item_id, state, &mut out) {
            None => {
                return out;
            },
            Some(i2) => {
                assert(before + (out@.skip(before.len() as int) + resolve_scan(
                    v@.subrange(i2 as int, n as int),
                    item_id as nat,
                    st,
                )) == out@ + resolve_scan(v@.subrange(i2 as int, n as int), item_id as nat, st))
                    by {
                    assert(before + out@.skip(before.len() as int) == out@);
                }
                i = i2;
            },
        }
    }
}

/// One block of `resolve_a2app_card` starting at `i`: appends its output
/// and returns where scanning resumes, or `None` when the text is done.
#[verifier::rlimit(40)]
fn resolve_step(v: &Vec<char>, i: usize, item_id: usize, state: &CardState, out: &mut String) -> (r:
    Option<usize>)
    requires
        i <= v.len(),
    ensures
        final(out)@.len() >= old(out)@.len(),
        final(out)@.take(old(out)@.len() as int) == old(out)@,
        match r {
            None => resolve_scan(v@.subrange(i as int, v.len() as int), item_id as nat, state.entries_view())
                == final(out)@.skip(old(out)@.len() as int),
            Some(i2) => i < i2 <= v.len() && resolve_scan(
                v@.subrange(i as int, v.len() as int),
                item_id as nat,
                state.entries_view(),
            ) == final(out)@.skip(old(out)@.len() as int) + resolve_scan(
                v@.subrange(i2 as int, v.len() as int),
                item_id as nat,
                state.entries_view(),
            ),
        },
{
    let n = v.len();
    let open = runsplash_open_chars();
    let fence = fence3_chars();
    let nl = vec!['\n'];
    assert(nl@ == seq!['\n']);
    let ghost rest = v@.subrange(i as int, n as int);
    let ghost o = out@;
    match find_in(v, i, n, &open) {
        None => {
            push_range(out, v, i, n);
            assert(out@.skip(o.len() as int) == rest);
            assert(out@.take(o.len() as int) == o);
            None
        },
        Some(k) => {
            let am = i + k + 12;
            assert(rest.skip(k + 12) == v@.subrange(am as int, n as int));
            let le = match find_in(v, am, n, &nl) {
                Some(m) => am + m + 1,
                None => n,
            };
            assert(rest.skip((le - i) as int) == v@.subrange(le as int, n as int));
            assert(rest.take((le - i) as int) == v@.subrange(i as int, le as int));
            push_range(out, v, i, le);
            match find_in(v, le, n, &fence) {
                Some(c) => {
                    let body = string_of(v, le, le + c);
                    assert(v@.subrange(le as int, n as int).take(c as int) == v@.subrange(
                        le as int,
                        le + c,
                    ));
                    let sub = substitute_card_state(body.as_str(), item_id, state);
                    push_str(out, sub.as_str());
                    let sub_len = sub.unicode_len();
                    let ends_nl = sub_len > 0 && sub.as_str().get_char(sub_len - 1) == '\n';
                    if !ends_nl {
                        out.push('\n');
                    }
                    assert(v@.subrange(le as int, n as int).skip(c as int) == v@.subrange(
                        le + c,
                        n as int,
                    ));
                    let ghost piece = v@.subrange(i as int, le as int) + sub@ + (
                    if ends_with_newline(sub@) {
                        Seq::<char>::empty()
                    } else {
                        seq!['\n']
                    });
                    assert(out@ == o + piece);
                    assert(out@.skip(o.len() as int) == piece);
                    assert(out@.take(o.len() as int) == o);
                    Some(le + c)
                },
                None => {
                    let body = string_of(v, le, n);
                    let sub = substitute_card_state(body.as_str(), item_id, state);
                    push_str(out, sub.as_str());
                    assert(v@.subrange(le as int, n as int) == rest.skip((le - i) as int));
                    assert(out@ == o + v@.subrange(i as int, le as int) + sub@);
                    assert(out@.skip(o.len() as int) == v@.subrange(i as int, le as int) + sub@);
                    assert(out@.take(o.len() as int) == o);
                    None
                },
            }
        },
    }
}

/// The text of a streaming reply with an unclosed last
/// ```` ```runsplash ```` block cut off and replaced by a building note.
pub open spec fn spec_defer_unclosed_runsplash(text: Seq<char>) -> Seq<char> {
    match rfind(text, runsplash_open()) {
        None => text,
        Some(start) => {
            let after = text.skip(start + 12);
            let closed = match find(after, seq!['\n']) {
                Some(nl) => contains(after.skip(nl + 1), fence3()),
                None => false,
            };
            if closed {
                text
            } else {
                text.take(start) + building_note()
            }
        },
    }
}

/// While a reply streams, hold back an unclosed ```` ```runsplash ```` block
/// (the last one): the text is cut at its fence and a short building note
/// shown instead, so the card renders once, when its fence closes.
pub fn defer_unclosed_runsplash(text: &str) -> (r: String)
    ensures
        r@ == spec_defer_unclosed_runsplash(text@),
{
    let v = chars_of(text);
    let n = v.len();
    let open = runsplash_open_chars();
    assert(v@.subrange(0, n as int) == v@);
    match rfind_from(&v, n, n, &open) {
        None => String::from_str(text),
        Some(start) => {
            let a = start + 12;
            assert(v@.skip(a as int) == v@.subrange(a as int, n as int));
            let nl = vec!['\n'];
            assert(nl@ == seq!['\n']);
            let fence = fence3_chars();
            let closed = match find_in(&v, a, n, &nl) {
                Some(k) => {
                    assert(v@.subrange(a as int, n as int).skip(k + 1) == v@.subrange(
                        a + k + 1,
                        n as int,
                    ));
                    find_in(&v, a + k + 1, n, &fence).is_some()
                },
                None => false,
            };
            if closed {
                String::from_str(text)
            } else {
                let mut out = string_of(&v, 0, start);
                assert(v@.take(start as int) == v@.subrange(0, start as int));
                let note = building_note_chars();
                push_range(&mut out, &note, 0, note.len());
                assert(note@.subrange(0, note@.len() as int) == note@);
                out
            }
        },
    }
}

/// The body of the first ```` ```runsplash ```` block: from the line after
/// the fence up to the next ```` ``` ````, trailing whitespace removed.
pub open spec fn spec_extract_runsplash_body(text: Seq<char>) -> Option<Seq<char>> {
    match find(text, runsplash_open()) {
        None => None,
        Some(start) => {
            let after = text.skip(start + 12);
            match find(after, seq!['\n']) {
                None => None,
                Some(nl) => {
                    let body = after.skip(nl + 1);
                    match find(body, fence3()) {
                        None => None,
                        Some(end) => Some(trim_end(body.take(end))),
                    }
                },
            }
        },
    }
}

/// Pull the body of the first ```` ```runsplash ```` block out of a message.
pub fn extract_runsplash_body(text: &str) -> (r: Option<&str>)
    ensures
        match r {
            Some(b) => spec_extract_runsplash_body(text@) == Some(b@),
            None => spec_extract_runsplash_body(text@) is None,
        },
        r matches Some(b) ==> b@.len() < text@.len() && b@.len() < usize::MAX,
{
    let v = chars_of(text);
    let n = v.len();
    assert(v@.subrange(0, n as int) == v@);
    let open = runsplash_open_chars();
    let fence = fence3_chars();
    let start = match find_in(&v, 0, n, &open) {
        Some(s) => s,
        None => return None,
    };
    let a = start + 12;
    assert(v@.skip(a as int) == v@.subrange(a as int, n as int));
    let nl = vec!['\n'];
    assert(nl@ == seq!['\n']);
    let k = match find_in(&v, a, n, &nl) {
        Some(k) => k,
        None => return None,
    };
    let b = a + k + 1;
    assert(v@.subrange(a as int, n as int).skip(k + 1) == v@.subrange(b as int, n as int));
    let e = match find_in(&v, b, n, &fence) {
        Some(e) => e,
        None => return None,
    };
    assert(v@.subrange(b as int, n as int).take(e as int) == v@.subrange(b as int, b + e));
    let t = skip_ws_back(&v, b, b + e);
    assert(trim_end(v@.subrange(b as int, b + e)) == v@.subrange(b as int, t as int));
    Some(text.substring_char(b, t))
}

proof fn lemma_no_occ_tail(s: Seq<char>, p: Seq<char>)
    requires
        !contains(s, p),
        s.len() > 0,
    ensures
        !contains(s.skip(1), p),
        !starts_with(s, p),
{
    assert(!occurs_at(s, p, 0));
    assert(next_occ(s, p, 1) is None);
    lemma_next_occ_shift(s, p, 1, 1);
    if p.len() <= s.len() {
        assert(s.take(p.len() as int) == s.subrange(0, p.len() as int));
    }
}

proof fn lemma_neutralize_untouched(s: Seq<char>, prev_alpha: bool)
    requires
        !contains(s, view_open()),
    ensures
        neutralize_from(s, prev_alpha) == s,
    decreases s.len(),
{
    if s.len() > 0 {
        lemma_no_occ_tail(s, view_open());
        lemma_neutralize_untouched(s.skip(1), is_ascii_alpha(s[0]));
        assert(seq![s[0]] + s.skip(1) =~= s);
    }
}

proof fn lemma_replace_all_untouched(s: Seq<char>, p: Seq<char>, r: Seq<char>)
    requires
        !contains(s, p),
    ensures
        replace_all(s, p, r) == s,
    decreases s.len(),
{
    if s.len() > 0 && p.len() > 0 {
        lemma_no_occ_tail(s, p);
        lemma_replace_all_untouched(s.skip(1), p, r);
        assert(seq![s[0]] + s.skip(1) =~= s);
    }
}

/// Preparing a card substitutes its state: for a body with no name
/// directive whose state substitution leaves no bare `View{`, no `Image{`
/// and no notify call to rewrite, the prepared card is exactly the body
/// with every `{{state.<key>}}` replaced by the card's value (`0` when the
/// key is missing).
pub proof fn law_card_prep_substitutes_state(
    body: Seq<char>,
    item_id: nat,
    st: Seq<(Seq<char>, Seq<char>)>,
)
    requires
        !contains(body, name_directive()),
        !contains(body, name_directive_tight()),
        !contains(spec_substitute_state_keys(body, st), view_open()),
        !contains(spec_substitute_state_keys(body, st), image_open()),
        !contains(spec_substitute_state_keys(body, st), notify_dq()),
        !contains(spec_substitute_state_keys(body, st), notify_sq()),
    ensures
        spec_substitute_card_state(body, item_id, st) == spec_substitute_state_keys(body, st),
{
    let sub = spec_substitute_state_keys(body, st);
    lemma_neutralize_untouched(sub, false);
    lemma_replace_all_untouched(sub, notify_dq(), tagged(notify_dq(), item_id));
    lemma_replace_all_untouched(sub, notify_sq(), tagged(notify_sq(), item_id));
}

} // verus!
