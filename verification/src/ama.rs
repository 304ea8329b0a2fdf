//! The routing decision of the AMA (activity management agent).
//!
//! The AMA answers each user intent with one decision line,
//! `<app-id> — <reason>`, `none`, or `compose <new-id> — <reason>` after it
//! has written a new app's spec. The decision is the reply's last non-empty
//! line; this module turns it into the action the client takes.

use vstd::prelude::*;
use crate::cards::{first_line, line_at};
use crate::text::{
    ascii_lower, before_char, chars_of, eq_ignore_ascii_case, is_ascii_alnum, is_ws, is_whitespace, same_chars,
    skip_run, skip_run_back, string_of, to_ascii_lower, trim, trim_bounds, trim_char,
    trim_end_char,
};

verus! {

broadcast use vstd::string::group_string_axioms;

/// The last non-empty trimmed line of `s` (`acc` if there is none).
pub open spec fn last_decision(s: Seq<char>, acc: Seq<char>) -> Seq<char>
    decreases s.len(),
{
    if s.len() == 0 {
        acc
    } else {
        let k = before_char(s, '\n');
        let t = trim(first_line(s));
        let acc2 = if t.len() > 0 {
            t
        } else {
            acc
        };
        if k >= s.len() {
            acc2
        } else {
            last_decision(s.skip(k as int + 1), acc2)
        }
    }
}

/// Separators of the decision line: whitespace and the em dash.
pub open spec fn is_sep(c: char) -> bool {
    c == '—' || is_ws(c)
}

pub open spec fn sep_run(s: Seq<char>) -> nat
    decreases s.len(),
{
    if s.len() > 0 && is_sep(s[0]) {
        1 + sep_run(s.drop_first())
    } else {
        0
    }
}

pub open spec fn token_run(s: Seq<char>) -> nat
    decreases s.len(),
{
    if s.len() > 0 && !is_sep(s[0]) {
        1 + token_run(s.drop_first())
    } else {
        0
    }
}

pub open spec fn lower(s: Seq<char>) -> Seq<char> {
    s.map_values(|c: char| ascii_lower(c))
}

/// The app id: the first piece of the decision (split at separators),
/// stray dashes trimmed, lower-cased.
pub open spec fn decision_app_id(d: Seq<char>) -> Seq<char> {
    lower(trim_char(d.take(token_run(d) as int), '-'))
}

/// The second non-empty token of the decision.
pub open spec fn second_token(d: Seq<char>) -> Seq<char> {
    let s1 = d.skip(sep_run(d) as int);
    let s2 = s1.skip(token_run(s1) as int);
    let s3 = s2.skip(sep_run(s2) as int);
    s3.take(token_run(s3) as int)
}

pub open spec fn is_id_char(c: char) -> bool {
    is_ascii_alnum(c) || c == '-'
}

/// The new app id of a `compose` decision: the second token, lower-cased,
/// reduced to ASCII letters, digits and dashes, at most 40 characters.
pub open spec fn compose_id(d: Seq<char>) -> Seq<char> {
    let f = lower(second_token(d)).filter(|c: char| is_id_char(c));
    if f.len() <= 40 {
        f
    } else {
        f.take(40)
    }
}

pub open spec fn compose_word() -> Seq<char> {
    seq!['c', 'o', 'm', 'p', 'o', 's', 'e']
}

pub open spec fn none_word() -> Seq<char> {
    seq!['n', 'o', 'n', 'e']
}

/// What the client does with the AMA's decision.
#[derive(Clone, Debug)]
pub enum AmaAction {
    /// Spin up (or reuse) a peer agent for this app id and route to it.
    Compose(String),
    /// Route to the app agent of this domain (none when no agent has it).
    Route(String),
}

pub open spec fn action_view(a: AmaAction) -> (bool, Seq<char>) {
    match a {
        AmaAction::Compose(id) => (true, id@),
        AmaAction::Route(id) => (false, id@),
    }
}

/// The action for decision `d`, given the domains of the running agents.
pub open spec fn spec_ama_action(d: Seq<char>, known: Seq<Seq<char>>) -> (bool, Seq<char>) {
    let app_id = decision_app_id(d);
    if app_id == compose_word() {
        if compose_id(d).len() == 0 {
            (false, app_id)
        } else {
            (true, compose_id(d))
        }
    } else if !known.contains(app_id) && app_id != none_word() && app_id.len() > 0 && (forall|
        i: int,
    | 0 <= i < app_id.len() ==> is_id_char(#[trigger] app_id[i])) {
        (true, app_id)
    } else {
        (false, app_id)
    }
}

/// The parsed decision: the decision line and the action.
pub struct AmaDecision {
    pub decision: String,
    pub action: AmaAction,
}

fn is_sep_char(c: char) -> (b: bool)
    ensures
        b == is_sep(c),
{
    c == '—' || is_whitespace(c)
}

fn skip_seps(v: &Vec<char>, lo: usize, hi: usize) -> (i: usize)
    requires
        lo <= hi <= v.len(),
    ensures
        lo <= i <= hi,
        i - lo == sep_run(v@.subrange(lo as int, hi as int)),
{
    let mut i = lo;
    while i < hi && is_sep_char(v[i])
        invariant
            lo <= i <= hi <= v.len(),
            sep_run(v@.subrange(lo as int, hi as int)) == (i - lo) + sep_run(
                v@.subrange(i as int, hi as int),
            ),
        decreases hi - i,
    {
        assert(v@.subrange(i as int, hi as int).drop_first() == v@.subrange(i + 1, hi as int));
        i = i + 1;
    }
    i
}

fn skip_token(v: &Vec<char>, lo: usize, hi: usize) -> (i: usize)
    requires
        lo <= hi <= v.len(),
    ensures
        lo <= i <= hi,
        i - lo == token_run(v@.subrange(lo as int, hi as int)),
{
    let mut i = lo;
    while i < hi && !is_sep_char(v[i])
        invariant
            lo <= i <= hi <= v.len(),
            token_run(v@.subrange(lo as int, hi as int)) == (i - lo) + token_run(
                v@.subrange(i as int, hi as int),
            ),
        decreases hi - i,
    {
        assert(v@.subrange(i as int, hi as int).drop_first() == v@.subrange(i + 1, hi as int));
        i = i + 1;
    }
    i
}

fn lower_range(v: &Vec<char>, lo: usize, hi: usize) -> (r: Vec<char>)
    requires
        lo <= hi <= v.len(),
    ensures
        r@ == lower(v@.subrange(lo as int, hi as int)),
{
    let mut r: Vec<char> = Vec::new();
    let mut k = lo;
    while k < hi
        invariant
            lo <= k <= hi <= v.len(),
            r@ == lower(v@.subrange(lo as int, k as int)),
        decreases hi - k,
    {
        r.push(to_ascii_lower(v[k]));
        assert(lower(v@.subrange(lo as int, k + 1)) == lower(v@.subrange(lo as int, k as int)).push(
            ascii_lower(v@[k as int]),
        ));
        k = k + 1;
    }
    r
}

fn is_id_char_exec(c: char) -> (b: bool)
    ensures
        b == is_id_char(c),
{
    ('a' <= c && c <= 'z') || ('A' <= c && c <= 'Z') || ('0' <= c && c <= '9') || c == '-'
}

/// The last non-empty trimmed line of `text`.
fn decision_line(text: &Vec<char>) -> (r: Vec<char>)
    ensures
        r@ == last_decision(text@, Seq::empty()),
{
    let n = text.len();
    let mut acc: Vec<char> = Vec::new();
    let mut i: usize = 0;
    assert(text@.subrange(0, n as int) == text@);
    while i < n
        invariant
            i <= n == text.len(),
            last_decision(text@, Seq::empty()) == last_decision(
                text@.subrange(i as int, n as int),
                acc@,
            ),
        decreases n - i,
    {
        let (le, k) = line_at(text, i, n);
        let (x, y) = trim_bounds(text, i, le);
        if x < y {
            acc = Vec::new();
            crate::text::extend_chars(&mut acc, text, x, y);
        }
        if k >= n {
            assert(text@.subrange(n as int, n as int).len() == 0);
            i = n;
        } else {
            assert(text@.subrange(i as int, n as int).skip((k - i + 1) as int) == text@.subrange(
                k + 1,
                n as int,
            ));
            i = k + 1;
        }
    }
    acc
}

/// Parse the AMA's reply into its decision line and the action to take:
/// the app id is the decision's first token (dashes trimmed, lower-cased).
/// `compose <id>` composes the named app (falling back to a plain route
/// when the id is empty); an id naming no running agent, not `none`, and
/// made of letters, digits and dashes composes that app on demand; anything
/// else routes to the agent of that domain.
pub fn parse_ama_decision(ama_text: &str, known_domains: &[String]) -> (r: AmaDecision)
    ensures
        r.decision@ == last_decision(ama_text@, Seq::empty()),
        action_view(r.action) == spec_ama_action(
            r.decision@,
            known_domains@.map_values(|d: String| d@),
        ),
{
    let v = chars_of(ama_text);
    let d = decision_line(&v);
    let n = d.len();
    assert(d@.subrange(0, n as int) == d@);
    // App id: first piece, dashes trimmed, lower-cased.
    let t = skip_token(&d, 0, n);
    let a = skip_run(&d, 0, t, '-');
    assert(d@.take(t as int) == d@.subrange(0, t as int));
    assert(d@.subrange(0, t as int).skip(a as int) == d@.subrange(a as int, t as int));
    let b = skip_run_back(&d, a, t, '-');
    assert(trim_end_char(d@.subrange(a as int, t as int), '-') == d@.subrange(a as int, b as int));
    let app_id = lower_range(&d, a, b);
    let compose = vec!['c', 'o', 'm', 'p', 'o', 's', 'e'];
    let none = vec!['n', 'o', 'n', 'e'];
    assert(compose@ == compose_word());
    assert(none@ == none_word());
    let decision = string_of(&d, 0, n);
    let ghost known = known_domains@.map_values(|x: String| x@);
    if same_chars(&app_id, &compose) {
        // Second token, lower-cased, filtered, at most 40 characters.
        let s1 = skip_seps(&d, 0, n);
        assert(d@.skip(s1 as int) == d@.subrange(s1 as int, n as int));
        let s2 = skip_token(&d, s1, n);
        assert(d@.subrange(s1 as int, n as int).skip((s2 - s1) as int) == d@.subrange(
            s2 as int,
            n as int,
        ));
        let s3 = skip_seps(&d, s2, n);
        assert(d@.subrange(s2 as int, n as int).skip((s3 - s2) as int) == d@.subrange(
            s3 as int,
            n as int,
        ));
        let s4 = skip_token(&d, s3, n);
        assert(d@.subrange(s3 as int, n as int).take((s4 - s3) as int) == d@.subrange(
            s3 as int,
            s4 as int,
        ));
        let low = lower_range(&d, s3, s4);
        let mut f: Vec<char> = Vec::new();
        let mut k: usize = 0;
        while k < low.len()
            invariant
                k <= low@.len(),
                f@ == low@.take(k as int).filter(|c: char| is_id_char(c)),
            decreases low@.len() - k,
        {
            let c = low[k];
            assert(low@.take(k + 1).drop_last() == low@.take(k as int));
            reveal_with_fuel(Seq::filter, 1);
            if is_id_char_exec(c) {
                f.push(c);
            }
            k = k + 1;
        }
        assert(low@.take(low@.len() as int) == low@);
        let fl = f.len();
        let take = if fl <= 40 {
            fl
        } else {
            40
        };
        assert(f@.subrange(0, fl as int) == f@);
        let new_id = string_of(&f, 0, take);
        if fl == 0 {
            let id = string_of(&app_id, 0, app_id.len());
            assert(app_id@.subrange(0, app_id@.len() as int) == app_id@);
            return AmaDecision { decision, action: AmaAction::Route(id) };
        }
        return AmaDecision { decision, action: AmaAction::Compose(new_id) };
    }
    let id = string_of(&app_id, 0, app_id.len());
    assert(app_id@.subrange(0, app_id@.len() as int) == app_id@);
    // Is the id a domain of a running agent?
    let mut known_hit = false;
    let mut j: usize = 0;
    while j < known_domains.len()
        invariant
            j <= known_domains@.len(),
            known == known_domains@.map_values(|x: String| x@),
            id@ == app_id@,
            known_hit == exists|m: int| 0 <= m < j && known[m] == app_id@,
        decreases known_domains@.len() - j,
    {
        assert(known[j as int] == known_domains@[j as int]@);
        if crate::text::str_eq(known_domains[j].as_str(), id.as_str()) {
            known_hit = true;
        }
        assert(known_hit == exists|q: int| 0 <= q < j + 1 && known[q] == app_id@) by {
            if !known_hit {
                assert forall|q: int| 0 <= q < j + 1 implies known[q] != app_id@ by {
                    if q < j {
                    }
                }
            }
        }
        j = j + 1;
    }
    let mut all_id = true;
    let mut m: usize = 0;
    while m < app_id.len()
        invariant
            m <= app_id@.len(),
            all_id == forall|q: int| 0 <= q < m ==> is_id_char(#[trigger] app_id@[q]),
        decreases app_id@.len() - m,
    {
        if !is_id_char_exec(app_id[m]) {
            all_id = false;
        }
        m = m + 1;
    }
    assert(known_hit == known.contains(app_id@));
    if !known_hit && !same_chars(&app_id, &none) && app_id.len() > 0 && all_id {
        AmaDecision { decision, action: AmaAction::Compose(id) }
    } else {
        AmaDecision { decision, action: AmaAction::Route(id) }
    }
}

/// A composed app id is never empty and is made only of ASCII letters,
/// digits and dashes (an explicit `compose` id has at most 40 characters);
/// a routed id is the decision's app id, and an id of a running agent is
/// always routed, never composed.
pub proof fn law_ama_action_ids(d: Seq<char>, known: Seq<Seq<char>>)
    ensures
        spec_ama_action(d, known).0 ==> spec_ama_action(d, known).1.len() > 0 && forall|i: int|
            0 <= i < spec_ama_action(d, known).1.len() ==> is_id_char(
                #[trigger] spec_ama_action(d, known).1[i],
            ),
        decision_app_id(d) == compose_word() && spec_ama_action(d, known).0 ==> spec_ama_action(
            d,
            known,
        ).1.len() <= 40,
        !spec_ama_action(d, known).0 ==> spec_ama_action(d, known).1 == decision_app_id(d),
        known.contains(decision_app_id(d)) && decision_app_id(d) != compose_word()
            ==> !spec_ama_action(d, known).0,
{
    let f = lower(second_token(d)).filter(|c: char| is_id_char(c));
    if decision_app_id(d) == compose_word() && compose_id(d).len() > 0 {
        lower(second_token(d)).filter_lemma(|c: char| is_id_char(c));
        if f.len() > 40 {
            assert forall|i: int| 0 <= i < 40 implies is_id_char(#[trigger] f.take(40)[i]) by {
                assert(f.take(40)[i] == f[i]);
            }
        }
    }
}

/// No character of `s` is an ASCII upper-case letter.
pub open spec fn no_ascii_upper(s: Seq<char>) -> bool {
    forall|i: int| 0 <= i < s.len() ==> !('A' <= #[trigger] s[i] && s[i] <= 'Z')
}

proof fn lemma_lower_no_upper(s: Seq<char>)
    ensures
        no_ascii_upper(lower(s)),
{
    assert forall|i: int| 0 <= i < lower(s).len() implies !('A' <= #[trigger] lower(s)[i] && lower(
        s,
    )[i] <= 'Z') by {
        let c = s[i];
        if 'A' <= c && c <= 'Z' {
            assert(((c as u32) + 32) as char == lower(s)[i]);
            assert('a' <= lower(s)[i]);
        }
    }
}

proof fn lemma_filter_no_upper(s: Seq<char>, pred: spec_fn(char) -> bool)
    requires
        no_ascii_upper(s),
    ensures
        no_ascii_upper(s.filter(pred)),
    decreases s.len(),
{
    reveal(Seq::filter);
    if s.len() > 0 {
        assert(no_ascii_upper(s.drop_last())) by {
            assert forall|i: int| 0 <= i < s.drop_last().len() implies !('A' <= #[trigger] s.drop_last()[i]
                && s.drop_last()[i] <= 'Z') by {
                assert(s.drop_last()[i] == s[i]);
            }
        }
        lemma_filter_no_upper(s.drop_last(), pred);
        assert(!('A' <= s[s.len() - 1] && s[s.len() - 1] <= 'Z'));
    }
}

/// App ids are lower case, and a decision names a running agent whatever
/// the case it is written in: no routed or composed id holds an ASCII
/// upper-case letter, and when the decision's first token (stray dashes
/// trimmed) differs only in ASCII case from the lower-case domain `k` of a
/// running agent, the decision routes to that agent.
pub proof fn law_ama_ids_are_lower_case(d: Seq<char>, known: Seq<Seq<char>>, k: Seq<char>)
    ensures
        no_ascii_upper(spec_ama_action(d, known).1),
        known.contains(k) && no_ascii_upper(k) && k != compose_word() && eq_ignore_ascii_case(
            trim_char(d.take(token_run(d) as int), '-'),
            k,
        ) ==> spec_ama_action(d, known) == (false, k),
{
    let t = trim_char(d.take(token_run(d) as int), '-');
    lemma_lower_no_upper(t);
    let f = lower(second_token(d)).filter(|c: char| is_id_char(c));
    lemma_lower_no_upper(second_token(d));
    lemma_filter_no_upper(lower(second_token(d)), |c: char| is_id_char(c));
    if f.len() > 40 {
        assert forall|i: int| 0 <= i < f.take(40).len() implies !('A' <= #[trigger] f.take(40)[i] && f.take(
            40,
        )[i] <= 'Z') by {
            assert(f.take(40)[i] == f[i]);
        }
    }
    if known.contains(k) && no_ascii_upper(k) && k != compose_word() && eq_ignore_ascii_case(t, k) {
        assert forall|i: int| 0 <= i < k.len() implies #[trigger] lower(t)[i] == k[i] by {
            assert(ascii_lower(t[i]) == ascii_lower(k[i]));
            assert(!('A' <= k[i] && k[i] <= 'Z'));
        }
        assert(lower(t) =~= k);
    }
}

} // verus!
