//! Post-generation card validation, and the repair prompt it feeds.
//!
//! Each app ships machine-checkable rules (`apps/<domain>/lint.json`); a
//! completed card body is counted against them and a violating card gets
//! one automatic repair prompt. Rules are plain substring counts.

use vstd::prelude::*;
use crate::text::{chars_of, decimal, matches_at, push_decimal, push_str};

verus! {

broadcast use vstd::string::group_string_axioms;

/// One executable requirement: `pattern` must occur at least `min` times in
/// the card body and, when `max` is set, at most `max` times (`max: 0` bans
/// the pattern). `desc` is echoed into the repair prompt.
pub struct LintRule {
    pub desc: String,
    pub pattern: String,
    pub min: usize,
    pub max: Option<usize>,
}

/// One rule as read from `lint.json`, before validation: `desc` and
/// `pattern` are `None` when missing or not strings, `min` / `max` are
/// `None` when missing or not a finite non-negative number.
pub struct LintRuleEntry {
    pub desc: Option<String>,
    pub pattern: Option<String>,
    pub min: Option<usize>,
    pub max: Option<usize>,
}

/// Number of matches `str::matches(p)` yields: non-overlapping, leftmost
/// first; an empty pattern matches at every character boundary.
pub open spec fn count_matches(s: Seq<char>, p: Seq<char>) -> nat
    decreases s.len(),
{
    if p.len() == 0 {
        s.len() + 1
    } else if s.len() < p.len() {
        0
    } else if s.take(p.len() as int) == p {
        1 + count_matches(s.skip(p.len() as int), p)
    } else {
        count_matches(s.skip(1), p)
    }
}

pub fn count_pattern(body: &str, pattern: &str) -> (n: usize)
    requires
        body@.len() < usize::MAX,
    ensures
        n == count_matches(body@, pattern@),
{
    let v = chars_of(body);
    let p = chars_of(pattern);
    let len = v.len();
    let plen = p.len();
    if plen == 0 {
        return len + 1;
    }
    let mut count: usize = 0;
    let mut i: usize = 0;
    assert(v@.skip(0) == v@);
    while plen <= len - i
        invariant
            plen == p@.len() > 0,
            len == v@.len(),
            i <= len,
            count <= i,
            count_matches(body@, pattern@) == count + count_matches(v@.skip(i as int), p@),
            v@ == body@,
            p@ == pattern@,
        decreases len - i,
    {
        let ghost rest = v@.skip(i as int);
        if matches_at(&v, i, len, &p) {
            assert(rest.take(plen as int) == v@.subrange(i as int, i + plen));
            assert(rest.skip(plen as int) == v@.skip(i + plen));
            count = count + 1;
            i = i + plen;
        } else {
            assert(rest.take(plen as int) == v@.subrange(i as int, i + plen));
            assert(rest.skip(1) == v@.skip(i + 1));
            i = i + 1;
        }
    }
    assert(v@.skip(i as int).len() < plen);
    count
}

pub open spec fn min_violation(r: LintRule, n: nat) -> Seq<char> {
    r.desc@ + " (found "@ + decimal(n) + " of the required "@ + decimal(r.min as nat) + " `"@
        + r.pattern@ + "`)"@
}

pub open spec fn max_violation(r: LintRule, n: nat, max: nat) -> Seq<char> {
    r.desc@ + " (found "@ + decimal(n) + " but at most "@ + decimal(max) + " `"@ + r.pattern@
        + "` allowed)"@
}

/// The repair line for `r` on `body`, if `r` is violated.
pub open spec fn rule_violation(body: Seq<char>, r: LintRule) -> Option<Seq<char>> {
    let n = count_matches(body, r.pattern@);
    if n < r.min {
        Some(min_violation(r, n))
    } else {
        match r.max {
            Some(max) => if n > max {
                Some(max_violation(r, n, max as nat))
            } else {
                None
            },
            None => None,
        }
    }
}

/// The repair lines of all violated rules, in rule order.
pub open spec fn spec_lint(body: Seq<char>, rules: Seq<LintRule>) -> Seq<Seq<char>>
    decreases rules.len(),
{
    if rules.len() == 0 {
        Seq::empty()
    } else {
        let prev = spec_lint(body, rules.drop_last());
        match rule_violation(body, rules.last()) {
            Some(m) => prev.push(m),
            None => prev,
        }
    }
}

pub open spec fn strings_view(v: Seq<String>) -> Seq<Seq<char>> {
    v.map_values(|s: String| s@)
}

/// Count each rule's pattern in the card body and return the violated
/// rules as repair-prompt lines. Empty means the card passed.
pub fn lint(body: &str, rules: &[LintRule]) -> (out: Vec<String>)
    requires
        body@.len() < usize::MAX,
    ensures
        strings_view(out@) == spec_lint(body@, rules@),
{
    let mut out: Vec<String> = Vec::new();
    let mut i: usize = 0;
    while i < rules.len()
        invariant
            i <= rules@.len(),
            body@.len() < usize::MAX,
            strings_view(out@) == spec_lint(body@, rules@.take(i as int)),
        decreases rules@.len() - i,
    {
        let r = &rules[i];
        assert(rules@.take(i + 1).drop_last() == rules@.take(i as int));
        assert(rules@.take(i + 1).last() == rules@[i as int]);
        let n = count_pattern(body, r.pattern.as_str());
        if n < r.min {
            let mut m = String::new();
            push_str(&mut m, r.desc.as_str());
            push_str(&mut m, " (found ");
            push_decimal(&mut m, n as u64);
            push_str(&mut m, " of the required ");
            push_decimal(&mut m, r.min as u64);
            push_str(&mut m, " `");
            push_str(&mut m, r.pattern.as_str());
            push_str(&mut m, "`)");
            let ghost before = out@;
            out.push(m);
            assert(strings_view(out@) =~= strings_view(before).push(m@));
        } else {
            match r.max {
                Some(max) => {
                    if n > max {
                        let mut m = String::new();
                        push_str(&mut m, r.desc.as_str());
                        push_str(&mut m, " (found ");
                        push_decimal(&mut m, n as u64);
                        push_str(&mut m, " but at most ");
                        push_decimal(&mut m, max as u64);
                        push_str(&mut m, " `");
                        push_str(&mut m, r.pattern.as_str());
                        push_str(&mut m, "` allowed)");
                        let ghost before = out@;
                        out.push(m);
                        assert(strings_view(out@) =~= strings_view(before).push(m@));
                    }
                },
                None => {},
            }
        }
        i = i + 1;
    }
    assert(rules@.take(rules@.len() as int) == rules@);
    out
}

pub open spec fn repair_header() -> Seq<char> {
    "REPAIR PASS — the card you just emitted FAILED validation against the app spec. Violations:\n"@
}

pub open spec fn repair_footer() -> Seq<char> {
    "\nRe-emit the ENTIRE corrected card now: one ```runsplash block with the same `// name:` line and the same structure otherwise. Fix ONLY the violations; change nothing else."@
}

/// `- <violation>\n` for each violation, in order.
pub open spec fn bullet_list(vs: Seq<Seq<char>>) -> Seq<char>
    decreases vs.len(),
{
    if vs.len() == 0 {
        Seq::empty()
    } else {
        bullet_list(vs.drop_last()) + "- "@ + vs.last() + "\n"@
    }
}

/// The one-shot repair message: a header, one `- ` line per violation, and
/// the instruction to re-emit the entire corrected card.
pub fn repair_prompt(violations: &[String]) -> (out: String)
    ensures
        out@ == repair_header() + bullet_list(strings_view(violations@)) + repair_footer(),
{
    let mut out = String::new();
    push_str(
        &mut out,
        "REPAIR PASS — the card you just emitted FAILED validation against the app spec. Violations:\n",
    );
    let mut i: usize = 0;
    while i < violations.len()
        invariant
            i <= violations@.len(),
            out@ == repair_header() + bullet_list(strings_view(violations@.take(i as int))),
        decreases violations@.len() - i,
    {
        push_str(&mut out, "- ");
        push_str(&mut out, violations[i].as_str());
        push_str(&mut out, "\n");
        assert(strings_view(violations@.take(i + 1)).drop_last() == strings_view(
            violations@.take(i as int),
        ));
        assert(strings_view(violations@.take(i + 1)).last() == violations@[i as int]@);
        i = i + 1;
    }
    assert(violations@.take(violations@.len() as int) == violations@);
    push_str(
        &mut out,
        "\nRe-emit the ENTIRE corrected card now: one ```runsplash block with the same `// name:` line and the same structure otherwise. Fix ONLY the violations; change nothing else.",
    );
    out
}

/// The rules of one `lint.json`, parsed strictly: a missing or malformed
/// `desc`/`pattern` in ANY entry rejects the whole file, as does an empty
/// rule list. A missing `min` defaults to 1; `max` stays optional.
pub open spec fn spec_rules_from_entries(entries: Seq<LintRuleEntry>) -> Option<Seq<(Seq<char>, Seq<char>, nat, Option<usize>)>> {
    if entries.len() == 0 {
        None
    } else if exists|i: int| 0 <= i < entries.len() && (entries[i].desc is None || entries[i].pattern is None) {
        None
    } else {
        Some(Seq::new(entries.len(), |i: int| (
            entries[i].desc.unwrap()@,
            entries[i].pattern.unwrap()@,
            match entries[i].min { Some(m) => m as nat, None => 1nat },
            entries[i].max,
        )))
    }
}

pub open spec fn rule_view(r: LintRule) -> (Seq<char>, Seq<char>, nat, Option<usize>) {
    (r.desc@, r.pattern@, r.min as nat, r.max)
}

pub fn rules_from_entries(entries: &[LintRuleEntry]) -> (r: Option<Vec<LintRule>>)
    ensures
        match r {
            None => spec_rules_from_entries(entries@) is None,
            Some(rules) => spec_rules_from_entries(entries@) == Some(rules@.map_values(|x: LintRule| rule_view(x))),
        },
{
    if entries.len() == 0 {
        return None;
    }
    let mut rules: Vec<LintRule> = Vec::new();
    let mut i: usize = 0;
    while i < entries.len()
        invariant
            i <= entries@.len(),
            rules@.len() == i,
            forall|j: int| 0 <= j < i ==> entries@[j].desc is Some && entries@[j].pattern is Some,
            forall|j: int| 0 <= j < i ==> #[trigger] rule_view(rules@[j]) == (
                entries@[j].desc.unwrap()@,
                entries@[j].pattern.unwrap()@,
                match entries@[j].min { Some(m) => m as nat, None => 1nat },
                entries@[j].max,
            ),
        decreases entries@.len() - i,
    {
        let e = &entries[i];
        let desc = match &e.desc {
            Some(d) => d.clone(),
            None => {
                assert(entries@[i as int].desc is None);
                return None;
            },
        };
        let pattern = match &e.pattern {
            Some(p) => p.clone(),
            None => {
                assert(entries@[i as int].pattern is None);
                return None;
            },
        };
        let min = match e.min {
            Some(m) => m,
            None => 1,
        };
        rules.push(LintRule { desc, pattern, min, max: e.max });
        i = i + 1;
    }
    assert(rules@.map_values(|x: LintRule| rule_view(x)) =~= Seq::new(entries@.len(), |j: int| (
        entries@[j].desc.unwrap()@,
        entries@[j].pattern.unwrap()@,
        match entries@[j].min { Some(m) => m as nat, None => 1nat },
        entries@[j].max,
    )));
    Some(rules)
}

/// Whether `body` meets rule `r`: enough occurrences, and not too many.
pub open spec fn rule_holds(body: Seq<char>, r: LintRule) -> bool {
    let n = count_matches(body, r.pattern@);
    n >= r.min && match r.max {
        Some(max) => n <= max,
        None => true,
    }
}

/// A card passes the lint (no repair lines) exactly when it meets every
/// rule; otherwise there is one line per violated rule.
pub proof fn law_lint_passes_iff_all_rules_hold(body: Seq<char>, rules: Seq<LintRule>)
    ensures
        spec_lint(body, rules).len() == 0 <==> forall|i: int|
            0 <= i < rules.len() ==> rule_holds(body, #[trigger] rules[i]),
        spec_lint(body, rules).len() <= rules.len(),
    decreases rules.len(),
{
    if rules.len() > 0 {
        law_lint_passes_iff_all_rules_hold(body, rules.drop_last());
        let p = rules.drop_last();
        assert(rule_violation(body, rules.last()) is None <==> rule_holds(body, rules.last()));
        if spec_lint(body, rules).len() == 0 {
            assert forall|i: int| 0 <= i < rules.len() implies rule_holds(body, #[trigger] rules[i]) by {
                if i < rules.len() - 1 {
                    assert(rules[i] == p[i]);
                }
            }
        }
        if forall|i: int| 0 <= i < rules.len() ==> rule_holds(body, #[trigger] rules[i]) {
            assert(rule_holds(body, rules[rules.len() - 1]));
            assert forall|i: int| 0 <= i < p.len() implies rule_holds(body, #[trigger] p[i]) by {
                assert(p[i] == rules[i]);
            }
        }
    }
}

} // verus!

