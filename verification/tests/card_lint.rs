use octos_app::card_lint::{count_pattern, lint, repair_prompt, rules_from_entries, LintRule, LintRuleEntry};

fn rule(desc: &str, pattern: &str, min: usize, max: Option<usize>) -> LintRule {
    LintRule { desc: desc.to_string(), pattern: pattern.to_string(), min, max }
}

#[test]
fn counts_like_str_matches() {
    assert_eq!(count_pattern("aaaa", "aa"), 2);
    assert_eq!(count_pattern("abcabc", "bc"), 2);
    assert_eq!(count_pattern("abc", ""), 4);
    assert_eq!(count_pattern("", "x"), 0);
}

#[test]
fn lint_reports_missing_and_banned() {
    let body = "RoundedView{ Image{} Image{} }";
    let rules = vec![
        rule("Needs a name line", "// name:", 1, None),
        rule("No photos on e-ink", "Image{", 0, Some(0)),
        rule("Has a view", "RoundedView{", 1, Some(1)),
    ];
    let out = lint(body, &rules);
    assert_eq!(
        out,
        vec![
            "Needs a name line (found 0 of the required 1 `// name:`)".to_string(),
            "No photos on e-ink (found 2 but at most 0 `Image{` allowed)".to_string(),
        ]
    );
    assert!(lint(body, &rules[2..]).is_empty());
}

#[test]
fn repair_prompt_lists_violations() {
    let p = repair_prompt(&["a".to_string(), "b".to_string()]);
    assert_eq!(
        p,
        "REPAIR PASS — the card you just emitted FAILED validation against the app spec. Violations:\n- a\n- b\n\nRe-emit the ENTIRE corrected card now: one ```runsplash block with the same `// name:` line and the same structure otherwise. Fix ONLY the violations; change nothing else."
    );
}

#[test]
fn rules_are_all_or_nothing() {
    let good = LintRuleEntry {
        desc: Some("d".to_string()),
        pattern: Some("p".to_string()),
        min: None,
        max: Some(3),
    };
    let bad = LintRuleEntry { desc: None, pattern: Some("p".to_string()), min: None, max: None };
    let rules = rules_from_entries(&[good]).unwrap();
    assert_eq!(rules.len(), 1);
    assert_eq!(rules[0].min, 1);
    assert_eq!(rules[0].max, Some(3));
    let good2 = LintRuleEntry {
        desc: Some("d".to_string()),
        pattern: Some("p".to_string()),
        min: Some(2),
        max: None,
    };
    assert!(rules_from_entries(&[good2, bad]).is_none());
    assert!(rules_from_entries(&[]).is_none());
}
