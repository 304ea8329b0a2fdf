use octos_app::diagram_safety::{
    assistant_message_is_safe_for_history, assistant_message_is_safe_to_store,
    reply_fence_opens, scan_diagram_fence_status, scan_diagram_fences, unwrap_outer_markdown_fence,
    DiagramFenceStatus,
};

/// One verdict per collected diagram body; the body is judged by whether
/// it is well-formed JSON, the shape every diagram spec has.
fn verdicts(text: &str) -> Vec<bool> {
    scan_diagram_fences(text)
        .diagram_bodies
        .iter()
        .map(|b| serde_json::from_str::<serde_json::Value>(b).is_ok())
        .collect()
}

fn safe_to_store(text: &str) -> bool {
    assistant_message_is_safe_to_store(text, &verdicts(text))
}

fn safe_for_history(text: &str) -> bool {
    assistant_message_is_safe_for_history(text, &verdicts(text))
}

#[test]
fn history_injection_allows_valid_diagram_assistant_messages() {
    let text = r#"```diagram
{"type":"state","orientation":"lr","states":[{"id":"draft","label":"Draft","kind":"start"},{"id":"done","label":"Done","kind":"end","role":"focal"}],"transitions":[{"from":"draft","to":"done","label":"submit"}]}
```"#;
    assert!(safe_to_store(text));
    assert!(!safe_for_history(text));
}

#[test]
fn history_injection_rejects_incomplete_diagram_assistant_messages() {
    let text = r#"```diagram
{"type":"state","orientation":"lr","states":[{"id":"draft","label":"Draft","kind":"start"},{"id":"pending","label":"Pending Payment"},{"id":"paid","label":"
"#;
    assert!(!safe_to_store(text));
    assert!(!safe_for_history(text));
}

#[test]
fn history_injection_rejects_invalid_closed_diagram_assistant_messages() {
    let text = r#"```diagram
{"type":"state","orientation":"lr","states":[{"id":"draft","label":"Draft"}],
```"#;
    assert!(!safe_to_store(text));
    assert!(!safe_for_history(text));
}

#[test]
fn history_injection_allows_non_diagram_assistant_messages() {
    let text = "这里是普通解释，没有 diagram fence。";
    assert!(safe_to_store(text));
    assert!(safe_for_history(text));
}

#[test]
fn store_keeps_reply_with_unclosed_non_diagram_fence() {
    let text = "Here's a markdown demo:\n\n```rust\nfn main() {\n    println!(\"hi\";\n";
    assert!(safe_to_store(text));
    assert!(!safe_for_history(text));
}

#[test]
fn store_rejects_bad_diagram_even_with_later_unclosed_non_diagram_fence() {
    let text = r#"```diagram
{"type":"state","orientation":"lr","states":[{"id":"draft","label":"Draft"}],
```

```rust
fn main() {
"#;
    assert!(!safe_to_store(text));
    assert!(!safe_for_history(text));
}

#[test]
fn outer_markdown_wrapper_is_unwrapped_before_diagram_safety_scan() {
    let text = r#"```markdown
Here is a diagram:

```diagram
{"type":"state","orientation":"lr","states":[{"id":"draft","label":"Draft","kind":"start"},{"id":"done","label":"Done","kind":"end"}],"transitions":[{"from":"draft","to":"done","label":"submit"}]}
```
```"#;
    assert!(safe_to_store(text));
    assert!(!safe_for_history(text));
}

#[test]
fn outer_markdown_wrapper_rejects_bad_inner_diagram() {
    let text = r#"```markdown
Here is a broken diagram:

```diagram
{"type":"state","orientation":"lr","states":[{"id":"draft","label":"Draft"}],
```
```"#;
    assert!(!safe_to_store(text));
    assert!(!safe_for_history(text));
}

#[test]
fn fence_status_values() {
    let valid = "```diagram\n{\"a\":1}\n```";
    assert_eq!(scan_diagram_fence_status(valid, &verdicts(valid)), DiagramFenceStatus::Valid);
    let plain = "no fences here";
    assert_eq!(scan_diagram_fence_status(plain, &verdicts(plain)), DiagramFenceStatus::NoDiagram);
    let open = "```python\nprint(1)\n";
    assert_eq!(
        scan_diagram_fence_status(open, &verdicts(open)),
        DiagramFenceStatus::UnclosedNonDiagram
    );
    let bad = "```diagram\n{\n```";
    assert_eq!(scan_diagram_fence_status(bad, &verdicts(bad)), DiagramFenceStatus::Invalid);
}

#[test]
fn scan_collects_trimmed_bodies_in_order() {
    let text = "```diagram\n  {\"a\":1}  \n```\ntext\n~~~diagram\n{\"b\":2}\n~~~\n";
    let scan = scan_diagram_fences(text);
    assert_eq!(scan.diagram_bodies, vec!["{\"a\":1}".to_string(), "{\"b\":2}".to_string()]);
    assert!(scan.unclosed.is_none());
}

#[test]
fn outer_wrapper_unwrapping() {
    assert_eq!(unwrap_outer_markdown_fence("```markdown\nhello\n```"), "hello");
    assert_eq!(unwrap_outer_markdown_fence("plain text"), "plain text");
    assert_eq!(unwrap_outer_markdown_fence("```markdown\nhi\n````"), "hi");
    assert_eq!(unwrap_outer_markdown_fence("````md\nhi\n```  \n"), "hi\n```  \n");
    assert_eq!(unwrap_outer_markdown_fence("```md\nstreaming"), "streaming");
}

#[test]
fn fence_openers() {
    let (n, c, info) = reply_fence_opens("```diagram").unwrap();
    assert_eq!((n, c, info.as_str()), (3, '`', "diagram"));
    assert!(reply_fence_opens("``not").is_none());
}

#[test]
fn wrapping_keeps_the_status() {
    for s in [
        "```diagram\n{\"a\": 1}\n```\n  ",
        "```diagram\n{\"a\": 1",
        "intro\n```rust\nfn main() {",
        "```diagram\nnot json\n```",
        "plain",
    ] {
        let wrapped = format!("```markdown\n{}\n```", s);
        assert_eq!(
            scan_diagram_fence_status(&wrapped, &verdicts(&wrapped)),
            scan_diagram_fence_status(s, &verdicts(s)),
            "{s:?}"
        );
    }
}
