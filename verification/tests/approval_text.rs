use octos_app::approval_text::{
    command_line_text, cwd_text, diff_op_text, diff_preview_body, diff_summary_text, env_text,
    hosts_text, join, op_text, outside_workspace_text,
};
use octos_app::approvals::{
    approval_state_after_reply, approval_state_on_post, card_status, risk_badge, ApprovalDecision,
    ApprovalReply, ApprovalState, APPROVAL_NOT_PENDING,
};
use octos_app::coding::{history_summary, output_tail_meta, HistoryDecision, OutputCursor, TaskOutputBuffer};

fn strings(v: &[&str]) -> Vec<String> {
    v.iter().map(|s| s.to_string()).collect()
}

#[test]
fn typed_detail_lines() {
    assert_eq!(join(&strings(&["a", "b", "c"]), ", "), "a, b, c");
    assert_eq!(join(&strings(&[]), ", "), "");
    assert_eq!(command_line_text(None, &strings(&["ls", "-la"])), "ls -la");
    assert_eq!(command_line_text(Some("make".into()), &strings(&["x"])), "make");
    assert_eq!(cwd_text(Some("/w")), "cwd: /w");
    assert_eq!(cwd_text(Some("")), "");
    assert_eq!(cwd_text(None), "");
    assert_eq!(env_text(&strings(&["A", "B"])), "env: A, B");
    assert_eq!(env_text(&strings(&[])), "");
    assert_eq!(diff_summary_text(None, Some(2), Some(10), None), "2 file(s), +10 / -0");
    assert_eq!(diff_summary_text(Some("ok".into()), None, None, None), "ok");
    assert_eq!(op_text("write"), "op: write");
    assert_eq!(diff_op_text(Some("")), "");
    assert_eq!(diff_op_text(Some("edit")), "op: edit");
    assert_eq!(outside_workspace_text(true), "writes outside workspace");
    assert_eq!(outside_workspace_text(false), "");
    assert_eq!(hosts_text(&strings(&["a.com", "b.com"]), &vec![443, 80]), "a.com, b.com  ports: 443, 80");
    assert_eq!(hosts_text(&strings(&[]), &vec![22]), "ports: 22");
    assert_eq!(hosts_text(&strings(&["a.com"]), &vec![]), "a.com");
    assert_eq!(diff_preview_body("p1", "body"), "preview_id: p1\n\nbody");
}

#[test]
fn approval_card_states() {
    let a = card_status(&ApprovalState::Awaiting);
    assert!(a.controls_visible && !a.decided_visible && a.decided_text.is_empty());
    let p = card_status(&ApprovalState::PendingResponse(ApprovalDecision::Unknown("later".into())));
    assert_eq!(p.decided_text, "waiting on server… (unrecognized) — raw: later");
    let d = card_status(&ApprovalState::Decided(ApprovalDecision::Approve));
    assert!(!d.controls_visible && d.decided_visible);
    assert_eq!(d.decided_text, "decided: approve");
    assert_eq!(card_status(&ApprovalState::Failed("boom".into())).decided_text, "failed: boom");
    assert_eq!(risk_badge(Some("high")), ("HIGH".to_string(), true));
    assert_eq!(risk_badge(None), (String::new(), false));
}

#[test]
fn replies_settle_the_state() {
    assert!(matches!(approval_state_on_post(true, ApprovalDecision::Deny), ApprovalState::PendingResponse(ApprovalDecision::Deny)));
    assert!(matches!(approval_state_on_post(false, ApprovalDecision::Deny), ApprovalState::Failed(m) if m == "agent not initialized"));
    assert!(matches!(
        approval_state_after_reply(ApprovalDecision::Approve, ApprovalReply::Accepted),
        ApprovalState::Decided(ApprovalDecision::Approve)
    ));
    let already = ApprovalReply::Failed {
        message: "not pending".into(),
        code: APPROVAL_NOT_PENDING,
        recorded_decision: Some("deny".into()),
    };
    assert!(matches!(approval_state_after_reply(ApprovalDecision::Approve, already), ApprovalState::Decided(ApprovalDecision::Deny)));
    let garbled = ApprovalReply::Failed { message: "x".into(), code: APPROVAL_NOT_PENDING, recorded_decision: Some("?".into()) };
    assert!(matches!(approval_state_after_reply(ApprovalDecision::Approve, garbled), ApprovalState::Decided(ApprovalDecision::Approve)));
    let other = ApprovalReply::Failed { message: "down".into(), code: 0, recorded_decision: None };
    assert!(matches!(approval_state_after_reply(ApprovalDecision::Approve, other), ApprovalState::Failed(m) if m == "down"));
}

#[test]
fn coding_pane_lines() {
    assert_eq!(history_summary(HistoryDecision::Approved, "shell", "Run ls"), "✓ shell · Run ls");
    let mut b = TaskOutputBuffer::default();
    b.append("héllo");
    assert_eq!(output_tail_meta(&b), "6 bytes buffered");
    b.set_cursor(OutputCursor { offset: 42 });
    assert_eq!(output_tail_meta(&b), "offset: 42 · 6 bytes buffered");
}
