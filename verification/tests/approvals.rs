use octos_app::approvals::{
    can_post_decision, decision_label, decision_subtitle, parse_recorded_decision, scope_at,
    ApprovalDecision, ApprovalScope, ApprovalState,
};

#[test]
fn labels_and_subtitles() {
    assert_eq!(decision_label(&ApprovalDecision::Approve), "approve");
    assert_eq!(decision_label(&ApprovalDecision::Deny), "deny");
    let odd = ApprovalDecision::Unknown("maybe".to_string());
    assert_eq!(decision_label(&odd), "unrecognized");
    assert_eq!(decision_subtitle(&odd).as_deref(), Some("raw: maybe"));
    assert_eq!(decision_subtitle(&ApprovalDecision::Approve), None);
}

#[test]
fn scopes_and_recorded_decisions() {
    assert_eq!(scope_at(0), Some(ApprovalScope::Request));
    assert_eq!(scope_at(2), Some(ApprovalScope::Session));
    assert_eq!(scope_at(3), None);
    assert!(matches!(parse_recorded_decision("approve"), Some(ApprovalDecision::Approve)));
    assert!(matches!(parse_recorded_decision("deny"), Some(ApprovalDecision::Deny)));
    assert!(parse_recorded_decision("Approve").is_none());
}

#[test]
fn posting_is_allowed_until_decided() {
    assert!(can_post_decision(&ApprovalState::Awaiting));
    assert!(can_post_decision(&ApprovalState::Failed("x".to_string())));
    assert!(!can_post_decision(&ApprovalState::PendingResponse(ApprovalDecision::Approve)));
    assert!(!can_post_decision(&ApprovalState::Decided(ApprovalDecision::Deny)));
}
