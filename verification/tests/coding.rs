use std::collections::HashMap;

use octos_app::approvals::{ApprovalDecision, ApprovalState};
use octos_app::coding::{history_rows, pending_rows, visible_approval_ids, ApprovalsView, HistoryDecision};
use octos_app::coding::{
    active_page_id, build_output_read_params, fold_select_approval, fold_select_task,
    fold_task_output, ApprovalKind, ApprovalRequestedEvent, CodingViewState, OutputCursor,
    PreviewPage, TaskOutputAction, TaskOutputBuffer, TaskOutputOutcome, TaskOutputReadResult,
    OUTPUT_READ_LIMIT_BYTES, OUTPUT_TAIL_CAP_BYTES,
};

#[test]
fn output_buffer_caps_at_12kb() {
    let mut buf = TaskOutputBuffer::default();
    buf.append(&"x".repeat(20_000));
    assert!(buf.text.len() <= OUTPUT_TAIL_CAP_BYTES);
}

#[test]
fn output_buffer_preserves_utf8_after_trim() {
    let mut buf = TaskOutputBuffer::default();
    let s = "ñ".repeat(OUTPUT_TAIL_CAP_BYTES);
    buf.append(&s);
    assert!(buf.text.len() <= OUTPUT_TAIL_CAP_BYTES);
    assert!(buf.text.chars().all(|c| c == 'ñ'));
}

#[test]
fn active_page_falls_back_to_empty_or_output() {
    assert_eq!(active_page_id(None, false), PreviewPage::Empty);
    assert_eq!(active_page_id(None, true), PreviewPage::OutputTail);
}

#[test]
fn output_buffer_keeps_exact_tail() {
    let mut buf = TaskOutputBuffer::default();
    buf.append(&"a".repeat(12_000));
    buf.append(&"b".repeat(300));
    assert_eq!(buf.text.len(), OUTPUT_TAIL_CAP_BYTES);
    assert!(buf.text.ends_with(&"b".repeat(300)));
    assert!(buf.text.starts_with("aaa"));
    // 'ñ' is two bytes: the cap keeps exactly half as many characters.
    let mut w = TaskOutputBuffer::default();
    w.append(&"ñ".repeat(OUTPUT_TAIL_CAP_BYTES));
    assert_eq!(w.text.chars().count(), OUTPUT_TAIL_CAP_BYTES / 2);
}

#[test]
fn output_buffer_under_cap_is_unchanged() {
    let mut buf = TaskOutputBuffer::default();
    buf.append("hello ");
    buf.append("world");
    assert_eq!(buf.text, "hello world");
    assert_eq!(buf.last_cursor, None);
}

#[test]
fn selection_is_exclusive() {
    let mut st = CodingViewState::new();
    fold_select_task(&mut st, 7);
    assert_eq!(st.selected_task, Some(7));
    assert_eq!(st.selected_approval, None);
    fold_select_approval(&mut st, 3);
    assert_eq!(st.selected_approval, Some(3));
    assert_eq!(st.selected_task, None);
}

#[test]
fn task_output_appends_and_moves_cursor() {
    let mut st = CodingViewState::new();
    fold_task_output(
        &mut st,
        TaskOutputAction {
            task_id: 5,
            session_id: "s".to_string(),
            outcome: TaskOutputOutcome::Loaded(TaskOutputReadResult {
                text: "line 1\n".to_string(),
                next_cursor: OutputCursor { offset: 7 },
            }),
        },
    );
    fold_task_output(
        &mut st,
        TaskOutputAction {
            task_id: 5,
            session_id: "s".to_string(),
            outcome: TaskOutputOutcome::Failed("boom".to_string()),
        },
    );
    let b = st.output_buffers.get(&5).unwrap();
    assert_eq!(b.text, "line 1\n");
    assert_eq!(b.last_cursor, Some(OutputCursor { offset: 7 }));
    let p = build_output_read_params(&st, "s".to_string(), 5);
    assert_eq!(p.cursor, Some(OutputCursor { offset: 7 }));
    assert_eq!(p.limit_bytes, Some(OUTPUT_READ_LIMIT_BYTES));
    let q = build_output_read_params(&st, "s".to_string(), 6);
    assert_eq!(q.cursor, None);
}

#[test]
fn preview_page_follows_approval_kind() {
    let ev = request(None, Some(ApprovalKind::Command));
    assert_eq!(active_page_id(Some(&ev), true), PreviewPage::Command);
    let typed = request(Some(ApprovalKind::Diff), Some(ApprovalKind::Command));
    assert_eq!(active_page_id(Some(&typed), false), PreviewPage::Diff);
    let other = request(None, Some(ApprovalKind::Other("plan".to_string())));
    assert_eq!(active_page_id(Some(&other), true), PreviewPage::Empty);
}

fn request(typed: Option<ApprovalKind>, legacy: Option<ApprovalKind>) -> ApprovalRequestedEvent {
    ApprovalRequestedEvent {
        approval_id: 1,
        tool_name: "shell".to_string(),
        title: "Run".to_string(),
        body: "ls".to_string(),
        risk: None,
        typed_kind: typed,
        approval_kind: legacy,
    }
}

#[test]
fn approvals_queue_pane_and_history() {
    let mut by_id = HashMap::new();
    for id in [1u64, 2, 3, 4, 5] {
        by_id.insert(id, request(None, None));
    }
    let mut state = HashMap::new();
    state.insert(2u64, ApprovalState::PendingResponse(ApprovalDecision::Approve));
    state.insert(3u64, ApprovalState::Decided(ApprovalDecision::Unknown("x".to_string())));
    state.insert(4u64, ApprovalState::Failed("e".to_string()));
    state.insert(5u64, ApprovalState::PendingResponse(ApprovalDecision::Deny));
    state.insert(9u64, ApprovalState::Decided(ApprovalDecision::Approve));
    let v = ApprovalsView { pending_order: vec![1, 2, 7], by_id, state };
    assert_eq!(pending_rows(&v, Some(2)), vec![(1, false), (2, true)]);
    let walk = vec![5u64, 4, 3, 2, 9];
    assert_eq!(visible_approval_ids(&v, &walk), vec![1, 2, 4, 3]);
    assert_eq!(
        history_rows(&v, &walk),
        vec![(5, HistoryDecision::Delegate), (4, HistoryDecision::Failed), (3, HistoryDecision::Denied)]
    );
}
