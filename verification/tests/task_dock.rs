use octos_app::task_dock::{
    project_task, project_tool, short_line, snapshot, DockHeader, RowStatus, TaskInfo, ToolCallInfo,
};

fn tool(id: &str, session: &str, name: &str, success: Option<bool>, completed: bool) -> ToolCallInfo {
    ToolCallInfo {
        id: id.to_string(),
        session_id: session.to_string(),
        tool_name: name.to_string(),
        success,
        completed,
        output_preview: None,
    }
}

fn task(id: &str, session: &str, state: &str, lifecycle: &str, summary: Option<&str>) -> TaskInfo {
    TaskInfo {
        id: id.to_string(),
        session_id: session.to_string(),
        runtime_state: state.to_string(),
        lifecycle_state: lifecycle.to_string(),
        summary: summary.map(str::to_string),
    }
}

#[test]
fn tool_status_from_outcome() {
    assert_eq!(project_tool(&tool("a", "s", "grep", None, false)).status, RowStatus::Running);
    assert_eq!(project_tool(&tool("a", "s", "grep", None, true)).status, RowStatus::Done);
    assert_eq!(project_tool(&tool("a", "s", "grep", Some(true), false)).status, RowStatus::Done);
    assert_eq!(project_tool(&tool("a", "s", "grep", Some(false), true)).status, RowStatus::Error);
    let unnamed = project_tool(&tool("t1", "s", "", None, false));
    assert_eq!(unnamed.name, "<tool>");
    assert_eq!(unnamed.icon, "🔧");
    assert_eq!(unnamed.correlation_id, "t1");
}

#[test]
fn task_rows() {
    let done = project_task(&task("9", "s", "completed", "", None));
    assert_eq!(done.status, RowStatus::Done);
    assert_eq!(done.name, "task");
    assert_eq!(done.detail, None);
    let failed = project_task(&task("9", "s", "failed", "verifying", Some("Build")));
    assert_eq!(failed.status, RowStatus::Error);
    assert_eq!(failed.name, "Build");
    assert_eq!(failed.detail.as_deref(), Some("verifying"));
    assert_eq!(project_task(&task("9", "s", "queued", "", None)).status, RowStatus::Running);
    assert_eq!(failed.icon, "⚙");
}

#[test]
fn short_lines() {
    assert_eq!(short_line("  a\nb\rc  ", 64), "a b c");
    assert_eq!(short_line("abcdef", 3), "abc…");
    assert_eq!(short_line("abc", 3), "abc");
    assert_eq!(short_line("", 3), "");
}

#[test]
fn snapshot_filters_by_session_and_counts() {
    let mut t = tool("a", "s1", "grep", None, false);
    t.output_preview = Some("x".repeat(70));
    let tools = vec![t, tool("b", "s2", "ls", Some(true), true)];
    let tasks = vec![task("1", "s1", "running", "", None), task("2", "s1", "completed", "", None)];
    let (rows, header) = snapshot(&tools, &tasks, Some("s1"));
    assert_eq!(rows.len(), 3);
    assert_eq!(rows[0].correlation_id, "a");
    assert_eq!(rows[0].detail.as_deref(), Some(format!("{}…", "x".repeat(64)).as_str()));
    assert_eq!(rows[1].correlation_id, "1");
    assert_eq!(header, DockHeader { tool_count: 1, task_count: 2, running_count: 2 });
    let (all, h) = snapshot(&tools, &tasks, None);
    assert_eq!(all.len(), 4);
    assert_eq!(h.tool_count, 2);
    assert!(!h.is_idle());
    let (none, idle) = snapshot(&tools, &tasks, Some("other"));
    assert!(none.is_empty());
    assert!(idle.is_idle());
}

#[test]
fn pill_label() {
    let h = DockHeader { tool_count: 2, task_count: 1, running_count: 1 };
    assert_eq!(h.label(None), "🔧 2 tools · 1 tasks · running 1/3");
    assert_eq!(h.label(Some(42)), "🔧 2 tools · 1 tasks · running 1/3 · 42%");
}
