//! The task dock under the composer: one row per tool call and per task
//! of the current session, and the counts shown on its collapsed pill.

use vstd::prelude::*;
use crate::text::{chars_of, decimal, push_decimal, push_str, str_eq, trim, trim_str};

verus! {

broadcast use vstd::string::group_string_axioms;

/// Status pip of a dock row.
#[derive(Clone, Copy, Debug, PartialEq, Eq, Structural)]
pub enum RowStatus {
    Running,
    Done,
    Error,
}

/// A tool call as the dock reads it.
#[derive(Clone, Debug)]
pub struct ToolCallInfo {
    pub id: String,
    pub session_id: String,
    pub tool_name: String,
    /// `None` until the call reports an outcome.
    pub success: Option<bool>,
    /// Whether the call has a completion time.
    pub completed: bool,
    pub output_preview: Option<String>,
}

/// A background task as the dock reads it.
#[derive(Clone, Debug)]
pub struct TaskInfo {
    pub id: String,
    pub session_id: String,
    pub runtime_state: String,
    pub lifecycle_state: String,
    pub summary: Option<String>,
}

/// One rendered dock row.
#[derive(Clone, Debug)]
pub struct DockRow {
    /// Wrench for tool calls, gear for tasks.
    pub icon: &'static str,
    pub name: String,
    pub status: RowStatus,
    /// Trailing detail line.
    pub detail: Option<String>,
    /// `tool_call_id` or `task_id`.
    pub correlation_id: String,
}

/// The characters of a dock row.
pub struct RowView {
    pub icon: Seq<char>,
    pub name: Seq<char>,
    pub status: RowStatus,
    pub detail: Option<Seq<char>>,
    pub correlation_id: Seq<char>,
}

pub open spec fn opt_view(o: Option<String>) -> Option<Seq<char>> {
    match o {
        Some(s) => Some(s@),
        None => None,
    }
}

impl DockRow {
    pub open spec fn view(&self) -> RowView {
        RowView {
            icon: self.icon@,
            name: self.name@,
            status: self.status,
            detail: opt_view(self.detail),
            correlation_id: self.correlation_id@,
        }
    }
}

/// Counts shown on the collapsed pill.
#[derive(Clone, Copy, Debug, PartialEq, Eq, Structural)]
pub struct DockHeader {
    pub tool_count: usize,
    pub task_count: usize,
    /// Rows still running.
    pub running_count: usize,
}

// ---------------------------------------------------------------------------
// Row projection
// ---------------------------------------------------------------------------

/// Status of a tool call from its outcome and completion.
pub open spec fn spec_tool_status(success: Option<bool>, completed: bool) -> RowStatus {
    match (success, completed) {
        (None, false) => RowStatus::Running,
        (Some(false), _) => RowStatus::Error,
        _ => RowStatus::Done,
    }
}

/// Status of a task from its runtime state.
pub open spec fn spec_task_status(runtime_state: Seq<char>) -> RowStatus {
    if runtime_state == "completed"@ {
        RowStatus::Done
    } else if runtime_state == "failed"@ {
        RowStatus::Error
    } else {
        RowStatus::Running
    }
}

pub open spec fn newline_to_space(c: char) -> char {
    if c == '\n' || c == '\r' { ' ' } else { c }
}

pub open spec fn spaced(s: Seq<char>) -> Seq<char> {
    s.map_values(|c: char| newline_to_space(c))
}

/// `s` trimmed, newlines turned into spaces, and cut to `max` characters
/// with an ellipsis when longer.
pub open spec fn spec_short_line(s: Seq<char>, max: nat) -> Seq<char> {
    let t = trim(s);
    if t.len() > max {
        spaced(t.take(max as int)).push('…')
    } else {
        spaced(t)
    }
}

/// One line of at most `max_chars` characters (plus an ellipsis) for a
/// dock detail.
pub fn short_line(s: &str, max_chars: usize) -> (out: String)
    ensures
        out@ == spec_short_line(s@, max_chars as nat),
{
    let t = trim_str(s);
    let v = chars_of(t);
    let mut out = String::new();
    let mut i: usize = 0;
    while i < v.len()
        invariant
            v@ == trim(s@),
            i <= v@.len(),
            i <= max_chars,
            out@ == spaced(v@.take(i as int)),
        decreases v.len() - i,
    {
        if i >= max_chars {
            out.push('…');
            return out;
        }
        let ch = v[i];
        if ch == '\n' || ch == '\r' {
            out.push(' ');
        } else {
            out.push(ch);
        }
        assert(spaced(v@.take(i + 1)) =~= spaced(v@.take(i as int)).push(newline_to_space(ch)));
        i = i + 1;
    }
    assert(v@.take(v@.len() as int) == v@);
    out
}

pub open spec fn spec_tool_row(tc: ToolCallInfo) -> RowView {
    RowView {
        icon: "🔧"@,
        name: if tc.tool_name@.len() == 0 { "<tool>"@ } else { tc.tool_name@ },
        status: spec_tool_status(tc.success, tc.completed),
        detail: match tc.output_preview {
            Some(p) => Some(spec_short_line(p@, 64)),
            None => None,
        },
        correlation_id: tc.id@,
    }
}

pub open spec fn spec_task_row(t: TaskInfo) -> RowView {
    RowView {
        icon: "⚙"@,
        name: match t.summary {
            Some(s) => s@,
            None => "task"@,
        },
        status: spec_task_status(t.runtime_state@),
        detail: if t.lifecycle_state@.len() > 0 { Some(t.lifecycle_state@) } else { None },
        correlation_id: t.id@,
    }
}

/// The dock row of a tool call.
pub fn project_tool(tc: &ToolCallInfo) -> (r: DockRow)
    ensures
        r.view() == spec_tool_row(*tc),
{
    let status = match (tc.success, tc.completed) {
        (None, false) => RowStatus::Running,
        (Some(false), _) => RowStatus::Error,
        _ => RowStatus::Done,
    };
    let name = if tc.tool_name.as_str().is_empty() {
        String::from_str("<tool>")
    } else {
        tc.tool_name.clone()
    };
    let detail = match &tc.output_preview {
        Some(p) => Some(short_line(p.as_str(), 64)),
        None => None,
    };
    DockRow { icon: "🔧", name, status, detail, correlation_id: tc.id.clone() }
}

/// The dock row of a task.
pub fn project_task(t: &TaskInfo) -> (r: DockRow)
    ensures
        r.view() == spec_task_row(*t),
{
    let status = if str_eq(t.runtime_state.as_str(), "completed") {
        RowStatus::Done
    } else if str_eq(t.runtime_state.as_str(), "failed") {
        RowStatus::Error
    } else {
        RowStatus::Running
    };
    let detail = if !t.lifecycle_state.as_str().is_empty() {
        Some(t.lifecycle_state.clone())
    } else {
        None
    };
    let name = match &t.summary {
        Some(s) => s.clone(),
        None => String::from_str("task"),
    };
    DockRow { icon: "⚙", name, status, detail, correlation_id: t.id.clone() }
}

// ---------------------------------------------------------------------------
// Snapshot
// ---------------------------------------------------------------------------

/// Whether an event of `sid` is shown while `current` is the open session
/// (every session's events are shown when none is open).
pub open spec fn belongs(sid: Seq<char>, current: Option<Seq<char>>) -> bool {
    match current {
        Some(c) => sid == c,
        None => true,
    }
}

pub open spec fn tool_rows(s: Seq<ToolCallInfo>, current: Option<Seq<char>>) -> Seq<RowView>
    decreases s.len(),
{
    if s.len() == 0 {
        Seq::empty()
    } else {
        let r = tool_rows(s.drop_last(), current);
        if belongs(s.last().session_id@, current) {
            r.push(spec_tool_row(s.last()))
        } else {
            r
        }
    }
}

pub open spec fn task_rows(s: Seq<TaskInfo>, current: Option<Seq<char>>) -> Seq<RowView>
    decreases s.len(),
{
    if s.len() == 0 {
        Seq::empty()
    } else {
        let r = task_rows(s.drop_last(), current);
        if belongs(s.last().session_id@, current) {
            r.push(spec_task_row(s.last()))
        } else {
            r
        }
    }
}

/// Rows still running.
pub open spec fn running_in(rows: Seq<RowView>) -> nat
    decreases rows.len(),
{
    if rows.len() == 0 {
        0
    } else {
        running_in(rows.drop_last()) + if rows.last().status == RowStatus::Running {
            1nat
        } else {
            0nat
        }
    }
}

proof fn lemma_running_in_bound(rows: Seq<RowView>)
    ensures
        running_in(rows) <= rows.len(),
    decreases rows.len(),
{
    if rows.len() > 0 {
        lemma_running_in_bound(rows.drop_last());
    }
}

pub open spec fn opt_str(o: Option<&str>) -> Option<Seq<char>> {
    match o {
        Some(s) => Some(s@),
        None => None,
    }
}

fn belongs_exec(sid: &str, current: Option<&str>) -> (b: bool)
    ensures
        b == belongs(
            sid@,
            match current {
                Some(s) => Some(s@),
                None => None,
            },
        ),
{
    match current {
        Some(c) => str_eq(sid, c),
        None => true,
    }
}

pub open spec fn rows_view(rows: Seq<DockRow>) -> Seq<RowView> {
    rows.map_values(|d: DockRow| d.view())
}

/// The rows of the current session's tool calls, then of its tasks, and
/// the pill counts. With no current session every row is shown.
pub fn snapshot(tools: &Vec<ToolCallInfo>, tasks: &Vec<TaskInfo>, current: Option<&str>) -> (r: (
    Vec<DockRow>,
    DockHeader,
))
    requires
        tools@.len() + tasks@.len() <= usize::MAX,
    ensures
        ({
            let cur = match current {
                Some(s) => Some(s@),
                None => None::<Seq<char>>,
            };
            let rows = tool_rows(tools@, cur) + task_rows(tasks@, cur);
            &&& rows_view(r.0@) == rows
            &&& r.1.tool_count == tool_rows(tools@, cur).len()
            &&& r.1.task_count == task_rows(tasks@, cur).len()
            &&& r.1.running_count == running_in(rows)
        }),
{
    let ghost cur = opt_str(current);
    let mut rows: Vec<DockRow> = Vec::new();
    let mut tool_count: usize = 0;
    let mut task_count: usize = 0;
    let mut running_count: usize = 0;
    let mut i: usize = 0;
    while i < tools.len()
        invariant
            cur == opt_str(current),
            i <= tools@.len(),
            rows_view(rows@) == tool_rows(tools@.take(i as int), cur),
            tool_count == rows@.len(),
            running_count == running_in(rows_view(rows@)),
            rows@.len() <= i,
            tools@.len() + tasks@.len() <= usize::MAX,
        decreases tools.len() - i,
    {
        assert(tools@.take(i + 1).drop_last() == tools@.take(i as int));
        proof {
            lemma_running_in_bound(rows_view(rows@));
        }
        if belongs_exec(tools[i].session_id.as_str(), current) {
            let row = project_tool(&tools[i]);
            if row.status == RowStatus::Running {
                running_count = running_count + 1;
            }
            let ghost before = rows@;
            rows.push(row);
            assert(rows_view(rows@) =~= rows_view(before).push(row.view()));
            assert(rows_view(rows@).drop_last() =~= rows_view(before));
            tool_count = tool_count + 1;
        }
        i = i + 1;
    }
    assert(tools@.take(tools@.len() as int) == tools@);
    let ghost tool_part = rows_view(rows@);
    let mut j: usize = 0;
    while j < tasks.len()
        invariant
            cur == opt_str(current),
            j <= tasks@.len(),
            tool_part == tool_rows(tools@, cur),
            rows_view(rows@) == tool_part + task_rows(tasks@.take(j as int), cur),
            tool_count == tool_part.len(),
            task_count == rows@.len() - tool_part.len(),
            running_count == running_in(rows_view(rows@)),
            rows@.len() <= tools@.len() + j,
            tool_part.len() <= tools@.len(),
            tools@.len() + tasks@.len() <= usize::MAX,
        decreases tasks.len() - j,
    {
        assert(tasks@.take(j + 1).drop_last() == tasks@.take(j as int));
        proof {
            lemma_running_in_bound(rows_view(rows@));
        }
        if belongs_exec(tasks[j].session_id.as_str(), current) {
            let row = project_task(&tasks[j]);
            if row.status == RowStatus::Running {
                running_count = running_count + 1;
            }
            let ghost before = rows@;
            rows.push(row);
            assert(rows_view(rows@) =~= rows_view(before).push(row.view()));
            assert(rows_view(rows@).drop_last() =~= rows_view(before));
            assert(tool_part + task_rows(tasks@.take(j + 1), cur) =~= (tool_part + task_rows(
                tasks@.take(j as int),
                cur,
            )).push(row.view()));
            task_count = task_count + 1;
        }
        j = j + 1;
    }
    assert(tasks@.take(tasks@.len() as int) == tasks@);
    (rows, DockHeader { tool_count, task_count, running_count })
}

impl DockHeader {
    /// The pill text; `pct` is the mean progress of the reporting tools,
    /// already rounded to a whole percent in 0..=100.
    pub fn label(&self, pct: Option<u32>) -> (s: String)
        requires
            self.tool_count + self.task_count <= usize::MAX,
        ensures
            s@ == "🔧 "@ + decimal(self.tool_count as nat) + " tools · "@ + decimal(
                self.task_count as nat,
            ) + " tasks · running "@ + decimal(self.running_count as nat) + "/"@ + decimal(
                (self.tool_count + self.task_count) as nat,
            ) + match pct {
                Some(p) => " · "@ + decimal(p as nat) + "%"@,
                None => Seq::<char>::empty(),
            },
    {
        let total = self.tool_count + self.task_count;
        let mut s = String::from_str("🔧 ");
        push_decimal(&mut s, self.tool_count as u64);
        push_str(&mut s, " tools · ");
        push_decimal(&mut s, self.task_count as u64);
        push_str(&mut s, " tasks · running ");
        push_decimal(&mut s, self.running_count as u64);
        push_str(&mut s, "/");
        push_decimal(&mut s, total as u64);
        match pct {
            Some(p) => {
                push_str(&mut s, " · ");
                push_decimal(&mut s, p as u64);
                push_str(&mut s, "%");
            },
            None => {},
        }
        s
    }

    /// No tool calls and no tasks: the dock takes no space.
    pub fn is_idle(&self) -> (b: bool)
        ensures
            b == (self.tool_count == 0 && self.task_count == 0),
    {
        self.tool_count == 0 && self.task_count == 0
    }
}

/// The pill never counts more running rows than rows shown, and the dock
/// is idle exactly when it shows no row.
pub proof fn law_dock_counts(tools: Seq<ToolCallInfo>, tasks: Seq<TaskInfo>, current: Option<Seq<char>>)
    ensures
        ({
            let rows = tool_rows(tools, current) + task_rows(tasks, current);
            &&& running_in(rows) <= rows.len()
            &&& rows.len() == tool_rows(tools, current).len() + task_rows(tasks, current).len()
            &&& (rows.len() == 0 <==> (tool_rows(tools, current).len() == 0 && task_rows(
                tasks,
                current,
            ).len() == 0))
        }),
{
    lemma_running_in_bound(tool_rows(tools, current) + task_rows(tasks, current));
}

/// With no session open, every tool call and task has a row.
pub proof fn law_dock_shows_all_without_session(tools: Seq<ToolCallInfo>, tasks: Seq<TaskInfo>)
    ensures
        tool_rows(tools, None).len() == tools.len(),
        task_rows(tasks, None).len() == tasks.len(),
    decreases tools.len() + tasks.len(),
{
    if tools.len() > 0 {
        law_dock_shows_all_without_session(tools.drop_last(), tasks);
    }
    if tasks.len() > 0 {
        law_dock_shows_all_without_session(tools, tasks.drop_last());
    }
}

} // verus!

