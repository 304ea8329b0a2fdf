//! The coding workspace's view state: the rolling per-task output buffer,
//! the approval / task selection, and which preview page to show.

use vstd::prelude::*;
use vstd::std_specs::hash::group_hash_axioms;
use std::collections::HashMap;
use crate::approvals::{label_of, ApprovalDecision, ApprovalState};
use crate::text::{chars_of, push_str, string_of};

verus! {

broadcast use vstd::string::group_string_axioms, group_hash_axioms;

/// Rolling buffer cap for the output tail, in UTF-8 bytes.
pub const OUTPUT_TAIL_CAP_BYTES: usize = 12288;

/// Size of a `task/output/read` page, in bytes.
pub const OUTPUT_READ_LIMIT_BYTES: u32 = 4000;

// ---------------------------------------------------------------------------
// UTF-8 length
// ---------------------------------------------------------------------------

/// Bytes in the UTF-8 encoding of `c`.
pub open spec fn char_utf8_len(c: char) -> nat {
    let u = c as u32;
    if u < 0x80 {
        1
    } else if u < 0x800 {
        2
    } else if u < 0x10000 {
        3
    } else {
        4
    }
}

/// Bytes in the UTF-8 encoding of `s` (what `str::len` returns).
pub open spec fn utf8_len(s: Seq<char>) -> nat
    decreases s.len(),
{
    if s.len() == 0 {
        0
    } else {
        utf8_len(s.drop_last()) + char_utf8_len(s.last())
    }
}

pub proof fn lemma_utf8_len_front(s: Seq<char>)
    requires
        s.len() > 0,
    ensures
        utf8_len(s) == char_utf8_len(s[0]) + utf8_len(s.drop_first()),
    decreases s.len(),
{
    if s.len() > 1 {
        lemma_utf8_len_front(s.drop_last());
        assert(s.drop_last().drop_first() == s.drop_first().drop_last());
        assert(s.drop_last()[0] == s[0]);
        assert(s.drop_first().last() == s.last());
        assert(utf8_len(s) == utf8_len(s.drop_last()) + char_utf8_len(s.last()));
        assert(utf8_len(s.drop_first()) == utf8_len(s.drop_first().drop_last()) + char_utf8_len(s.drop_first().last()));
    } else {
        assert(s.drop_first().len() == 0);
        assert(s.drop_last().len() == 0);
        assert(s.last() == s[0]);
        assert(utf8_len(s.drop_first()) == 0);
        assert(utf8_len(s.drop_last()) == 0);
    }
}

/// `utf8_len` is the length of vstd's UTF-8 encoding of the characters,
/// i.e. of `str::len`.
pub proof fn lemma_utf8_len_is_byte_len(s: Seq<char>)
    ensures
        utf8_len(s) == vstd::utf8::encode_utf8(s).len(),
    decreases s.len(),
{
    broadcast use vstd::utf8::char_is_scalar;

    if s.len() > 0 {
        lemma_utf8_len_front(s);
        lemma_utf8_len_is_byte_len(s.drop_first());
        vstd::utf8::char_is_scalar(s[0]);
    }
}

/// The longest suffix of `s` whose UTF-8 length is at most `cap`.
pub open spec fn keep_tail(s: Seq<char>, cap: nat) -> Seq<char>
    decreases s.len(),
{
    if s.len() == 0 || utf8_len(s) <= cap {
        s
    } else {
        keep_tail(s.drop_first(), cap)
    }
}

fn char_width(c: char) -> (w: u128)
    ensures
        w == char_utf8_len(c),
{
    let u = c as u32;
    if u < 0x80 {
        1
    } else if u < 0x800 {
        2
    } else if u < 0x10000 {
        3
    } else {
        4
    }
}

/// UTF-8 length of `v`.
fn utf8_len_of(v: &Vec<char>) -> (n: u128)
    ensures
        n == utf8_len(v@),
{
    let mut n: u128 = 0;
    let mut i: usize = 0;
    while i < v.len()
        invariant
            i <= v.len(),
            n == utf8_len(v@.take(i as int)),
            n <= 4 * i,
        decreases v.len() - i,
    {
        assert(v@.take(i + 1).drop_last() == v@.take(i as int));
        n = n + char_width(v[i]);
        i = i + 1;
    }
    assert(v@.take(v.len() as int) == v@);
    n
}

// ---------------------------------------------------------------------------
// Output buffer
// ---------------------------------------------------------------------------

/// Server position in a task's output stream.
#[derive(Clone, Copy, Debug, PartialEq, Eq, Structural)]
pub struct OutputCursor {
    pub offset: u64,
}

/// Per-task output buffer and last server cursor.
#[derive(Clone, Debug)]
pub struct TaskOutputBuffer {
    pub text: String,
    pub last_cursor: Option<OutputCursor>,
}

impl Default for TaskOutputBuffer {
    fn default() -> (b: Self)
        ensures
            b.text@ == Seq::<char>::empty(),
            b.last_cursor is None,
    {
        TaskOutputBuffer { text: String::new(), last_cursor: None }
    }
}

impl TaskOutputBuffer {
    /// Append `chunk`, then keep only the last `OUTPUT_TAIL_CAP_BYTES` bytes,
    /// cut at a character boundary (whole characters are dropped from the
    /// front until the rest fits).
    pub fn append(&mut self, chunk: &str)
        ensures
            final(self).text@ == keep_tail(old(self).text@ + chunk@, OUTPUT_TAIL_CAP_BYTES as nat),
            final(self).last_cursor == old(self).last_cursor,
    {
        push_str(&mut self.text, chunk);
        let v = chars_of(self.text.as_str());
        let n = v.len();
        let total = utf8_len_of(&v);
        if total <= OUTPUT_TAIL_CAP_BYTES as u128 {
            return;
        }
        let mut i: usize = 0;
        let mut rem: u128 = total;
        assert(v@.skip(0) == v@);
        while rem > OUTPUT_TAIL_CAP_BYTES as u128
            invariant
                n == v@.len(),
                i <= n,
                rem == utf8_len(v@.skip(i as int)),
                keep_tail(v@, OUTPUT_TAIL_CAP_BYTES as nat) == keep_tail(
                    v@.skip(i as int),
                    OUTPUT_TAIL_CAP_BYTES as nat,
                ),
            decreases n - i,
        {
            let ghost rest = v@.skip(i as int);
            assert(rest.len() > 0);
            proof {
                lemma_utf8_len_front(rest);
            }
            assert(rest.drop_first() == v@.skip(i + 1));
            rem = rem - char_width(v[i]);
            i = i + 1;
        }
        assert(v@.skip(i as int) == v@.subrange(i as int, n as int));
        self.text = string_of(&v, i, n);
    }

    pub fn set_cursor(&mut self, cursor: OutputCursor)
        ensures
            final(self).last_cursor == Some(cursor),
            final(self).text == old(self).text,
    {
        self.last_cursor = Some(cursor);
    }
}

// ---------------------------------------------------------------------------
// View state and folds
// ---------------------------------------------------------------------------

pub type ApprovalId = u64;

pub type TaskId = u64;

/// Ephemeral coding-screen view state.
pub struct CodingViewState {
    pub selected_approval: Option<ApprovalId>,
    pub output_buffers: HashMap<TaskId, TaskOutputBuffer>,
    pub selected_task: Option<TaskId>,
}

impl CodingViewState {
    pub fn new() -> (s: Self)
        ensures
            s.selected_approval is None,
            s.selected_task is None,
            s.output_buffers@ == Map::<TaskId, TaskOutputBuffer>::empty(),
    {
        CodingViewState { selected_approval: None, output_buffers: HashMap::new(), selected_task: None }
    }
}

/// Select an approval; the focused task is cleared so the preview routes
/// by the approval's kind.
pub fn fold_select_approval(state: &mut CodingViewState, approval_id: ApprovalId)
    ensures
        final(state).selected_approval == Some(approval_id),
        final(state).selected_task is None,
        final(state).output_buffers@ == old(state).output_buffers@,
{
    state.selected_approval = Some(approval_id);
    state.selected_task = None;
}

/// Switch to a task's output drill-down; the approval focus is cleared.
pub fn fold_select_task(state: &mut CodingViewState, task_id: TaskId)
    ensures
        final(state).selected_task == Some(task_id),
        final(state).selected_approval is None,
        final(state).output_buffers@ == old(state).output_buffers@,
{
    state.selected_task = Some(task_id);
    state.selected_approval = None;
}

/// A `task/output/read` reply.
#[derive(Clone, Debug)]
pub struct TaskOutputReadResult {
    pub text: String,
    pub next_cursor: OutputCursor,
}

#[derive(Clone, Debug)]
pub enum TaskOutputOutcome {
    Loaded(TaskOutputReadResult),
    Failed(String),
}

/// A `task/output/read` reply for one task.
#[derive(Clone, Debug)]
pub struct TaskOutputAction {
    pub task_id: TaskId,
    pub session_id: String,
    pub outcome: TaskOutputOutcome,
}

/// The text a task's buffer holds in `m` (empty when it has none).
pub open spec fn buffer_text(m: Map<TaskId, TaskOutputBuffer>, t: TaskId) -> Seq<char> {
    if m.contains_key(t) {
        m[t].text@
    } else {
        Seq::empty()
    }
}

/// Append a loaded chunk to the task's rolling buffer (created on first
/// use) and advance its cursor. A failed read changes nothing.
pub fn fold_task_output(state: &mut CodingViewState, action: TaskOutputAction)
    ensures
        final(state).selected_approval == old(state).selected_approval,
        final(state).selected_task == old(state).selected_task,
        match action.outcome {
            TaskOutputOutcome::Loaded(res) => {
                &&& final(state).output_buffers@.dom() == old(state).output_buffers@.dom().insert(
                    action.task_id,
                )
                &&& final(state).output_buffers@[action.task_id].text@ == keep_tail(
                    buffer_text(old(state).output_buffers@, action.task_id) + res.text@,
                    OUTPUT_TAIL_CAP_BYTES as nat,
                )
                &&& final(state).output_buffers@[action.task_id].last_cursor == Some(res.next_cursor)
                &&& forall|t: TaskId|
                    t != action.task_id && old(state).output_buffers@.contains_key(t)
                        ==> #[trigger] final(state).output_buffers@[t] == old(
                        state,
                    ).output_buffers@[t]
            },
            TaskOutputOutcome::Failed(_) => final(state).output_buffers@ == old(
                state,
            ).output_buffers@,
        },
{
    let TaskOutputAction { task_id, outcome, .. } = action;
    match outcome {
        TaskOutputOutcome::Loaded(res) => {
            let mut buf = match state.output_buffers.remove(&task_id) {
                Some(b) => b,
                None => TaskOutputBuffer::default(),
            };
            buf.append(res.text.as_str());
            buf.set_cursor(res.next_cursor);
            state.output_buffers.insert(task_id, buf);
        },
        TaskOutputOutcome::Failed(_) => {},
    }
}

/// Parameters of a `task/output/read` request.
#[derive(Clone, Debug)]
pub struct TaskOutputReadParams {
    pub session_id: String,
    pub task_id: TaskId,
    pub cursor: Option<OutputCursor>,
    pub limit_bytes: Option<u32>,
}

/// Read parameters resuming from the task's last cursor, 4000 bytes a page.
pub fn build_output_read_params(state: &CodingViewState, session_id: String, task_id: TaskId) -> (p:
    TaskOutputReadParams)
    ensures
        p.session_id == session_id,
        p.task_id == task_id,
        p.limit_bytes == Some(OUTPUT_READ_LIMIT_BYTES),
        p.cursor == if state.output_buffers@.contains_key(task_id) {
            state.output_buffers@[task_id].last_cursor
        } else {
            None
        },
{
    let cursor = match state.output_buffers.get(&task_id) {
        Some(b) => b.last_cursor,
        None => None,
    };
    TaskOutputReadParams { session_id, task_id, cursor, limit_bytes: Some(OUTPUT_READ_LIMIT_BYTES) }
}

// ---------------------------------------------------------------------------
// Preview routing
// ---------------------------------------------------------------------------

/// What an approval asks to do.
#[derive(Clone, Debug)]
pub enum ApprovalKind {
    Diff,
    Command,
    Network,
    Filesystem,
    /// Any other kind, by its wire name.
    Other(String),
}

/// The fields of an approval request that the coding screen reads.
#[derive(Clone, Debug)]
pub struct ApprovalRequestedEvent {
    pub approval_id: ApprovalId,
    pub tool_name: String,
    pub title: String,
    pub body: String,
    pub risk: Option<String>,
    /// The kind named by the typed details, when present.
    pub typed_kind: Option<ApprovalKind>,
    /// The legacy kind tag.
    pub approval_kind: Option<ApprovalKind>,
}

/// The page the preview pane shows.
#[derive(Clone, Copy, Debug, PartialEq, Eq, Structural)]
pub enum PreviewPage {
    Empty,
    Diff,
    Command,
    Network,
    Filesystem,
    OutputTail,
}

pub open spec fn page_for_kind(k: Option<ApprovalKind>) -> PreviewPage {
    match k {
        Some(ApprovalKind::Diff) => PreviewPage::Diff,
        Some(ApprovalKind::Command) => PreviewPage::Command,
        Some(ApprovalKind::Network) => PreviewPage::Network,
        Some(ApprovalKind::Filesystem) => PreviewPage::Filesystem,
        _ => PreviewPage::Empty,
    }
}

/// The preview page: by the selected approval's kind (typed details first,
/// then the legacy tag); the output tail when only a task is focused;
/// otherwise the empty page.
pub fn active_page_id(ev: Option<&ApprovalRequestedEvent>, has_task: bool) -> (p: PreviewPage)
    ensures
        p == match ev {
            Some(e) => page_for_kind(
                if e.typed_kind is Some {
                    e.typed_kind
                } else {
                    e.approval_kind
                },
            ),
            None => if has_task {
                PreviewPage::OutputTail
            } else {
                PreviewPage::Empty
            },
        },
{
    match ev {
        Some(e) => {
            let kind = if e.typed_kind.is_some() {
                &e.typed_kind
            } else {
                &e.approval_kind
            };
            match kind {
                Some(ApprovalKind::Diff) => PreviewPage::Diff,
                Some(ApprovalKind::Command) => PreviewPage::Command,
                Some(ApprovalKind::Network) => PreviewPage::Network,
                Some(ApprovalKind::Filesystem) => PreviewPage::Filesystem,
                _ => PreviewPage::Empty,
            }
        },
        None => if has_task {
            PreviewPage::OutputTail
        } else {
            PreviewPage::Empty
        },
    }
}

// ---------------------------------------------------------------------------
// History rows
// ---------------------------------------------------------------------------

#[derive(Clone, Copy, Debug, PartialEq, Eq, Structural)]
pub enum HistoryDecision {
    Approved,
    Denied,
    Failed,
    /// A response is pending server acknowledgement.
    Delegate,
}

pub open spec fn glyph_of(d: HistoryDecision) -> Seq<char> {
    match d {
        HistoryDecision::Approved => "✓"@,
        HistoryDecision::Denied => "✗"@,
        HistoryDecision::Failed => "!"@,
        HistoryDecision::Delegate => "…"@,
    }
}

impl HistoryDecision {
    pub fn glyph(self) -> (s: &'static str)
        ensures
            s@ == glyph_of(self),
    {
        match self {
            HistoryDecision::Approved => "✓",
            HistoryDecision::Denied => "✗",
            HistoryDecision::Failed => "!",
            HistoryDecision::Delegate => "…",
        }
    }
}

pub open spec fn spec_history_decision(st: ApprovalState, in_pending_queue: bool) -> Option<HistoryDecision> {
    match st {
        ApprovalState::Decided(ApprovalDecision::Approve) => Some(HistoryDecision::Approved),
        ApprovalState::Decided(_) => Some(HistoryDecision::Denied),
        ApprovalState::Failed(_) => Some(HistoryDecision::Failed),
        ApprovalState::PendingResponse(_) => if in_pending_queue {
            None
        } else {
            Some(HistoryDecision::Delegate)
        },
        ApprovalState::Awaiting => None,
    }
}

/// How an approval shows in the history list, or `None` if it does not.
/// An unrecognised decision fails closed and shows as denied; a pending
/// response shows only once it has left the pending queue.
pub fn history_decision(st: &ApprovalState, in_pending_queue: bool) -> (d: Option<HistoryDecision>)
    ensures
        d == spec_history_decision(*st, in_pending_queue),
{
    match st {
        ApprovalState::Decided(ApprovalDecision::Approve) => Some(HistoryDecision::Approved),
        ApprovalState::Decided(ApprovalDecision::Deny) => Some(HistoryDecision::Denied),
        ApprovalState::Decided(ApprovalDecision::Unknown(_)) => Some(HistoryDecision::Denied),
        ApprovalState::Failed(_) => Some(HistoryDecision::Failed),
        ApprovalState::PendingResponse(_) => if in_pending_queue {
            None
        } else {
            Some(HistoryDecision::Delegate)
        },
        ApprovalState::Awaiting => None,
    }
}

/// The rolling buffer keeps a suffix of what it was given, whole
/// characters only, that fits the cap; it is the longest such suffix.
pub proof fn law_output_tail_fits(s: Seq<char>, cap: nat)
    ensures
        exists|k: int|
            0 <= k <= s.len() && #[trigger] s.skip(k) == keep_tail(s, cap) && utf8_len(s.skip(k))
                <= cap && (k > 0 ==> utf8_len(s.skip(k - 1)) > cap),
    decreases s.len(),
{
    if s.len() == 0 || utf8_len(s) <= cap {
        assert(s.skip(0) == s);
    } else {
        law_output_tail_fits(s.drop_first(), cap);
        let k = choose|k: int|
            0 <= k <= s.drop_first().len() && #[trigger] s.drop_first().skip(k) == keep_tail(
                s.drop_first(),
                cap,
            ) && utf8_len(s.drop_first().skip(k)) <= cap && (k > 0 ==> utf8_len(
                s.drop_first().skip(k - 1),
            ) > cap);
        assert(s.skip(k + 1) == s.drop_first().skip(k));
        if k > 0 {
            assert(s.skip(k) == s.drop_first().skip(k - 1));
        } else {
            assert(s.skip(0) == s);
        }
    }
}

/// A history row: `<glyph> <tool> · <title>`.
pub fn history_summary(decision: HistoryDecision, tool_name: &str, title: &str) -> (s: String)
    ensures
        s@ == glyph_of(decision) + " "@ + tool_name@ + " · "@ + title@,
{
    let mut s = String::from_str(decision.glyph());
    push_str(&mut s, " ");
    push_str(&mut s, tool_name);
    push_str(&mut s, " · ");
    push_str(&mut s, title);
    s
}

/// The output tail's status line: the server offset, when known, and the
/// bytes held.
pub fn output_tail_meta(buf: &TaskOutputBuffer) -> (s: String)
    ensures
        s@ == match buf.last_cursor {
            Some(c) => "offset: "@ + crate::text::decimal(c.offset as nat) + " · "@
                + crate::text::decimal(utf8_len(buf.text@)) + " bytes buffered"@,
            None => crate::text::decimal(utf8_len(buf.text@)) + " bytes buffered"@,
        },
{
    let n = buf.text.as_str().as_bytes().len();
    proof {
        lemma_utf8_len_is_byte_len(buf.text@);
        assert(n == utf8_len(buf.text@));
    }
    let mut s = String::new();
    match buf.last_cursor {
        Some(c) => {
            push_str(&mut s, "offset: ");
            crate::text::push_decimal(&mut s, c.offset);
            push_str(&mut s, " · ");
        },
        None => {},
    }
    let ghost head = s@;
    crate::text::push_decimal(&mut s, n as u64);
    push_str(&mut s, " bytes buffered");
    assert(s@ == head + crate::text::decimal(utf8_len(buf.text@)) + " bytes buffered"@);
    proof {
        if buf.last_cursor is None {
            assert(head =~= Seq::<char>::empty());
            assert(s@ =~= crate::text::decimal(utf8_len(buf.text@)) + " bytes buffered"@);
        }
    }
    s
}

// ---------------------------------------------------------------------------
// The approvals of the store, as the queue, the history and the pane list
// them
// ---------------------------------------------------------------------------

/// The store's approvals: the queue order, the requests by id, and each
/// request's state.
pub struct ApprovalsView {
    pub pending_order: Vec<ApprovalId>,
    pub by_id: HashMap<ApprovalId, ApprovalRequestedEvent>,
    pub state: HashMap<ApprovalId, ApprovalState>,
}

/// The queued ids that have a request, in queue order.
pub open spec fn queued(order: Seq<ApprovalId>, by_id: Map<ApprovalId, ApprovalRequestedEvent>) -> Seq<ApprovalId>
    decreases order.len(),
{
    if order.len() == 0 {
        Seq::empty()
    } else {
        let prev = queued(order.drop_last(), by_id);
        if by_id.contains_key(order.last()) {
            prev.push(order.last())
        } else {
            prev
        }
    }
}

/// The queue rows: each queued request, marked when selected.
pub fn pending_rows(v: &ApprovalsView, selected: Option<ApprovalId>) -> (rows: Vec<(ApprovalId, bool)>)
    ensures
        rows@.len() == queued(v.pending_order@, v.by_id@).len(),
        forall|i: int|
            0 <= i < rows@.len() ==> #[trigger] rows@[i] == (
                queued(v.pending_order@, v.by_id@)[i],
                selected == Some(queued(v.pending_order@, v.by_id@)[i]),
            ),
{
    let mut rows: Vec<(ApprovalId, bool)> = Vec::new();
    let mut i: usize = 0;
    while i < v.pending_order.len()
        invariant
            i <= v.pending_order@.len(),
            rows@.len() == queued(v.pending_order@.take(i as int), v.by_id@).len(),
            forall|j: int|
                0 <= j < rows@.len() ==> #[trigger] rows@[j] == (
                    queued(v.pending_order@.take(i as int), v.by_id@)[j],
                    selected == Some(queued(v.pending_order@.take(i as int), v.by_id@)[j]),
                ),
        decreases v.pending_order.len() - i,
    {
        assert(v.pending_order@.take(i + 1).drop_last() == v.pending_order@.take(i as int));
        let id = v.pending_order[i];
        if v.by_id.contains_key(&id) {
            rows.push((id, selected == Some(id)));
        }
        i = i + 1;
    }
    assert(v.pending_order@.take(v.pending_order@.len() as int) == v.pending_order@);
    rows
}

/// Whether a state is a final outcome (decided or failed).
pub open spec fn settled(st: ApprovalState) -> bool {
    st is Decided || st is Failed
}

/// The ids the approvals pane shows: the queued requests, then, in `walk`
/// order (the order the state map is walked), each settled request that is
/// not queued.
pub open spec fn visible_ids(
    order: Seq<ApprovalId>,
    by_id: Map<ApprovalId, ApprovalRequestedEvent>,
    state: Map<ApprovalId, ApprovalState>,
    walk: Seq<ApprovalId>,
) -> Seq<ApprovalId> {
    queued(order, by_id) + walk.filter(
        |id: ApprovalId|
            !queued(order, by_id).contains(id) && state.contains_key(id) && settled(state[id])
                && by_id.contains_key(id),
    )
}

proof fn lemma_queued_contains(order: Seq<ApprovalId>, by_id: Map<ApprovalId, ApprovalRequestedEvent>, id: ApprovalId)
    ensures
        queued(order, by_id).contains(id) <==> (order.contains(id) && by_id.contains_key(id)),
    decreases order.len(),
{
    if order.len() > 0 {
        let p = order.drop_last();
        lemma_queued_contains(p, by_id, id);
        if order.contains(id) && by_id.contains_key(id) {
            if id == order.last() {
                assert(queued(order, by_id).last() == id);
            } else {
                let k = choose|k: int| 0 <= k < order.len() && order[k] == id;
                assert(p[k] == id);
                let q = queued(p, by_id);
                let j = choose|j: int| 0 <= j < q.len() && q[j] == id;
                assert(queued(order, by_id)[j] == id);
            }
        }
        if queued(order, by_id).contains(id) {
            let q = queued(p, by_id);
            if !q.contains(id) {
                assert(id == order.last());
            } else {
                let j = choose|j: int| 0 <= j < q.len() && q[j] == id;
                let k = choose|k: int| 0 <= k < p.len() && p[k] == id;
                assert(order[k] == id);
            }
        }
    }
}

fn order_contains(order: &Vec<ApprovalId>, id: ApprovalId) -> (b: bool)
    ensures
        b == order@.contains(id),
{
    let mut i: usize = 0;
    while i < order.len()
        invariant
            i <= order@.len(),
            forall|j: int| 0 <= j < i ==> order@[j] != id,
        decreases order.len() - i,
    {
        if order[i] == id {
            return true;
        }
        i = i + 1;
    }
    false
}

/// The ids the approvals pane shows, in order.
pub fn visible_approval_ids(v: &ApprovalsView, walk: &Vec<ApprovalId>) -> (ids: Vec<ApprovalId>)
    ensures
        ids@ == visible_ids(v.pending_order@, v.by_id@, v.state@, walk@),
{
    let mut ids: Vec<ApprovalId> = Vec::new();
    let mut i: usize = 0;
    while i < v.pending_order.len()
        invariant
            i <= v.pending_order@.len(),
            ids@ == queued(v.pending_order@.take(i as int), v.by_id@),
        decreases v.pending_order.len() - i,
    {
        assert(v.pending_order@.take(i + 1).drop_last() == v.pending_order@.take(i as int));
        let id = v.pending_order[i];
        if v.by_id.contains_key(&id) {
            ids.push(id);
        }
        i = i + 1;
    }
    assert(v.pending_order@.take(v.pending_order@.len() as int) == v.pending_order@);
    let ghost q = ids@;
    let ghost keep = |id: ApprovalId|
        !q.contains(id) && v.state@.contains_key(id) && settled(v.state@[id]) && v.by_id@.contains_key(id);
    let mut j: usize = 0;
    while j < walk.len()
        invariant
            j <= walk@.len(),
            q == queued(v.pending_order@, v.by_id@),
            keep == (|id: ApprovalId|
                !q.contains(id) && v.state@.contains_key(id) && settled(v.state@[id])
                    && v.by_id@.contains_key(id)),
            ids@ == q + walk@.take(j as int).filter(keep),
        decreases walk.len() - j,
    {
        let id = walk[j];
        assert(walk@.take(j + 1).drop_last() == walk@.take(j as int));
        assert(walk@.take(j + 1).last() == id);
        proof {
            lemma_queued_contains(v.pending_order@, v.by_id@, id);
        }
        let take = !(order_contains(&v.pending_order, id) && v.by_id.contains_key(&id)) && match v.state.get(&id) {
            Some(st) => match st {
                ApprovalState::Decided(_) | ApprovalState::Failed(_) => v.by_id.contains_key(&id),
                _ => false,
            },
            None => false,
        };
        if take {
            ids.push(id);
        }
        proof {
            assert(walk@.take(j + 1).filter(keep) == if keep(id) {
                walk@.take(j as int).filter(keep).push(id)
            } else {
                walk@.take(j as int).filter(keep)
            }) by {
                walk@.take(j as int).lemma_filter_push(id, keep);
                assert(walk@.take(j as int).push(id) == walk@.take(j + 1));
            }
        }
        j = j + 1;
    }
    assert(walk@.take(walk@.len() as int) == walk@);
    ids
}

/// The history rows: in `walk` order, each request of the state map that
/// shows in the history (see `history_decision`), with its decision.
pub open spec fn history_ids(
    order: Seq<ApprovalId>,
    by_id: Map<ApprovalId, ApprovalRequestedEvent>,
    state: Map<ApprovalId, ApprovalState>,
    walk: Seq<ApprovalId>,
) -> Seq<(ApprovalId, HistoryDecision)>
    decreases walk.len(),
{
    if walk.len() == 0 {
        Seq::empty()
    } else {
        let prev = history_ids(order, by_id, state, walk.drop_last());
        let id = walk.last();
        if state.contains_key(id) && by_id.contains_key(id) {
            match spec_history_decision(state[id], order.contains(id)) {
                Some(d) => prev.push((id, d)),
                None => prev,
            }
        } else {
            prev
        }
    }
}

/// The history rows, in the order the state map is walked (`walk`).
pub fn history_rows(v: &ApprovalsView, walk: &Vec<ApprovalId>) -> (rows: Vec<(ApprovalId, HistoryDecision)>)
    ensures
        rows@ == history_ids(v.pending_order@, v.by_id@, v.state@, walk@),
{
    let mut rows: Vec<(ApprovalId, HistoryDecision)> = Vec::new();
    let mut j: usize = 0;
    while j < walk.len()
        invariant
            j <= walk@.len(),
            rows@ == history_ids(v.pending_order@, v.by_id@, v.state@, walk@.take(j as int)),
        decreases walk.len() - j,
    {
        let id = walk[j];
        assert(walk@.take(j + 1).drop_last() == walk@.take(j as int));
        assert(walk@.take(j + 1).last() == id);
        match v.state.get(&id) {
            Some(st) => {
                if v.by_id.contains_key(&id) {
                    let in_queue = order_contains(&v.pending_order, id);
                    match history_decision(st, in_queue) {
                        Some(d) => rows.push((id, d)),
                        None => {},
                    }
                }
            },
            None => {},
        }
        j = j + 1;
    }
    assert(walk@.take(walk@.len() as int) == walk@);
    rows
}

/// The history agrees with the approval card: a recorded decision shows
/// as approved (✓) exactly when the card labels it `approve`, and as denied
/// (✗) for every other recorded decision, an unrecognised one included.
/// Nothing but a recorded approval ever shows as approved. A failed
/// request shows as failed; an approval still awaiting a decision, or one
/// whose response is still in the pending queue, has no history row.
pub proof fn law_history_matches_decision(st: ApprovalState, in_pending_queue: bool)
    ensures
        st is Failed ==> spec_history_decision(st, in_pending_queue) == Some(HistoryDecision::Failed),
        spec_history_decision(st, in_pending_queue) is None <==> (st is Awaiting || (st is PendingResponse
            && in_pending_queue)),
        st is PendingResponse && !in_pending_queue ==> spec_history_decision(st, in_pending_queue)
            == Some(HistoryDecision::Delegate),
        st matches ApprovalState::Decided(d) ==> (spec_history_decision(st, in_pending_queue)
            == Some(HistoryDecision::Approved) <==> label_of(d) == "approve"@),
        st matches ApprovalState::Decided(d) ==> (spec_history_decision(st, in_pending_queue)
            == Some(HistoryDecision::Denied) <==> label_of(d) != "approve"@),
        spec_history_decision(st, in_pending_queue) == Some(HistoryDecision::Approved) ==> (st matches ApprovalState::Decided(
            d,
        ) && label_of(d) == "approve"@),
{
    reveal_strlit("approve");
    reveal_strlit("deny");
    reveal_strlit("unrecognized");
    assert("deny"@.len() != "approve"@.len());
    assert("unrecognized"@.len() != "approve"@.len());
}

} // verus!
