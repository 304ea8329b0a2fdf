//! Diagram-fence safety scanner.
//!
//! Prevents a half-streamed (or malformed) ```` ```diagram ```` fenced block
//! from being persisted as a final message. The scan walks the reply line
//! by line, pairs fence openers with closers, and collects the body of
//! every closed `diagram` fence. Whether a body is a well-formed diagram is
//! decided by the diagram kit's parser; the caller hands that verdict back
//! as one `bool` per collected body, and [`DiagramFenceScan::status`] turns
//! scan plus verdicts into the final [`DiagramFenceStatus`].

use vstd::prelude::*;
use crate::text::{
    ascii_lower, chars_of, matches_at, eq_ignore_ascii_case, first_ascii_word,
    run_len, tail_run_len, skip_ascii_ws, skip_run, skip_run_back, skip_word, skip_ws, skip_ws_back,
    starts_with, string_of, to_ascii_lower, trim, trim_bounds, trim_end, trim_end_char, trim_start,
    is_ws, ws_prefix_len, ws_suffix_len,
};

verus! {

broadcast use vstd::string::group_string_axioms;

// ---------------------------------------------------------------------------
// Outer ```markdown wrapper
// ---------------------------------------------------------------------------

pub open spec fn markdown_opener() -> Seq<char> {
    seq!['m', 'a', 'r', 'k', 'd', 'o', 'w', 'n', '\n']
}

pub open spec fn md_opener() -> Seq<char> {
    seq!['m', 'd', '\n']
}

/// What `unwrap_outer_markdown_fence` returns for `text`.
pub open spec fn spec_unwrap_outer_markdown_fence(text: Seq<char>) -> Seq<char> {
    let t = trim_start(text);
    let bt = run_len(t, '`');
    let after = t.skip(bt as int);
    if bt < 3 {
        text
    } else if !starts_with(after, markdown_opener()) && !starts_with(after, md_opener()) {
        text
    } else {
        let body = if starts_with(after, markdown_opener()) {
            after.skip(9)
        } else {
            after.skip(3)
        };
        let end_trimmed = trim_end(body);
        if tail_run_len(end_trimmed, '`') >= bt {
            trim_end(trim_end_char(trim_end_char(end_trimmed, '`'), '\n'))
        } else {
            body
        }
    }
}

/// Some models, asked for a markdown demo, wrap their ENTIRE reply in one
/// ```` ```markdown ```` (or ```` ```md ````) fence, which collapses the whole
/// reply into a single code block. As soon as the text starts with such an
/// opener (after leading whitespace, with three or more backticks) the
/// opener is stripped, even while the outer fence is still streaming; a
/// closing fence of the same length or longer at the end (optionally
/// followed by whitespace) is stripped too, together with the newlines and
/// whitespace before it. Any other text is returned unchanged.
#[verifier::rlimit(50)]
pub fn unwrap_outer_markdown_fence(text: &str) -> (r: &str)
    ensures
        r@ == spec_unwrap_outer_markdown_fence(text@),
{
    let v = chars_of(text);
    let n = v.len();
    assert(v@.subrange(0, n as int) == text@);
    let s = skip_ws(&v, 0, n);
    assert(trim_start(text@) == v@.subrange(s as int, n as int));
    let e = skip_run(&v, s, n, '`');
    let bt = e - s;
    assert(trim_start(text@).skip(bt as int) == v@.subrange(e as int, n as int));
    if bt < 3 {
        return text;
    }
    let markdown = vec!['m', 'a', 'r', 'k', 'd', 'o', 'w', 'n', '\n'];
    let md = vec!['m', 'd', '\n'];
    assert(markdown@ == markdown_opener());
    assert(md@ == md_opener());
    let ghost after = v@.subrange(e as int, n as int);
    let is_markdown = matches_at(&v, e, n, &markdown);
    assert(is_markdown == starts_with(after, markdown_opener())) by {
        if e + 9 <= n {
            assert(after.take(9) == v@.subrange(e as int, e + 9));
        }
    }
    let is_md = matches_at(&v, e, n, &md);
    assert(is_md == starts_with(after, md_opener())) by {
        if e + 3 <= n {
            assert(after.take(3) == v@.subrange(e as int, e + 3));
        }
    }
    if !is_markdown && !is_md {
        return text;
    }
    let body_lo = if is_markdown {
        e + 9
    } else {
        e + 3
    };
    assert(v@.subrange(body_lo as int, n as int) == if is_markdown {
        after.skip(9)
    } else {
        after.skip(3)
    });
    let end = skip_ws_back(&v, body_lo, n);
    assert(trim_end(v@.subrange(body_lo as int, n as int)) == v@.subrange(
        body_lo as int,
        end as int,
    ));
    let w_hi = skip_run_back(&v, body_lo, end, '`');
    if end - w_hi >= bt {
        assert(trim_end_char(v@.subrange(body_lo as int, end as int), '`') == v@.subrange(
            body_lo as int,
            w_hi as int,
        ));
        let a = skip_run_back(&v, body_lo, w_hi, '\n');
        assert(trim_end_char(v@.subrange(body_lo as int, w_hi as int), '\n') == v@.subrange(
            body_lo as int,
            a as int,
        ));
        let b = skip_ws_back(&v, body_lo, a);
        assert(trim_end(v@.subrange(body_lo as int, a as int)) == v@.subrange(
            body_lo as int,
            b as int,
        ));
        return text.substring_char(body_lo, b);
    }
    text.substring_char(body_lo, n)
}

// ---------------------------------------------------------------------------
// Fence lines
// ---------------------------------------------------------------------------

/// A fence line with its leading whitespace and trailing `\r`s removed.
pub open spec fn fence_line(line: Seq<char>) -> Seq<char> {
    trim_end_char(trim_start(line), '\r')
}

/// What `reply_fence_opens` returns for `line`: the fence length, the fence
/// character, and the info string (first word after the fence).
pub open spec fn spec_fence_opens(line: Seq<char>) -> Option<(nat, char, Seq<char>)> {
    let t = fence_line(line);
    if t.len() == 0 {
        None
    } else if t[0] != '`' && t[0] != '~' {
        None
    } else if run_len(t, t[0]) < 3 {
        None
    } else {
        let count = run_len(t, t[0]);
        Some((count, t[0], first_ascii_word(trim(t.skip(count as int)))))
    }
}

/// Whether `line` closes a fence of `count` characters `fence_char`.
pub open spec fn spec_fence_closes(line: Seq<char>, count: nat, fence_char: char) -> bool {
    let t = fence_line(line);
    let n = run_len(t, fence_char);
    n >= count && trim(t.skip(n as int)).len() == 0
}

/// A fenced block that has been opened and not yet closed.
pub struct OpenReplyFence {
    pub count: usize,
    pub fence_char: char,
    pub info: String,
    /// Character index (in the scanned text) where the block's body starts.
    pub body_start: usize,
}

impl OpenReplyFence {
    /// Fences are made of backticks or tildes.
    pub open spec fn wf(&self) -> bool {
        self.fence_char == '`' || self.fence_char == '~'
    }
}

/// `fence_line(v[lo..hi])` as a range of `v`.
fn fence_line_bounds(v: &Vec<char>, lo: usize, hi: usize) -> (r: (usize, usize))
    requires
        lo <= hi <= v.len(),
    ensures
        lo <= r.0 <= r.1 <= hi,
        v@.subrange(r.0 as int, r.1 as int) == fence_line(v@.subrange(lo as int, hi as int)),
{
    let a = skip_ws(v, lo, hi);
    assert(trim_start(v@.subrange(lo as int, hi as int)) == v@.subrange(a as int, hi as int));
    let b = skip_run_back(v, a, hi, '\r');
    assert(trim_end_char(v@.subrange(a as int, hi as int), '\r') == v@.subrange(
        a as int,
        b as int,
    ));
    (a, b)
}

/// `reply_fence_opens` over `v[lo..hi]`; the info string is returned as a range.
fn fence_opens_in(v: &Vec<char>, lo: usize, hi: usize) -> (r: Option<(usize, char, usize, usize)>)
    requires
        lo <= hi <= v.len(),
    ensures
        match r {
            None => spec_fence_opens(v@.subrange(lo as int, hi as int)) is None,
            Some((count, c, p, q)) => {
                &&& p <= q <= v.len()
                &&& spec_fence_opens(v@.subrange(lo as int, hi as int)) == Some(
                    (count as nat, c, v@.subrange(p as int, q as int)),
                )
            },
        },
{
    let (a, b) = fence_line_bounds(v, lo, hi);
    let ghost t = v@.subrange(a as int, b as int);
    if a == b {
        return None;
    }
    let first = v[a];
    assert(t[0] == first);
    if first != '`' && first != '~' {
        return None;
    }
    let c_end = skip_run(v, a, b, first);
    let count = c_end - a;
    if count < 3 {
        return None;
    }
    assert(t.skip(count as int) == v@.subrange(c_end as int, b as int));
    let (x, y) = trim_bounds(v, c_end, b);
    let p = skip_ascii_ws(v, x, y);
    assert(v@.subrange(x as int, y as int).skip((p - x) as int) == v@.subrange(p as int, y as int));
    let q = skip_word(v, p, y);
    assert(v@.subrange(p as int, y as int).take((q - p) as int) == v@.subrange(p as int, q as int));
    Some((count, first, p, q))
}

/// `reply_fence_closes` over `v[lo..hi]`.
fn fence_closes_in(v: &Vec<char>, lo: usize, hi: usize, count: usize, fence_char: char) -> (b: bool)
    requires
        lo <= hi <= v.len(),
    ensures
        b == spec_fence_closes(v@.subrange(lo as int, hi as int), count as nat, fence_char),
{
    let (a, b) = fence_line_bounds(v, lo, hi);
    let e = skip_run(v, a, b, fence_char);
    assert(v@.subrange(a as int, b as int).skip((e - a) as int) == v@.subrange(e as int, b as int));
    let (x, y) = trim_bounds(v, e, b);
    e - a >= count && x == y
}

/// If `line` opens a fenced block (three or more backticks or tildes after
/// optional indentation), the fence length, the fence character and the
/// info string — the first word after the fence, possibly empty.
pub fn reply_fence_opens(line: &str) -> (r: Option<(usize, char, String)>)
    ensures
        match r {
            None => spec_fence_opens(line@) is None,
            Some((count, c, info)) => spec_fence_opens(line@) == Some((count as nat, c, info@)),
        },
{
    let v = chars_of(line);
    let n = v.len();
    assert(v@.subrange(0, n as int) == line@);
    match fence_opens_in(&v, 0, n) {
        None => None,
        Some((count, c, p, q)) => Some((count, c, string_of(&v, p, q))),
    }
}

/// Whether `line` closes `fence`: at least as many fence characters,
/// followed only by whitespace.
pub fn reply_fence_closes(line: &str, fence: &OpenReplyFence) -> (b: bool)
    requires
        fence.wf(),
    ensures
        b == spec_fence_closes(line@, fence.count as nat, fence.fence_char),
{
    let v = chars_of(line);
    let n = v.len();
    assert(v@.subrange(0, n as int) == line@);
    fence_closes_in(&v, 0, n, fence.count, fence.fence_char)
}

// ---------------------------------------------------------------------------
// The line scan
// ---------------------------------------------------------------------------

/// The lines of `s`: the pieces between `\n` characters, including the
/// (possibly empty) piece after the last one.
pub open spec fn split_lines(s: Seq<char>) -> Seq<Seq<char>>
    decreases s.len(),
{
    if s.len() == 0 {
        seq![Seq::<char>::empty()]
    } else {
        let prev = split_lines(s.drop_last());
        if s.last() == '\n' {
            prev.push(Seq::<char>::empty())
        } else {
            prev.update(prev.len() - 1, prev.last().push(s.last()))
        }
    }
}

pub proof fn lemma_split_lines_nonempty(s: Seq<char>)
    ensures
        split_lines(s).len() >= 1,
    decreases s.len(),
{
    if s.len() > 0 {
        lemma_split_lines_nonempty(s.drop_last());
    }
}

pub open spec fn diagram_info() -> Seq<char> {
    seq!['d', 'i', 'a', 'g', 'r', 'a', 'm']
}

pub open spec fn is_diagram_info(info: Seq<char>) -> bool {
    eq_ignore_ascii_case(info, diagram_info())
}

/// An open fence in the model: its length, character, info string and the
/// body lines gathered so far (each followed by its `\n`).
pub struct SpecOpenFence {
    pub count: nat,
    pub fence_char: char,
    pub info: Seq<char>,
    pub body: Seq<char>,
}

/// The scanner's state in the model.
pub struct SpecScan {
    pub open: Option<SpecOpenFence>,
    /// Trimmed bodies of the closed diagram fences, in order.
    pub bodies: Seq<Seq<char>>,
}

pub open spec fn scan_init() -> SpecScan {
    SpecScan { open: None, bodies: Seq::empty() }
}

/// One line of the scan.
pub open spec fn scan_step(st: SpecScan, line: Seq<char>) -> SpecScan {
    match st.open {
        Some(f) => if spec_fence_closes(line, f.count, f.fence_char) {
            SpecScan {
                open: None,
                bodies: if is_diagram_info(f.info) {
                    st.bodies.push(trim(f.body))
                } else {
                    st.bodies
                },
            }
        } else {
            SpecScan {
                open: Some(
                    SpecOpenFence {
                        count: f.count,
                        fence_char: f.fence_char,
                        info: f.info,
                        body: f.body + line.push('\n'),
                    },
                ),
                bodies: st.bodies,
            }
        },
        None => match spec_fence_opens(line) {
            Some((count, c, info)) => SpecScan {
                open: Some(SpecOpenFence { count, fence_char: c, info, body: Seq::empty() }),
                bodies: st.bodies,
            },
            None => st,
        },
    }
}

pub open spec fn scan_lines(lines: Seq<Seq<char>>) -> SpecScan
    decreases lines.len(),
{
    if lines.len() == 0 {
        scan_init()
    } else {
        scan_step(scan_lines(lines.drop_last()), lines.last())
    }
}

/// A fence still open when the reply ends.
#[derive(Clone, Copy, Debug, PartialEq, Eq, Structural)]
pub enum UnclosedFence {
    Diagram,
    Other,
}

pub open spec fn unclosed_of(st: SpecScan) -> Option<UnclosedFence> {
    match st.open {
        None => None,
        Some(f) => if is_diagram_info(f.info) {
            Some(UnclosedFence::Diagram)
        } else {
            Some(UnclosedFence::Other)
        },
    }
}

/// The scan of a reply: the outer markdown wrapper is removed first.
pub open spec fn spec_scan(text: Seq<char>) -> SpecScan {
    scan_lines(split_lines(spec_unwrap_outer_markdown_fence(text)))
}

#[derive(Clone, Copy, Debug, PartialEq, Eq, Structural)]
pub enum DiagramFenceStatus {
    /// No diagram fence and nothing left open.
    NoDiagram,
    Valid,
    UnclosedNonDiagram,
    Invalid,
}

/// The status for the given scan outcome and body verdicts.
pub open spec fn spec_status(
    bodies_valid: Seq<bool>,
    n_bodies: nat,
    unclosed: Option<UnclosedFence>,
) -> DiagramFenceStatus {
    if exists|i: int| 0 <= i < bodies_valid.len() && !bodies_valid[i] {
        DiagramFenceStatus::Invalid
    } else {
        match unclosed {
            Some(UnclosedFence::Diagram) => DiagramFenceStatus::Invalid,
            Some(UnclosedFence::Other) => DiagramFenceStatus::UnclosedNonDiagram,
            None => if n_bodies > 0 {
                DiagramFenceStatus::Valid
            } else {
                DiagramFenceStatus::NoDiagram
            },
        }
    }
}

/// Result of scanning a reply for fenced blocks.
pub struct DiagramFenceScan {
    /// Trimmed bodies of the closed `diagram` fences, in order of appearance.
    pub diagram_bodies: Vec<String>,
    /// The fence (if any) still open at the end of the reply.
    pub unclosed: Option<UnclosedFence>,
}

impl DiagramFenceScan {
    pub open spec fn bodies(&self) -> Seq<Seq<char>> {
        self.diagram_bodies@.map_values(|b: String| b@)
    }

    /// The reply's status, given for each collected body whether it parses
    /// as a diagram. A body that does not parse makes the reply `Invalid`;
    /// so does a `diagram` fence left open. A different fence left open
    /// gives `UnclosedNonDiagram`; otherwise `Valid` if a diagram was seen,
    /// `None` if not.
    pub fn status(&self, bodies_valid: &[bool]) -> (s: DiagramFenceStatus)
        requires
            bodies_valid@.len() == self.diagram_bodies@.len(),
        ensures
            s == spec_status(bodies_valid@, self.diagram_bodies@.len(), self.unclosed),
    {
        let mut i: usize = 0;
        while i < bodies_valid.len()
            invariant
                i <= bodies_valid@.len(),
                forall|j: int| 0 <= j < i ==> bodies_valid@[j],
            decreases bodies_valid@.len() - i,
        {
            if !bodies_valid[i] {
                return DiagramFenceStatus::Invalid;
            }
            i = i + 1;
        }
        match self.unclosed {
            Some(UnclosedFence::Diagram) => DiagramFenceStatus::Invalid,
            Some(UnclosedFence::Other) => DiagramFenceStatus::UnclosedNonDiagram,
            None => if self.diagram_bodies.len() > 0 {
                DiagramFenceStatus::Valid
            } else {
                DiagramFenceStatus::NoDiagram
            },
        }
    }
}

/// The scanner's exec state.
struct ScanState {
    open: Option<OpenReplyFence>,
    body: Vec<char>,
    bodies: Vec<String>,
}

impl ScanState {
    spec fn view(&self) -> SpecScan {
        SpecScan {
            open: match self.open {
                None => None,
                Some(f) => Some(
                    SpecOpenFence {
                        count: f.count as nat,
                        fence_char: f.fence_char,
                        info: f.info@,
                        body: self.body@,
                    },
                ),
            },
            bodies: self.bodies@.map_values(|b: String| b@),
        }
    }

    spec fn wf(&self) -> bool {
        match self.open {
            None => true,
            Some(f) => f.wf(),
        }
    }
}

fn info_is_diagram(info: &String) -> (b: bool)
    ensures
        b == is_diagram_info(info@),
{
    let v = chars_of(info.as_str());
    let pat = vec!['d', 'i', 'a', 'g', 'r', 'a', 'm'];
    assert(pat@ == diagram_info());
    if v.len() != 7 {
        return false;
    }
    let mut i: usize = 0;
    while i < 7
        invariant
            v.len() == 7,
            pat@ == diagram_info(),
            v@ == info@,
            i <= 7,
            forall|j: int| 0 <= j < i ==> ascii_lower(v@[j]) == ascii_lower(pat@[j]),
        decreases 7 - i,
    {
        if to_ascii_lower(v[i]) != to_ascii_lower(pat[i]) {
            return false;
        }
        i = i + 1;
    }
    true
}

/// Process the line `v[lo..hi]`; `next_start` is where the following line starts.
fn scan_line(st: &mut ScanState, v: &Vec<char>, lo: usize, hi: usize, next_start: usize)
    requires
        lo <= hi <= v.len(),
        old(st).wf(),
    ensures
        final(st).wf(),
        final(st)@ == scan_step(old(st)@, v@.subrange(lo as int, hi as int)),
{
    let ghost line = v@.subrange(lo as int, hi as int);
    let ghost old_view = st@;
    match st.open.take() {
        Some(f) => {
            if fence_closes_in(v, lo, hi, f.count, f.fence_char) {
                if info_is_diagram(&f.info) {
                    let blen = st.body.len();
                    assert(st.body@.subrange(0, blen as int) == st.body@);
                    let (x, y) = trim_bounds(&st.body, 0, blen);
                    let b = string_of(&st.body, x, y);
                    st.bodies.push(b);
                    assert(st.bodies@.map_values(|b: String| b@) == old_view.bodies.push(
                        trim(old_view.open.unwrap().body),
                    ));
                }
                st.body = Vec::new();
            } else {
                let mut k = lo;
                while k < hi
                    invariant
                        lo <= k <= hi <= v.len(),
                        old_view.open is Some,
                        st.bodies@ == old(st).bodies@,
                        st.body@ == old_view.open.unwrap().body + v@.subrange(lo as int, k as int),
                    decreases hi - k,
                {
                    st.body.push(v[k]);
                    assert(v@.subrange(lo as int, k + 1) == v@.subrange(lo as int, k as int).push(
                        v@[k as int],
                    ));
                    k = k + 1;
                }
                st.body.push('\n');
                st.open = Some(f);
            }
        },
        None => {
            match fence_opens_in(v, lo, hi) {
                Some((count, c, p, q)) => {
                    let info = string_of(v, p, q);
                    st.open = Some(OpenReplyFence { count, fence_char: c, info, body_start: next_start });
                    st.body = Vec::new();
                },
                None => {},
            }
        },
    }
}

/// Scan a reply (after removing an outer markdown wrapper) for fenced
/// blocks: collect the trimmed body of every closed `diagram` fence and
/// report the fence left open at the end, if any.
pub fn scan_diagram_fences(text: &str) -> (r: DiagramFenceScan)
    ensures
        r.bodies() == spec_scan(text@).bodies,
        r.unclosed == unclosed_of(spec_scan(text@)),
{
    let t = unwrap_outer_markdown_fence(text);
    let v = chars_of(t);
    let n = v.len();
    let mut st = ScanState { open: None, body: Vec::new(), bodies: Vec::new() };
    assert(st.bodies@.map_values(|b: String| b@) == Seq::<Seq<char>>::empty());
    let mut line_start: usize = 0;
    let mut i: usize = 0;
    proof {
        lemma_split_lines_nonempty(v@.take(0));
        assert(v@.take(0) == Seq::<char>::empty());
    }
    while i < n
        invariant
            i <= n == v.len(),
            line_start <= i,
            st.wf(),
            split_lines(v@.take(i as int)).len() >= 1,
            st@ == scan_lines(split_lines(v@.take(i as int)).drop_last()),
            split_lines(v@.take(i as int)).last() == v@.subrange(line_start as int, i as int),
        decreases n - i,
    {
        let ghost prev = split_lines(v@.take(i as int));
        assert(v@.take(i + 1).drop_last() == v@.take(i as int));
        if v[i] == '\n' {
            scan_line(&mut st, &v, line_start, i, i + 1);
            assert(prev.drop_last().push(prev.last()) == prev);
            assert(split_lines(v@.take(i + 1)) == prev.push(Seq::<char>::empty()));
            assert(split_lines(v@.take(i + 1)).drop_last() == prev);
            assert(v@.subrange(i + 1, i + 1) == Seq::<char>::empty());
            line_start = i + 1;
        } else {
            let ghost next = split_lines(v@.take(i + 1));
            assert(next == prev.update(prev.len() - 1, prev.last().push(v@[i as int])));
            assert(next.drop_last() == prev.drop_last());
            assert(v@.subrange(line_start as int, i + 1) == v@.subrange(
                line_start as int,
                i as int,
            ).push(v@[i as int]));
        }
        i = i + 1;
    }
    scan_line(&mut st, &v, line_start, n, n);
    proof {
        let lines = split_lines(v@.take(n as int));
        assert(v@.take(n as int) == v@);
        assert(lines.drop_last().push(lines.last()) == lines);
    }
    let unclosed = match &st.open {
        None => None,
        Some(f) => if info_is_diagram(&f.info) {
            Some(UnclosedFence::Diagram)
        } else {
            Some(UnclosedFence::Other)
        },
    };
    DiagramFenceScan { diagram_bodies: st.bodies, unclosed }
}

/// The reply's fence status: scan it, then judge the collected diagram
/// bodies with `bodies_valid` (one verdict per body of
/// `scan_diagram_fences(text)`).
pub fn scan_diagram_fence_status(text: &str, bodies_valid: &[bool]) -> (s: DiagramFenceStatus)
    requires
        bodies_valid@.len() == spec_scan(text@).bodies.len(),
    ensures
        s == spec_status(bodies_valid@, spec_scan(text@).bodies.len(), unclosed_of(spec_scan(text@))),
{
    let scan = scan_diagram_fences(text);
    assert(scan.bodies().len() == scan.diagram_bodies@.len());
    scan.status(bodies_valid)
}

/// A finished reply may be stored unless a diagram in it is malformed or
/// left open.
pub fn assistant_message_is_safe_to_store(text: &str, bodies_valid: &[bool]) -> (b: bool)
    requires
        bodies_valid@.len() == spec_scan(text@).bodies.len(),
    ensures
        b == spec_safe_to_store(text@, bodies_valid@),
{
    scan_diagram_fence_status(text, bodies_valid) != DiagramFenceStatus::Invalid
}

/// A reply may be replayed as history only when it holds no diagram fence
/// and no unclosed fence at all.
pub fn assistant_message_is_safe_for_history(text: &str, bodies_valid: &[bool]) -> (b: bool)
    requires
        bodies_valid@.len() == spec_scan(text@).bodies.len(),
    ensures
        b == spec_safe_for_history(text@, bodies_valid@),
{
    scan_diagram_fence_status(text, bodies_valid) == DiagramFenceStatus::NoDiagram
}

/// What `assistant_message_is_safe_to_store` returns.
pub open spec fn spec_safe_to_store(text: Seq<char>, bodies_valid: Seq<bool>) -> bool {
    spec_status(bodies_valid, spec_scan(text).bodies.len(), unclosed_of(spec_scan(text)))
        != DiagramFenceStatus::Invalid
}

/// What `assistant_message_is_safe_for_history` returns.
pub open spec fn spec_safe_for_history(text: Seq<char>, bodies_valid: Seq<bool>) -> bool {
    spec_status(bodies_valid, spec_scan(text).bodies.len(), unclosed_of(spec_scan(text)))
        == DiagramFenceStatus::NoDiagram
}

/// A reply that may be replayed as history may also be stored.
pub proof fn law_history_safe_is_store_safe(text: Seq<char>, bodies_valid: Seq<bool>)
    ensures
        spec_safe_for_history(text, bodies_valid) ==> spec_safe_to_store(text, bodies_valid),
{
}

/// A reply whose diagram fence is still open is never stored.
pub proof fn law_unclosed_diagram_is_not_stored(text: Seq<char>, bodies_valid: Seq<bool>)
    requires
        unclosed_of(spec_scan(text)) == Some(UnclosedFence::Diagram),
    ensures
        !spec_safe_to_store(text, bodies_valid),
        !spec_safe_for_history(text, bodies_valid),
{
}

/// A reply with a closed diagram that does not parse is never stored,
/// whatever follows it.
pub proof fn law_invalid_diagram_is_not_stored(text: Seq<char>, bodies_valid: Seq<bool>, i: int)
    requires
        0 <= i < bodies_valid.len(),
        !bodies_valid[i],
    ensures
        !spec_safe_to_store(text, bodies_valid),
        !spec_safe_for_history(text, bodies_valid),
{
}

/// A reply whose diagrams all parse and which leaves a non-diagram fence
/// open (a truncated code block) is stored but not replayed.
pub proof fn law_unclosed_code_fence_is_stored(text: Seq<char>, bodies_valid: Seq<bool>)
    requires
        forall|i: int| 0 <= i < bodies_valid.len() ==> bodies_valid[i],
        unclosed_of(spec_scan(text)) == Some(UnclosedFence::Other),
    ensures
        spec_safe_to_store(text, bodies_valid),
        !spec_safe_for_history(text, bodies_valid),
{
}

/// A reply whose closed diagrams all parse, with nothing left open, is
/// stored; it is replayed as history only when it has no diagram at all.
pub proof fn law_valid_reply_is_stored(text: Seq<char>, bodies_valid: Seq<bool>)
    requires
        forall|i: int| 0 <= i < bodies_valid.len() ==> bodies_valid[i],
        unclosed_of(spec_scan(text)) is None,
    ensures
        spec_safe_to_store(text, bodies_valid),
        spec_safe_for_history(text, bodies_valid) <==> spec_scan(text).bodies.len() == 0,
{
}

// ---------------------------------------------------------------------------
// The outer wrapper does not change the scan
// ---------------------------------------------------------------------------

/// Every character of `v` is whitespace.
pub open spec fn all_ws(v: Seq<char>) -> bool {
    forall|i: int| 0 <= i < v.len() ==> is_ws(#[trigger] v[i])
}

proof fn lemma_all_ws_drop_first(v: Seq<char>)
    requires
        all_ws(v),
        v.len() > 0,
    ensures
        all_ws(v.drop_first()),
{
    assert forall|i: int| 0 <= i < v.drop_first().len() implies is_ws(#[trigger] v.drop_first()[i]) by {
        assert(v.drop_first()[i] == v[i + 1]);
    }
}

proof fn lemma_ws_prefix_bound(s: Seq<char>)
    ensures
        ws_prefix_len(s) <= s.len(),
    decreases s.len(),
{
    if s.len() > 0 {
        lemma_ws_prefix_bound(s.drop_first());
    }
}

proof fn lemma_ws_suffix(s: Seq<char>)
    ensures
        ws_suffix_len(s) <= s.len(),
        all_ws(s.skip(s.len() - ws_suffix_len(s))),
    decreases s.len(),
{
    if s.len() > 0 && is_ws(s.last()) {
        lemma_ws_suffix(s.drop_last());
        let k = ws_suffix_len(s.drop_last());
        assert(s.skip(s.len() - ws_suffix_len(s)) =~= s.drop_last().skip(s.len() - 1 - k).push(s.last()));
    } else {
        assert(s.skip(s.len() as int).len() == 0);
    }
}

proof fn lemma_tail_run(s: Seq<char>, c: char)
    ensures
        tail_run_len(s, c) <= s.len(),
        forall|i: int| s.len() - tail_run_len(s, c) <= i < s.len() ==> s[i] == c,
    decreases s.len(),
{
    if s.len() > 0 && s.last() == c {
        lemma_tail_run(s.drop_last(), c);
        assert forall|i: int| s.len() - tail_run_len(s, c) <= i < s.len() implies s[i] == c by {
            if i < s.len() - 1 {
                assert(s[i] == s.drop_last()[i]);
            }
        }
    }
}

proof fn lemma_run_bound(s: Seq<char>, c: char)
    ensures
        run_len(s, c) <= s.len(),
    decreases s.len(),
{
    if s.len() > 0 {
        lemma_run_bound(s.drop_first(), c);
    }
}

proof fn lemma_ws_prefix_all(v: Seq<char>)
    requires
        all_ws(v),
    ensures
        ws_prefix_len(v) == v.len(),
    decreases v.len(),
{
    if v.len() > 0 {
        assert(is_ws(v[0]));
        lemma_all_ws_drop_first(v);
        lemma_ws_prefix_all(v.drop_first());
    }
}

proof fn lemma_ws_prefix_concat(y: Seq<char>, v: Seq<char>)
    requires
        all_ws(v),
    ensures
        ws_prefix_len(y + v) == if ws_prefix_len(y) == y.len() {
            y.len() + v.len()
        } else {
            ws_prefix_len(y)
        },
    decreases y.len(),
{
    if y.len() == 0 {
        assert(y + v =~= v);
        lemma_ws_prefix_all(v);
    } else {
        assert((y + v).drop_first() =~= y.drop_first() + v);
        assert((y + v)[0] == y[0]);
        lemma_ws_prefix_concat(y.drop_first(), v);
        lemma_ws_prefix_bound(y.drop_first());
    }
}

proof fn lemma_ws_suffix_concat(z: Seq<char>, v: Seq<char>)
    requires
        all_ws(v),
    ensures
        ws_suffix_len(z + v) == v.len() + ws_suffix_len(z),
    decreases v.len(),
{
    if v.len() == 0 {
        assert(z + v =~= z);
    } else {
        assert((z + v).drop_last() =~= z + v.drop_last());
        assert((z + v).last() == v.last());
        assert(is_ws(v[v.len() - 1]));
        assert(all_ws(v.drop_last())) by {
            assert forall|i: int| 0 <= i < v.drop_last().len() implies is_ws(#[trigger] v.drop_last()[i]) by {
                assert(v.drop_last()[i] == v[i]);
            }
        }
        lemma_ws_suffix_concat(z, v.drop_last());
    }
}

proof fn lemma_trim_end_concat_ws(z: Seq<char>, v: Seq<char>)
    requires
        all_ws(v),
    ensures
        trim_end(z + v) == trim_end(z),
{
    lemma_ws_suffix_concat(z, v);
    lemma_ws_suffix(z);
    assert(trim_end(z + v) =~= trim_end(z));
}

proof fn lemma_trim_concat_ws(y: Seq<char>, v: Seq<char>)
    requires
        all_ws(v),
    ensures
        trim(y + v) == trim(y),
{
    lemma_ws_prefix_concat(y, v);
    lemma_ws_prefix_bound(y);
    if ws_prefix_len(y) == y.len() {
        assert(trim_start(y + v) =~= Seq::<char>::empty());
        assert(trim_start(y) =~= Seq::<char>::empty());
    } else {
        assert(trim_start(y + v) =~= trim_start(y) + v);
        lemma_trim_end_concat_ws(trim_start(y), v);
    }
}

proof fn lemma_run_concat(a: Seq<char>, b: Seq<char>, c: char)
    requires
        b.len() > 0,
        b[0] != c,
    ensures
        run_len(a + b, c) == run_len(a, c),
    decreases a.len(),
{
    if a.len() == 0 {
        assert(a + b =~= b);
    } else {
        assert((a + b).drop_first() =~= a.drop_first() + b);
        assert((a + b)[0] == a[0]);
        lemma_run_concat(a.drop_first(), b, c);
    }
}

proof fn lemma_fence_chars_not_ws()
    ensures
        !is_ws('`'),
        !is_ws('~'),
        is_ws('\r'),
        is_ws('\n'),
{
}

/// Appending a whitespace character to a line appends whitespace to its
/// fence form.
proof fn lemma_fence_line_push(l: Seq<char>, c: char) -> (v: Seq<char>)
    requires
        is_ws(c),
    ensures
        all_ws(v),
        fence_line(l.push(c)) == fence_line(l) + v,
{
    lemma_fence_chars_not_ws();
    assert(all_ws(seq![c]));
    assert(l.push(c) =~= l + seq![c]);
    lemma_ws_prefix_concat(l, seq![c]);
    lemma_ws_prefix_bound(l);
    let x = trim_start(l);
    lemma_tail_run(x, '\r');
    if ws_prefix_len(l) == l.len() {
        assert(trim_start(l.push(c)) =~= Seq::<char>::empty());
        assert(x =~= Seq::<char>::empty());
        let v = Seq::<char>::empty();
        assert(fence_line(l.push(c)) =~= fence_line(l) + v);
        v
    } else {
        assert(trim_start(l.push(c)) =~= x.push(c));
        assert(x.push(c).drop_last() =~= x);
        if c == '\r' {
            assert(tail_run_len(x.push(c), '\r') == 1 + tail_run_len(x, '\r'));
            let v = Seq::<char>::empty();
            assert(fence_line(l.push(c)) =~= fence_line(l) + v);
            v
        } else {
            assert(tail_run_len(x.push(c), '\r') == 0);
            let k = x.len() - tail_run_len(x, '\r');
            let v = x.skip(k).push(c);
            assert(all_ws(v)) by {
                assert forall|i: int| 0 <= i < v.len() implies is_ws(#[trigger] v[i]) by {
                    if i < v.len() - 1 {
                        assert(v[i] == x[k + i]);
                    }
                }
            }
            assert(fence_line(l.push(c)) =~= fence_line(l) + v);
            v
        }
    }
}

/// Lines whose fence forms differ by trailing whitespace open and close
/// fences alike.
proof fn lemma_fence_fns_ext(l1: Seq<char>, l2: Seq<char>, v: Seq<char>)
    requires
        all_ws(v),
        fence_line(l2) == fence_line(l1) + v,
    ensures
        spec_fence_opens(l2) == spec_fence_opens(l1),
        forall|count: nat, fc: char|
            count >= 1 && !is_ws(fc) ==> #[trigger] spec_fence_closes(l2, count, fc) == spec_fence_closes(
                l1,
                count,
                fc,
            ),
{
    lemma_fence_chars_not_ws();
    let t1 = fence_line(l1);
    let t2 = fence_line(l2);
    if v.len() == 0 {
        assert(t2 =~= t1);
    } else {
        assert(is_ws(v[0]));
        if t1.len() == 0 {
            assert(t2 =~= v);
            assert forall|count: nat, fc: char| count >= 1 && !is_ws(fc) implies #[trigger] spec_fence_closes(
                l2,
                count,
                fc,
            ) == spec_fence_closes(l1, count, fc) by {
                assert(run_len(t2, fc) == 0);
                assert(run_len(t1, fc) == 0);
            }
        } else {
            assert(t2[0] == t1[0]);
            if t1[0] == '`' || t1[0] == '~' {
                lemma_run_concat(t1, v, t1[0]);
                let n = run_len(t1, t1[0]);
                lemma_run_bound(t1, t1[0]);
                assert(t2.skip(n as int) =~= t1.skip(n as int) + v);
                lemma_trim_concat_ws(t1.skip(n as int), v);
            }
            assert forall|count: nat, fc: char| count >= 1 && !is_ws(fc) implies #[trigger] spec_fence_closes(
                l2,
                count,
                fc,
            ) == spec_fence_closes(l1, count, fc) by {
                lemma_run_concat(t1, v, fc);
                let n = run_len(t1, fc);
                lemma_run_bound(t1, fc);
                assert(t2.skip(n as int) =~= t1.skip(n as int) + v);
                lemma_trim_concat_ws(t1.skip(n as int), v);
            }
        }
    }
}

/// An open fence in the model is at least three fence characters long.
pub open spec fn scan_wf(st: SpecScan) -> bool {
    match st.open {
        Some(f) => f.count >= 3 && !is_ws(f.fence_char),
        None => true,
    }
}

/// Two scan states agree on everything a status is made of: the bodies
/// collected, and whether (and which kind of) fence is open.
pub open spec fn same_scan(a: SpecScan, b: SpecScan) -> bool {
    &&& a.bodies == b.bodies
    &&& match (a.open, b.open) {
        (None, None) => true,
        (Some(f), Some(g)) => f.count == g.count && f.fence_char == g.fence_char && f.info == g.info,
        _ => false,
    }
}

proof fn lemma_scan_lines_wf(lines: Seq<Seq<char>>)
    ensures
        scan_wf(scan_lines(lines)),
    decreases lines.len(),
{
    lemma_fence_chars_not_ws();
    if lines.len() > 0 {
        lemma_scan_lines_wf(lines.drop_last());
    }
}

proof fn lemma_step_push(st: SpecScan, l: Seq<char>, c: char)
    requires
        scan_wf(st),
        is_ws(c),
    ensures
        same_scan(scan_step(st, l.push(c)), scan_step(st, l)),
{
    let v = lemma_fence_line_push(l, c);
    lemma_fence_fns_ext(l, l.push(c), v);
    match st.open {
        Some(f) => {
            assert(spec_fence_closes(l.push(c), f.count, f.fence_char) == spec_fence_closes(
                l,
                f.count,
                f.fence_char,
            ));
        },
        None => {},
    }
}

proof fn lemma_step_empty(st: SpecScan)
    requires
        scan_wf(st),
    ensures
        same_scan(scan_step(st, Seq::<char>::empty()), st),
{
    let e = Seq::<char>::empty();
    assert(fence_line(e) =~= e);
    assert(spec_fence_opens(e) is None);
    match st.open {
        Some(f) => {
            assert(run_len(fence_line(e), f.fence_char) == 0);
        },
        None => {},
    }
}

proof fn lemma_push_ws(u: Seq<char>, c: char)
    requires
        is_ws(c),
    ensures
        same_scan(scan_lines(split_lines(u.push(c))), scan_lines(split_lines(u))),
{
    let s = u.push(c);
    assert(s.drop_last() =~= u);
    let prev = split_lines(u);
    lemma_split_lines_nonempty(u);
    let lines = split_lines(s);
    if c == '\n' {
        assert(lines == prev.push(Seq::<char>::empty()));
        assert(lines.drop_last() =~= prev);
        lemma_scan_lines_wf(prev);
        lemma_step_empty(scan_lines(prev));
    } else {
        assert(lines == prev.update(prev.len() - 1, prev.last().push(c)));
        assert(lines.drop_last() =~= prev.drop_last());
        assert(lines.last() == prev.last().push(c));
        lemma_scan_lines_wf(prev.drop_last());
        lemma_step_push(scan_lines(prev.drop_last()), prev.last(), c);
    }
}

proof fn lemma_trailing_ws(t: Seq<char>, w: Seq<char>)
    requires
        all_ws(w),
    ensures
        same_scan(scan_lines(split_lines(t + w)), scan_lines(split_lines(t))),
    decreases w.len(),
{
    if w.len() == 0 {
        assert(t + w =~= t);
    } else {
        assert(all_ws(w.drop_last())) by {
            assert forall|i: int| 0 <= i < w.drop_last().len() implies is_ws(#[trigger] w.drop_last()[i]) by {
                assert(w.drop_last()[i] == w[i]);
            }
        }
        assert(is_ws(w[w.len() - 1]));
        lemma_trailing_ws(t, w.drop_last());
        assert(t + w =~= (t + w.drop_last()).push(w.last()));
        lemma_push_ws(t + w.drop_last(), w.last());
    }
}

/// `text` wrapped in an outer fence: ```` ```markdown\n{text}\n``` ````.
pub open spec fn markdown_wrapped(text: Seq<char>) -> Seq<char> {
    seq!['`', '`', '`'] + markdown_opener() + text + seq!['\n', '`', '`', '`']
}

proof fn lemma_unwrap_wrapped(s: Seq<char>)
    ensures
        spec_unwrap_outer_markdown_fence(markdown_wrapped(s)) == trim_end(s),
{
    lemma_fence_chars_not_ws();
    let ticks = seq!['`', '`', '`'];
    let tail = seq!['\n', '`', '`', '`'];
    let w = markdown_wrapped(s);
    let rest = markdown_opener() + s + tail;
    assert(w =~= ticks + rest);
    assert(w[0] == '`');
    assert(ws_prefix_len(w) == 0);
    assert(trim_start(w) =~= w);
    assert(rest[0] == 'm');
    lemma_run_concat(ticks, rest, '`');
    assert(run_len(ticks, '`') == 3) by {
        reveal_with_fuel(run_len, 4);
        assert(ticks.drop_first() =~= seq!['`', '`']);
        assert(ticks.drop_first().drop_first() =~= seq!['`']);
        assert(ticks.drop_first().drop_first().drop_first() =~= Seq::<char>::empty());
    }
    let after = w.skip(3);
    assert(after =~= rest);
    assert(after.take(9) =~= markdown_opener());
    assert(starts_with(after, markdown_opener()));
    let body = after.skip(9);
    assert(body =~= s + tail);
    assert(ws_suffix_len(body) == 0);
    assert(trim_end(body) =~= body);
    let b1 = body.drop_last();
    let b2 = b1.drop_last();
    let b3 = b2.drop_last();
    assert(b1 =~= s + seq!['\n', '`', '`']);
    assert(b2 =~= s + seq!['\n', '`']);
    assert(b3 =~= s.push('\n'));
    assert(tail_run_len(b3, '`') == 0);
    assert(tail_run_len(b2, '`') == 1);
    assert(tail_run_len(b1, '`') == 2);
    assert(tail_run_len(body, '`') == 3);
    assert(trim_end_char(body, '`') =~= s.push('\n'));
    assert(s.push('\n').drop_last() =~= s);
    assert(tail_run_len(s.push('\n'), '\n') == 1 + tail_run_len(s, '\n'));
    lemma_tail_run(s, '\n');
    assert(trim_end_char(s.push('\n'), '\n') =~= trim_end_char(s, '\n'));
    let z = trim_end_char(s, '\n');
    let nl = s.skip(z.len() as int);
    assert(all_ws(nl)) by {
        assert forall|i: int| 0 <= i < nl.len() implies is_ws(#[trigger] nl[i]) by {
            assert(nl[i] == s[z.len() + i]);
        }
    }
    assert(z + nl =~= s);
    lemma_trim_end_concat_ws(z, nl);
}

/// Wrapping a reply that is not itself wrapped in an outer
/// ```` ```markdown ```` fence leaves what the safety scan finds
/// unchanged: the same diagram bodies, the same fence left open, and so the
/// same status for the same verdicts on the bodies.
pub proof fn law_outer_wrapper_keeps_status(s: Seq<char>, bodies_valid: Seq<bool>)
    requires
        spec_unwrap_outer_markdown_fence(s) == s,
    ensures
        spec_scan(markdown_wrapped(s)).bodies == spec_scan(s).bodies,
        unclosed_of(spec_scan(markdown_wrapped(s))) == unclosed_of(spec_scan(s)),
        spec_status(
            bodies_valid,
            spec_scan(markdown_wrapped(s)).bodies.len(),
            unclosed_of(spec_scan(markdown_wrapped(s))),
        ) == spec_status(bodies_valid, spec_scan(s).bodies.len(), unclosed_of(spec_scan(s))),
{
    lemma_unwrap_wrapped(s);
    let t = trim_end(s);
    lemma_ws_suffix(s);
    let w = s.skip(t.len() as int);
    assert(t + w =~= s);
    lemma_trailing_ws(t, w);
}

} // verus!
