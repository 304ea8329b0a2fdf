//! The running apps: one agent session per app, the app on screen, the
//! prompt each app is answering, and how a router decision picks, composes
//! or creates an app.

use vstd::prelude::*;
use crate::persisted::PromptId;
use crate::notify::opt_chars;
use crate::card_lint::{lint, repair_footer, repair_header, repair_prompt, bullet_list, spec_lint, LintRule};
use crate::cards::{extract_runsplash_body, spec_extract_runsplash_body};
use crate::diagram_safety::{assistant_message_is_safe_to_store, spec_safe_to_store, spec_scan};
use crate::text::{before_char, chars_of, decimal, push_decimal, push_range, push_str, scan_to_char, str_eq};

verus! {

broadcast use vstd::string::group_string_axioms;

/// The chat surface's id of an agent session.
pub type SessionId = u64;

/// One running app.
pub struct AppRecord {
    pub session_id: SessionId,
    pub title: String,
    /// The domain the router sends to this app, for app agents.
    pub domain: Option<String>,
    /// The prompt the app is answering, if any.
    pub current_prompt: Option<PromptId>,
    /// New output arrived while the app was in the background.
    pub has_updates: bool,
    /// The one automatic repair turn of the current request was spent.
    pub repair_attempted: bool,
}

impl AppRecord {
    pub fn new(session_id: SessionId, title: String) -> (r: Self)
        ensures
            r.session_id == session_id,
            r.title == title,
            r.domain is None,
            r.current_prompt is None,
            !r.has_updates,
            !r.repair_attempted,
    {
        AppRecord { session_id, title, domain: None, current_prompt: None, has_updates: false, repair_attempted: false }
    }

    /// An app agent for `domain`.
    pub fn with_domain(session_id: SessionId, title: String, domain: &str) -> (r: Self)
        ensures
            r.session_id == session_id,
            r.title == title,
            r.domain matches Some(d) && d@ == domain@,
            r.current_prompt is None,
            !r.has_updates,
            !r.repair_attempted,
    {
        let mut r = AppRecord::new(session_id, title);
        r.domain = Some(String::from_str(domain));
        r
    }
}

/// What becomes of a reply whose turn completed on the foreground app.
pub enum ReplyOutcome {
    /// Nothing was streamed: nothing is stored.
    Empty,
    /// The reply is stored; `repair` is the one-shot repair prompt to send
    /// back to the same app when its card fails the app's lint rules.
    Store { repair: Option<String> },
    /// The reply is not safe to store and is dropped; `status` is shown.
    Discard { status: String },
}

pub open spec fn discard_status() -> Seq<char> {
    "Error: incomplete diagram response discarded; retry"@
}

/// The repair prompt a stored reply carries: only while the app has not
/// spent its repair, only for a reply with a `runsplash` card and an app
/// with lint rules, and only when the card breaks some rule.
pub open spec fn spec_reply_repair(
    text: Seq<char>,
    rules: Option<Seq<LintRule>>,
    repair_attempted: bool,
) -> Option<Seq<char>> {
    if repair_attempted {
        None
    } else {
        match (rules, spec_extract_runsplash_body(text)) {
            (Some(r), Some(body)) => {
                let v = spec_lint(body, r);
                if v.len() > 0 {
                    Some(repair_header() + bullet_list(v) + repair_footer())
                } else {
                    None
                }
            },
            _ => None,
        }
    }
}

/// The turn of the foreground app completed with the streamed `text`. An
/// empty reply does nothing. A reply that is not safe to store (an open or
/// unparsable diagram) is discarded with a status line. A safe reply is
/// stored; when its card breaks the app's lint `rules` and the app has not
/// yet had its one repair, the reply carries the repair prompt and the app
/// records that its repair is spent. `bodies_valid` is the diagram parser's
/// verdict on each diagram body of `text`.
pub fn complete_reply(
    app: &mut AppRecord,
    text: &str,
    bodies_valid: &[bool],
    rules: Option<&[LintRule]>,
) -> (o: ReplyOutcome)
    requires
        bodies_valid@.len() == spec_scan(text@).bodies.len(),
    ensures
        text@.len() == 0 ==> o is Empty && *final(app) == *old(app),
        text@.len() > 0 && !spec_safe_to_store(text@, bodies_valid@) ==> (o matches ReplyOutcome::Discard {
            status,
        } && status@ == discard_status() && *final(app) == *old(app)),
        text@.len() > 0 && spec_safe_to_store(text@, bodies_valid@) ==> {
            &&& o is Store
            &&& opt_chars(o->repair) == spec_reply_repair(
                text@,
                match rules {
                    Some(r) => Some(r@),
                    None => None,
                },
                old(app).repair_attempted,
            )
            &&& final(app).repair_attempted == (old(app).repair_attempted || o->repair is Some)
            &&& final(app).session_id == old(app).session_id
            &&& final(app).title == old(app).title
            &&& final(app).domain == old(app).domain
            &&& final(app).current_prompt == old(app).current_prompt
            &&& final(app).has_updates == old(app).has_updates
        },
{
    if text.is_empty() {
        return ReplyOutcome::Empty;
    }
    if !assistant_message_is_safe_to_store(text, bodies_valid) {
        return ReplyOutcome::Discard { status: String::from_str("Error: incomplete diagram response discarded; retry") };
    }
    if app.repair_attempted {
        return ReplyOutcome::Store { repair: None };
    }
    let r = match rules {
        Some(r) => r,
        None => return ReplyOutcome::Store { repair: None },
    };
    let body = match extract_runsplash_body(text) {
        Some(b) => b,
        None => return ReplyOutcome::Store { repair: None },
    };
    let violations = lint(body, r);
    if violations.len() == 0 {
        return ReplyOutcome::Store { repair: None };
    }
    let p = repair_prompt(violations.as_slice());
    app.repair_attempted = true;
    ReplyOutcome::Store { repair: Some(p) }
}

/// The apps and which one is on screen.
pub struct AppRegistry {
    pub apps: Vec<AppRecord>,
    pub foreground: usize,
}

/// Whether an app serves `domain`.
pub open spec fn serves(a: AppRecord, domain: Seq<char>) -> bool {
    a.domain matches Some(d) && d@ == domain
}

/// The first app serving `domain`.
pub open spec fn first_serving(apps: Seq<AppRecord>, domain: Seq<char>) -> Option<nat>
    decreases apps.len(),
{
    if apps.len() == 0 {
        None
    } else if serves(apps[0], domain) {
        Some(0)
    } else {
        match first_serving(apps.drop_first(), domain) {
            Some(k) => Some(k + 1),
            None => None,
        }
    }
}

/// The first app answering `prompt`.
pub open spec fn first_answering(apps: Seq<AppRecord>, prompt: PromptId) -> Option<nat>
    decreases apps.len(),
{
    if apps.len() == 0 {
        None
    } else if apps[0].current_prompt == Some(prompt) {
        Some(0)
    } else {
        match first_answering(apps.drop_first(), prompt) {
            Some(k) => Some(k + 1),
            None => None,
        }
    }
}

/// The first app on session `sid`.
pub open spec fn first_on_session(apps: Seq<AppRecord>, sid: SessionId) -> Option<nat>
    decreases apps.len(),
{
    if apps.len() == 0 {
        None
    } else if apps[0].session_id == sid {
        Some(0)
    } else {
        match first_on_session(apps.drop_first(), sid) {
            Some(k) => Some(k + 1),
            None => None,
        }
    }
}

pub open spec fn shift(o: Option<nat>, by: int) -> Option<nat> {
    match o {
        Some(k) => Some((k + by) as nat),
        None => None,
    }
}

/// What switching to an app did.
#[derive(Clone, Copy, Debug, PartialEq, Eq, Structural)]
pub enum SwitchOutcome {
    /// No such app.
    Ignored,
    /// Already on screen: its badge was cleared.
    SameApp,
    /// The app on screen changed; `left` is the app that was left (its
    /// chat surface is to be saved, and the new one's restored).
    Switched { left: usize },
}

impl AppRegistry {
    pub fn new() -> (r: Self)
        ensures
            r.apps@.len() == 0,
            r.foreground == 0,
    {
        AppRegistry { apps: Vec::new(), foreground: 0 }
    }

    /// The session of the app on screen.
    pub fn fg_session(&self) -> (s: Option<SessionId>)
        ensures
            s == if self.foreground < self.apps@.len() {
                Some(self.apps@[self.foreground as int].session_id)
            } else {
                None
            },
    {
        if self.foreground < self.apps.len() {
            Some(self.apps[self.foreground].session_id)
        } else {
            None
        }
    }

    /// Set the prompt the app on screen answers.
    pub fn set_fg_prompt(&mut self, p: Option<PromptId>)
        ensures
            final(self).foreground == old(self).foreground,
            final(self).apps@.len() == old(self).apps@.len(),
            forall|i: int|
                0 <= i < old(self).apps@.len() ==> #[trigger] final(self).apps@[i] == if i
                    == old(self).foreground {
                    AppRecord { current_prompt: p, ..old(self).apps@[i] }
                } else {
                    old(self).apps@[i]
                },
    {
        if self.foreground < self.apps.len() {
            let i = self.foreground;
            let mut a = self.apps.remove(i);
            a.current_prompt = p;
            self.apps.insert(i, a);
        }
    }

    /// Take the prompt of the app on screen, leaving it with none.
    pub fn fg_prompt_take(&mut self) -> (p: Option<PromptId>)
        ensures
            p == if old(self).foreground < old(self).apps@.len() {
                old(self).apps@[old(self).foreground as int].current_prompt
            } else {
                None
            },
            final(self).foreground == old(self).foreground,
            final(self).apps@.len() == old(self).apps@.len(),
            forall|i: int|
                0 <= i < old(self).apps@.len() ==> #[trigger] final(self).apps@[i] == if i
                    == old(self).foreground {
                    AppRecord { current_prompt: None, ..old(self).apps@[i] }
                } else {
                    old(self).apps@[i]
                },
    {
        if self.foreground < self.apps.len() {
            let i = self.foreground;
            let mut a = self.apps.remove(i);
            let p = a.current_prompt;
            a.current_prompt = None;
            self.apps.insert(i, a);
            p
        } else {
            None
        }
    }

    /// The first app answering `prompt`.
    pub fn app_of_prompt(&self, prompt: PromptId) -> (r: Option<usize>)
        ensures
            match first_answering(self.apps@, prompt) {
                Some(k) => r is Some && r->0 == k && k < self.apps@.len(),
                None => r is None,
            },
    {
        let mut i: usize = 0;
        assert(self.apps@.skip(0) == self.apps@);
        while i < self.apps.len()
            invariant
                i <= self.apps@.len(),
                first_answering(self.apps@, prompt) == shift(
                    first_answering(self.apps@.skip(i as int), prompt),
                    i as int,
                ),
            decreases self.apps.len() - i,
        {
            assert(self.apps@.skip(i as int)[0] == self.apps@[i as int]);
            if self.apps[i].current_prompt == Some(prompt) {
                return Some(i);
            }
            assert(self.apps@.skip(i as int).drop_first() == self.apps@.skip(i + 1));
            i = i + 1;
        }
        None
    }

    /// The first app serving `domain`.
    pub fn app_for_domain(&self, domain: &str) -> (r: Option<usize>)
        ensures
            match first_serving(self.apps@, domain@) {
                Some(k) => r is Some && r->0 == k && k < self.apps@.len(),
                None => r is None,
            },
    {
        let mut i: usize = 0;
        assert(self.apps@.skip(0) == self.apps@);
        while i < self.apps.len()
            invariant
                i <= self.apps@.len(),
                first_serving(self.apps@, domain@) == shift(
                    first_serving(self.apps@.skip(i as int), domain@),
                    i as int,
                ),
            decreases self.apps.len() - i,
        {
            assert(self.apps@.skip(i as int)[0] == self.apps@[i as int]);
            let hit = match &self.apps[i].domain {
                Some(d) => str_eq(d.as_str(), domain),
                None => false,
            };
            if hit {
                return Some(i);
            }
            assert(self.apps@.skip(i as int).drop_first() == self.apps@.skip(i + 1));
            i = i + 1;
        }
        None
    }

    fn app_on_session(&self, sid: SessionId) -> (r: Option<usize>)
        ensures
            match first_on_session(self.apps@, sid) {
                Some(k) => r is Some && r->0 == k && k < self.apps@.len(),
                None => r is None,
            },
    {
        let mut i: usize = 0;
        assert(self.apps@.skip(0) == self.apps@);
        while i < self.apps.len()
            invariant
                i <= self.apps@.len(),
                first_on_session(self.apps@, sid) == shift(
                    first_on_session(self.apps@.skip(i as int), sid),
                    i as int,
                ),
            decreases self.apps.len() - i,
        {
            assert(self.apps@.skip(i as int)[0] == self.apps@[i as int]);
            if self.apps[i].session_id == sid {
                return Some(i);
            }
            assert(self.apps@.skip(i as int).drop_first() == self.apps@.skip(i + 1));
            i = i + 1;
        }
        None
    }

    fn clear_badge(&mut self, i: usize)
        requires
            i < old(self).apps@.len(),
        ensures
            final(self).foreground == old(self).foreground,
            final(self).apps@.len() == old(self).apps@.len(),
            forall|j: int|
                0 <= j < old(self).apps@.len() ==> #[trigger] final(self).apps@[j] == if j == i {
                    AppRecord { has_updates: false, ..old(self).apps@[j] }
                } else {
                    old(self).apps@[j]
                },
    {
        let mut a = self.apps.remove(i);
        a.has_updates = false;
        self.apps.insert(i, a);
    }

    /// Put the app on session `sid` on screen, opening a record titled
    /// `title` when there is none; its badge is cleared.
    pub fn focus_session(&mut self, sid: SessionId, title: String)
        ensures
            match first_on_session(old(self).apps@, sid) {
                Some(k) => {
                    &&& final(self).foreground == k
                    &&& final(self).apps@.len() == old(self).apps@.len()
                },
                None => {
                    &&& final(self).apps@.len() == old(self).apps@.len() + 1
                    &&& final(self).foreground == old(self).apps@.len()
                    &&& final(self).apps@.last().session_id == sid
                    &&& final(self).apps@.last().title == title
                },
            },
            final(self).foreground < final(self).apps@.len(),
            final(self).apps@[final(self).foreground as int].session_id == sid,
            !final(self).apps@[final(self).foreground as int].has_updates,
            forall|j: int|
                0 <= j < old(self).apps@.len() && j != final(self).foreground ==> #[trigger] final(self).apps@[j]
                    == old(self).apps@[j],
    {
        proof {
            lemma_first_on_session(self.apps@, sid);
        }
        let ghost found = first_on_session(self.apps@, sid);
        match self.app_on_session(sid) {
            Some(i) => {
                assert(found == Some(i as nat));
                self.foreground = i;
            },
            None => {
                self.apps.push(AppRecord::new(sid, title));
                self.foreground = self.apps.len() - 1;
            },
        }
        let f = self.foreground;
        self.clear_badge(f);
    }

    /// The router picked app `idx` for a request and `prompt` was sent to
    /// it: it takes the screen, answers `prompt`, and gets a fresh repair
    /// allowance.
    pub fn activate_for_request(&mut self, idx: usize, prompt: PromptId)
        requires
            idx < old(self).apps@.len(),
        ensures
            final(self).foreground == idx,
            final(self).apps@.len() == old(self).apps@.len(),
            forall|j: int|
                0 <= j < old(self).apps@.len() ==> #[trigger] final(self).apps@[j] == if j == idx {
                    AppRecord {
                        current_prompt: Some(prompt),
                        repair_attempted: false,
                        ..old(self).apps@[j]
                    }
                } else {
                    old(self).apps@[j]
                },
    {
        self.foreground = idx;
        let mut a = self.apps.remove(idx);
        a.current_prompt = Some(prompt);
        a.repair_attempted = false;
        self.apps.insert(idx, a);
    }

    /// Open a fresh app on session `sid`, titled `App <n>` (its 1-based
    /// position), and put it on screen.
    pub fn open_new_app(&mut self, sid: SessionId)
        requires
            old(self).apps@.len() < usize::MAX,
        ensures
            final(self).apps@.len() == old(self).apps@.len() + 1,
            final(self).apps@.take(old(self).apps@.len() as int) == old(self).apps@,
            final(self).foreground == old(self).apps@.len(),
            final(self).apps@.last().session_id == sid,
            final(self).apps@.last().title@ == "App "@ + decimal(old(self).apps@.len() + 1),
            final(self).apps@.last().domain is None,
            final(self).apps@.last().current_prompt is None,
            !final(self).apps@.last().has_updates,
            !final(self).apps@.last().repair_attempted,
    {
        let n = self.apps.len() + 1;
        let mut title = String::from_str("App ");
        push_decimal(&mut title, n as u64);
        let ghost before = self.apps@;
        self.apps.push(AppRecord::new(sid, title));
        assert(self.apps@.take(before.len() as int) =~= before);
        self.foreground = self.apps.len() - 1;
    }

    /// Add a composed app agent for `domain` (not yet on screen).
    pub fn add_composed_app(&mut self, sid: SessionId, domain: &str)
        ensures
            final(self).apps@.len() == old(self).apps@.len() + 1,
            final(self).apps@.take(old(self).apps@.len() as int) == old(self).apps@,
            final(self).foreground == old(self).foreground,
            final(self).apps@.last().session_id == sid,
            final(self).apps@.last().title@ == app_title(domain@),
            serves(final(self).apps@.last(), domain@),
            final(self).apps@.last().current_prompt is None,
            !final(self).apps@.last().has_updates,
            !final(self).apps@.last().repair_attempted,
    {
        let title = title_of_app_id(domain);
        let ghost before = self.apps@;
        self.apps.push(AppRecord::with_domain(sid, title, domain));
        assert(self.apps@.take(before.len() as int) =~= before);
    }

    /// Put app `i` on screen. Out of range: nothing changes. The app on
    /// screen: only its badge is cleared. Another: it takes the screen with
    /// its badge cleared, and the app left is reported.
    pub fn switch_to_app(&mut self, i: usize) -> (r: SwitchOutcome)
        ensures
            i >= old(self).apps@.len() ==> r == SwitchOutcome::Ignored && final(self).foreground
                == old(self).foreground && final(self).apps@ == old(self).apps@,
            i < old(self).apps@.len() && i == old(self).foreground ==> r == SwitchOutcome::SameApp,
            i < old(self).apps@.len() && i != old(self).foreground ==> r
                == (SwitchOutcome::Switched { left: old(self).foreground }),
            i < old(self).apps@.len() ==> {
                &&& final(self).foreground == i
                &&& final(self).apps@.len() == old(self).apps@.len()
                &&& forall|j: int|
                    0 <= j < old(self).apps@.len() ==> #[trigger] final(self).apps@[j] == if j
                        == i {
                        AppRecord { has_updates: false, ..old(self).apps@[j] }
                    } else {
                        old(self).apps@[j]
                    }
            },
    {
        if i >= self.apps.len() {
            return SwitchOutcome::Ignored;
        }
        let prev = self.foreground;
        self.clear_badge(i);
        if i == prev {
            return SwitchOutcome::SameApp;
        }
        self.foreground = i;
        SwitchOutcome::Switched { left: prev }
    }

    /// A delta of `prompt` arrived. When the prompt belongs to an app in
    /// the background, that app is badged and the delta is not shown;
    /// otherwise (the app on screen, or no app) it is shown.
    pub fn note_stream_event(&mut self, prompt: PromptId) -> (shown: bool)
        ensures
            final(self).foreground == old(self).foreground,
            final(self).apps@.len() == old(self).apps@.len(),
            match first_answering(old(self).apps@, prompt) {
                Some(k) => if k != old(self).foreground {
                    &&& !shown
                    &&& forall|j: int|
                        0 <= j < old(self).apps@.len() ==> #[trigger] final(self).apps@[j] == if j
                            == k {
                            AppRecord { has_updates: true, ..old(self).apps@[j] }
                        } else {
                            old(self).apps@[j]
                        }
                } else {
                    shown && final(self).apps@ == old(self).apps@
                },
                None => shown && final(self).apps@ == old(self).apps@,
            },
    {
        match self.app_of_prompt(prompt) {
            Some(i) => {
                if i != self.foreground {
                    let mut a = self.apps.remove(i);
                    a.has_updates = true;
                    self.apps.insert(i, a);
                    false
                } else {
                    true
                }
            },
            None => true,
        }
    }

    /// A turn of `prompt` completed. An app in the background forgets the
    /// prompt and is badged, and the reply is not shown; otherwise it is.
    pub fn note_turn_complete(&mut self, prompt: PromptId) -> (shown: bool)
        ensures
            final(self).foreground == old(self).foreground,
            final(self).apps@.len() == old(self).apps@.len(),
            match first_answering(old(self).apps@, prompt) {
                Some(k) => if k != old(self).foreground {
                    &&& !shown
                    &&& forall|j: int|
                        0 <= j < old(self).apps@.len() ==> #[trigger] final(self).apps@[j] == if j
                            == k {
                            AppRecord { has_updates: true, current_prompt: None, ..old(self).apps@[j] }
                        } else {
                            old(self).apps@[j]
                        }
                } else {
                    shown && final(self).apps@ == old(self).apps@
                },
                None => shown && final(self).apps@ == old(self).apps@,
            },
    {
        match self.app_of_prompt(prompt) {
            Some(i) => {
                if i != self.foreground {
                    let mut a = self.apps.remove(i);
                    a.has_updates = true;
                    a.current_prompt = None;
                    self.apps.insert(i, a);
                    false
                } else {
                    true
                }
            },
            None => true,
        }
    }

    /// The next app in turn (wrapping), when there is more than one.
    pub fn next_app(&self) -> (r: Option<usize>)
        ensures
            self.apps@.len() > 1 ==> r == Some(((self.foreground + 1) % (self.apps@.len() as int)) as usize),
            self.apps@.len() <= 1 ==> r is None,
    {
        let n = self.apps.len();
        if n > 1 {
            Some(((self.foreground as u128 + 1) % (n as u128)) as usize)
        } else {
            None
        }
    }
}

proof fn lemma_first_on_session(apps: Seq<AppRecord>, sid: SessionId)
    ensures
        match first_on_session(apps, sid) {
            Some(k) => k < apps.len() && apps[k as int].session_id == sid,
            None => true,
        },
    decreases apps.len(),
{
    if apps.len() > 0 && apps[0].session_id != sid {
        lemma_first_on_session(apps.drop_first(), sid);
    }
}

// ---------------------------------------------------------------------------
// Routing a decision to an app
// ---------------------------------------------------------------------------

/// What to do with a router decision that names app `id`.
#[derive(Clone, Copy, Debug, PartialEq, Eq, Structural)]
pub enum ComposeStep {
    /// An app agent serves the id: route the held request to it.
    RouteExisting,
    /// The app's spec exists: create an agent for it, then route.
    CreateAgent,
    /// No spec for the id: route the request to the weather app instead.
    FallBackToWeather,
}

/// How to serve a `compose` decision for `id`, given whether an app
/// already serves it and whether its spec exists on disk.
pub fn compose_step(served: bool, spec_exists: bool) -> (s: ComposeStep)
    ensures
        s == if served {
            ComposeStep::RouteExisting
        } else if spec_exists {
            ComposeStep::CreateAgent
        } else {
            ComposeStep::FallBackToWeather
        },
{
    if served {
        ComposeStep::RouteExisting
    } else if spec_exists {
        ComposeStep::CreateAgent
    } else {
        ComposeStep::FallBackToWeather
    }
}

/// The non-empty pieces of `s` between dashes.
pub open spec fn dash_words(s: Seq<char>) -> Seq<Seq<char>>
    decreases s.len(),
{
    let k = before_char(s, '-');
    let w = s.take(k as int);
    let rest = if k < s.len() {
        dash_words(s.skip(k as int + 1))
    } else {
        Seq::<Seq<char>>::empty()
    };
    if w.len() > 0 {
        seq![w] + rest
    } else {
        rest
    }
}

pub open spec fn ascii_upper(c: char) -> char {
    if 'a' <= c && c <= 'z' {
        ((c as u32) - 32) as char
    } else {
        c
    }
}

/// A word with its first character in ASCII upper case.
pub open spec fn capitalized(w: Seq<char>) -> Seq<char> {
    seq![ascii_upper(w[0])] + w.drop_first()
}

/// Capitalized words joined by single spaces.
pub open spec fn joined(ws: Seq<Seq<char>>) -> Seq<char>
    decreases ws.len(),
{
    if ws.len() == 0 {
        Seq::empty()
    } else if ws.len() == 1 {
        capitalized(ws[0])
    } else {
        capitalized(ws[0]) + " "@ + joined(ws.drop_first())
    }
}

/// The title of a composed app: `weather-activity` is `Weather Activity`.
pub open spec fn app_title(id: Seq<char>) -> Seq<char> {
    joined(dash_words(id))
}

/// `out` followed by the joined words `ws`, with a space between when both
/// are non-empty.
pub open spec fn then_joined(out: Seq<char>, ws: Seq<Seq<char>>) -> Seq<char> {
    if out.len() == 0 {
        joined(ws)
    } else if ws.len() == 0 {
        out
    } else {
        out + " "@ + joined(ws)
    }
}

fn to_ascii_upper(c: char) -> (r: char)
    ensures
        r == ascii_upper(c),
{
    if 'a' <= c && c <= 'z' {
        let b: u8 = ((c as u32) - 32) as u8;
        b as char
    } else {
        c
    }
}

proof fn lemma_dash_words_step(s: Seq<char>, i: int, k: int)
    requires
        0 <= i <= k <= s.len(),
        k - i == before_char(s.subrange(i, s.len() as int), '-'),
    ensures
        dash_words(s.skip(i)) == {
            let w = s.subrange(i, k);
            let rest = if k < s.len() {
                dash_words(s.skip(k + 1))
            } else {
                Seq::<Seq<char>>::empty()
            };
            if w.len() > 0 {
                seq![w] + rest
            } else {
                rest
            }
        },
{
    assert(s.skip(i) == s.subrange(i, s.len() as int));
    assert(s.skip(i).take(k - i) == s.subrange(i, k));
    if k < s.len() {
        assert(s.skip(i).skip(k - i + 1) == s.skip(k + 1));
    }
}

/// The title of a composed app from its id.
pub fn title_of_app_id(id: &str) -> (t: String)
    ensures
        t@ == app_title(id@),
{
    let v = chars_of(id);
    let n = v.len();
    let mut out = String::new();
    let mut i: usize = 0;
    assert(v@.skip(0) == v@);
    while i < n
        invariant
            n == v@.len(),
            v@ == id@,
            i <= n,
            app_title(id@) == then_joined(out@, dash_words(v@.skip(i as int))),
        decreases n - i,
    {
        let k = scan_to_char(&v, i, n, '-');
        proof {
            lemma_dash_words_step(v@, i as int, k as int);
        }
        let ghost rest = if k < n {
            dash_words(v@.skip(k + 1))
        } else {
            Seq::<Seq<char>>::empty()
        };
        if k > i {
            let ghost w = v@.subrange(i as int, k as int);
            let ghost before = out@;
            if out.as_str().is_empty() == false {
                out.push(' ');
            }
            out.push(to_ascii_upper(v[i]));
            push_range(&mut out, &v, i + 1, k);
            proof {
                assert(w.drop_first() == v@.subrange(i + 1, k as int));
                assert(capitalized(w) == seq![ascii_upper(v@[i as int])] + v@.subrange(i + 1, k as int));
                if before.len() == 0 {
                    assert(out@ == capitalized(w));
                    if rest.len() > 0 {
                        assert((seq![w] + rest).drop_first() == rest);
                    } else {
                        assert(seq![w] + rest == seq![w]);
                    }
                } else {
                    assert(out@ == before + " "@ + capitalized(w)) by {
                        reveal_strlit(" ");
                    }
                    if rest.len() > 0 {
                        assert((seq![w] + rest).drop_first() == rest);
                        assert(then_joined(before, seq![w] + rest) == before + " "@ + (capitalized(w)
                            + " "@ + joined(rest)));
                    } else {
                        assert(seq![w] + rest == seq![w]);
                    }
                }
            }
        }
        if k < n {
            i = k + 1;
        } else {
            i = n;
            assert(v@.skip(n as int) == Seq::<char>::empty());
            assert(dash_words(Seq::<char>::empty()) == Seq::<Seq<char>>::empty());
        }
    }
    out
}

} // verus!
