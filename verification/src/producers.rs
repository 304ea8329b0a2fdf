//! Studio / Slides / Sites producer surfaces: the per-kind state slices
//! and the folds that edit them.

use vstd::prelude::*;
use crate::text::{trim, trim_str};

verus! {

broadcast use vstd::string::group_string_axioms;

/// Which producer surface a state slice or widget belongs to.
#[derive(Clone, Copy, Debug, PartialEq, Eq, Structural)]
pub enum ProducerKind {
    Studio,
    Slides,
    Sites,
}

/// The producer axis of the navigation store.
#[derive(Clone, Copy, Debug, PartialEq, Eq, Structural)]
pub enum Producer {
    Studio,
    Slides,
    Sites,
}

impl ProducerKind {
    /// The screen header.
    pub fn to_label(self) -> (s: &'static str)
        ensures
            s@ == match self {
                ProducerKind::Studio => "Studio"@,
                ProducerKind::Slides => "Slides"@,
                ProducerKind::Sites => "Sites"@,
            },
    {
        match self {
            ProducerKind::Studio => "Studio",
            ProducerKind::Slides => "Slides",
            ProducerKind::Sites => "Sites",
        }
    }

    /// Server-side system-prompt context id for the kind.
    pub fn system_prompt_context_id(self) -> (s: &'static str)
        ensures
            s@ == match self {
                ProducerKind::Studio => "studio.system_prompt.v1"@,
                ProducerKind::Slides => "slides.system_prompt.v1"@,
                ProducerKind::Sites => "sites.system_prompt.v1"@,
            },
    {
        match self {
            ProducerKind::Studio => "studio.system_prompt.v1",
            ProducerKind::Slides => "slides.system_prompt.v1",
            ProducerKind::Sites => "sites.system_prompt.v1",
        }
    }

    /// The UI kind of a navigation producer.
    pub fn from_producer(p: Producer) -> (k: Self)
        ensures
            k == match p {
                Producer::Studio => ProducerKind::Studio,
                Producer::Slides => ProducerKind::Slides,
                Producer::Sites => ProducerKind::Sites,
            },
    {
        match p {
            Producer::Studio => ProducerKind::Studio,
            Producer::Slides => ProducerKind::Slides,
            Producer::Sites => ProducerKind::Sites,
        }
    }
}

/// Per-kind project metadata.
#[derive(Clone, Debug)]
pub struct ProjectMeta {
    pub id: String,
    pub title: String,
    pub session_id: Option<String>,
}

/// One generation result.
#[derive(Clone, Debug)]
pub struct GenerationOutput {
    pub title: String,
    /// e.g. "summary" / "podcast" / "slides" / "site".
    pub kind: String,
    /// `None` = not yet exported / inline-only.
    pub open_url: Option<String>,
}

/// Per-kind UI state slice.
pub struct ProducerState {
    pub current: Option<String>,
    pub projects: Vec<ProjectMeta>,
    /// User-pasted source rows (URL or text).
    pub sources: Vec<String>,
    /// Latest first.
    pub generation_history: Vec<GenerationOutput>,
    /// Stash for the source input so typing survives redraws.
    pub source_input_buffer: String,
}

impl ProducerState {
    pub fn new() -> (s: Self)
        ensures
            s.current is None,
            s.projects@.len() == 0,
            s.sources@.len() == 0,
            s.generation_history@.len() == 0,
            s.source_input_buffer@ == Seq::<char>::empty(),
    {
        ProducerState {
            current: None,
            projects: Vec::new(),
            sources: Vec::new(),
            generation_history: Vec::new(),
            source_input_buffer: String::new(),
        }
    }
}

/// The three slices, one per kind, so the screens do not trample each other.
pub struct ProducerStates {
    pub studio: ProducerState,
    pub slides: ProducerState,
    pub sites: ProducerState,
}

pub open spec fn sources_view(s: &ProducerState) -> Seq<Seq<char>> {
    s.sources@.map_values(|x: String| x@)
}

impl ProducerStates {
    pub fn new() -> (s: Self)
        ensures
            forall|k: ProducerKind| {
                &&& #[trigger] s.slice(k).current is None
                &&& s.slice(k).projects@.len() == 0
                &&& s.slice(k).sources@.len() == 0
                &&& s.slice(k).generation_history@.len() == 0
                &&& s.slice(k).source_input_buffer@.len() == 0
            },
    {
        ProducerStates { studio: ProducerState::new(), slides: ProducerState::new(), sites: ProducerState::new() }
    }

    pub open spec fn slice(&self, kind: ProducerKind) -> &ProducerState {
        match kind {
            ProducerKind::Studio => &self.studio,
            ProducerKind::Slides => &self.slides,
            ProducerKind::Sites => &self.sites,
        }
    }

    /// The slice of `kind`.
    pub fn get(&self, kind: ProducerKind) -> (s: &ProducerState)
        ensures
            s == self.slice(kind),
    {
        match kind {
            ProducerKind::Studio => &self.studio,
            ProducerKind::Slides => &self.slides,
            ProducerKind::Sites => &self.sites,
        }
    }
}

/// Append a typed source row to `kind`'s slice, trimmed, and clear its
/// input buffer; a blank row is ignored. The other slices are untouched.
pub fn fold_add_source(states: &mut ProducerStates, kind: ProducerKind, raw: String)
    ensures
        forall|k: ProducerKind|
            k != kind ==> #[trigger] final(states).slice(k) == old(states).slice(k),
        trim(raw@).len() == 0 ==> final(states).slice(kind) == old(states).slice(kind),
        trim(raw@).len() > 0 ==> {
            &&& sources_view(final(states).slice(kind)) == sources_view(old(states).slice(kind)).push(
                trim(raw@),
            )
            &&& final(states).slice(kind).source_input_buffer@ == Seq::<char>::empty()
            &&& final(states).slice(kind).generation_history == old(states).slice(
                kind,
            ).generation_history
            &&& final(states).slice(kind).current == old(states).slice(kind).current
            &&& final(states).slice(kind).projects == old(states).slice(kind).projects
        },
{
    let t = trim_str(raw.as_str());
    if t.is_empty() {
        return;
    }
    let trimmed = String::from_str(t);
    let s = match kind {
        ProducerKind::Studio => &mut states.studio,
        ProducerKind::Slides => &mut states.slides,
        ProducerKind::Sites => &mut states.sites,
    };
    let ghost before = s.sources@;
    let ghost tv = trimmed@;
    s.sources.push(trimmed);
    assert(s.sources@.map_values(|x: String| x@) == before.map_values(|x: String| x@).push(tv));
    s.source_input_buffer = String::new();
}

/// Mirror the source input into `kind`'s slice so it survives redraws.
pub fn fold_source_input_changed(states: &mut ProducerStates, kind: ProducerKind, text: String)
    ensures
        forall|k: ProducerKind|
            k != kind ==> #[trigger] final(states).slice(k) == old(states).slice(k),
        final(states).slice(kind).source_input_buffer == text,
        final(states).slice(kind).sources == old(states).slice(kind).sources,
        final(states).slice(kind).generation_history == old(states).slice(kind).generation_history,
        final(states).slice(kind).current == old(states).slice(kind).current,
        final(states).slice(kind).projects == old(states).slice(kind).projects,
{
    match kind {
        ProducerKind::Studio => states.studio.source_input_buffer = text,
        ProducerKind::Slides => states.slides.source_input_buffer = text,
        ProducerKind::Sites => states.sites.source_input_buffer = text,
    }
}

/// A generation's "Open" hands the URL to the OS only when there is one.
pub fn should_open_externally(url: &str) -> (b: bool)
    ensures
        b == (url@.len() > 0),
{
    !url.is_empty()
}

} // verus!
