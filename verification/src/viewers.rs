//! The file viewer overlay: which viewer a file opens in, the image
//! album's ordering and stepping, and the overlay's state transitions.

use vstd::prelude::*;
use crate::content::{FileEntry, FileKind};
use crate::order::{lex_less, lex_lt, lemma_lex_asymmetric, lemma_lex_total, lemma_lex_transitive};
use crate::text::str_eq;

verus! {

broadcast use vstd::string::group_string_axioms;

/// What is open in the overlay. File handles are their opaque strings.
#[derive(Debug, Clone)]
pub enum OpenViewer {
    Closed,
    ImageAlbum { handles: Vec<String>, active: usize },
    Markdown { handle: String },
    Audio { handle: String },
    Video { handle: String },
    /// PDF, other or unknown kinds: a generic hand-off card.
    Generic { handle: String },
}

/// The characters of what is open.
pub enum ViewerView {
    Closed,
    ImageAlbum { handles: Seq<Seq<char>>, active: nat },
    Markdown { handle: Seq<char> },
    Audio { handle: Seq<char> },
    Video { handle: Seq<char> },
    Generic { handle: Seq<char> },
}

pub open spec fn strs_view(v: Seq<String>) -> Seq<Seq<char>> {
    v.map_values(|s: String| s@)
}

impl OpenViewer {
    pub open spec fn view(&self) -> ViewerView {
        match self {
            OpenViewer::Closed => ViewerView::Closed,
            OpenViewer::ImageAlbum { handles, active } => ViewerView::ImageAlbum {
                handles: strs_view(handles@),
                active: *active as nat,
            },
            OpenViewer::Markdown { handle } => ViewerView::Markdown { handle: handle@ },
            OpenViewer::Audio { handle } => ViewerView::Audio { handle: handle@ },
            OpenViewer::Video { handle } => ViewerView::Video { handle: handle@ },
            OpenViewer::Generic { handle } => ViewerView::Generic { handle: handle@ },
        }
    }

    /// An album's position is one of its images.
    pub open spec fn wf(&self) -> bool {
        match self {
            OpenViewer::ImageAlbum { handles, active } => *active < handles@.len(),
            _ => true,
        }
    }

    pub fn is_open(&self) -> (b: bool)
        ensures
            b == !(self.view() is Closed),
    {
        match self {
            OpenViewer::Closed => false,
            _ => true,
        }
    }

    /// The file in focus: the album's current image, or the single file.
    pub fn focus_handle(&self) -> (h: Option<&String>)
        ensures
            match self.view() {
                ViewerView::Closed => h is None,
                ViewerView::ImageAlbum { handles, active } => if active < handles.len() {
                    h is Some && h->0@ == handles[active as int]
                } else {
                    h is None
                },
                ViewerView::Markdown { handle } => h is Some && h->0@ == handle,
                ViewerView::Audio { handle } => h is Some && h->0@ == handle,
                ViewerView::Video { handle } => h is Some && h->0@ == handle,
                ViewerView::Generic { handle } => h is Some && h->0@ == handle,
            },
    {
        match self {
            OpenViewer::Closed => None,
            OpenViewer::ImageAlbum { handles, active } => {
                if *active < handles.len() {
                    Some(&handles[*active])
                } else {
                    None
                }
            },
            OpenViewer::Markdown { handle } => Some(handle),
            OpenViewer::Audio { handle } => Some(handle),
            OpenViewer::Video { handle } => Some(handle),
            OpenViewer::Generic { handle } => Some(handle),
        }
    }
}

// ---------------------------------------------------------------------------
// Picking a viewer
// ---------------------------------------------------------------------------

/// The kind of the first stored file with handle `h`.
pub open spec fn kind_of(files: Seq<FileEntry>, h: Seq<char>) -> Option<FileKind>
    decreases files.len(),
{
    if files.len() == 0 {
        None
    } else if files[0].handle@ == h {
        Some(files[0].kind)
    } else {
        kind_of(files.drop_first(), h)
    }
}

/// The name of the first stored file with handle `h`.
pub open spec fn name_of(files: Seq<FileEntry>, h: Seq<char>) -> Option<Seq<char>>
    decreases files.len(),
{
    if files.len() == 0 {
        None
    } else if files[0].handle@ == h {
        Some(files[0].name@)
    } else {
        name_of(files.drop_first(), h)
    }
}

/// What the overlay titles a file with: its stored name, or the handle
/// itself when the file is unknown or has an empty name.
pub open spec fn spec_display_name(files: Seq<FileEntry>, h: Seq<char>) -> Seq<char> {
    match name_of(files, h) {
        Some(n) => if n.len() > 0 { n } else { h },
        None => h,
    }
}

/// Where a sorted insertion puts string `x` into `s`, scanning from the back.
pub open spec fn str_insert_pos(s: Seq<Seq<char>>, x: Seq<char>) -> nat
    decreases s.len(),
{
    if s.len() == 0 {
        0
    } else if lex_lt(x, s.last()) {
        str_insert_pos(s.drop_last(), x)
    } else {
        s.len()
    }
}

/// `s` in string order.
pub open spec fn sort_strs(s: Seq<Seq<char>>) -> Seq<Seq<char>>
    decreases s.len(),
{
    if s.len() == 0 {
        s
    } else {
        let r = sort_strs(s.drop_last());
        r.insert(str_insert_pos(r, s.last()) as int, s.last())
    }
}

/// The handles of the stored images, in store order.
pub open spec fn image_handles(files: Seq<FileEntry>) -> Seq<Seq<char>>
    decreases files.len(),
{
    if files.len() == 0 {
        Seq::empty()
    } else {
        let r = image_handles(files.drop_last());
        if files.last().kind == FileKind::Image {
            r.push(files.last().handle@)
        } else {
            r
        }
    }
}

/// The first index of `x` in `s`.
pub open spec fn position_of(s: Seq<Seq<char>>, x: Seq<char>) -> Option<nat>
    decreases s.len(),
{
    if s.len() == 0 {
        None
    } else if s[0] == x {
        Some(0)
    } else {
        match position_of(s.drop_first(), x) {
            Some(k) => Some(k + 1),
            None => None,
        }
    }
}

/// The viewer a file opens in: an album of every stored image (in handle
/// order, positioned on the file) for images, the markdown reader, the
/// audio or video pane, or the generic card; an unknown file is `Other`.
pub open spec fn spec_viewer_for(files: Seq<FileEntry>, h: Seq<char>) -> ViewerView {
    let kind = match kind_of(files, h) {
        Some(k) => k,
        None => FileKind::Other,
    };
    match kind {
        FileKind::Image => {
            let handles = sort_strs(image_handles(files));
            if handles.len() == 0 {
                ViewerView::ImageAlbum { handles: seq![h], active: 0 }
            } else {
                ViewerView::ImageAlbum {
                    handles,
                    active: match position_of(handles, h) {
                        Some(k) => k,
                        None => 0,
                    },
                }
            }
        },
        FileKind::Markdown => ViewerView::Markdown { handle: h },
        FileKind::Audio => ViewerView::Audio { handle: h },
        FileKind::Video => ViewerView::Video { handle: h },
        _ => ViewerView::Generic { handle: h },
    }
}

fn find_kind(files: &Vec<FileEntry>, handle: &str) -> (k: Option<FileKind>)
    ensures
        k == kind_of(files@, handle@),
{
    let mut i: usize = 0;
    assert(files@.skip(0) == files@);
    while i < files.len()
        invariant
            i <= files@.len(),
            kind_of(files@, handle@) == kind_of(files@.skip(i as int), handle@),
        decreases files.len() - i,
    {
        assert(files@.skip(i as int)[0] == files@[i as int]);
        if str_eq(files[i].handle.as_str(), handle) {
            return Some(files[i].kind);
        }
        assert(files@.skip(i as int).drop_first() == files@.skip(i + 1));
        i = i + 1;
    }
    None
}

/// The overlay's title for the file `handle`.
pub fn display_name(files: &Vec<FileEntry>, handle: &str) -> (s: String)
    ensures
        s@ == spec_display_name(files@, handle@),
{
    let mut i: usize = 0;
    assert(files@.skip(0) == files@);
    while i < files.len()
        invariant
            i <= files@.len(),
            name_of(files@, handle@) == name_of(files@.skip(i as int), handle@),
        decreases files.len() - i,
    {
        assert(files@.skip(i as int)[0] == files@[i as int]);
        if str_eq(files[i].handle.as_str(), handle) {
            if !files[i].name.as_str().is_empty() {
                return files[i].name.clone();
            } else {
                return String::from_str(handle);
            }
        }
        assert(files@.skip(i as int).drop_first() == files@.skip(i + 1));
        i = i + 1;
    }
    String::from_str(handle)
}

fn insert_str(v: &mut Vec<String>, x: String)
    ensures
        strs_view(final(v)@) == strs_view(old(v)@).insert(
            str_insert_pos(strs_view(old(v)@), x@) as int,
            x@,
        ),
{
    let ghost s = strs_view(v@);
    let mut p: usize = v.len();
    assert(s.take(p as int) =~= s);
    while p > 0 && lex_less(x.as_str(), v[p - 1].as_str())
        invariant
            s == strs_view(v@),
            p <= v@.len(),
            str_insert_pos(s, x@) == str_insert_pos(s.take(p as int), x@),
        decreases p,
    {
        assert(s.take(p as int).drop_last() =~= s.take(p - 1));
        p = p - 1;
    }
    proof {
        if p > 0 {
            assert(s.take(p as int).last() == s[p - 1]);
        }
    }
    v.insert(p, x);
    assert(strs_view(v@) =~= s.insert(p as int, x@));
}

/// The handles of every stored image, in handle order.
pub fn collect_image_handles(files: &Vec<FileEntry>) -> (v: Vec<String>)
    ensures
        strs_view(v@) == sort_strs(image_handles(files@)),
{
    let mut v: Vec<String> = Vec::new();
    let mut i: usize = 0;
    while i < files.len()
        invariant
            i <= files@.len(),
            strs_view(v@) == sort_strs(image_handles(files@.take(i as int))),
        decreases files.len() - i,
    {
        assert(files@.take(i + 1).drop_last() == files@.take(i as int));
        let ghost prev = image_handles(files@.take(i as int));
        if files[i].kind == FileKind::Image {
            let h = files[i].handle.clone();
            assert(prev.push(h@).drop_last() =~= prev);
            insert_str(&mut v, h);
        }
        i = i + 1;
    }
    assert(files@.take(files@.len() as int) == files@);
    v
}

pub open spec fn shifted(o: Option<nat>, by: nat) -> Option<nat> {
    match o {
        Some(k) => Some(k + by),
        None => None,
    }
}

fn position(v: &Vec<String>, x: &str) -> (r: Option<usize>)
    ensures
        match position_of(strs_view(v@), x@) {
            Some(k) => r == Some(k as usize) && k < v@.len(),
            None => r is None,
        },
{
    let ghost s = strs_view(v@);
    let mut i: usize = 0;
    assert(s.skip(0) == s);
    while i < v.len()
        invariant
            s == strs_view(v@),
            i <= v@.len(),
            position_of(s, x@) == shifted(position_of(s.skip(i as int), x@), i as nat),
        decreases v.len() - i,
    {
        assert(s.skip(i as int)[0] == v@[i as int]@);
        if str_eq(v[i].as_str(), x) {
            return Some(i);
        }
        assert(s.skip(i as int).drop_first() == s.skip(i + 1));
        i = i + 1;
    }
    None
}

/// Pick the viewer for the file `handle` among the stored `files`.
pub fn viewer_for(files: &Vec<FileEntry>, handle: &str) -> (r: OpenViewer)
    ensures
        r.view() == spec_viewer_for(files@, handle@),
        r.wf(),
{
    let kind = match find_kind(files, handle) {
        Some(k) => k,
        None => FileKind::Other,
    };
    let h = String::from_str(handle);
    match kind {
        FileKind::Image => {
            let handles = collect_image_handles(files);
            if handles.len() == 0 {
                let v = vec![h];
                assert(strs_view(v@) =~= seq![handle@]);
                OpenViewer::ImageAlbum { handles: v, active: 0 }
            } else {
                let active = match position(&handles, handle) {
                    Some(k) => k,
                    None => 0,
                };
                OpenViewer::ImageAlbum { handles, active }
            }
        },
        FileKind::Markdown => OpenViewer::Markdown { handle: h },
        FileKind::Audio => OpenViewer::Audio { handle: h },
        FileKind::Video => OpenViewer::Video { handle: h },
        _ => OpenViewer::Generic { handle: h },
    }
}

// ---------------------------------------------------------------------------
// Overlay state
// ---------------------------------------------------------------------------

/// The overlay: what is open and the last load error.
pub struct ViewerState {
    pub open: OpenViewer,
    pub last_error: Option<String>,
}

/// The album position after stepping by `delta`, held inside the album.
pub open spec fn stepped(active: int, delta: int, len: int) -> int {
    let n = active + delta;
    if n < 0 {
        0
    } else if n > len - 1 {
        len - 1
    } else {
        n
    }
}

impl ViewerState {
    /// Nothing open, no error.
    pub fn new() -> (s: Self)
        ensures
            s.open.view() is Closed,
            s.last_error is None,
    {
        ViewerState { open: OpenViewer::Closed, last_error: None }
    }

    /// Open a viewer; any earlier error is cleared. Returns whether the
    /// markdown body must be fetched: a markdown viewer whose body is not
    /// `cached`.
    pub fn open_viewer(&mut self, open: OpenViewer, cached: bool) -> (fetch: bool)
        ensures
            final(self).open == open,
            final(self).last_error is None,
            fetch == (open.view() is Markdown && !cached),
    {
        let fetch = match &open {
            OpenViewer::Markdown { .. } => !cached,
            _ => false,
        };
        self.open = open;
        self.last_error = None;
        fetch
    }

    /// Close the overlay.
    pub fn close(&mut self)
        ensures
            final(self).open.view() is Closed,
            final(self).last_error == old(self).last_error,
    {
        self.open = OpenViewer::Closed;
    }

    /// A markdown body arrived (the body itself goes to the cache).
    pub fn markdown_loaded(&mut self)
        ensures
            final(self).open == old(self).open,
            final(self).last_error is None,
    {
        self.last_error = None;
    }

    /// A markdown fetch failed.
    pub fn markdown_failed(&mut self, error: String)
        ensures
            final(self).open == old(self).open,
            final(self).last_error == Some(error),
    {
        self.last_error = Some(error);
    }

    /// Step the album by `delta` images, staying inside it. Nothing changes
    /// when no album is open.
    pub fn album_step(&mut self, delta: i32)
        requires
            old(self).open.wf(),
            old(self).open matches OpenViewer::ImageAlbum { handles, active } ==> handles@.len()
                <= i32::MAX && i32::MIN <= active + delta <= i32::MAX,
        ensures
            final(self).open.wf(),
            final(self).last_error == old(self).last_error,
            match old(self).open.view() {
                ViewerView::ImageAlbum { handles, active } => final(self).open.view()
                    == ViewerView::ImageAlbum {
                    handles,
                    active: stepped(active as int, delta as int, handles.len() as int) as nat,
                },
                _ => final(self).open == old(self).open,
            },
    {
        match &mut self.open {
            OpenViewer::ImageAlbum { handles, active } => {
                if handles.len() > 0 {
                    let len = handles.len() as i32;
                    let n = *active as i32 + delta;
                    let next = if n < 0 {
                        0
                    } else if n > len - 1 {
                        len - 1
                    } else {
                        n
                    };
                    *active = next as usize;
                }
            },
            _ => {},
        }
    }
}

// ---------------------------------------------------------------------------
// The album is in handle order
// ---------------------------------------------------------------------------

/// No handle sorts before an earlier one.
pub open spec fn strs_sorted(s: Seq<Seq<char>>) -> bool {
    forall|i: int, j: int| 0 <= i < j < s.len() ==> !lex_lt(#[trigger] s[j], #[trigger] s[i])
}

proof fn lemma_str_insert_pos(s: Seq<Seq<char>>, x: Seq<char>)
    ensures
        str_insert_pos(s, x) <= s.len(),
        forall|k: int| str_insert_pos(s, x) <= k < s.len() ==> lex_lt(x, #[trigger] s[k]),
        str_insert_pos(s, x) > 0 ==> !lex_lt(x, s[str_insert_pos(s, x) - 1]),
    decreases s.len(),
{
    if s.len() > 0 && lex_lt(x, s.last()) {
        lemma_str_insert_pos(s.drop_last(), x);
        assert forall|k: int| str_insert_pos(s, x) <= k < s.len() implies lex_lt(x, #[trigger] s[k]) by {
            if k < s.len() - 1 {
                assert(s[k] == s.drop_last()[k]);
            }
        }
    }
}

proof fn lemma_lex_le_transitive(a: Seq<char>, b: Seq<char>, c: Seq<char>)
    requires
        !lex_lt(b, a),
        !lex_lt(c, b),
    ensures
        !lex_lt(c, a),
{
    if lex_lt(c, a) {
        lemma_lex_total(a, b);
        if lex_lt(a, b) {
            lemma_lex_transitive(c, a, b);
        }
    }
}

proof fn lemma_sort_strs(s: Seq<Seq<char>>)
    ensures
        strs_sorted(sort_strs(s)),
        sort_strs(s).to_multiset() == s.to_multiset(),
    decreases s.len(),
{
    broadcast use vstd::seq_lib::group_to_multiset_ensures;

    if s.len() > 0 {
        let r = sort_strs(s.drop_last());
        let x = s.last();
        lemma_sort_strs(s.drop_last());
        lemma_str_insert_pos(r, x);
        let p = str_insert_pos(r, x) as int;
        let t = r.insert(p, x);
        assert forall|i: int, j: int| 0 <= i < j < t.len() implies !lex_lt(#[trigger] t[j], #[trigger] t[i]) by {
            if j < p {
                assert(t[i] == r[i] && t[j] == r[j]);
            } else if j == p {
                assert(t[i] == r[i]);
                if i < p - 1 {
                    lemma_lex_le_transitive(r[i], r[p - 1], x);
                }
            } else if i == p {
                assert(t[j] == r[j - 1]);
                lemma_lex_asymmetric(x, r[j - 1]);
            } else if i < p {
                assert(t[i] == r[i] && t[j] == r[j - 1]);
            } else {
                assert(t[i] == r[i - 1] && t[j] == r[j - 1]);
            }
        }
        vstd::seq_lib::to_multiset_insert(r, p, x);
        assert(s.drop_last().push(x) == s);
    }
}

/// An image opens in an album of every stored image, in handle order, whose
/// position is valid.
pub proof fn law_album_sorted(files: Seq<FileEntry>, h: Seq<char>)
    requires
        kind_of(files, h) == Some(FileKind::Image),
    ensures
        spec_viewer_for(files, h) matches ViewerView::ImageAlbum { handles, active } && active
            < handles.len() && (handles == seq![h] || (strs_sorted(handles)
            && handles.to_multiset() == image_handles(files).to_multiset())),
{
    lemma_sort_strs(image_handles(files));
    lemma_position_bound(sort_strs(image_handles(files)), h);
}

proof fn lemma_position_bound(s: Seq<Seq<char>>, x: Seq<char>)
    ensures
        match position_of(s, x) {
            Some(k) => k < s.len() && s[k as int] == x,
            None => true,
        },
    decreases s.len(),
{
    if s.len() > 0 && s[0] != x {
        lemma_position_bound(s.drop_first(), x);
    }
}

} // verus!
