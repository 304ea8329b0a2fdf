//! The content browser: the kind filter, the projection of server rows,
//! and the sorted, filtered card list.

use vstd::prelude::*;
use crate::order::{lex_less, lex_lt, lemma_lex_asymmetric, lemma_lex_irreflexive, lemma_lex_total, lemma_lex_transitive};
use crate::text::{
    ascii_lower, chars_of, contains, find_in, is_ws, str_eq, to_ascii_lower, trim, trim_start, trim_str,
    ws_prefix_len, ws_suffix_len,
};

verus! {

broadcast use vstd::string::group_string_axioms;

/// What a stored file is, as far as the viewers care.
#[derive(Clone, Copy, Debug, PartialEq, Eq, Structural)]
pub enum FileKind {
    Image,
    Audio,
    Video,
    Markdown,
    Pdf,
    Other,
}

/// The filter bar's choice.
#[derive(Clone, Copy, Debug, PartialEq, Eq, Structural)]
pub enum ContentFilter {
    All,
    Image,
    Audio,
    Video,
    Markdown,
    Pdf,
    Other,
}

impl Default for ContentFilter {
    fn default() -> (f: Self)
        ensures
            f == ContentFilter::All,
    {
        ContentFilter::All
    }
}

impl ContentFilter {
    /// The variant of a dropdown index, in the order of the dropdown's
    /// labels; anything else is `All`.
    pub fn from_dropdown_index(i: usize) -> (f: Self)
        ensures
            f == (if i == 1 {
                ContentFilter::Image
            } else if i == 2 {
                ContentFilter::Audio
            } else if i == 3 {
                ContentFilter::Video
            } else if i == 4 {
                ContentFilter::Markdown
            } else if i == 5 {
                ContentFilter::Pdf
            } else if i == 6 {
                ContentFilter::Other
            } else {
                ContentFilter::All
            }),
    {
        match i {
            1 => ContentFilter::Image,
            2 => ContentFilter::Audio,
            3 => ContentFilter::Video,
            4 => ContentFilter::Markdown,
            5 => ContentFilter::Pdf,
            6 => ContentFilter::Other,
            _ => ContentFilter::All,
        }
    }

    pub open spec fn spec_allows(self, kind: FileKind) -> bool {
        match self {
            ContentFilter::All => true,
            ContentFilter::Image => kind == FileKind::Image,
            ContentFilter::Audio => kind == FileKind::Audio,
            ContentFilter::Video => kind == FileKind::Video,
            ContentFilter::Markdown => kind == FileKind::Markdown,
            ContentFilter::Pdf => kind == FileKind::Pdf,
            ContentFilter::Other => kind == FileKind::Other,
        }
    }

    /// Whether a file of `kind` passes the filter.
    pub fn allows(&self, kind: FileKind) -> (b: bool)
        ensures
            b == self.spec_allows(kind),
    {
        match self {
            ContentFilter::All => true,
            ContentFilter::Image => kind == FileKind::Image,
            ContentFilter::Audio => kind == FileKind::Audio,
            ContentFilter::Video => kind == FileKind::Video,
            ContentFilter::Markdown => kind == FileKind::Markdown,
            ContentFilter::Pdf => kind == FileKind::Pdf,
            ContentFilter::Other => kind == FileKind::Other,
        }
    }

    /// The server's `category` query parameter for the filter.
    pub fn server_kind(&self) -> (k: Option<&'static str>)
        ensures
            match *self {
                ContentFilter::All => k is None,
                ContentFilter::Image => k is Some && k->0@ == "image"@,
                ContentFilter::Audio => k is Some && k->0@ == "audio"@,
                ContentFilter::Video => k is Some && k->0@ == "video"@,
                ContentFilter::Markdown => k is Some && k->0@ == "report"@,
                ContentFilter::Pdf => k is Some && k->0@ == "other"@,
                ContentFilter::Other => k is Some && k->0@ == "other"@,
            },
    {
        match self {
            ContentFilter::All => None,
            ContentFilter::Image => Some("image"),
            ContentFilter::Audio => Some("audio"),
            ContentFilter::Video => Some("video"),
            ContentFilter::Markdown => Some("report"),
            ContentFilter::Pdf => Some("other"),
            ContentFilter::Other => Some("other"),
        }
    }
}

/// A server content row projected for the file store: its handle, display
/// name, content type, and the kind the server's category fixes (`None`:
/// left to the content type).
pub struct ProjectedRow {
    pub handle: String,
    pub name: String,
    pub content_type: &'static str,
    pub kind_override: Option<FileKind>,
}

/// Project a server content row: the name is the title, else the id; the
/// category picks the content type and the kind.
pub fn project_row(id: String, title: Option<String>, category: &str) -> (r: ProjectedRow)
    ensures
        r.handle@ == id@,
        r.name@ == match title {
            Some(t) => t@,
            None => id@,
        },
        category@ == "image"@ ==> r.content_type@ == "image/*"@ && r.kind_override == Some(
            FileKind::Image,
        ),
        category@ == "audio"@ ==> r.content_type@ == "audio/*"@ && r.kind_override == Some(
            FileKind::Audio,
        ),
        category@ == "video"@ ==> r.content_type@ == "video/*"@ && r.kind_override == Some(
            FileKind::Video,
        ),
        category@ == "report"@ ==> r.content_type@ == "text/markdown"@ && r.kind_override == Some(
            FileKind::Markdown,
        ),
        category@ == "other"@ ==> r.content_type@ == "application/octet-stream"@
            && r.kind_override == Some(FileKind::Other),
        category@ != "image"@ && category@ != "audio"@ && category@ != "video"@ && category@
            != "report"@ && category@ != "other"@ ==> r.content_type@
            == "application/octet-stream"@ && r.kind_override is None,
{
    let name = match title {
        Some(t) => t,
        None => id.clone(),
    };
    proof {
        reveal_strlit("image");
        reveal_strlit("audio");
        reveal_strlit("video");
        reveal_strlit("report");
        reveal_strlit("other");
        assert("audio"@ != "image"@) by { assert("audio"@[0] != "image"@[0]); }
        assert("video"@ != "image"@) by { assert("video"@[0] != "image"@[0]); }
        assert("video"@ != "audio"@) by { assert("video"@[0] != "audio"@[0]); }
        assert("report"@ != "image"@) by { assert("report"@.len() != "image"@.len()); }
        assert("report"@ != "audio"@) by { assert("report"@.len() != "audio"@.len()); }
        assert("report"@ != "video"@) by { assert("report"@.len() != "video"@.len()); }
        assert("other"@ != "image"@) by { assert("other"@[0] != "image"@[0]); }
        assert("other"@ != "audio"@) by { assert("other"@[0] != "audio"@[0]); }
        assert("other"@ != "video"@) by { assert("other"@[0] != "video"@[0]); }
        assert("other"@ != "report"@) by { assert("other"@.len() != "report"@.len()); }
    }
    let (content_type, kind_override): (&'static str, Option<FileKind>) = if str_eq(
        category,
        "image",
    ) {
        ("image/*", Some(FileKind::Image))
    } else if str_eq(category, "audio") {
        ("audio/*", Some(FileKind::Audio))
    } else if str_eq(category, "video") {
        ("video/*", Some(FileKind::Video))
    } else if str_eq(category, "report") {
        ("text/markdown", Some(FileKind::Markdown))
    } else if str_eq(category, "other") {
        ("application/octet-stream", Some(FileKind::Other))
    } else {
        ("application/octet-stream", None)
    };
    ProjectedRow { handle: id, name, content_type, kind_override }
}

/// Glyph of a file kind on its card.
pub fn kind_glyph(kind: FileKind) -> (s: &'static str)
    ensures
        s@ == match kind {
            FileKind::Image => "🖼"@,
            FileKind::Audio => "🎵"@,
            FileKind::Video => "🎬"@,
            FileKind::Markdown => "📄"@,
            FileKind::Pdf => "📕"@,
            FileKind::Other => "📎"@,
        },
{
    match kind {
        FileKind::Image => "🖼",
        FileKind::Audio => "🎵",
        FileKind::Video => "🎬",
        FileKind::Markdown => "📄",
        FileKind::Pdf => "📕",
        FileKind::Other => "📎",
    }
}

/// Label of a file kind on its card.
pub fn kind_label(kind: FileKind) -> (s: &'static str)
    ensures
        s@ == match kind {
            FileKind::Image => "image"@,
            FileKind::Audio => "audio"@,
            FileKind::Video => "video"@,
            FileKind::Markdown => "markdown"@,
            FileKind::Pdf => "pdf"@,
            FileKind::Other => "other"@,
        },
{
    match kind {
        FileKind::Image => "image",
        FileKind::Audio => "audio",
        FileKind::Video => "video",
        FileKind::Markdown => "markdown",
        FileKind::Pdf => "pdf",
        FileKind::Other => "other",
    }
}

// ---------------------------------------------------------------------------
// Cards
// ---------------------------------------------------------------------------

/// A file of the store, as the browser reads it.
#[derive(Clone, Debug)]
pub struct FileEntry {
    pub handle: String,
    pub name: String,
    pub kind: FileKind,
    pub size_bytes: u64,
}

/// One card of the grid.
#[derive(Clone, Debug)]
pub struct CardRow {
    pub handle: String,
    pub title: String,
    pub kind: FileKind,
    pub size_bytes: u64,
}

/// The characters of a card.
pub struct CardView {
    pub handle: Seq<char>,
    pub title: Seq<char>,
    pub kind: FileKind,
    pub size_bytes: u64,
}

impl CardRow {
    pub open spec fn view(&self) -> CardView {
        CardView {
            handle: self.handle@,
            title: self.title@,
            kind: self.kind,
            size_bytes: self.size_bytes,
        }
    }

    /// The card of a file: titled by its name, or by its handle when the
    /// name is empty.
    pub fn from_meta(meta: &FileEntry) -> (r: CardRow)
        ensures
            r.view() == spec_card_of(*meta),
    {
        let title = if meta.name.as_str().is_empty() {
            meta.handle.clone()
        } else {
            meta.name.clone()
        };
        CardRow { handle: meta.handle.clone(), title, kind: meta.kind, size_bytes: meta.size_bytes }
    }
}

pub open spec fn spec_card_of(m: FileEntry) -> CardView {
    CardView {
        handle: m.handle@,
        title: if m.name@.len() == 0 { m.handle@ } else { m.name@ },
        kind: m.kind,
        size_bytes: m.size_bytes,
    }
}

/// Cards are ordered by title, then by handle.
pub open spec fn card_lt(a: CardView, b: CardView) -> bool {
    lex_lt(a.title, b.title) || (a.title == b.title && lex_lt(a.handle, b.handle))
}

/// Where a stable insertion puts `x` into `s`: after every element that
/// `x` does not sort before, scanning from the back.
pub open spec fn insert_pos(s: Seq<CardView>, x: CardView) -> nat
    decreases s.len(),
{
    if s.len() == 0 {
        0
    } else if card_lt(x, s.last()) {
        insert_pos(s.drop_last(), x)
    } else {
        s.len()
    }
}

/// `s` in card order, equal cards keeping their order.
pub open spec fn sort_cards(s: Seq<CardView>) -> Seq<CardView>
    decreases s.len(),
{
    if s.len() == 0 {
        s
    } else {
        let r = sort_cards(s.drop_last());
        r.insert(insert_pos(r, s.last()) as int, s.last())
    }
}

pub open spec fn lower(s: Seq<char>) -> Seq<char> {
    s.map_values(|c: char| ascii_lower(c))
}

/// A file is listed when its kind passes the filter and, for a non-empty
/// query, its lower-cased name contains the query.
pub open spec fn listed(m: FileEntry, filter: ContentFilter, q: Seq<char>) -> bool {
    filter.spec_allows(m.kind) && (q.len() == 0 || contains(lower(m.name@), q))
}

/// The cards of the listed files, in store order.
pub open spec fn listed_cards(files: Seq<FileEntry>, filter: ContentFilter, q: Seq<char>) -> Seq<
    CardView,
>
    decreases files.len(),
{
    if files.len() == 0 {
        Seq::empty()
    } else {
        let r = listed_cards(files.drop_last(), filter, q);
        if listed(files.last(), filter, q) {
            r.push(spec_card_of(files.last()))
        } else {
            r
        }
    }
}

/// The grid for a search text: the query is the trimmed, lower-cased text.
pub open spec fn spec_collect_rows(files: Seq<FileEntry>, filter: ContentFilter, search: Seq<char>) -> Seq<
    CardView,
> {
    sort_cards(listed_cards(files, filter, lower(trim(search))))
}

pub open spec fn cards_view(rows: Seq<CardRow>) -> Seq<CardView> {
    rows.map_values(|r: CardRow| r.view())
}

fn card_less(a: &CardRow, b: &CardRow) -> (r: bool)
    ensures
        r == card_lt(a.view(), b.view()),
{
    if lex_less(a.title.as_str(), b.title.as_str()) {
        true
    } else if str_eq(a.title.as_str(), b.title.as_str()) {
        lex_less(a.handle.as_str(), b.handle.as_str())
    } else {
        false
    }
}

/// Insert `row` at its stable sorted place.
fn insert_card(rows: &mut Vec<CardRow>, row: CardRow)
    ensures
        cards_view(final(rows)@) == cards_view(old(rows)@).insert(
            insert_pos(cards_view(old(rows)@), row.view()) as int,
            row.view(),
        ),
{
    let ghost v = cards_view(rows@);
    let ghost x = row.view();
    let mut p: usize = rows.len();
    assert(v.take(p as int) =~= v);
    while p > 0 && card_less(&row, &rows[p - 1])
        invariant
            v == cards_view(rows@),
            x == row.view(),
            p <= rows@.len(),
            insert_pos(v, x) == insert_pos(v.take(p as int), x),
        decreases p,
    {
        assert(v.take(p as int).drop_last() =~= v.take(p - 1));
        p = p - 1;
    }
    proof {
        if p > 0 {
            assert(v.take(p as int).last() == v[p - 1]);
        }
    }
    rows.insert(p, row);
    assert(cards_view(rows@) =~= v.insert(p as int, x));
}

fn lower_chars(v: &Vec<char>) -> (r: Vec<char>)
    ensures
        r@ == lower(v@),
{
    let mut r: Vec<char> = Vec::new();
    let mut i: usize = 0;
    while i < v.len()
        invariant
            i <= v@.len(),
            r@ == lower(v@.take(i as int)),
        decreases v.len() - i,
    {
        r.push(to_ascii_lower(v[i]));
        assert(lower(v@.take(i + 1)) =~= lower(v@.take(i as int)).push(ascii_lower(v@[i as int])));
        i = i + 1;
    }
    assert(v@.take(v@.len() as int) == v@);
    r
}

fn name_matches(name: &str, q: &Vec<char>) -> (b: bool)
    ensures
        b == (q@.len() == 0 || contains(lower(name@), q@)),
{
    if q.len() == 0 {
        return true;
    }
    let n = lower_chars(&chars_of(name));
    let r = find_in(&n, 0, n.len(), q);
    assert(n@.subrange(0, n@.len() as int) == n@);
    r.is_some()
}

/// The grid: the files whose kind passes `filter` and whose lower-cased
/// name contains the trimmed, lower-cased `search`, as cards sorted by
/// title then handle (equal cards keep the store order).
pub fn collect_rows(files: &Vec<FileEntry>, filter: ContentFilter, search: &str) -> (rows: Vec<
    CardRow,
>)
    ensures
        cards_view(rows@) == spec_collect_rows(files@, filter, search@),
{
    let q = lower_chars(&chars_of(trim_str(search)));
    let mut rows: Vec<CardRow> = Vec::new();
    let mut i: usize = 0;
    while i < files.len()
        invariant
            q@ == lower(trim(search@)),
            i <= files@.len(),
            cards_view(rows@) == sort_cards(listed_cards(files@.take(i as int), filter, q@)),
        decreases files.len() - i,
    {
        assert(files@.take(i + 1).drop_last() == files@.take(i as int));
        let m = &files[i];
        let ghost prev = listed_cards(files@.take(i as int), filter, q@);
        if filter.allows(m.kind) && name_matches(m.name.as_str(), &q) {
            let card = CardRow::from_meta(m);
            assert(listed_cards(files@.take(i + 1), filter, q@) == prev.push(card.view()));
            assert(prev.push(card.view()).drop_last() =~= prev);
            insert_card(&mut rows, card);
        } else {
            assert(listed_cards(files@.take(i + 1), filter, q@) == prev);
        }
        i = i + 1;
    }
    assert(files@.take(files@.len() as int) == files@);
    rows
}

// ---------------------------------------------------------------------------
// The grid is sorted and holds exactly the listed cards
// ---------------------------------------------------------------------------

/// Card order is irreflexive.
proof fn lemma_card_irreflexive(a: CardView)
    ensures
        !card_lt(a, a),
{
    lemma_lex_irreflexive(a.title);
    lemma_lex_irreflexive(a.handle);
}

proof fn lemma_card_transitive(a: CardView, b: CardView, c: CardView)
    requires
        card_lt(a, b),
        card_lt(b, c),
    ensures
        card_lt(a, c),
{
    if lex_lt(a.title, b.title) && lex_lt(b.title, c.title) {
        lemma_lex_transitive(a.title, b.title, c.title);
    } else if lex_lt(a.title, b.title) {
    } else if lex_lt(b.title, c.title) {
    } else {
        lemma_lex_transitive(a.handle, b.handle, c.handle);
    }
}

/// Neither sorts before the other only when title and handle agree.
proof fn lemma_card_total(a: CardView, b: CardView)
    ensures
        card_lt(a, b) || card_lt(b, a) || (a.title == b.title && a.handle == b.handle),
{
    lemma_lex_total(a.title, b.title);
    lemma_lex_total(a.handle, b.handle);
}

/// "Does not sort before" is transitive.
proof fn lemma_card_le_transitive(a: CardView, b: CardView, c: CardView)
    requires
        !card_lt(b, a),
        !card_lt(c, b),
    ensures
        !card_lt(c, a),
{
    if card_lt(c, a) {
        lemma_card_total(a, b);
        if card_lt(a, b) {
            lemma_card_transitive(c, a, b);
        } else {
            assert(card_lt(c, b));
        }
    }
}

proof fn lemma_card_asymmetric(a: CardView, b: CardView)
    requires
        card_lt(a, b),
    ensures
        !card_lt(b, a),
{
    if card_lt(b, a) {
        lemma_card_transitive(a, b, a);
        lemma_card_irreflexive(a);
    }
}

/// No card sorts before an earlier one.
pub open spec fn cards_sorted(s: Seq<CardView>) -> bool {
    forall|i: int, j: int| 0 <= i < j < s.len() ==> !card_lt(#[trigger] s[j], #[trigger] s[i])
}

proof fn lemma_insert_pos(s: Seq<CardView>, x: CardView)
    ensures
        insert_pos(s, x) <= s.len(),
        forall|k: int| insert_pos(s, x) <= k < s.len() ==> card_lt(x, #[trigger] s[k]),
        insert_pos(s, x) > 0 ==> !card_lt(x, s[insert_pos(s, x) - 1]),
    decreases s.len(),
{
    if s.len() > 0 && card_lt(x, s.last()) {
        lemma_insert_pos(s.drop_last(), x);
        assert forall|k: int| insert_pos(s, x) <= k < s.len() implies card_lt(x, #[trigger] s[k]) by {
            if k < s.len() - 1 {
                assert(s[k] == s.drop_last()[k]);
            }
        }
    }
}

proof fn lemma_insert_sorted(s: Seq<CardView>, x: CardView)
    requires
        cards_sorted(s),
    ensures
        cards_sorted(s.insert(insert_pos(s, x) as int, x)),
{
    let p = insert_pos(s, x) as int;
    lemma_insert_pos(s, x);
    let t = s.insert(p, x);
    assert forall|i: int, j: int| 0 <= i < j < t.len() implies !card_lt(#[trigger] t[j], #[trigger] t[i]) by {
        if j < p {
            assert(t[i] == s[i] && t[j] == s[j]);
        } else if j == p {
            assert(t[i] == s[i]);
            assert(!card_lt(x, s[p - 1]));
            if i < p - 1 {
                assert(!card_lt(s[p - 1], s[i]));
                lemma_card_le_transitive(s[i], s[p - 1], x);
            }
        } else if i == p {
            assert(t[j] == s[j - 1]);
            assert(card_lt(x, s[j - 1]));
            lemma_card_asymmetric(x, s[j - 1]);
        } else if i < p {
            assert(t[i] == s[i] && t[j] == s[j - 1]);
        } else {
            assert(t[i] == s[i - 1] && t[j] == s[j - 1]);
        }
    }
}

proof fn lemma_sort_cards(s: Seq<CardView>)
    ensures
        cards_sorted(sort_cards(s)),
        sort_cards(s).to_multiset() == s.to_multiset(),
    decreases s.len(),
{
    broadcast use vstd::seq_lib::group_to_multiset_ensures;

    if s.len() > 0 {
        let r = sort_cards(s.drop_last());
        lemma_sort_cards(s.drop_last());
        lemma_insert_pos(r, s.last());
        lemma_insert_sorted(r, s.last());
        vstd::seq_lib::to_multiset_insert(r, insert_pos(r, s.last()) as int, s.last());
        assert(s.drop_last().push(s.last()) == s);
    }
}

/// The grid is in card order: no card sorts before one shown above it.
pub proof fn law_collect_rows_sorted(files: Seq<FileEntry>, filter: ContentFilter, search: Seq<char>)
    ensures
        cards_sorted(spec_collect_rows(files, filter, search)),
{
    lemma_sort_cards(listed_cards(files, filter, lower(trim(search))));
}

/// The grid shows each listed file's card exactly once, and nothing else.
pub proof fn law_collect_rows_permutation(files: Seq<FileEntry>, filter: ContentFilter, search: Seq<char>)
    ensures
        spec_collect_rows(files, filter, search).to_multiset() == listed_cards(
            files,
            filter,
            lower(trim(search)),
        ).to_multiset(),
{
    lemma_sort_cards(listed_cards(files, filter, lower(trim(search))));
}

proof fn lemma_listed_cards_has(files: Seq<FileEntry>, filter: ContentFilter, q: Seq<char>, i: int)
    requires
        0 <= i < files.len(),
        listed(files[i], filter, q),
    ensures
        listed_cards(files, filter, q).contains(spec_card_of(files[i])),
    decreases files.len(),
{
    let r = listed_cards(files.drop_last(), filter, q);
    if i == files.len() - 1 {
        assert(listed_cards(files, filter, q).last() == spec_card_of(files[i]));
    } else {
        assert(files.drop_last()[i] == files[i]);
        lemma_listed_cards_has(files.drop_last(), filter, q, i);
        let k = choose|k: int| 0 <= k < r.len() && r[k] == spec_card_of(files[i]);
        assert(listed_cards(files, filter, q)[k] == r[k]);
    }
}

proof fn lemma_listed_cards_from(files: Seq<FileEntry>, filter: ContentFilter, q: Seq<char>, j: int)
    requires
        0 <= j < listed_cards(files, filter, q).len(),
    ensures
        exists|i: int|
            0 <= i < files.len() && listed_cards(files, filter, q)[j] == #[trigger] spec_card_of(files[i])
                && listed(files[i], filter, q),
    decreases files.len(),
{
    let r = listed_cards(files.drop_last(), filter, q);
    if j < r.len() {
        lemma_listed_cards_from(files.drop_last(), filter, q, j);
        let i = choose|i: int|
            0 <= i < files.drop_last().len() && r[j] == #[trigger] spec_card_of(files.drop_last()[i])
                && listed(files.drop_last()[i], filter, q);
        assert(files.drop_last()[i] == files[i]);
        assert(listed_cards(files, filter, q)[j] == r[j]);
        assert(spec_card_of(files[i]) == listed_cards(files, filter, q)[j]);
    } else {
        let i = files.len() - 1;
        assert(listed_cards(files, filter, q)[j] == spec_card_of(files[i]));
    }
}

/// The search is on names regardless of their case: every file whose kind
/// passes the filter and whose ASCII-lower-cased name contains the trimmed,
/// lower-cased search text is in the grid (every file, for a blank search),
/// and every card in the grid is such a file's.
pub proof fn law_collect_rows_matches_names(files: Seq<FileEntry>, filter: ContentFilter, search: Seq<char>)
    ensures
        forall|i: int|
            0 <= i < files.len() && filter.spec_allows(files[i].kind) && (lower(trim(search)).len() == 0
                || contains(lower(files[i].name@), lower(trim(search)))) ==> spec_collect_rows(
                files,
                filter,
                search,
            ).contains(#[trigger] spec_card_of(files[i])),
        forall|j: int|
            #![trigger spec_collect_rows(files, filter, search)[j]]
            0 <= j < spec_collect_rows(files, filter, search).len() ==> exists|i: int|
                0 <= i < files.len() && spec_collect_rows(files, filter, search)[j] == #[trigger] spec_card_of(
                    files[i],
                ) && filter.spec_allows(files[i].kind) && (lower(trim(search)).len() == 0 || contains(
                    lower(files[i].name@),
                    lower(trim(search)),
                )),
{
    broadcast use vstd::seq_lib::group_to_multiset_ensures;

    let q = lower(trim(search));
    let l = listed_cards(files, filter, q);
    let g = spec_collect_rows(files, filter, search);
    lemma_sort_cards(l);
    assert(g.to_multiset() == l.to_multiset());
    assert forall|i: int|
        0 <= i < files.len() && filter.spec_allows(files[i].kind) && (q.len() == 0 || contains(
            lower(files[i].name@),
            q,
        )) implies g.contains(#[trigger] spec_card_of(files[i])) by {
        lemma_listed_cards_has(files, filter, q, i);
        assert(l.to_multiset().count(spec_card_of(files[i])) > 0);
    }
    assert forall|j: int| #![trigger g[j]] 0 <= j < g.len() implies exists|i: int|
        0 <= i < files.len() && g[j] == #[trigger] spec_card_of(files[i]) && filter.spec_allows(files[i].kind)
            && (q.len() == 0 || contains(lower(files[i].name@), q)) by {
        assert(g.contains(g[j]));
        assert(l.to_multiset().count(g[j]) > 0);
        assert(l.contains(g[j]));
        let k = choose|k: int| 0 <= k < l.len() && l[k] == g[j];
        lemma_listed_cards_from(files, filter, q, k);
    }
}

proof fn lemma_lower_keeps_ws(c: char)
    ensures
        is_ws(ascii_lower(c)) == is_ws(c),
{
    if 'A' <= c && c <= 'Z' {
        assert((ascii_lower(c) as u32) == (c as u32) + 32);
    }
}

proof fn lemma_lower_ws_prefix(s: Seq<char>)
    ensures
        ws_prefix_len(lower(s)) == ws_prefix_len(s),
    decreases s.len(),
{
    if s.len() > 0 {
        assert(lower(s).drop_first() =~= lower(s.drop_first()));
        lemma_lower_keeps_ws(s[0]);
        lemma_lower_ws_prefix(s.drop_first());
    }
}

proof fn lemma_lower_ws_suffix(s: Seq<char>)
    ensures
        ws_suffix_len(lower(s)) == ws_suffix_len(s),
    decreases s.len(),
{
    if s.len() > 0 {
        assert(lower(s).drop_last() =~= lower(s.drop_last()));
        lemma_lower_keeps_ws(s.last());
        lemma_lower_ws_suffix(s.drop_last());
    }
}

proof fn lemma_ws_prefix_le(s: Seq<char>)
    ensures
        ws_prefix_len(s) <= s.len(),
    decreases s.len(),
{
    if s.len() > 0 {
        lemma_ws_prefix_le(s.drop_first());
    }
}

proof fn lemma_ws_suffix_le(s: Seq<char>)
    ensures
        ws_suffix_len(s) <= s.len(),
    decreases s.len(),
{
    if s.len() > 0 {
        lemma_ws_suffix_le(s.drop_last());
    }
}

/// The search text is matched regardless of its case: searching for a text
/// and for its ASCII lower-casing show the same grid.
pub proof fn law_collect_rows_query_case(files: Seq<FileEntry>, filter: ContentFilter, search: Seq<char>)
    ensures
        spec_collect_rows(files, filter, search) == spec_collect_rows(files, filter, lower(search)),
{
    lemma_lower_ws_prefix(search);
    lemma_ws_prefix_le(search);
    let t = search.skip(ws_prefix_len(search) as int);
    assert(trim_start(lower(search)) =~= lower(t));
    lemma_lower_ws_suffix(t);
    lemma_ws_suffix_le(t);
    assert(trim(lower(search)) =~= lower(trim(search)));
    assert(lower(lower(trim(search))) =~= lower(trim(search)));
}

} // verus!
