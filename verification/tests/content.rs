use octos_app::content::{
    collect_rows, kind_glyph, kind_label, project_row, CardRow, ContentFilter, FileEntry, FileKind,
};

fn entry(handle: &str, name: &str, kind: FileKind) -> FileEntry {
    FileEntry { handle: handle.to_string(), name: name.to_string(), kind, size_bytes: 0 }
}

#[test]
fn dropdown_indices() {
    assert_eq!(ContentFilter::from_dropdown_index(0), ContentFilter::All);
    assert_eq!(ContentFilter::from_dropdown_index(1), ContentFilter::Image);
    assert_eq!(ContentFilter::from_dropdown_index(4), ContentFilter::Markdown);
    assert_eq!(ContentFilter::from_dropdown_index(6), ContentFilter::Other);
    assert_eq!(ContentFilter::from_dropdown_index(99), ContentFilter::All);
    assert_eq!(ContentFilter::default(), ContentFilter::All);
}

#[test]
fn server_categories() {
    assert_eq!(ContentFilter::All.server_kind(), None);
    assert_eq!(ContentFilter::Markdown.server_kind(), Some("report"));
    assert_eq!(ContentFilter::Pdf.server_kind(), Some("other"));
    assert_eq!(ContentFilter::Image.server_kind(), Some("image"));
    assert!(ContentFilter::Video.allows(FileKind::Video));
    assert!(!ContentFilter::Video.allows(FileKind::Audio));
    assert!(ContentFilter::All.allows(FileKind::Pdf));
}

#[test]
fn project_rows() {
    let r = project_row("id1".to_string(), Some("Report".to_string()), "report");
    assert_eq!((r.handle.as_str(), r.name.as_str(), r.content_type), ("id1", "Report", "text/markdown"));
    assert_eq!(r.kind_override, Some(FileKind::Markdown));
    let u = project_row("id2".to_string(), None, "weird");
    assert_eq!((u.name.as_str(), u.content_type), ("id2", "application/octet-stream"));
    assert_eq!(u.kind_override, None);
    let o = project_row("id3".to_string(), None, "other");
    assert_eq!(o.kind_override, Some(FileKind::Other));
}

#[test]
fn glyphs_and_labels() {
    assert_eq!(kind_glyph(FileKind::Image), "🖼");
    assert_eq!(kind_glyph(FileKind::Other), "📎");
    assert_eq!(kind_label(FileKind::Markdown), "markdown");
    assert_eq!(kind_label(FileKind::Pdf), "pdf");
}

#[test]
fn grid_is_filtered_searched_and_sorted() {
    let files = vec![
        entry("h3", "Zebra.png", FileKind::Image),
        entry("h1", "apple.png", FileKind::Image),
        entry("h2", "", FileKind::Image),
        entry("h4", "notes.md", FileKind::Markdown),
        entry("h0", "apple.png", FileKind::Image),
    ];
    let rows = collect_rows(&files, ContentFilter::Image, "");
    let titles: Vec<(&str, &str)> =
        rows.iter().map(|r: &CardRow| (r.title.as_str(), r.handle.as_str())).collect();
    assert_eq!(
        titles,
        vec![("Zebra.png", "h3"), ("apple.png", "h0"), ("apple.png", "h1"), ("h2", "h2")]
    );
    let found = collect_rows(&files, ContentFilter::All, "  APPLE ");
    assert_eq!(found.len(), 2);
    assert!(found.iter().all(|r| r.title == "apple.png"));
    assert!(collect_rows(&files, ContentFilter::Video, "").is_empty());
}
