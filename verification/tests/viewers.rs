use octos_app::content::{FileEntry, FileKind};
use octos_app::viewers::{collect_image_handles, display_name, viewer_for, OpenViewer, ViewerState};

fn entry(handle: &str, kind: FileKind) -> FileEntry {
    FileEntry { handle: handle.to_string(), name: String::new(), kind, size_bytes: 0 }
}

fn store() -> Vec<FileEntry> {
    vec![
        entry("img-c", FileKind::Image),
        entry("doc", FileKind::Markdown),
        entry("img-a", FileKind::Image),
        entry("song", FileKind::Audio),
        entry("clip", FileKind::Video),
        entry("paper", FileKind::Pdf),
        entry("img-b", FileKind::Image),
    ]
}

#[test]
fn viewer_by_kind() {
    let files = store();
    assert!(matches!(viewer_for(&files, "doc"), OpenViewer::Markdown { handle } if handle == "doc"));
    assert!(matches!(viewer_for(&files, "song"), OpenViewer::Audio { .. }));
    assert!(matches!(viewer_for(&files, "clip"), OpenViewer::Video { .. }));
    assert!(matches!(viewer_for(&files, "paper"), OpenViewer::Generic { .. }));
    assert!(matches!(viewer_for(&files, "missing"), OpenViewer::Generic { .. }));
}

#[test]
fn image_opens_sorted_album_on_itself() {
    let files = store();
    assert_eq!(collect_image_handles(&files), vec!["img-a", "img-b", "img-c"]);
    match viewer_for(&files, "img-b") {
        OpenViewer::ImageAlbum { handles, active } => {
            assert_eq!(handles, vec!["img-a", "img-b", "img-c"]);
            assert_eq!(active, 1);
        }
        _ => panic!("expected an album"),
    }
}

#[test]
fn album_steps_stay_inside() {
    let files = store();
    let mut vs = ViewerState::new();
    assert!(!vs.open.is_open());
    let open = viewer_for(&files, "img-a");
    assert!(!vs.open_viewer(open, false));
    vs.album_step(1);
    assert_eq!(vs.open.focus_handle().map(String::as_str), Some("img-b"));
    vs.album_step(5);
    assert_eq!(vs.open.focus_handle().map(String::as_str), Some("img-c"));
    vs.album_step(-9);
    assert_eq!(vs.open.focus_handle().map(String::as_str), Some("img-a"));
    vs.close();
    assert!(!vs.open.is_open());
    assert_eq!(vs.open.focus_handle(), None);
}

#[test]
fn markdown_fetch_and_errors() {
    let files = store();
    let mut vs = ViewerState::new();
    assert!(vs.open_viewer(viewer_for(&files, "doc"), false));
    assert!(!vs.open_viewer(viewer_for(&files, "doc"), true));
    vs.markdown_failed("offline".to_string());
    assert_eq!(vs.last_error.as_deref(), Some("offline"));
    vs.markdown_loaded();
    assert_eq!(vs.last_error, None);
    vs.markdown_failed("offline".to_string());
    vs.open_viewer(viewer_for(&files, "song"), false);
    assert_eq!(vs.last_error, None);
}

#[test]
fn display_name_prefers_stored_name() {
    let mut files = store();
    files[1].name = "Notes.md".to_string();
    assert_eq!(display_name(&files, "doc"), "Notes.md");
    assert_eq!(display_name(&files, "song"), "song");
    assert_eq!(display_name(&files, "missing"), "missing");
}
