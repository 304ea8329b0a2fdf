use octos_app::producers::{
    fold_add_source, fold_source_input_changed, should_open_externally, Producer, ProducerKind,
    ProducerStates,
};

#[test]
fn kind_labels_round_trip() {
    assert_eq!(ProducerKind::Studio.to_label(), "Studio");
    assert_eq!(ProducerKind::Slides.to_label(), "Slides");
    assert_eq!(ProducerKind::Sites.to_label(), "Sites");
}

#[test]
fn kind_from_navigation_producer() {
    assert_eq!(ProducerKind::from_producer(Producer::Studio), ProducerKind::Studio);
    assert_eq!(ProducerKind::from_producer(Producer::Slides), ProducerKind::Slides);
    assert_eq!(ProducerKind::from_producer(Producer::Sites), ProducerKind::Sites);
}

#[test]
fn fold_add_source_trims_and_skips_empty() {
    let mut states = ProducerStates::new();
    fold_add_source(&mut states, ProducerKind::Sites, "  ".to_owned());
    assert!(states.get(ProducerKind::Sites).sources.is_empty());
    fold_add_source(&mut states, ProducerKind::Sites, "  https://example.com  ".to_owned());
    let snap = states.get(ProducerKind::Sites);
    assert_eq!(snap.sources, vec!["https://example.com".to_string()]);
    assert!(snap.source_input_buffer.is_empty());
}

#[test]
fn slices_are_independent_per_kind() {
    let mut states = ProducerStates::new();
    fold_add_source(&mut states, ProducerKind::Studio, "studio-source".to_owned());
    let studio = states.get(ProducerKind::Studio).sources.clone();
    let slides = states.get(ProducerKind::Slides).sources.clone();
    assert_eq!(studio, vec!["studio-source".to_string()]);
    assert!(!slides.iter().any(|s| s == "studio-source"));
}

#[test]
fn system_prompt_ids_per_kind() {
    assert_eq!(ProducerKind::Studio.system_prompt_context_id(), "studio.system_prompt.v1");
    assert_eq!(ProducerKind::Slides.system_prompt_context_id(), "slides.system_prompt.v1");
    assert_eq!(ProducerKind::Sites.system_prompt_context_id(), "sites.system_prompt.v1");
}

#[test]
fn source_input_is_mirrored_and_cleared_on_add() {
    let mut states = ProducerStates::new();
    fold_source_input_changed(&mut states, ProducerKind::Slides, "draft".to_owned());
    assert_eq!(states.get(ProducerKind::Slides).source_input_buffer, "draft");
    assert_eq!(states.get(ProducerKind::Studio).source_input_buffer, "");
    fold_add_source(&mut states, ProducerKind::Slides, " draft\n".to_owned());
    assert_eq!(states.get(ProducerKind::Slides).source_input_buffer, "");
    assert_eq!(states.get(ProducerKind::Slides).sources, vec!["draft".to_string()]);
    // A blank add keeps the typed buffer.
    fold_source_input_changed(&mut states, ProducerKind::Slides, "x".to_owned());
    fold_add_source(&mut states, ProducerKind::Slides, "\t".to_owned());
    assert_eq!(states.get(ProducerKind::Slides).source_input_buffer, "x");
}

#[test]
fn open_only_with_url() {
    assert!(!should_open_externally(""));
    assert!(should_open_externally("https://example.com/out.pdf"));
}
