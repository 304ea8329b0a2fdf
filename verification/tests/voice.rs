use octos_app::voice::{
    recording_long_enough, recording_too_short_message, resampled_len, PermissionOutcome,
    PermissionStatus, RecordingGate, VoiceAction,
};

#[test]
fn grant_of_pending_request_starts_input() {
    let mut g = RecordingGate::new();
    assert_eq!(g.begin_recording(7), VoiceAction::StartInput);
    assert!(!g.should_start_input_on_devices());
    let r = g.handle_permission_result(true, 7, PermissionStatus::Granted);
    assert_eq!(r, (Some(PermissionOutcome::Granted), VoiceAction::StartInput));
    assert_eq!(g.permission_request, None);
    assert!(g.wants_recording);
    assert!(g.should_start_input_on_devices());
}

#[test]
fn denial_cancels_recording() {
    for status in [
        PermissionStatus::DeniedCanRetry,
        PermissionStatus::DeniedPermanent,
        PermissionStatus::NotDetermined,
    ] {
        let mut g = RecordingGate::new();
        g.begin_recording(3);
        let r = g.handle_permission_result(true, 3, status);
        assert_eq!(r, (Some(PermissionOutcome::Denied), VoiceAction::CancelRecording));
        assert!(!g.wants_recording);
        assert_eq!(g.permission_request, None);
    }
}

#[test]
fn unrelated_answers_are_ignored() {
    let mut g = RecordingGate::new();
    g.begin_recording(3);
    let before = g;
    assert_eq!(
        g.handle_permission_result(false, 3, PermissionStatus::Granted),
        (None, VoiceAction::Nothing)
    );
    assert_eq!(
        g.handle_permission_result(true, 4, PermissionStatus::DeniedPermanent),
        (None, VoiceAction::Nothing)
    );
    assert_eq!(g, before);
}

#[test]
fn grant_after_cancel_does_not_start() {
    let mut g = RecordingGate::new();
    g.begin_recording(1);
    g.wants_recording = false;
    let r = g.handle_permission_result(true, 1, PermissionStatus::Granted);
    assert_eq!(r, (Some(PermissionOutcome::Granted), VoiceAction::Nothing));
}

#[test]
fn quarter_second_minimum() {
    assert!(!recording_long_enough(0, 100_000));
    assert!(!recording_long_enough(16_000, 3_999));
    assert!(recording_long_enough(16_000, 4_000));
    assert_eq!(recording_too_short_message(), "录音太短，请至少说 0.25 秒");
}

#[test]
fn resampled_lengths() {
    assert_eq!(resampled_len(0, 48_000, 16_000), 0);
    assert_eq!(resampled_len(10, 0, 16_000), 0);
    assert_eq!(resampled_len(1_000, 16_000, 16_000), 1_000);
    assert_eq!(resampled_len(44_100, 44_100, 16_000), 16_000);
    assert_eq!(resampled_len(3, 48_000, 16_000), 1);
}
