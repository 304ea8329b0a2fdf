//! The decisions behind voice capture: the microphone permission
//! handshake, when the input device may run, and whether a recording is
//! long enough to send.

use vstd::prelude::*;

verus! {

broadcast use vstd::string::group_string_axioms;

/// Sample rate of the WAV sent to speech recognition.
pub const TARGET_SAMPLE_RATE: u32 = 16000;

/// What a permission answer meant for the recording in progress.
#[derive(Debug, Clone, Copy, PartialEq, Eq, Structural)]
pub enum PermissionOutcome {
    Granted,
    Denied,
}

/// The platform's answer to a permission request.
#[derive(Debug, Clone, Copy, PartialEq, Eq, Structural)]
pub enum PermissionStatus {
    Granted,
    DeniedCanRetry,
    DeniedPermanent,
    NotDetermined,
}

/// What the audio layer should do after a decision.
#[derive(Debug, Clone, Copy, PartialEq, Eq, Structural)]
pub enum VoiceAction {
    /// Nothing to do.
    Nothing,
    /// Open the default input device (if there is one).
    StartInput,
    /// Stop capture and drop what was captured.
    CancelRecording,
}

/// The capture bookkeeping: whether the user is holding to record, and
/// the id of the permission request still waiting for an answer.
#[derive(Debug, Clone, Copy, PartialEq, Eq, Structural)]
pub struct RecordingGate {
    pub wants_recording: bool,
    pub permission_request: Option<i32>,
}

impl RecordingGate {
    /// Not recording, nothing asked.
    pub fn new() -> (g: Self)
        ensures
            !g.wants_recording,
            g.permission_request is None,
    {
        RecordingGate { wants_recording: false, permission_request: None }
    }

    /// The user starts a recording; `request_id` is the id of the
    /// microphone permission request just made. The input starts at once.
    pub fn begin_recording(&mut self, request_id: i32) -> (a: VoiceAction)
        ensures
            final(self).wants_recording,
            final(self).permission_request == Some(request_id),
            a == VoiceAction::StartInput,
    {
        self.wants_recording = true;
        self.permission_request = Some(request_id);
        VoiceAction::StartInput
    }

    /// The answer to a permission request. Answers about another
    /// permission, or to a request that is not the pending one, are
    /// ignored; otherwise the pending request is cleared, a grant starts
    /// the input if the user still wants to record, and anything else
    /// cancels the recording.
    pub fn handle_permission_result(
        &mut self,
        is_audio_input: bool,
        request_id: i32,
        status: PermissionStatus,
    ) -> (r: (Option<PermissionOutcome>, VoiceAction))
        ensures
            !is_audio_input || old(self).permission_request != Some(request_id) ==> {
                &&& r == (None::<PermissionOutcome>, VoiceAction::Nothing)
                &&& *final(self) == *old(self)
            },
            is_audio_input && old(self).permission_request == Some(request_id) ==> {
                &&& final(self).permission_request is None
                &&& status == PermissionStatus::Granted ==> {
                    &&& r.0 == Some(PermissionOutcome::Granted)
                    &&& r.1 == (if old(self).wants_recording {
                        VoiceAction::StartInput
                    } else {
                        VoiceAction::Nothing
                    })
                    &&& final(self).wants_recording == old(self).wants_recording
                }
                &&& status != PermissionStatus::Granted ==> {
                    &&& r.0 == Some(PermissionOutcome::Denied)
                    &&& r.1 == VoiceAction::CancelRecording
                    &&& !final(self).wants_recording
                }
            },
    {
        let pending = match self.permission_request {
            Some(id) => id == request_id,
            None => false,
        };
        if !is_audio_input || !pending {
            return (None, VoiceAction::Nothing);
        }
        self.permission_request = None;
        match status {
            PermissionStatus::Granted => {
                let a = if self.wants_recording {
                    VoiceAction::StartInput
                } else {
                    VoiceAction::Nothing
                };
                (Some(PermissionOutcome::Granted), a)
            },
            _ => {
                self.cancel_recording();
                (Some(PermissionOutcome::Denied), VoiceAction::CancelRecording)
            },
        }
    }

    /// The user abandons the recording.
    pub fn cancel_recording(&mut self)
        ensures
            !final(self).wants_recording,
            final(self).permission_request is None,
    {
        self.wants_recording = false;
        self.permission_request = None;
    }

    /// The device list changed: the input is (re)started when the user
    /// wants to record and no permission answer is outstanding.
    pub fn should_start_input_on_devices(&self) -> (b: bool)
        ensures
            b == (self.wants_recording && self.permission_request is None),
    {
        self.wants_recording && self.permission_request.is_none()
    }
}

/// A capture is long enough to send: a known rate and at least a quarter
/// of a second of samples.
pub fn recording_long_enough(sample_rate: u32, n_samples: usize) -> (b: bool)
    ensures
        b == (sample_rate != 0 && n_samples >= sample_rate / 4),
{
    !(sample_rate == 0 || n_samples < (sample_rate / 4) as usize)
}

/// The message shown for a capture that is too short.
pub fn recording_too_short_message() -> (s: String)
    ensures
        s@ == "录音太短，请至少说 0.25 秒"@,
{
    String::from_str("录音太短，请至少说 0.25 秒")
}

/// Number of samples linear resampling produces from `input_len` samples.
pub open spec fn spec_resampled_len(input_len: int, source_rate: int, target_rate: int) -> int {
    if input_len == 0 || source_rate == 0 || target_rate == 0 {
        0
    } else if source_rate == target_rate {
        input_len
    } else {
        input_len * target_rate / source_rate
    }
}

/// Number of samples linear resampling produces from `input_len` samples.
pub fn resampled_len(input_len: usize, source_rate: u32, target_rate: u32) -> (n: u64)
    requires
        input_len * target_rate <= u64::MAX,
    ensures
        n == spec_resampled_len(input_len as int, source_rate as int, target_rate as int),
{
    if input_len == 0 || source_rate == 0 || target_rate == 0 {
        return 0;
    }
    if source_rate == target_rate {
        return input_len as u64;
    }
    (input_len as u64) * (target_rate as u64) / (source_rate as u64)
}

} // verus!
