//! Recording: what is asked for, what must be there first, what is done in which order, and what is
//! reported.
use crate::audio;
use crate::config;
use crate::config::{EffectiveConfig, EffectiveView, InputMode};
use crate::disk::Snapshot;
use crate::error;
use crate::error::{Error, ErrorView};
use crate::json;
use crate::json::{Field, FieldView, Json, JsonView};
use crate::native;
use crate::native::{NativeRecordRequest, NativeRecordResult, NativeStatus};
use crate::path;
use crate::session::{
    EventView, SessionEvent, SessionPaths, SessionResult, SessionResultView, Transcript,
    TranscriptView,
};
use crate::text;
use crate::tool::ToolRun;
use crate::transcribe;
use vstd::prelude::*;

verus! {

// ---------------------------------------------------------------------------------------------
// What is asked for
// ---------------------------------------------------------------------------------------------
/// What is asked of a recording.
#[derive(Debug)]
pub struct RecordArgs {
    pub input_mode: Option<InputMode>,
    pub display_id: Option<u32>,
    pub microphone_device: Option<String>,
    pub system_device: Option<String>,
    pub single_input_device: Option<String>,
    pub partial_interval_seconds: Option<u64>,
    pub artifacts_dir: Option<String>,
    pub ffmpeg_path: Option<String>,
    pub whisper_cli_path: Option<String>,
    pub whisper_model_path: Option<String>,
    /// What the session is to be called.
    pub session_name: Option<String>,
    /// How long to record.
    pub duration_seconds: Option<u64>,
    /// The session's name, where it has been chosen before.
    pub session_id: Option<String>,
    /// A file whose appearance ends the recording.
    pub stop_request_path: Option<String>,
}

/// A value that is asked for, or, where none is, the one in effect.
pub open spec fn asked_or<T>(asked: Option<T>, in_effect: Option<T>) -> Option<T> {
    match asked {
        Some(value) => Some(value),
        None => in_effect,
    }
}

/// The configuration with all that is asked for put in place of what is in effect.
pub open spec fn overridden(config: EffectiveView, args: RecordArgs) -> EffectiveView {
    EffectiveView {
        ffmpeg_path: transcribe::path_or(args.ffmpeg_path.deep_view(), config.ffmpeg_path),
        whisper_cli_path: asked_or(args.whisper_cli_path.deep_view(), config.whisper_cli_path),
        whisper_model_path: asked_or(
            args.whisper_model_path.deep_view(),
            config.whisper_model_path,
        ),
        artifacts_dir: transcribe::path_or(args.artifacts_dir.deep_view(), config.artifacts_dir),
        partial_interval_seconds: match args.partial_interval_seconds {
            Some(seconds) => config::at_least_one(seconds),
            None => config.partial_interval_seconds,
        },
        input_mode: match args.input_mode {
            Some(mode) => mode,
            None => config.input_mode,
        },
        display_id: asked_or(args.display_id, config.display_id),
        microphone_device: asked_or(args.microphone_device.deep_view(), config.microphone_device),
        system_device: asked_or(args.system_device.deep_view(), config.system_device),
        single_input_device: asked_or(
            args.single_input_device.deep_view(),
            config.single_input_device,
        ),
        config_file: config.config_file,
    }
}

/// The configuration with all that is asked for put in place of what is in effect.
pub fn apply_record_overrides(config: EffectiveConfig, args: &RecordArgs) -> (r: EffectiveConfig)
    ensures
        r@ == overridden(config@, *args),
{
    let mut config = config;
    if let Some(input_mode) = args.input_mode {
        config.input_mode = input_mode;
    }
    if let Some(display_id) = args.display_id {
        config.display_id = Some(display_id);
    }
    if let Some(value) = &args.microphone_device {
        config.microphone_device = Some(value.clone());
    }
    if let Some(value) = &args.system_device {
        config.system_device = Some(value.clone());
    }
    if let Some(value) = &args.single_input_device {
        config.single_input_device = Some(value.clone());
    }
    if let Some(value) = args.partial_interval_seconds {
        config.partial_interval_seconds = config::clamp_seconds(value);
    }
    if let Some(value) = &args.artifacts_dir {
        config.artifacts_dir = value.clone();
    }
    if let Some(value) = &args.ffmpeg_path {
        config.ffmpeg_path = value.clone();
    }
    if let Some(value) = &args.whisper_cli_path {
        config.whisper_cli_path = Some(value.clone());
    }
    if let Some(value) = &args.whisper_model_path {
        config.whisper_model_path = Some(value.clone());
    }
    config
}

// ---------------------------------------------------------------------------------------------
// Prerequisites
// ---------------------------------------------------------------------------------------------
/// Whether all that a recording needs is there: `ffmpeg` and `whisper` are what came of asking the
/// configured tools for their versions. Only a mix needs ffmpeg.
pub open spec fn record_check(
    config: EffectiveView,
    macos: bool,
    ffmpeg: ToolRun,
    whisper: ToolRun,
    disk: Snapshot,
) -> Result<(), ErrorView> {
    if !macos {
        Err(native::unsupported())
    } else if config.input_mode == InputMode::MicSystemMix && audio::version_of(
        config.ffmpeg_path,
        ffmpeg,
    ) is Err {
        Err(audio::version_of(config.ffmpeg_path, ffmpeg)->Err_0)
    } else {
        transcribe::whisper_check(config, whisper, disk)
    }
}

/// Whether a recording in this mode needs ffmpeg.
pub fn needs_ffmpeg(mode: InputMode) -> (r: bool)
    ensures
        r == (mode == InputMode::MicSystemMix),
{
    mode == InputMode::MicSystemMix
}

/// Whether all that a recording needs is there.
pub fn validate_record_prerequisites(
    config: &EffectiveConfig,
    macos: bool,
    ffmpeg: &ToolRun,
    whisper: &ToolRun,
    disk: &Snapshot,
) -> (r: Result<(), Error>)
    ensures
        match r {
            Ok(()) => record_check(config@, macos, *ffmpeg, *whisper, *disk) == Ok::<
                (),
                ErrorView,
            >(()),
            Err(e) => record_check(config@, macos, *ffmpeg, *whisper, *disk) == Err::<
                (),
                ErrorView,
            >(e@),
        },
{
    if let Err(e) = native::require_macos(macos) {
        return Err(e);
    }
    if needs_ffmpeg(config.input_mode) {
        if let Err(e) = audio::ffmpeg_version(config.ffmpeg_path.as_str(), ffmpeg) {
            return Err(e);
        }
    }
    transcribe::validate_transcribe_prerequisites(config, whisper, disk)
}

// ---------------------------------------------------------------------------------------------
// The order of things
// ---------------------------------------------------------------------------------------------
/// A step of a recording.
#[derive(Debug, Clone, Copy, PartialEq, Eq, Structural)]
pub enum RecordStep {
    /// Ask the tools for their versions, and look for the model.
    CheckPrerequisites,
    /// Write and compile the helper, where that is needed.
    PrepareHelper,
    /// Ask the helper whether it can record.
    AskHelper,
    /// Create the session's directory and open its event log.
    CreateSession,
    /// Log that the session starts.
    LogStart,
    /// Let the helper record until it ends or is to stop.
    Capture,
    /// Log what the helper recorded.
    LogCapture,
    /// Ask ffmpeg for its version again.
    CheckMixer,
    /// Mix microphone and system audio into the session's audio.
    MixAudio,
    /// Copy what was recorded to the session's audio.
    CopyAudio,
    /// Log how the session's audio came about.
    LogAudio,
    /// Transcribe the session's audio.
    Transcribe,
    /// Write the transcript.
    WriteTranscript,
    /// Log that the session is complete.
    LogCompletion,
    /// Report the session.
    Report,
}

/// What comes after a step that succeeded; after the report, nothing does. A step that fails ends
/// the recording.
pub open spec fn step_after(step: RecordStep, mode: InputMode) -> Option<RecordStep> {
    match step {
        RecordStep::CheckPrerequisites => Some(RecordStep::PrepareHelper),
        RecordStep::PrepareHelper => Some(RecordStep::AskHelper),
        RecordStep::AskHelper => Some(RecordStep::CreateSession),
        RecordStep::CreateSession => Some(RecordStep::LogStart),
        RecordStep::LogStart => Some(RecordStep::Capture),
        RecordStep::Capture => Some(RecordStep::LogCapture),
        RecordStep::LogCapture => if mode == InputMode::MicSystemMix {
            Some(RecordStep::CheckMixer)
        } else {
            Some(RecordStep::CopyAudio)
        },
        RecordStep::CheckMixer => Some(RecordStep::MixAudio),
        RecordStep::MixAudio => Some(RecordStep::LogAudio),
        RecordStep::CopyAudio => Some(RecordStep::LogAudio),
        RecordStep::LogAudio => Some(RecordStep::Transcribe),
        RecordStep::Transcribe => Some(RecordStep::WriteTranscript),
        RecordStep::WriteTranscript => Some(RecordStep::LogCompletion),
        RecordStep::LogCompletion => Some(RecordStep::Report),
        RecordStep::Report => None,
    }
}

/// The first step of a recording.
pub fn first_step() -> (r: RecordStep)
    ensures
        r == RecordStep::CheckPrerequisites,
{
    RecordStep::CheckPrerequisites
}

/// What comes after a step that succeeded.
pub fn next_step(step: RecordStep, mode: InputMode) -> (r: Option<RecordStep>)
    ensures
        r == step_after(step, mode),
{
    match step {
        RecordStep::CheckPrerequisites => Some(RecordStep::PrepareHelper),
        RecordStep::PrepareHelper => Some(RecordStep::AskHelper),
        RecordStep::AskHelper => Some(RecordStep::CreateSession),
        RecordStep::CreateSession => Some(RecordStep::LogStart),
        RecordStep::LogStart => Some(RecordStep::Capture),
        RecordStep::Capture => Some(RecordStep::LogCapture),
        RecordStep::LogCapture => {
            if mode == InputMode::MicSystemMix {
                Some(RecordStep::CheckMixer)
            } else {
                Some(RecordStep::CopyAudio)
            }
        },
        RecordStep::CheckMixer => Some(RecordStep::MixAudio),
        RecordStep::MixAudio => Some(RecordStep::LogAudio),
        RecordStep::CopyAudio => Some(RecordStep::LogAudio),
        RecordStep::LogAudio => Some(RecordStep::Transcribe),
        RecordStep::Transcribe => Some(RecordStep::WriteTranscript),
        RecordStep::WriteTranscript => Some(RecordStep::LogCompletion),
        RecordStep::LogCompletion => Some(RecordStep::Report),
        RecordStep::Report => None,
    }
}

// ---------------------------------------------------------------------------------------------
// Letting the helper record
// ---------------------------------------------------------------------------------------------
/// What has been done so far to end the helper.
#[derive(Debug, Clone, Copy, PartialEq, Eq, Structural)]
pub struct CaptureState {
    /// Whether the helper was told to stop.
    pub stop_requested: bool,
}

/// What is seen while the helper records.
#[derive(Debug, Clone, Copy, PartialEq, Eq, Structural)]
pub enum CaptureEvent {
    /// The helper was looked at, and so was the file that ends the recording.
    Polled { exited: bool, stop_file: bool },
    /// The program was told to stop.
    Signalled,
    /// Nothing happened for a while.
    Waited,
}

/// What to do next while the helper records.
#[derive(Debug, Clone, Copy, PartialEq, Eq, Structural)]
pub enum CaptureAction {
    /// Look at the helper and at the file that ends the recording.
    Poll,
    /// Wait for a while, or until the program is told to stop, if the helper was not told before.
    Wait,
    /// Tell the helper to stop, then wait.
    StopAndWait,
    /// Tell the helper to stop, then look at it.
    StopAndPoll,
    /// Take the helper's answer: it has ended.
    Collect,
}

impl CaptureAction {
    /// Whether the helper is told to stop.
    pub open spec fn stops(self) -> bool {
        self == CaptureAction::StopAndWait || self == CaptureAction::StopAndPoll
    }
}

/// What follows from what is seen.
pub open spec fn capture_step(state: CaptureState, event: CaptureEvent) -> (
    CaptureState,
    CaptureAction,
) {
    match event {
        CaptureEvent::Polled { exited, stop_file } => if exited {
            (state, CaptureAction::Collect)
        } else if stop_file && !state.stop_requested {
            (CaptureState { stop_requested: true }, CaptureAction::StopAndWait)
        } else {
            (state, CaptureAction::Wait)
        },
        CaptureEvent::Signalled => if state.stop_requested {
            (state, CaptureAction::Poll)
        } else {
            (CaptureState { stop_requested: true }, CaptureAction::StopAndPoll)
        },
        CaptureEvent::Waited => (state, CaptureAction::Poll),
    }
}

/// The state in which recording starts.
pub fn capture_start() -> (r: CaptureState)
    ensures
        r == (CaptureState { stop_requested: false }),
{
    CaptureState { stop_requested: false }
}

/// What follows from what is seen while the helper records.
pub fn capture_next(state: CaptureState, event: CaptureEvent) -> (r: (CaptureState, CaptureAction))
    ensures
        r == capture_step(state, event),
{
    match event {
        CaptureEvent::Polled { exited, stop_file } => {
            if exited {
                (state, CaptureAction::Collect)
            } else if stop_file && !state.stop_requested {
                (CaptureState { stop_requested: true }, CaptureAction::StopAndWait)
            } else {
                (state, CaptureAction::Wait)
            }
        },
        CaptureEvent::Signalled => {
            if state.stop_requested {
                (state, CaptureAction::Poll)
            } else {
                (CaptureState { stop_requested: true }, CaptureAction::StopAndPoll)
            }
        },
        CaptureEvent::Waited => (state, CaptureAction::Poll),
    }
}

/// Whether the file whose appearance ends the recording is there.
pub open spec fn is_asked_by_file(path: Option<Seq<char>>, disk: Snapshot) -> bool {
    match path {
        Some(path) => disk.has(path),
        None => false,
    }
}

/// Whether the recording is to end because its stop file appeared.
pub fn stop_requested_by_file(path: &Option<String>, disk: &Snapshot) -> (r: bool)
    ensures
        r == is_asked_by_file(path.deep_view(), *disk),
        r == (path.deep_view() matches Some(path) && disk.has(path)),
{
    match path {
        Some(path) => disk.is_present(path.as_str()),
        None => false,
    }
}

// ---------------------------------------------------------------------------------------------
// What is handed to the helper, and what is said on the way
// ---------------------------------------------------------------------------------------------
/// Whether a recording in this mode takes in the microphone.
pub open spec fn takes_microphone(mode: InputMode) -> bool {
    mode != InputMode::SystemAudio
}

/// What the helper is asked to record.
pub open spec fn is_request(
    request: NativeRecordRequest,
    config: EffectiveView,
    session: SessionPaths,
    duration_seconds: Option<u64>,
) -> bool {
    &&& request.system_audio_path@ == session.system_audio_path@
    &&& request.microphone_audio_path.deep_view() == if takes_microphone(config.input_mode) {
        Some(session.microphone_audio_path@)
    } else {
        None
    }
    &&& request.capture_microphone == takes_microphone(config.input_mode)
    &&& request.duration_seconds == duration_seconds
    &&& request.display_id == config.display_id
}

/// What the helper is asked to record.
pub fn record_request(
    config: &EffectiveConfig,
    session: &SessionPaths,
    duration_seconds: Option<u64>,
) -> (r: NativeRecordRequest)
    ensures
        is_request(r, config@, *session, duration_seconds),
{
    let capture_microphone = config.input_mode != InputMode::SystemAudio;
    NativeRecordRequest {
        system_audio_path: session.system_audio_path.clone(),
        microphone_audio_path: if capture_microphone {
            Some(session.microphone_audio_path.clone())
        } else {
            None
        },
        capture_microphone,
        duration_seconds,
        display_id: config.display_id,
    }
}

/// What a recording is to be taken with.
pub open spec fn record_warnings(status: NativeStatus) -> Seq<Seq<char>> {
    let always = seq![
        transcribe::label_warning(),
        "native macOS capture performs final-pass transcription only; partial chunk transcripts are disabled"@,
    ];
    if status.screen_capture_access {
        always
    } else {
        always.push(
            "native capture will request Screen Recording permission the first time it runs"@,
        )
    }
}

/// What a recording is to be taken with.
pub fn recording_warnings(status: &NativeStatus) -> (r: Vec<String>)
    ensures
        r.deep_view() == record_warnings(*status),
{
    let mut warnings: Vec<String> = Vec::new();
    text::push_text(&mut warnings, "speaker labels are heuristic only in v1");
    text::push_text(
        &mut warnings,
        "native macOS capture performs final-pass transcription only; partial chunk transcripts are disabled",
    );
    if !status.screen_capture_access {
        text::push_text(
            &mut warnings,
            "native capture will request Screen Recording permission the first time it runs",
        );
    }
    assert(warnings.deep_view() =~= record_warnings(*status));
    warnings
}

/// What the event log says at the start of a session.
pub open spec fn start_event(
    session_id: Seq<char>,
    session: SessionPaths,
    config: EffectiveView,
    ts: Seq<char>,
) -> EventView {
    EventView {
        ts,
        kind: "session_started"@,
        message: "starting native macOS capture session"@,
        data: Some(
            seq![
                FieldView { name: "session_id"@, value: JsonView::Text(session_id) },
                FieldView { name: "artifacts_dir"@, value: JsonView::Text(session.root_dir@) },
                FieldView {
                    name: "input_mode"@,
                    value: JsonView::Text(config.input_mode.spec_stored_name()),
                },
                FieldView {
                    name: "display_id"@,
                    value: json::optional_number(config.display_id),
                },
            ],
        ),
    }
}

/// What the event log says at the start of a session.
pub fn start_entry(
    session_id: &str,
    session: &SessionPaths,
    config: &EffectiveConfig,
    ts: String,
) -> (r: SessionEvent)
    ensures
        r@ == start_event(session_id@, *session, config@, ts@),
{
    let mut data: Vec<Field> = Vec::new();
    json::push_field(&mut data, "session_id", Json::text(session_id));
    json::push_field(&mut data, "artifacts_dir", Json::text(session.root_dir.as_str()));
    json::push_field(&mut data, "input_mode", Json::text(config.input_mode.stored_name()));
    json::push_field(&mut data, "display_id", Json::from_number(config.display_id));
    assert(data.deep_view() =~= start_event(session_id@, *session, config@, ts@).data->0);
    SessionEvent::new(
        ts,
        "session_started",
        "starting native macOS capture session",
        Some(data),
    )
}

/// What the event log says of what the helper recorded.
pub open spec fn capture_event(result: NativeRecordResult, ts: Seq<char>) -> EventView {
    EventView {
        ts,
        kind: "native_capture_completed"@,
        message: "native ScreenCaptureKit helper finished"@,
        data: Some(
            seq![
                FieldView {
                    name: "system_audio_path"@,
                    value: JsonView::Text(result.system_audio_path@),
                },
                FieldView {
                    name: "microphone_audio_path"@,
                    value: json::optional_text(result.microphone_audio_path.deep_view()),
                },
                FieldView {
                    name: "display_id"@,
                    value: JsonView::Number(result.display_id as u64),
                },
                FieldView {
                    name: "captured_microphone"@,
                    value: JsonView::Bool(result.captured_microphone),
                },
            ],
        ),
    }
}

/// What the event log says of what the helper recorded.
pub fn capture_entry(result: &NativeRecordResult, ts: String) -> (r: SessionEvent)
    ensures
        r@ == capture_event(*result, ts@),
{
    let mut data: Vec<Field> = Vec::new();
    json::push_field(
        &mut data,
        "system_audio_path",
        Json::text(result.system_audio_path.as_str()),
    );
    json::push_field(
        &mut data,
        "microphone_audio_path",
        Json::from_text(&result.microphone_audio_path),
    );
    json::push_field(&mut data, "display_id", Json::Number(result.display_id as u64));
    json::push_field(&mut data, "captured_microphone", Json::Bool(result.captured_microphone));
    assert(data.deep_view() =~= capture_event(*result, ts@).data->0);
    SessionEvent::new(
        ts,
        "native_capture_completed",
        "native ScreenCaptureKit helper finished",
        Some(data),
    )
}

// ---------------------------------------------------------------------------------------------
// The session's audio
// ---------------------------------------------------------------------------------------------
/// How the session's audio comes about.
#[derive(Debug)]
pub enum AudioSource {
    /// By mixing these files.
    Mix(Vec<String>),
    /// By copying this file.
    Copy(String),
}

/// What an [`AudioSource`] holds.
pub enum AudioSourceView {
    Mix(Seq<Seq<char>>),
    Copy(Seq<char>),
}

impl View for AudioSource {
    type V = AudioSourceView;

    open spec fn view(&self) -> AudioSourceView {
        match self {
            AudioSource::Mix(inputs) => AudioSourceView::Mix(inputs.deep_view()),
            AudioSource::Copy(path) => AudioSourceView::Copy(path@),
        }
    }
}

/// How the session's audio comes about: a mix and the microphone alone need the microphone's file.
pub open spec fn source_of(mode: InputMode, session: SessionPaths, disk: Snapshot) -> Result<
    AudioSourceView,
    ErrorView,
> {
    let needed = mode == InputMode::MicSystemMix || mode == InputMode::Microphone;
    if needed && !disk.has(session.microphone_audio_path@) {
        Err(
            error::plain(
                "native microphone capture was requested but no microphone audio file was produced"@,
            ),
        )
    } else if mode == InputMode::MicSystemMix {
        Ok(
            AudioSourceView::Mix(
                seq![session.system_audio_path@, session.microphone_audio_path@],
            ),
        )
    } else if mode == InputMode::Microphone {
        Ok(AudioSourceView::Copy(session.microphone_audio_path@))
    } else {
        Ok(AudioSourceView::Copy(session.system_audio_path@))
    }
}

/// How the session's audio comes about.
pub fn audio_source(mode: InputMode, session: &SessionPaths, disk: &Snapshot) -> (r: Result<
    AudioSource,
    Error,
>)
    ensures
        match r {
            Ok(source) => source_of(mode, *session, *disk) == Ok::<AudioSourceView, ErrorView>(
                source@,
            ),
            Err(e) => source_of(mode, *session, *disk) == Err::<AudioSourceView, ErrorView>(e@),
        },
{
    let needed = mode == InputMode::MicSystemMix || mode == InputMode::Microphone;
    if needed && !disk.is_present(session.microphone_audio_path.as_str()) {
        return Err(
            Error::new(
                "native microphone capture was requested but no microphone audio file was produced".to_owned(),
            ),
        );
    }
    if mode == InputMode::MicSystemMix {
        let mut inputs: Vec<String> = Vec::new();
        text::push_text(&mut inputs, session.system_audio_path.as_str());
        text::push_text(&mut inputs, session.microphone_audio_path.as_str());
        assert(inputs.deep_view() =~= seq![
            session.system_audio_path@,
            session.microphone_audio_path@,
        ]);
        return Ok(AudioSource::Mix(inputs));
    }
    if mode == InputMode::Microphone {
        Ok(AudioSource::Copy(session.microphone_audio_path.clone()))
    } else {
        Ok(AudioSource::Copy(session.system_audio_path.clone()))
    }
}

/// What the event log says of how the session's audio came about.
pub open spec fn audio_event(
    mode: InputMode,
    source: AudioSourceView,
    session: SessionPaths,
    ts: Seq<char>,
) -> EventView {
    match source {
        AudioSourceView::Mix(_) => EventView {
            ts,
            kind: "audio_mixed"@,
            message: "mixed system audio and microphone into session audio"@,
            data: Some(
                seq![
                    FieldView {
                        name: "audio_path"@,
                        value: JsonView::Text(session.raw_audio_path@),
                    },
                    FieldView {
                        name: "system_audio_path"@,
                        value: JsonView::Text(session.system_audio_path@),
                    },
                    FieldView {
                        name: "microphone_audio_path"@,
                        value: JsonView::Text(session.microphone_audio_path@),
                    },
                ],
            ),
        },
        AudioSourceView::Copy(path) => EventView {
            ts,
            kind: "audio_copied"@,
            message: "copied native "@ + (if mode == InputMode::Microphone {
                "microphone"@
            } else {
                "system"@
            }) + " audio into final session audio"@,
            data: Some(
                seq![
                    FieldView {
                        name: "audio_path"@,
                        value: JsonView::Text(session.raw_audio_path@),
                    },
                    FieldView { name: "source_audio_path"@, value: JsonView::Text(path) },
                ],
            ),
        },
    }
}

/// What the event log says of how the session's audio came about.
pub fn audio_entry(
    mode: InputMode,
    source: &AudioSource,
    session: &SessionPaths,
    ts: String,
) -> (r: SessionEvent)
    ensures
        r@ == audio_event(mode, source@, *session, ts@),
{
    let mut data: Vec<Field> = Vec::new();
    json::push_field(&mut data, "audio_path", Json::text(session.raw_audio_path.as_str()));
    match source {
        AudioSource::Mix(_) => {
            json::push_field(
                &mut data,
                "system_audio_path",
                Json::text(session.system_audio_path.as_str()),
            );
            json::push_field(
                &mut data,
                "microphone_audio_path",
                Json::text(session.microphone_audio_path.as_str()),
            );
            assert(data.deep_view() =~= audio_event(mode, source@, *session, ts@).data->0);
            SessionEvent::new(
                ts,
                "audio_mixed",
                "mixed system audio and microphone into session audio",
                Some(data),
            )
        },
        AudioSource::Copy(path) => {
            json::push_field(&mut data, "source_audio_path", Json::text(path.as_str()));
            assert(data.deep_view() =~= audio_event(mode, source@, *session, ts@).data->0);
            let which = if mode == InputMode::Microphone {
                "microphone"
            } else {
                "system"
            };
            let message = text::cat3("copied native ", which, " audio into final session audio");
            SessionEvent::new(ts, "audio_copied", message.as_str(), Some(data))
        },
    }
}

// ---------------------------------------------------------------------------------------------
// The outcome
// ---------------------------------------------------------------------------------------------
/// What the event log says at the end of a session.
pub open spec fn completion_event(
    session: SessionPaths,
    transcript: TranscriptView,
    ts: Seq<char>,
) -> EventView {
    EventView {
        ts,
        kind: "session_completed"@,
        message: "final transcription written"@,
        data: Some(
            seq![
                FieldView {
                    name: "transcript_path"@,
                    value: JsonView::Text(session.transcript_path@),
                },
                FieldView {
                    name: "segments"@,
                    value: JsonView::Number(transcript.segments.len() as u64),
                },
                FieldView {
                    name: "text_length"@,
                    value: JsonView::Number(text::spec_byte_length(transcript.text) as u64),
                },
            ],
        ),
    }
}

/// What the event log says at the end of a session.
pub fn completion_entry(session: &SessionPaths, transcript: &Transcript, ts: String) -> (r:
    SessionEvent)
    ensures
        r@ == completion_event(*session, transcript@, ts@),
{
    let mut data: Vec<Field> = Vec::new();
    json::push_field(&mut data, "transcript_path", Json::text(session.transcript_path.as_str()));
    json::push_field(&mut data, "segments", Json::Number(transcript.segments.len() as u64));
    json::push_field(
        &mut data,
        "text_length",
        Json::Number(text::byte_length(transcript.text.as_str()) as u64),
    );
    assert(data.deep_view() =~= completion_event(*session, transcript@, ts@).data->0);
    SessionEvent::new(ts, "session_completed", "final transcription written", Some(data))
}

/// What is reported of a recorded session.
pub open spec fn record_result(
    session_id: Seq<char>,
    started_at: Seq<char>,
    ended_at: Seq<char>,
    duration_nanos: nat,
    session: SessionPaths,
    transcript: TranscriptView,
    warnings: Seq<Seq<char>>,
) -> SessionResultView {
    SessionResultView {
        object: "session"@,
        status: "completed"@,
        session_id,
        started_at,
        ended_at,
        duration_nanos,
        audio_path: session.raw_audio_path@,
        transcript_path: session.transcript_path@,
        event_log_path: session.event_log_path@,
        text: transcript.text,
        segments: transcript.segments,
        warnings,
        partial_chunks_transcribed: 0,
    }
}

/// What is reported of a recorded session.
pub fn session_result(
    session_id: String,
    started_at: String,
    ended_at: String,
    duration_nanos: u64,
    session: SessionPaths,
    transcript: Transcript,
    warnings: Vec<String>,
) -> (r: SessionResult)
    ensures
        r@ == record_result(
            session_id@,
            started_at@,
            ended_at@,
            duration_nanos as nat,
            session,
            transcript@,
            warnings.deep_view(),
        ),
{
    SessionResult {
        object: "session",
        status: "completed",
        session_id,
        started_at,
        ended_at,
        duration_nanos,
        audio_path: session.raw_audio_path,
        transcript_path: session.transcript_path,
        event_log_path: session.event_log_path,
        text: transcript.text,
        segments: transcript.segments,
        warnings,
        partial_chunks_transcribed: 0,
    }
}

// ---------------------------------------------------------------------------------------------
// Laws
// ---------------------------------------------------------------------------------------------
/// Whether a recording can start depends on nothing on disk but what is at the configured model's
/// path, and what becomes of its audio on nothing but what is at the microphone's.
pub proof fn law_recording_looks_at(
    config: EffectiveView,
    macos: bool,
    ffmpeg: ToolRun,
    whisper: ToolRun,
    session: SessionPaths,
    a: Snapshot,
    b: Snapshot,
)
    requires
        config.whisper_model_path matches Some(model) ==> a.kind_of(model) == b.kind_of(model),
        a.kind_of(session.microphone_audio_path@) == b.kind_of(session.microphone_audio_path@),
    ensures
        record_check(config, macos, ffmpeg, whisper, a) == record_check(
            config,
            macos,
            ffmpeg,
            whisper,
            b,
        ),
        source_of(config.input_mode, session, a) == source_of(config.input_mode, session, b),
{
    transcribe::law_whisper_check_looks_at(config, whisper, a, b);
}

/// Asking for the same twice changes nothing more.
pub proof fn law_overrides_are_idempotent(config: EffectiveView, args: RecordArgs)
    ensures
        overridden(overridden(config, args), args) == overridden(config, args),
{
}

/// Where nothing is asked for, nothing changes.
pub proof fn law_no_override_no_change(config: EffectiveView, args: RecordArgs)
    requires
        args.input_mode is None,
        args.display_id is None,
        args.microphone_device is None,
        args.system_device is None,
        args.single_input_device is None,
        args.partial_interval_seconds is None,
        args.artifacts_dir is None,
        args.ffmpeg_path is None,
        args.whisper_cli_path is None,
        args.whisper_model_path is None,
    ensures
        overridden(config, args) == config,
{
}

/// However long a recording is asked to wait between partial transcripts, it waits at least a
/// second.
pub proof fn law_override_keeps_interval(config: EffectiveView, args: RecordArgs)
    requires
        config.partial_interval_seconds >= 1,
    ensures
        overridden(config, args).partial_interval_seconds >= 1,
{
}

/// Without a mix, a recording does not depend on ffmpeg.
pub proof fn law_only_mix_needs_ffmpeg(
    config: EffectiveView,
    macos: bool,
    ffmpeg: ToolRun,
    other: ToolRun,
    whisper: ToolRun,
    disk: Snapshot,
)
    requires
        config.input_mode != InputMode::MicSystemMix,
    ensures
        record_check(config, macos, ffmpeg, whisper, disk) == record_check(
            config,
            macos,
            other,
            whisper,
            disk,
        ),
{
}

/// The step that comes `n` steps after the first, if there is one.
pub open spec fn nth_step(n: nat, mode: InputMode) -> Option<RecordStep>
    decreases n,
{
    if n == 0 {
        Some(RecordStep::CheckPrerequisites)
    } else {
        match nth_step((n - 1) as nat, mode) {
            Some(step) => step_after(step, mode),
            None => None,
        }
    }
}

proof fn lemma_steps(mode: InputMode)
    ensures
        nth_step(4, mode) == Some(RecordStep::LogStart),
        nth_step(5, mode) == Some(RecordStep::Capture),
        nth_step(6, mode) == Some(RecordStep::LogCapture),
        mode == InputMode::MicSystemMix ==> {
            &&& nth_step(7, mode) == Some(RecordStep::CheckMixer)
            &&& nth_step(8, mode) == Some(RecordStep::MixAudio)
            &&& nth_step(9, mode) == Some(RecordStep::LogAudio)
            &&& nth_step(10, mode) == Some(RecordStep::Transcribe)
            &&& nth_step(11, mode) == Some(RecordStep::WriteTranscript)
            &&& nth_step(12, mode) == Some(RecordStep::LogCompletion)
            &&& nth_step(13, mode) == Some(RecordStep::Report)
            &&& nth_step(14, mode) == None::<RecordStep>
        },
        mode != InputMode::MicSystemMix ==> {
            &&& nth_step(7, mode) == Some(RecordStep::CopyAudio)
            &&& nth_step(8, mode) == Some(RecordStep::LogAudio)
            &&& nth_step(9, mode) == Some(RecordStep::Transcribe)
            &&& nth_step(10, mode) == Some(RecordStep::WriteTranscript)
            &&& nth_step(11, mode) == Some(RecordStep::LogCompletion)
            &&& nth_step(12, mode) == Some(RecordStep::Report)
            &&& nth_step(13, mode) == None::<RecordStep>
        },
{
    reveal_with_fuel(nth_step, 15);
}

/// Every recording whose steps all succeed comes to its report, and to nothing after it.
pub proof fn law_recording_comes_to_its_report(mode: InputMode)
    ensures
        exists|n: nat|
            #[trigger] nth_step(n, mode) == Some(RecordStep::Report) && nth_step(n + 1, mode)
                == None::<RecordStep>,
{
    lemma_steps(mode);
    if mode == InputMode::MicSystemMix {
        assert(nth_step(13, mode) == Some(RecordStep::Report));
        assert(nth_step(14, mode) == None::<RecordStep>);
    } else {
        assert(nth_step(12, mode) == Some(RecordStep::Report));
        assert(nth_step(13, mode) == None::<RecordStep>);
    }
}

proof fn lemma_no_step_later(n: nat, k: nat, mode: InputMode)
    requires
        nth_step(n, mode) is None,
        n <= k,
    ensures
        nth_step(k, mode) is None,
    decreases k,
{
    if n < k {
        lemma_no_step_later(n, (k - 1) as nat, mode);
    }
}

/// Audio is mixed in a mix and in no other mode, and where it is mixed nothing is copied.
pub proof fn law_audio_is_mixed_or_copied(mode: InputMode, n: nat)
    ensures
        nth_step(n, mode) == Some(RecordStep::MixAudio) ==> mode == InputMode::MicSystemMix,
        nth_step(n, mode) == Some(RecordStep::CheckMixer) ==> mode == InputMode::MicSystemMix,
        nth_step(n, mode) == Some(RecordStep::CopyAudio) ==> mode != InputMode::MicSystemMix,
    decreases n,
{
    if n > 0 {
        law_audio_is_mixed_or_copied(mode, (n - 1) as nat);
    }
}

/// A transcript is made only of audio that was recorded and logged before.
pub proof fn law_audio_comes_before_transcript(mode: InputMode, n: nat)
    requires
        nth_step(n, mode) == Some(RecordStep::Transcribe),
    ensures
        n >= 9,
        nth_step(5, mode) == Some(RecordStep::Capture),
        nth_step((n - 1) as nat, mode) == Some(RecordStep::LogAudio),
        nth_step((n - 2) as nat, mode) == Some(
            if mode == InputMode::MicSystemMix {
                RecordStep::MixAudio
            } else {
                RecordStep::CopyAudio
            },
        ),
{
    lemma_steps(mode);
    reveal_with_fuel(nth_step, 9);
    let end: nat = if mode == InputMode::MicSystemMix {
        14
    } else {
        13
    };
    if n >= end {
        lemma_no_step_later(end, n, mode);
    }
}

/// What happens while the helper records: the state after `events`, and how often the helper was
/// told to stop.
pub open spec fn captured(state: CaptureState, events: Seq<CaptureEvent>) -> (CaptureState, nat)
    decreases events.len(),
{
    if events.len() == 0 {
        (state, 0)
    } else {
        let (before, stops) = captured(state, events.drop_last());
        let (after, action) = capture_step(before, events.last());
        (
            after,
            if action.stops() {
                stops + 1
            } else {
                stops
            },
        )
    }
}

/// Whatever happens while the helper records, it is told to stop at most once, and it was told to
/// exactly when the state says so.
pub proof fn law_helper_is_stopped_once(events: Seq<CaptureEvent>)
    ensures
        captured(CaptureState { stop_requested: false }, events).1 <= 1,
        captured(CaptureState { stop_requested: false }, events).0.stop_requested <==> captured(
            CaptureState { stop_requested: false },
            events,
        ).1 == 1,
    decreases events.len(),
{
    if events.len() > 0 {
        law_helper_is_stopped_once(events.drop_last());
    }
}

/// The helper's answer is taken exactly when the helper has ended.
pub proof fn law_answer_is_taken_at_the_end(state: CaptureState, event: CaptureEvent)
    ensures
        capture_step(state, event).1 == CaptureAction::Collect <==> (event matches
            CaptureEvent::Polled { exited, .. } && exited),
{
}

/// Whatever is recorded, it is said that speaker labels are heuristic.
pub proof fn law_labels_are_always_warned_of(status: NativeStatus)
    ensures
        record_warnings(status).len() >= 2,
        record_warnings(status)[0] == transcribe::label_warning(),
{
}

/// The microphone is recorded exactly in those modes in which the helper is told where to put its
/// audio.
pub proof fn law_request_matches_mode(
    request: NativeRecordRequest,
    config: EffectiveView,
    session: SessionPaths,
    duration_seconds: Option<u64>,
)
    requires
        is_request(request, config, session, duration_seconds),
    ensures
        request.capture_microphone <==> request.microphone_audio_path is Some,
        config.input_mode == InputMode::SystemAudio <==> !request.capture_microphone,
{
}

/// The session's audio is never made of a microphone file that was not recorded.
pub proof fn law_microphone_audio_is_there(
    mode: InputMode,
    session: SessionPaths,
    root: Seq<char>,
    disk: Snapshot,
)
    requires
        session.lie_in(root),
    ensures
        source_of(mode, session, disk) matches Ok(AudioSourceView::Copy(path)) ==> (path
            == session.microphone_audio_path@ ==> disk.has(path)),
        source_of(mode, session, disk) matches Ok(AudioSourceView::Mix(inputs)) ==> disk.has(
            session.microphone_audio_path@,
        ) && inputs == seq![session.system_audio_path@, session.microphone_audio_path@],
{
    reveal_strlit("system.wav");
    reveal_strlit("microphone.wav");
    assert("system.wav"@.len() < "microphone.wav"@.len());
    path::law_join_file_name(root, "system.wav"@);
    path::law_join_file_name(root, "microphone.wav"@);
}

// ---------------------------------------------------------------------------------------------
// What is asked for is what is in effect
// ---------------------------------------------------------------------------------------------
/// Every option that is given is in effect exactly as given, whatever was in effect before. The
/// interval is in effect as given too, but for none at all, which stands for one second.
pub proof fn law_given_options_are_in_effect(config: EffectiveView, args: RecordArgs)
    ensures
        args.input_mode matches Some(mode) ==> overridden(config, args).input_mode == mode,
        args.display_id matches Some(id) ==> overridden(config, args).display_id == Some(id),
        args.microphone_device matches Some(name) ==> overridden(config, args).microphone_device
            == Some(name@),
        args.system_device matches Some(name) ==> overridden(config, args).system_device == Some(
            name@,
        ),
        args.single_input_device matches Some(name) ==> overridden(config, args).single_input_device
            == Some(name@),
        args.artifacts_dir matches Some(dir) ==> overridden(config, args).artifacts_dir == dir@,
        args.ffmpeg_path matches Some(path) ==> overridden(config, args).ffmpeg_path == path@,
        args.whisper_cli_path matches Some(path) ==> overridden(config, args).whisper_cli_path
            == Some(path@),
        args.whisper_model_path matches Some(path) ==> overridden(config, args).whisper_model_path
            == Some(path@),
        args.partial_interval_seconds matches Some(seconds) ==> {
            &&& seconds >= 1 ==> overridden(config, args).partial_interval_seconds == seconds
            &&& seconds == 0 ==> overridden(config, args).partial_interval_seconds == 1
        },
{
}

/// An option that is not given leaves what it is about as it was, whatever else is given.
pub proof fn law_other_settings_stay_in_effect(config: EffectiveView, args: RecordArgs)
    ensures
        args.input_mode is None ==> overridden(config, args).input_mode == config.input_mode,
        args.display_id is None ==> overridden(config, args).display_id == config.display_id,
        args.microphone_device is None ==> overridden(config, args).microphone_device
            == config.microphone_device,
        args.system_device is None ==> overridden(config, args).system_device
            == config.system_device,
        args.single_input_device is None ==> overridden(config, args).single_input_device
            == config.single_input_device,
        args.artifacts_dir is None ==> overridden(config, args).artifacts_dir
            == config.artifacts_dir,
        args.ffmpeg_path is None ==> overridden(config, args).ffmpeg_path == config.ffmpeg_path,
        args.whisper_cli_path is None ==> overridden(config, args).whisper_cli_path
            == config.whisper_cli_path,
        args.whisper_model_path is None ==> overridden(config, args).whisper_model_path
            == config.whisper_model_path,
        args.partial_interval_seconds is None ==> overridden(config, args).partial_interval_seconds
            == config.partial_interval_seconds,
        overridden(config, args).config_file == config.config_file,
{
}

/// A recording can start exactly if the platform is macOS, whisper-cli is configured and works, the
/// configured model is there, and, for a mix, ffmpeg works; and where the platform is another, that
/// is what is said.
pub proof fn law_recording_can_start(
    config: EffectiveView,
    macos: bool,
    ffmpeg: ToolRun,
    whisper: ToolRun,
    disk: Snapshot,
)
    ensures
        record_check(config, macos, ffmpeg, whisper, disk) is Ok <==> {
            &&& macos
            &&& config.whisper_cli_path is Some
            &&& whisper matches ToolRun::Finished(output) && output.success
            &&& config.whisper_model_path matches Some(model) && disk.has(model)
            &&& config.input_mode == InputMode::MicSystemMix ==> (ffmpeg matches ToolRun::Finished(
                output,
            ) && output.success)
        },
        !macos ==> record_check(config, macos, ffmpeg, whisper, disk) == Err::<(), ErrorView>(
            error::plain("scribecli currently supports macOS only"@),
        ),
        macos && config.input_mode == InputMode::MicSystemMix ==> (ffmpeg matches
            ToolRun::NotStarted(reason) ==> record_check(config, macos, ffmpeg, whisper, disk)
            == Err::<(), ErrorView>(
            error::caused("failed to execute "@ + config.ffmpeg_path, reason@),
        )),
{
}

// ---------------------------------------------------------------------------------------------
// The course of a recording
// ---------------------------------------------------------------------------------------------
/// A recording goes step by step: nothing is recorded before the prerequisites were checked, the
/// helper was asked and the session was created, and the start is logged before the helper records.
pub proof fn law_recording_is_prepared(mode: InputMode)
    ensures
        nth_step(0, mode) == Some(RecordStep::CheckPrerequisites),
        nth_step(1, mode) == Some(RecordStep::PrepareHelper),
        nth_step(2, mode) == Some(RecordStep::AskHelper),
        nth_step(3, mode) == Some(RecordStep::CreateSession),
        nth_step(4, mode) == Some(RecordStep::LogStart),
        nth_step(5, mode) == Some(RecordStep::Capture),
        nth_step(6, mode) == Some(RecordStep::LogCapture),
{
    reveal_with_fuel(nth_step, 8);
}

/// What was recorded becomes the session's audio before it is transcribed, and what was transcribed
/// is written before the session is logged as completed and reported.
pub proof fn law_recording_is_finished(mode: InputMode)
    ensures
        mode == InputMode::MicSystemMix ==> {
            &&& nth_step(7, mode) == Some(RecordStep::CheckMixer)
            &&& nth_step(8, mode) == Some(RecordStep::MixAudio)
            &&& nth_step(9, mode) == Some(RecordStep::LogAudio)
            &&& nth_step(10, mode) == Some(RecordStep::Transcribe)
            &&& nth_step(11, mode) == Some(RecordStep::WriteTranscript)
            &&& nth_step(12, mode) == Some(RecordStep::LogCompletion)
            &&& nth_step(13, mode) == Some(RecordStep::Report)
            &&& nth_step(14, mode) is None
        },
        mode != InputMode::MicSystemMix ==> {
            &&& nth_step(7, mode) == Some(RecordStep::CopyAudio)
            &&& nth_step(8, mode) == Some(RecordStep::LogAudio)
            &&& nth_step(9, mode) == Some(RecordStep::Transcribe)
            &&& nth_step(10, mode) == Some(RecordStep::WriteTranscript)
            &&& nth_step(11, mode) == Some(RecordStep::LogCompletion)
            &&& nth_step(12, mode) == Some(RecordStep::Report)
            &&& nth_step(13, mode) is None
        },
{
    lemma_steps(mode);
}

/// Whether an event asks a helper that still records to stop.
pub open spec fn asks_to_stop(event: CaptureEvent) -> bool {
    match event {
        CaptureEvent::Polled { exited, stop_file } => !exited && stop_file,
        CaptureEvent::Signalled => true,
        CaptureEvent::Waited => false,
    }
}

/// The helper is told to stop exactly if something that happened while it recorded asks for it: a
/// signal, or the stop file, seen while the helper still ran.
pub proof fn law_helper_is_stopped_when_asked(events: Seq<CaptureEvent>)
    ensures
        captured(CaptureState { stop_requested: false }, events).1 == 1 <==> exists|i: int|
            0 <= i < events.len() && asks_to_stop(#[trigger] events[i]),
    decreases events.len(),
{
    if events.len() > 0 {
        let rest = events.drop_last();
        law_helper_is_stopped_when_asked(rest);
        law_helper_is_stopped_once(rest);
        law_helper_is_stopped_once(events);
        if exists|i: int| 0 <= i < events.len() && asks_to_stop(#[trigger] events[i]) {
            let i = choose|i: int| 0 <= i < events.len() && asks_to_stop(#[trigger] events[i]);
            if i < rest.len() {
                assert(asks_to_stop(rest[i]));
            }
        }
        if exists|i: int| 0 <= i < rest.len() && asks_to_stop(#[trigger] rest[i]) {
            let i = choose|i: int| 0 <= i < rest.len() && asks_to_stop(#[trigger] rest[i]);
            assert(asks_to_stop(events[i]));
        }
        if asks_to_stop(events.last()) {
            assert(asks_to_stop(events[events.len() - 1]));
        }
    }
}

/// A helper that still records is polled again: after a poll comes a wait, and after a wait or a
/// signal a poll. An end of the recording is never put off.
pub proof fn law_helper_is_polled_until_it_ends(state: CaptureState, event: CaptureEvent)
    ensures
        event matches CaptureEvent::Polled { exited, .. } ==> if exited {
            capture_step(state, event) == (state, CaptureAction::Collect)
        } else {
            capture_step(state, event).1 == CaptureAction::Wait || capture_step(state, event).1
                == CaptureAction::StopAndWait
        },
        event == CaptureEvent::Waited ==> capture_step(state, event) == (state, CaptureAction::Poll),
        event == CaptureEvent::Signalled ==> capture_step(state, event).1 == CaptureAction::Poll
            || capture_step(state, event).1 == CaptureAction::StopAndPoll,
        capture_step(state, event).1.stops() <==> asks_to_stop(event) && !state.stop_requested,
        capture_step(state, event).0.stop_requested <==> state.stop_requested || asks_to_stop(event),
{
}

/// The helper is asked to record for the session: system audio always, and the microphone in every
/// mode but that of system audio alone, each into the session's own file, from the configured
/// display and for as long as is asked for.
pub proof fn law_request_is_for_the_session(
    request: NativeRecordRequest,
    config: EffectiveView,
    session: SessionPaths,
    duration_seconds: Option<u64>,
)
    requires
        is_request(request, config, session, duration_seconds),
    ensures
        request.system_audio_path@ == session.system_audio_path@,
        config.input_mode != InputMode::SystemAudio ==> request.capture_microphone && (
        request.microphone_audio_path matches Some(path) && path@ == session.microphone_audio_path@),
        config.input_mode == InputMode::SystemAudio ==> !request.capture_microphone
            && request.microphone_audio_path is None,
        request.duration_seconds == duration_seconds,
        request.display_id == config.display_id,
{
}

/// The session's audio is both recordings in a mix, the microphone's in that mode, and that of the
/// system in every other. It is refused exactly where the microphone is needed for it and was not
/// recorded.
pub proof fn law_audio_goes_by_mode(mode: InputMode, session: SessionPaths, disk: Snapshot)
    ensures
        source_of(mode, session, disk) is Err <==> (mode == InputMode::MicSystemMix || mode
            == InputMode::Microphone) && !disk.has(session.microphone_audio_path@),
        source_of(mode, session, disk) matches Err(e) ==> e == error::plain(
            "native microphone capture was requested but no microphone audio file was produced"@,
        ),
        source_of(mode, session, disk) matches Ok(source) ==> {
            &&& mode == InputMode::MicSystemMix ==> (source matches AudioSourceView::Mix(inputs)
                && inputs.len() == 2 && inputs[0] == session.system_audio_path@ && inputs[1]
                == session.microphone_audio_path@)
            &&& mode == InputMode::Microphone ==> source == AudioSourceView::Copy(
                session.microphone_audio_path@,
            )
            &&& mode == InputMode::SystemAudio || mode == InputMode::SingleDevice ==> source
                == AudioSourceView::Copy(session.system_audio_path@)
        },
{
}

// ---------------------------------------------------------------------------------------------
// What is logged and reported
// ---------------------------------------------------------------------------------------------
/// What is warned of at the start: that labels are heuristic and that no partial transcripts are
/// made, always; that a permission will be asked for, exactly where it has not been granted.
pub proof fn law_missing_permission_is_warned_of(status: NativeStatus)
    ensures
        record_warnings(status).contains("speaker labels are heuristic only in v1"@),
        record_warnings(status).contains(
            "native macOS capture performs final-pass transcription only; partial chunk transcripts are disabled"@,
        ),
        status.screen_capture_access ==> record_warnings(status).len() == 2,
        !status.screen_capture_access ==> record_warnings(status).len() == 3 && record_warnings(
            status,
        )[2] == "native capture will request Screen Recording permission the first time it runs"@,
{
    let warnings = record_warnings(status);
    assert(warnings[0] == "speaker labels are heuristic only in v1"@);
    assert(warnings[1]
        == "native macOS capture performs final-pass transcription only; partial chunk transcripts are disabled"@);
}

/// The log says at the start of a session what it is called, where it lies, and what is recorded.
pub proof fn law_start_is_logged(
    session_id: Seq<char>,
    session: SessionPaths,
    config: EffectiveView,
    ts: Seq<char>,
)
    ensures
        ({
            let event = start_event(session_id, session, config, ts);
            &&& event.ts == ts
            &&& event.kind == "session_started"@
            &&& event.message == "starting native macOS capture session"@
            &&& event.data matches Some(fields) && fields.len() == 4
            &&& json::says(event.data, "session_id"@, JsonView::Text(session_id))
            &&& json::says(event.data, "artifacts_dir"@, JsonView::Text(session.root_dir@))
            &&& json::says(
                event.data,
                "input_mode"@,
                JsonView::Text(config.input_mode.spec_stored_name()),
            )
            &&& config.display_id matches Some(id) ==> json::says(
                event.data,
                "display_id"@,
                JsonView::Number(id as u64),
            )
            &&& config.display_id is None ==> json::says(event.data, "display_id"@, JsonView::Null)
        }),
{
    reveal_strlit("session_id");
    reveal_strlit("artifacts_dir");
    reveal_strlit("input_mode");
    reveal_strlit("display_id");
    assert("session_id"@[0] == 's');
    assert("artifacts_dir"@[0] == 'a');
    assert("input_mode"@[0] == 'i');
    assert("display_id"@[0] == 'd');
    let fields = start_event(session_id, session, config, ts).data->0;
    assert(fields[0].name == "session_id"@);
    assert(fields[1].name == "artifacts_dir"@);
    assert(fields[2].name == "input_mode"@);
    assert(fields[3].name == "display_id"@);
}

/// The log says of what the helper recorded what the helper said.
pub proof fn law_capture_is_logged(result: NativeRecordResult, ts: Seq<char>)
    ensures
        ({
            let event = capture_event(result, ts);
            &&& event.ts == ts
            &&& event.kind == "native_capture_completed"@
            &&& event.message == "native ScreenCaptureKit helper finished"@
            &&& event.data matches Some(fields) && fields.len() == 4
            &&& json::says(
                event.data,
                "system_audio_path"@,
                JsonView::Text(result.system_audio_path@),
            )
            &&& result.microphone_audio_path matches Some(path) ==> json::says(
                event.data,
                "microphone_audio_path"@,
                JsonView::Text(path@),
            )
            &&& result.microphone_audio_path is None ==> json::says(
                event.data,
                "microphone_audio_path"@,
                JsonView::Null,
            )
            &&& json::says(
                event.data,
                "display_id"@,
                JsonView::Number(result.display_id as u64),
            )
            &&& json::says(
                event.data,
                "captured_microphone"@,
                JsonView::Bool(result.captured_microphone),
            )
        }),
{
    reveal_strlit("system_audio_path");
    reveal_strlit("microphone_audio_path");
    reveal_strlit("display_id");
    reveal_strlit("captured_microphone");
    assert("system_audio_path"@[0] == 's');
    assert("microphone_audio_path"@[0] == 'm');
    assert("display_id"@[0] == 'd');
    assert("captured_microphone"@[0] == 'c');
    let fields = capture_event(result, ts).data->0;
    assert(fields[0].name == "system_audio_path"@);
    assert(fields[1].name == "microphone_audio_path"@);
    assert(fields[2].name == "display_id"@);
    assert(fields[3].name == "captured_microphone"@);
}

/// The log says of the session's audio where it lies and what it was made of.
pub proof fn law_audio_is_logged(
    mode: InputMode,
    source: AudioSourceView,
    session: SessionPaths,
    ts: Seq<char>,
)
    ensures
        ({
            let event = audio_event(mode, source, session, ts);
            &&& event.ts == ts
            &&& json::says(event.data, "audio_path"@, JsonView::Text(session.raw_audio_path@))
            &&& source is Mix ==> {
                &&& event.kind == "audio_mixed"@
                &&& event.message == "mixed system audio and microphone into session audio"@
                &&& event.data matches Some(fields) && fields.len() == 3
                &&& json::says(
                    event.data,
                    "system_audio_path"@,
                    JsonView::Text(session.system_audio_path@),
                )
                &&& json::says(
                    event.data,
                    "microphone_audio_path"@,
                    JsonView::Text(session.microphone_audio_path@),
                )
            }
            &&& source matches AudioSourceView::Copy(path) ==> {
                &&& event.kind == "audio_copied"@
                &&& event.data matches Some(fields) && fields.len() == 2
                &&& json::says(event.data, "source_audio_path"@, JsonView::Text(path))
                &&& mode == InputMode::Microphone ==> event.message == "copied native "@
                    + "microphone"@ + " audio into final session audio"@
                &&& mode != InputMode::Microphone ==> event.message == "copied native "@
                    + "system"@ + " audio into final session audio"@
            }
        }),
{
    reveal_strlit("audio_path");
    reveal_strlit("system_audio_path");
    reveal_strlit("microphone_audio_path");
    reveal_strlit("source_audio_path");
    assert("audio_path"@[1] == 'u');
    assert("system_audio_path"@[1] == 'y');
    assert("microphone_audio_path"@[1] == 'i');
    assert("source_audio_path"@[1] == 'o');
    let fields = audio_event(mode, source, session, ts).data->0;
    assert(fields[0].name == "audio_path"@);
    if source is Mix {
        assert(fields[1].name == "system_audio_path"@);
        assert(fields[2].name == "microphone_audio_path"@);
    } else {
        assert(fields[1].name == "source_audio_path"@);
    }
}

/// The log says at the end where the transcript lies, how many segments it has, and how long it is.
pub proof fn law_completion_is_logged(
    session: SessionPaths,
    transcript: TranscriptView,
    ts: Seq<char>,
)
    ensures
        ({
            let event = completion_event(session, transcript, ts);
            &&& event.ts == ts
            &&& event.kind == "session_completed"@
            &&& event.message == "final transcription written"@
            &&& event.data matches Some(fields) && fields.len() == 3
            &&& json::says(
                event.data,
                "transcript_path"@,
                JsonView::Text(session.transcript_path@),
            )
            &&& json::says(
                event.data,
                "segments"@,
                JsonView::Number(transcript.segments.len() as u64),
            )
            &&& json::says(
                event.data,
                "text_length"@,
                JsonView::Number(vstd::utf8::encode_utf8(transcript.text).len() as u64),
            )
        }),
{
    reveal_strlit("transcript_path");
    reveal_strlit("segments");
    reveal_strlit("text_length");
    assert("transcript_path"@[1] == 'r');
    assert("segments"@[0] == 's');
    assert("text_length"@[1] == 'e' && "text_length"@[0] == 't');
    let fields = completion_event(session, transcript, ts).data->0;
    assert(fields[0].name == "transcript_path"@);
    assert(fields[1].name == "segments"@);
    assert(fields[2].name == "text_length"@);
}

/// A recorded session is reported with the files it lies in, and with all of its transcript and of
/// its warnings.
pub proof fn law_session_is_reported(
    session_id: Seq<char>,
    started_at: Seq<char>,
    ended_at: Seq<char>,
    duration_nanos: nat,
    session: SessionPaths,
    transcript: TranscriptView,
    warnings: Seq<Seq<char>>,
)
    ensures
        ({
            let report = record_result(
                session_id,
                started_at,
                ended_at,
                duration_nanos,
                session,
                transcript,
                warnings,
            );
            &&& report.object == "session"@
            &&& report.status == "completed"@
            &&& report.session_id == session_id
            &&& report.started_at == started_at
            &&& report.ended_at == ended_at
            &&& report.duration_nanos == duration_nanos
            &&& report.audio_path == session.raw_audio_path@
            &&& report.transcript_path == session.transcript_path@
            &&& report.event_log_path == session.event_log_path@
            &&& report.text == transcript.text
            &&& report.segments == transcript.segments
            &&& report.warnings == warnings
            &&& report.partial_chunks_transcribed == 0
        }),
{
}

/// A recording is asked to end by a file exactly if it was told of one and that is there.
pub proof fn law_stop_file_is_looked_for(path: Option<Seq<char>>, disk: Snapshot)
    ensures
        path is None ==> !is_asked_by_file(path, disk),
        path matches Some(file) ==> (is_asked_by_file(path, disk) <==> disk.has(file)),
{
}

/// On macOS, what is said of a recording that cannot start is what is wrong with ffmpeg, where that
/// is needed, and else what is wrong with what transcribes it.
pub proof fn law_refused_recording_says_why(
    config: EffectiveView,
    ffmpeg: ToolRun,
    whisper: ToolRun,
    disk: Snapshot,
)
    ensures
        config.input_mode != InputMode::MicSystemMix || (ffmpeg matches ToolRun::Finished(output)
            && output.success) ==> record_check(config, true, ffmpeg, whisper, disk)
            == transcribe::whisper_check(config, whisper, disk),
        config.input_mode == InputMode::MicSystemMix ==> (ffmpeg matches ToolRun::Finished(output)
            ==> !output.success ==> record_check(config, true, ffmpeg, whisper, disk) == Err::<
            (),
            ErrorView,
        >(error::plain(config.ffmpeg_path + " exited with status "@ + output.status@))),
{
}

} // verus!
