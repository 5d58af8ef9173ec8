use scribecli::config::{EffectiveConfig, InputMode};
use scribecli::disk::{PathFact, PathKind, Snapshot};
use scribecli::json::Json;
use scribecli::native::{record, NativeRecordResult, NativeStatus};
use scribecli::recording::{
    apply_record_overrides, audio_entry, audio_source, capture_entry, capture_next, capture_start,
    completion_entry, first_step, next_step, record_request, recording_warnings, session_result,
    start_entry, stop_requested_by_file, validate_record_prerequisites, AudioSource,
    CaptureAction, CaptureEvent, RecordArgs, RecordStep,
};
use scribecli::session::{SessionEvent, SessionPaths, Transcript};
use scribecli::tool::{ToolOutput, ToolRun};

fn no_args() -> RecordArgs {
    RecordArgs {
        input_mode: None,
        display_id: None,
        microphone_device: None,
        system_device: None,
        single_input_device: None,
        partial_interval_seconds: None,
        artifacts_dir: None,
        ffmpeg_path: None,
        whisper_cli_path: None,
        whisper_model_path: None,
        session_name: None,
        duration_seconds: None,
        session_id: None,
        stop_request_path: None,
    }
}

fn config(mode: InputMode) -> EffectiveConfig {
    EffectiveConfig {
        ffmpeg_path: "/t/missing-ffmpeg".to_string(),
        whisper_cli_path: Some("/t/whisper-cli".to_string()),
        whisper_model_path: Some("/t/model.bin".to_string()),
        artifacts_dir: "/t/artifacts".to_string(),
        partial_interval_seconds: 15,
        input_mode: mode,
        display_id: None,
        microphone_device: None,
        system_device: None,
        single_input_device: None,
        config_file: "/t/config.toml".to_string(),
    }
}

fn files(paths: &[&str]) -> Snapshot {
    Snapshot {
        facts: paths
            .iter()
            .map(|path| PathFact { path: path.to_string(), kind: PathKind::File })
            .collect(),
        listings: Vec::new(),
        resolved: Vec::new(),
    }
}

fn ok_run() -> ToolRun {
    ToolRun::Finished(ToolOutput {
        success: true,
        status: "exit status: 0".to_string(),
        stdout: "usage".to_string(),
        stdout_fault: None,
        stderr: String::new(),
    })
}

fn no_run() -> ToolRun {
    ToolRun::NotStarted("No such file or directory (os error 2)".to_string())
}

fn session() -> SessionPaths {
    SessionPaths::create("/t/artifacts", "s")
}

fn fields(event: &SessionEvent) -> Vec<String> {
    event
        .data
        .as_ref()
        .unwrap()
        .iter()
        .map(|field| {
            let value = match &field.value {
                Json::Null => "null".to_string(),
                Json::Bool(b) => b.to_string(),
                Json::Number(n) => n.to_string(),
                Json::Text(s) => s.clone(),
            };
            format!("{}={value}", field.name)
        })
        .collect()
}

#[test]
fn config_overrides_apply_to_effective_config() {
    let base = EffectiveConfig {
        ffmpeg_path: "ffmpeg".to_string(),
        whisper_cli_path: None,
        whisper_model_path: None,
        artifacts_dir: "/tmp/artifacts".to_string(),
        partial_interval_seconds: 15,
        input_mode: InputMode::MicSystemMix,
        display_id: None,
        microphone_device: Some("Mic".to_string()),
        system_device: Some("System".to_string()),
        single_input_device: None,
        config_file: "/tmp/config.toml".to_string(),
    };

    let args = RecordArgs {
        input_mode: Some(InputMode::Microphone),
        display_id: Some(123),
        microphone_device: None,
        system_device: None,
        single_input_device: Some("System Capture".to_string()),
        partial_interval_seconds: Some(3),
        artifacts_dir: Some("/tmp/custom".to_string()),
        ffmpeg_path: Some("/usr/local/bin/ffmpeg".to_string()),
        whisper_cli_path: None,
        whisper_model_path: None,
        session_name: None,
        duration_seconds: None,
        session_id: None,
        stop_request_path: None,
    };

    let applied = apply_record_overrides(base, &args);
    assert_eq!(applied.input_mode, InputMode::Microphone);
    assert_eq!(applied.display_id, Some(123));
    assert_eq!(applied.partial_interval_seconds, 3);
    assert_eq!(applied.artifacts_dir, "/tmp/custom");
    assert_eq!(applied.single_input_device, Some("System Capture".to_string()));
    assert_eq!(applied.microphone_device, Some("Mic".to_string()));
    assert_eq!(applied.ffmpeg_path, "/usr/local/bin/ffmpeg");
    let again = apply_record_overrides(applied.copy(), &args);
    assert_eq!(format!("{again:?}"), format!("{applied:?}"));
    let unchanged = apply_record_overrides(applied.copy(), &no_args());
    assert_eq!(format!("{unchanged:?}"), format!("{applied:?}"));
}

#[test]
fn an_interval_of_nothing_becomes_a_second() {
    let args = RecordArgs { partial_interval_seconds: Some(0), ..no_args() };
    let applied = apply_record_overrides(config(InputMode::Microphone), &args);
    assert_eq!(applied.partial_interval_seconds, 1);
}

#[test]
fn validate_record_prerequisites_skips_ffmpeg_for_native_microphone() {
    let config = config(InputMode::Microphone);
    let disk = files(&["/t/whisper-cli", "/t/model.bin"]);
    validate_record_prerequisites(&config, true, &no_run(), &ok_run(), &disk).unwrap();
}

#[test]
fn validate_record_prerequisites_requires_ffmpeg_for_native_mix() {
    let config = config(InputMode::MicSystemMix);
    let disk = files(&["/t/whisper-cli", "/t/model.bin"]);
    let error = validate_record_prerequisites(&config, true, &no_run(), &ok_run(), &disk)
        .unwrap_err()
        .message;
    assert!(error.contains("failed to execute"));
    assert!(error.contains("missing-ffmpeg"));
}

#[test]
fn recording_is_for_macos() {
    let disk = files(&["/t/model.bin"]);
    let error = validate_record_prerequisites(
        &config(InputMode::Microphone),
        false,
        &ok_run(),
        &ok_run(),
        &disk,
    )
    .unwrap_err();
    assert_eq!(error.full_text(), "scribecli currently supports macOS only");
}

#[test]
fn a_recording_goes_step_by_step() {
    let steps = |mode: InputMode| {
        let mut all = vec![first_step()];
        while let Some(step) = next_step(all[all.len() - 1], mode) {
            all.push(step);
        }
        all
    };
    let mixed = steps(InputMode::MicSystemMix);
    assert_eq!(
        mixed,
        [
            RecordStep::CheckPrerequisites,
            RecordStep::PrepareHelper,
            RecordStep::AskHelper,
            RecordStep::CreateSession,
            RecordStep::LogStart,
            RecordStep::Capture,
            RecordStep::LogCapture,
            RecordStep::CheckMixer,
            RecordStep::MixAudio,
            RecordStep::LogAudio,
            RecordStep::Transcribe,
            RecordStep::WriteTranscript,
            RecordStep::LogCompletion,
            RecordStep::Report,
        ]
    );
    for mode in [InputMode::Microphone, InputMode::SystemAudio, InputMode::SingleDevice] {
        let copied = steps(mode);
        assert_eq!(copied[..7], mixed[..7]);
        assert_eq!(copied[7], RecordStep::CopyAudio);
        assert_eq!(copied[8..], mixed[9..]);
    }
}

#[test]
fn spawned_record_helper_stops_via_sigterm_and_still_returns_json() {
    let state = capture_start();
    let (state, action) =
        capture_next(state, CaptureEvent::Polled { exited: false, stop_file: false });
    assert_eq!(action, CaptureAction::Wait);
    let (state, action) = capture_next(state, CaptureEvent::Signalled);
    assert_eq!(action, CaptureAction::StopAndPoll);
    let (state, action) =
        capture_next(state, CaptureEvent::Polled { exited: false, stop_file: true });
    assert_eq!(action, CaptureAction::Wait);
    let (state, action) = capture_next(state, CaptureEvent::Waited);
    assert_eq!(action, CaptureAction::Poll);
    let (_, action) = capture_next(state, CaptureEvent::Polled { exited: true, stop_file: true });
    assert_eq!(action, CaptureAction::Collect);
    let result = record(
        "/t/scribecapture",
        &ok_run(),
        Ok(NativeRecordResult {
            object: "native_record_result".to_string(),
            status: "completed".to_string(),
            system_audio_path: "/tmp/system.wav".to_string(),
            microphone_audio_path: None,
            captured_microphone: false,
            display_id: 5,
        }),
    )
    .unwrap();
    assert_eq!(result.status, "completed");
    assert_eq!(result.display_id, 5);
}

#[test]
fn the_helper_is_told_to_stop_once() {
    let events = [
        CaptureEvent::Polled { exited: false, stop_file: true },
        CaptureEvent::Waited,
        CaptureEvent::Polled { exited: false, stop_file: true },
        CaptureEvent::Signalled,
        CaptureEvent::Polled { exited: true, stop_file: true },
    ];
    let mut state = capture_start();
    let mut actions = Vec::new();
    for event in events {
        let (next, action) = capture_next(state, event);
        state = next;
        actions.push(action);
    }
    assert_eq!(
        actions,
        [
            CaptureAction::StopAndWait,
            CaptureAction::Poll,
            CaptureAction::Wait,
            CaptureAction::Poll,
            CaptureAction::Collect,
        ]
    );
    assert!(state.stop_requested);
}

#[test]
fn a_stop_file_ends_the_recording() {
    let disk = files(&["/stop"]);
    assert!(stop_requested_by_file(&Some("/stop".to_string()), &disk));
    assert!(!stop_requested_by_file(&Some("/other".to_string()), &disk));
    assert!(!stop_requested_by_file(&None, &disk));
}

#[test]
fn the_request_follows_the_mode() {
    let with = record_request(&config(InputMode::SingleDevice), &session(), Some(9));
    assert!(with.capture_microphone);
    assert_eq!(with.microphone_audio_path, Some("/t/artifacts/s/microphone.wav".to_string()));
    assert_eq!(with.duration_seconds, Some(9));
    let without = record_request(&config(InputMode::SystemAudio), &session(), None);
    assert!(!without.capture_microphone);
    assert_eq!(without.microphone_audio_path, None);
    assert_eq!(without.system_audio_path, "/t/artifacts/s/system.wav");
}

#[test]
fn warnings_depend_on_access() {
    let status = |access: bool| NativeStatus {
        object: String::new(),
        screen_capture_access: access,
        microphone_permission: String::new(),
        microphone_capture_supported: true,
        displays: Vec::new(),
    };
    assert_eq!(recording_warnings(&status(true)).len(), 2);
    let warnings = recording_warnings(&status(false));
    assert_eq!(warnings[0], "speaker labels are heuristic only in v1");
    assert_eq!(
        warnings[1],
        "native macOS capture performs final-pass transcription only; partial chunk transcripts are disabled"
    );
    assert_eq!(
        warnings[2],
        "native capture will request Screen Recording permission the first time it runs"
    );
}

#[test]
fn audio_comes_from_what_was_recorded() {
    let both = files(&["/t/artifacts/s/system.wav", "/t/artifacts/s/microphone.wav"]);
    let system = files(&["/t/artifacts/s/system.wav"]);
    match audio_source(InputMode::MicSystemMix, &session(), &both).unwrap() {
        AudioSource::Mix(inputs) => assert_eq!(
            inputs,
            ["/t/artifacts/s/system.wav", "/t/artifacts/s/microphone.wav"]
        ),
        other => panic!("{other:?}"),
    }
    match audio_source(InputMode::Microphone, &session(), &both).unwrap() {
        AudioSource::Copy(path) => assert_eq!(path, "/t/artifacts/s/microphone.wav"),
        other => panic!("{other:?}"),
    }
    for mode in [InputMode::SystemAudio, InputMode::SingleDevice] {
        match audio_source(mode, &session(), &system).unwrap() {
            AudioSource::Copy(path) => assert_eq!(path, "/t/artifacts/s/system.wav"),
            other => panic!("{other:?}"),
        }
    }
    for mode in [InputMode::MicSystemMix, InputMode::Microphone] {
        assert_eq!(
            audio_source(mode, &session(), &system).unwrap_err().full_text(),
            "native microphone capture was requested but no microphone audio file was produced"
        );
    }
}

#[test]
fn the_event_log_tells_of_a_recording() {
    let mut config = config(InputMode::SystemAudio);
    let start = start_entry("s", &session(), &config, "t0".to_string());
    assert_eq!(start.ts, "t0");
    assert_eq!(start.kind, "session_started");
    assert_eq!(start.message, "starting native macOS capture session");
    assert_eq!(
        fields(&start),
        [
            "session_id=s",
            "artifacts_dir=/t/artifacts/s",
            "input_mode=system_audio",
            "display_id=null"
        ]
    );
    config.display_id = Some(4);
    assert_eq!(
        fields(&start_entry("s", &session(), &config, String::new()))[3],
        "display_id=4"
    );
    let captured = NativeRecordResult {
        object: String::new(),
        status: String::new(),
        system_audio_path: "/a".to_string(),
        microphone_audio_path: None,
        captured_microphone: true,
        display_id: 8,
    };
    let capture = capture_entry(&captured, "t1".to_string());
    assert_eq!(capture.kind, "native_capture_completed");
    assert_eq!(
        fields(&capture),
        [
            "system_audio_path=/a",
            "microphone_audio_path=null",
            "display_id=8",
            "captured_microphone=true"
        ]
    );
    let source = AudioSource::Copy("/a".to_string());
    let copied = audio_entry(InputMode::Microphone, &source, &session(), "t2".to_string());
    assert_eq!(copied.kind, "audio_copied");
    assert_eq!(copied.message, "copied native microphone audio into final session audio");
    assert_eq!(
        fields(&copied),
        ["audio_path=/t/artifacts/s/session.wav", "source_audio_path=/a"]
    );
    let other = audio_entry(InputMode::SingleDevice, &source, &session(), "t2".to_string());
    assert_eq!(other.message, "copied native system audio into final session audio");
    let mix = AudioSource::Mix(Vec::new());
    let mixed = audio_entry(InputMode::MicSystemMix, &mix, &session(), "t2".to_string());
    assert_eq!(mixed.kind, "audio_mixed");
    assert_eq!(mixed.message, "mixed system audio and microphone into session audio");
    assert_eq!(
        fields(&mixed),
        [
            "audio_path=/t/artifacts/s/session.wav",
            "system_audio_path=/t/artifacts/s/system.wav",
            "microphone_audio_path=/t/artifacts/s/microphone.wav"
        ]
    );
    let transcript = Transcript { text: "abc".to_string(), segments: Vec::new() };
    let done = completion_entry(&session(), &transcript, "t3".to_string());
    assert_eq!(done.kind, "session_completed");
    assert_eq!(done.message, "final transcription written");
    assert_eq!(
        fields(&done),
        ["transcript_path=/t/artifacts/s/transcript.json", "segments=0", "text_length=3"]
    );
}

#[test]
fn a_session_is_reported_as_recorded() {
    let result = session_result(
        "s".to_string(),
        "t0".to_string(),
        "t1".to_string(),
        2_500_000_000,
        session(),
        Transcript { text: "abc".to_string(), segments: Vec::new() },
        vec!["w".to_string()],
    );
    assert_eq!(result.object, "session");
    assert_eq!(result.status, "completed");
    assert_eq!(result.session_id, "s");
    assert_eq!(result.started_at, "t0");
    assert_eq!(result.ended_at, "t1");
    assert_eq!(result.duration_nanos, 2_500_000_000);
    assert_eq!(result.audio_path, "/t/artifacts/s/session.wav");
    assert_eq!(result.transcript_path, "/t/artifacts/s/transcript.json");
    assert_eq!(result.event_log_path, "/t/artifacts/s/events.jsonl");
    assert_eq!(result.text, "abc");
    assert_eq!(result.warnings, ["w"]);
    assert_eq!(result.partial_chunks_transcribed, 0);
}
