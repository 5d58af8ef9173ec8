use scribecli::config::{EffectiveConfig, InputMode};
use scribecli::disk::{PathFact, PathKind, Snapshot};
use scribecli::json::Json;
use scribecli::session::{SessionPaths, Transcript};
use scribecli::tool::{ToolOutput, ToolRun};
use scribecli::transcribe::{
    default_transcript_path_for_audio, finished_transcript, resolve_transcription_target,
    run_transcribe, target_paths, transcription_entry, validate_transcribe_prerequisites, whisper_config,
    ResolvedTranscriptionTarget, TranscribeArgs,
};

const OUTPUT: &str = "[00:00:00.000 --> 00:00:01.000] hello [SPEAKER_TURN]\n[00:00:01.000 --> 00:00:02.000] world\n";

fn finished(success: bool, stdout: &str) -> ToolRun {
    ToolRun::Finished(ToolOutput {
        success,
        status: "exit status: 0".to_string(),
        stdout: stdout.to_string(),
        stdout_fault: None,
        stderr: String::new(),
    })
}

fn config(temp: &str) -> EffectiveConfig {
    EffectiveConfig {
        ffmpeg_path: format!("{temp}/ffmpeg"),
        whisper_cli_path: Some(format!("{temp}/whisper-cli")),
        whisper_model_path: Some(format!("{temp}/model.bin")),
        artifacts_dir: format!("{temp}/artifacts"),
        partial_interval_seconds: 15,
        input_mode: InputMode::Microphone,
        display_id: None,
        microphone_device: None,
        system_device: None,
        single_input_device: None,
        config_file: format!("{temp}/config.toml"),
    }
}

fn disk(files: &[&str], dirs: &[&str]) -> Snapshot {
    let mut facts: Vec<PathFact> = files
        .iter()
        .map(|path| PathFact { path: path.to_string(), kind: PathKind::File })
        .collect();
    for dir in dirs {
        facts.push(PathFact { path: dir.to_string(), kind: PathKind::Directory });
    }
    Snapshot { facts, listings: Vec::new(), resolved: Vec::new() }
}

fn args(input: &str) -> TranscribeArgs {
    TranscribeArgs { input: input.to_string(), transcript_path: None }
}

fn resolve(input: &str, disk: &Snapshot) -> Result<ResolvedTranscriptionTarget, String> {
    resolve_transcription_target(&config("/t"), &args(input), &Some("/home/me".to_string()), disk)
        .map_err(|error| error.full_text())
}

#[test]
fn transcribe_writes_transcript_for_audio_file() {
    let config = config("/t");
    let disk = disk(&["/t/whisper-cli", "/t/model.bin", "/t/meeting.wav"], &[]);
    validate_transcribe_prerequisites(&config, &finished(true, OUTPUT), &disk).unwrap();
    let target =
        resolve_transcription_target(&config, &args("/t/meeting.wav"), &None, &disk).unwrap();
    let transcript = finished_transcript(&config, &finished(true, OUTPUT)).unwrap();
    assert!(transcription_entry(&target, &transcript, "now".to_string()).is_none());
    let report = run_transcribe(target, transcript);
    assert_eq!(report.status, "completed");
    assert_eq!(report.object, "transcription");
    assert_eq!(report.audio_path, "/t/meeting.wav");
    assert_eq!(report.transcript_path, "/t/meeting.transcript.json");
    assert_eq!(report.session_dir, None);
    assert_eq!(report.text, "hello world");
    assert_eq!(report.segments.len(), 2);
    assert_eq!(report.warnings, ["speaker labels are heuristic only in v1"]);
}

#[test]
fn transcribe_resolves_relative_session_id_under_artifacts_dir() {
    let config = config("/t");
    let session = SessionPaths::create(&config.artifacts_dir, "session-123");
    let disk = disk(&[&session.system_audio_path], &[&session.root_dir]);
    let target =
        resolve_transcription_target(&config, &args("session-123"), &None, &disk).unwrap();
    assert_eq!(target.session_dir, Some(session.root_dir.clone()));
    assert_eq!(target.audio_path, session.system_audio_path);
    assert_eq!(target.transcript_path, session.transcript_path);
    assert!(target.warnings.iter().any(|warning| warning.contains("system.wav")));
}

#[test]
fn finished_audio_is_preferred() {
    let all = disk(
        &["/s/session.wav", "/s/system-trimmed.wav", "/s/system.wav", "/s/microphone.wav"],
        &["/s"],
    );
    let target = resolve("/s", &all).unwrap();
    assert_eq!(target.audio_path, "/s/session.wav");
    assert_eq!(target.warnings.len(), 1);
    assert!(target.mix_inputs.is_none());
    assert_eq!(target.event_log_path, Some("/s/events.jsonl".to_string()));
}

#[test]
fn what_is_left_of_a_recording_is_used() {
    let trimmed = resolve("/s", &disk(&["/s/system-trimmed.wav", "/s/system.wav"], &["/s"])).unwrap();
    assert_eq!(trimmed.audio_path, "/s/system-trimmed.wav");
    assert_eq!(
        trimmed.warnings[1],
        "session.wav was missing; used system-trimmed.wav for recovery transcription"
    );
    let both = resolve("/s", &disk(&["/s/system.wav", "/s/microphone.wav"], &["/s"])).unwrap();
    assert_eq!(both.audio_path, "/s/session.wav");
    assert_eq!(
        both.mix_inputs.unwrap(),
        ["/s/system.wav", "/s/microphone.wav"]
    );
    assert_eq!(
        both.warnings[1],
        "session.wav was missing; mixed system.wav and microphone.wav before transcription"
    );
    let system = resolve("/s", &disk(&["/s/system.wav"], &["/s"])).unwrap();
    assert_eq!(
        system.warnings[1],
        "session.wav was missing; used system.wav for transcription"
    );
    let microphone = resolve("/s", &disk(&["/s/microphone.wav"], &["/s"])).unwrap();
    assert_eq!(microphone.audio_path, "/s/microphone.wav");
    assert_eq!(
        microphone.warnings[1],
        "session.wav was missing; used microphone.wav for transcription"
    );
    assert_eq!(
        resolve("/s", &disk(&[], &["/s"])).unwrap_err(),
        "no transcribable audio file was found under /s; expected session.wav, system.wav, system-trimmed.wav, or microphone.wav"
    );
}

#[test]
fn inputs_that_are_not_there_are_refused() {
    assert_eq!(
        resolve("~/x", &disk(&[], &[])).unwrap_err(),
        "transcription input was not found at /home/me/x or /home/me/x"
    );
    assert_eq!(
        resolve("x", &disk(&[], &[])).unwrap_err(),
        "transcription input was not found at x or /t/artifacts/x"
    );
    let mut odd = disk(&[], &[]);
    odd.facts.push(PathFact { path: "/dev/x".to_string(), kind: PathKind::Other });
    assert_eq!(
        resolve("/dev/x", &odd).unwrap_err(),
        "transcription input is neither a file nor a directory"
    );
}

#[test]
fn a_transcript_goes_where_it_is_asked_to() {
    let asked = TranscribeArgs {
        input: "/a.wav".to_string(),
        transcript_path: Some("/out.json".to_string()),
    };
    let there = disk(&["/a.wav"], &[]);
    let target = resolve_transcription_target(&config("/t"), &asked, &None, &there).unwrap();
    assert_eq!(target.transcript_path, "/out.json");
    assert_eq!(default_transcript_path_for_audio("/a/b.tar.gz"), "/a/b.tar.transcript.json");
    assert_eq!(default_transcript_path_for_audio("b"), "b.transcript.json");
    assert_eq!(default_transcript_path_for_audio("/"), "/transcript.transcript.json");
}

#[test]
fn the_tool_and_the_model_must_be_there() {
    let ok = finished(true, "usage");
    let there = disk(&["/t/model.bin"], &[]);
    let check = |config: &EffectiveConfig, run: &ToolRun, disk: &Snapshot| {
        validate_transcribe_prerequisites(config, run, disk).map_err(|error| error.full_text())
    };
    assert_eq!(check(&config("/t"), &ok, &there), Ok(()));
    let no_cli = EffectiveConfig { whisper_cli_path: None, ..config("/t") };
    assert_eq!(
        check(&no_cli, &ok, &there).unwrap_err(),
        "whisper_cli_path is not configured; use a bundled release or install whisper-cpp, then run `scribecli setup`"
    );
    let no_model = EffectiveConfig { whisper_model_path: None, ..config("/t") };
    assert_eq!(
        check(&no_model, &ok, &there).unwrap_err(),
        "whisper_model_path is not configured; run `scribecli setup`"
    );
    assert_eq!(
        check(&config("/t"), &ok, &disk(&[], &[])).unwrap_err(),
        "whisper model path does not exist: /t/model.bin; run `scribecli setup` to create a managed model"
    );
    assert_eq!(
        check(&config("/t"), &finished(false, "bad"), &there).unwrap_err(),
        "failed to run whisper.cpp CLI at /t/whisper-cli: bad"
    );
    assert_eq!(
        whisper_config(&no_cli).unwrap_err().full_text(),
        "whisper_cli_path is not configured"
    );
    assert_eq!(
        finished_transcript(&no_model, &ok).unwrap_err().full_text(),
        "whisper_model_path is not configured"
    );
}

#[test]
fn the_event_log_tells_of_a_transcription() {
    let there = disk(&["/s/session.wav"], &["/s"]);
    let target = resolve("/s", &there).unwrap();
    let transcript = Transcript { text: "Grüße".to_string(), segments: Vec::new() };
    let event = transcription_entry(&target, &transcript, "now".to_string()).unwrap();
    assert_eq!(event.ts, "now");
    assert_eq!(event.kind, "transcription_completed");
    assert_eq!(event.message, "wrote transcript from existing audio");
    let data = event.data.unwrap();
    let names: Vec<&str> = data.iter().map(|field| field.name.as_str()).collect();
    assert_eq!(names, ["audio_path", "transcript_path", "segments", "text_length"]);
    assert!(matches!(data[2].value, Json::Number(0)));
    assert!(matches!(data[3].value, Json::Number(7)));
}

#[test]
fn the_paths_of_a_target_are_named() {
    assert_eq!(
        target_paths(&config("/t"), &args("weekly"), &None),
        [
            "weekly",
            "/t/artifacts/weekly",
            "weekly/session.wav",
            "weekly/system-trimmed.wav",
            "weekly/system.wav",
            "weekly/microphone.wav",
            "/t/artifacts/weekly/session.wav",
            "/t/artifacts/weekly/system-trimmed.wav",
            "/t/artifacts/weekly/system.wav",
            "/t/artifacts/weekly/microphone.wav",
        ]
    );
    assert_eq!(
        target_paths(&config("/t"), &args("~/a.wav"), &Some("/home/me".to_string()))[..2],
        ["/home/me/a.wav", "/home/me/a.wav"]
    );
}

#[test]
fn nothing_else_on_disk_decides_the_target() {
    let all = disk(
        &["/t/artifacts/weekly/system.wav", "/t/artifacts/weekly/microphone.wav", "/other.wav"],
        &["/t/artifacts/weekly"],
    );
    let looked_at = target_paths(&config("/t"), &args("weekly"), &None);
    let seen = Snapshot {
        facts: looked_at
            .iter()
            .map(|path| PathFact { path: path.clone(), kind: all.kind(path) })
            .collect(),
        listings: Vec::new(),
        resolved: Vec::new(),
    };
    let target = resolve("weekly", &all).unwrap();
    assert_eq!(target.audio_path, "/t/artifacts/weekly/session.wav");
    assert_eq!(format!("{:?}", target), format!("{:?}", resolve("weekly", &seen).unwrap()));
}
