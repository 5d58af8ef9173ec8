use scribecli::background::{
    active_recording_state_path, admit_recording, build_background_record_command,
    chosen_session_id, ensure_no_active_recording, input_mode_cli_value, input_mode_from_cli,
    plan_runner,
    process_is_running, read_background_record_result, recording_state, recording_to_stop,
    session_value, should_request_stop, start_first, start_next, started_report, stop_action,
    stop_first, stop_next, stop_timeout, ActiveRecordingState, RunnerErrorEnvelope, StartOutcome,
    StartStep, StopAction, StopOutcome, StopStep,
};
use scribecli::config::{AppPaths, EffectiveConfig, InputMode};
use scribecli::recording::{apply_record_overrides, RecordArgs};

fn no_args() -> RecordArgs {
    RecordArgs {
        input_mode: None,
        display_id: None,
        microphone_device: None,
        system_device: None,
        single_input_device: None,
        partial_interval_seconds: None,
        artifacts_dir: None,
        ffmpeg_path: None,
        whisper_cli_path: None,
        whisper_model_path: None,
        session_name: None,
        duration_seconds: None,
        session_id: None,
        stop_request_path: None,
    }
}

fn config() -> EffectiveConfig {
    EffectiveConfig {
        ffmpeg_path: "/f".to_string(),
        whisper_cli_path: Some("/w".to_string()),
        whisper_model_path: None,
        artifacts_dir: "/a".to_string(),
        partial_interval_seconds: 15,
        input_mode: InputMode::MicSystemMix,
        display_id: Some(2),
        microphone_device: Some("Mic".to_string()),
        system_device: None,
        single_input_device: None,
        config_file: "/cfg/config.toml".to_string(),
    }
}

fn state() -> ActiveRecordingState {
    let plan = plan_runner(&config(), &no_args(), "s".to_string());
    recording_state(&plan, "t0".to_string(), 77)
}

fn value_of(line: &[String], name: &str) -> Option<String> {
    line.chunks(2).find(|pair| pair[0] == name).map(|pair| pair[1].clone())
}

#[test]
fn the_runner_gets_all_that_is_in_effect() {
    let args = RecordArgs { duration_seconds: Some(30), ..no_args() };
    assert_eq!(
        build_background_record_command(&config(), &args, "s", "/stop"),
        [
            "--output",
            "json",
            "record",
            "--input-mode",
            "mic-system-mix",
            "--partial-interval-seconds",
            "15",
            "--artifacts-dir",
            "/a",
            "--ffmpeg-path",
            "/f",
            "--session-id",
            "s",
            "--stop-request-path",
            "/stop",
            "--display-id",
            "2",
            "--microphone-device",
            "Mic",
            "--whisper-cli-path",
            "/w",
            "--duration-seconds",
            "30",
        ]
    );
}

#[test]
fn the_runner_records_as_started() {
    let started = RecordArgs {
        system_device: Some("Sys".to_string()),
        partial_interval_seconds: Some(0),
        whisper_model_path: Some("/m".to_string()),
        ..no_args()
    };
    let in_effect = apply_record_overrides(config(), &started);
    let line = build_background_record_command(&in_effect, &started, "s", "/stop");
    let options = &line[3..];
    let number = |name: &str| value_of(options, name).map(|raw| raw.parse::<u64>().unwrap());
    assert_eq!(value_of(options, "--input-mode").unwrap(), "mic-system-mix");
    let read = RecordArgs {
        input_mode: Some(InputMode::MicSystemMix),
        display_id: number("--display-id").map(|id| id as u32),
        microphone_device: value_of(options, "--microphone-device"),
        system_device: value_of(options, "--system-device"),
        single_input_device: value_of(options, "--single-input-device"),
        partial_interval_seconds: number("--partial-interval-seconds"),
        artifacts_dir: value_of(options, "--artifacts-dir"),
        ffmpeg_path: value_of(options, "--ffmpeg-path"),
        whisper_cli_path: value_of(options, "--whisper-cli-path"),
        whisper_model_path: value_of(options, "--whisper-model-path"),
        session_name: None,
        duration_seconds: number("--duration-seconds"),
        session_id: value_of(options, "--session-id"),
        stop_request_path: value_of(options, "--stop-request-path"),
    };
    let there = apply_record_overrides(config(), &read);
    assert_eq!(format!("{there:?}"), format!("{in_effect:?}"));
    assert_eq!(read.duration_seconds, None);
}

#[test]
fn modes_have_names_on_the_command_line() {
    assert_eq!(input_mode_cli_value(InputMode::MicSystemMix), "mic-system-mix");
    assert_eq!(input_mode_cli_value(InputMode::Microphone), "microphone");
    assert_eq!(input_mode_cli_value(InputMode::SystemAudio), "system-audio");
    assert_eq!(input_mode_cli_value(InputMode::SingleDevice), "single-device");
}

#[test]
fn one_recording_at_a_time() {
    assert_eq!(admit_recording(&None, false).unwrap(), false);
    assert_eq!(admit_recording(&Some(state()), false).unwrap(), true);
    assert_eq!(
        admit_recording(&Some(state()), true).unwrap_err().full_text(),
        "an active recording is already running: s; run `scribecli stop` first"
    );
    assert!(ensure_no_active_recording(&None, true).is_ok());
    assert!(ensure_no_active_recording(&Some(state()), false).is_ok());
    assert_eq!(
        ensure_no_active_recording(&Some(state()), true).unwrap_err().full_text(),
        "an active recording is running: s; stop it before cleanup"
    );
    assert_eq!(
        recording_to_stop(None).unwrap_err().full_text(),
        "no active recording is running"
    );
    assert_eq!(recording_to_stop(Some(state())).unwrap().session_id, "s");
}

#[test]
fn a_started_recording_is_remembered_and_reported() {
    let state = state();
    assert_eq!(state.object, "active_recording");
    assert_eq!(state.status, "recording");
    assert_eq!(state.session_dir, "/a/s");
    assert_eq!(state.runner_stdout_path, "/a/s/runner.stdout.json");
    assert_eq!(state.runner_stderr_path, "/a/s/runner.stderr.json");
    assert_eq!(state.stop_request_path, "/a/s/stop-request");
    let report = started_report(state);
    assert_eq!(report.object, "recording_session");
    assert_eq!(report.status, "recording");
    assert_eq!(report.session_id, "s");
    assert_eq!(report.started_at, "t0");
    assert_eq!(report.pid, 77);
    assert_eq!(report.audio_path, "/a/s/session.wav");
    assert_eq!(report.transcript_path, "/a/s/transcript.json");
    assert_eq!(report.event_log_path, "/a/s/events.jsonl");
    assert_eq!(
        active_recording_state_path(&AppPaths::from_base("/cfg".to_string())),
        "/cfg/active-recording.json"
    );
}

#[test]
fn a_process_of_someone_else_runs_too() {
    assert!(process_is_running(true, false));
    assert!(process_is_running(false, true));
    assert!(!process_is_running(false, false));
}

#[test]
fn a_chosen_session_keeps_its_name() {
    let chosen = RecordArgs { session_id: Some("mine".to_string()), ..no_args() };
    assert_eq!(chosen_session_id(&chosen, 5), "mine");
    let named = RecordArgs { session_name: Some("My Talk".to_string()), ..no_args() };
    let id = chosen_session_id(&named, 5);
    assert!(id.starts_with("my-talk-"));
    assert!(id.ends_with("-5"));
    assert!(chosen_session_id(&no_args(), 5).starts_with("session-"));
}

#[test]
fn starting_goes_step_by_step() {
    let run = |outcome_at: StartStep, outcome: StartOutcome| {
        let mut all = vec![start_first()];
        loop {
            let step = all[all.len() - 1];
            let result = if step == outcome_at { outcome } else { StartOutcome::Done };
            match start_next(step, result) {
                Some(next) => all.push(next),
                None => break,
            }
        }
        all
    };
    assert_eq!(
        run(StartStep::CheckActive, StartOutcome::FoundOld),
        [
            StartStep::CheckPrerequisites,
            StartStep::PrepareHelper,
            StartStep::AskHelper,
            StartStep::CheckActive,
            StartStep::ForgetOld,
            StartStep::CreateSession,
            StartStep::Spawn,
            StartStep::Remember,
            StartStep::Report,
        ]
    );
    let unremembered = run(StartStep::Remember, StartOutcome::Failed);
    assert_eq!(
        unremembered[unremembered.len() - 2..],
        [StartStep::KillRunner, StartStep::Fail]
    );
    for step in [StartStep::AskHelper, StartStep::CheckActive, StartStep::Spawn] {
        let failed = run(step, StartOutcome::Failed);
        assert_eq!(failed[failed.len() - 2..], [step, StartStep::Fail]);
    }
}

#[test]
fn stopping_waits_for_a_while() {
    assert!(should_request_stop(true, false));
    assert!(!should_request_stop(true, true));
    assert!(!should_request_stop(false, false));
    assert_eq!(stop_action(false, u128::MAX, 0), StopAction::Collect);
    assert_eq!(stop_action(true, 999_999_999, 0), StopAction::Wait);
    assert_eq!(stop_action(true, 1_000_000_000, 0), StopAction::GiveUp);
    assert_eq!(stop_action(true, 299_999_999_999, 300), StopAction::Wait);
    assert_eq!(stop_action(true, 300_000_000_000, 300), StopAction::GiveUp);
    assert_eq!(stop_action(true, 5, u64::MAX), StopAction::Wait);
    assert_eq!(
        stop_timeout("s").full_text(),
        "timed out waiting for recording s to stop and transcribe"
    );
}

#[test]
fn the_runners_answer_is_read_as_json() {
    let value =
        read_background_record_result(&state(), " {\"a\": [1, true]}\n", "ignored", &None).unwrap();
    assert_eq!(value["a"][0], 1);
    assert_eq!(value["a"][1], true);
    let error = read_background_record_result(&state(), "nope", "", &None).unwrap_err();
    assert_eq!(error.message, "failed to parse session result from /a/s/runner.stdout.json");
    assert_eq!(error.cause.as_deref(), Some("expected ident at line 1 column 2"));
    assert!(session_value("/x", Ok(serde_json::Value::Null)).unwrap().is_null());
}

#[test]
fn a_failed_runner_says_why() {
    let envelope = Some(RunnerErrorEnvelope {
        code: "cli_error".to_string(),
        message: "no microphone".to_string(),
    });
    let text = |stderr: &str, envelope: &Option<RunnerErrorEnvelope>| {
        read_background_record_result(&state(), " \n", stderr, envelope)
            .unwrap_err()
            .full_text()
    };
    assert_eq!(text("{}", &envelope), "no microphone (cli_error)");
    assert_eq!(text(" plain words \n", &None), "plain words");
    assert_eq!(
        text("\n", &envelope),
        "recording runner for s exited without writing a result"
    );
}

/// The steps that are taken within five seconds where each ends as it should, the runner is looked at
/// every two seconds, and it is found to have ended after `polls` of these looks, if ever.
fn stopping(polls: Option<u128>) -> Vec<StopStep> {
    let mut steps = vec![stop_first()];
    let mut looks = 0;
    loop {
        let step = steps[steps.len() - 1];
        let outcome = if step == StopStep::Poll {
            let running = polls != Some(looks);
            let elapsed_nanos = looks * 2_000_000_000;
            looks += 1;
            StopOutcome::Polled { running, elapsed_nanos }
        } else {
            StopOutcome::Done
        };
        match stop_next(step, outcome, 5) {
            Some(next) => steps.push(next),
            None => return steps,
        }
    }
}

#[test]
fn a_recording_is_forgotten_once_it_has_ended() {
    assert_eq!(
        stopping(Some(1)),
        [
            StopStep::FindRecording,
            StopStep::RequestStop,
            StopStep::Poll,
            StopStep::Pause,
            StopStep::Poll,
            StopStep::Forget,
            StopStep::TakeAnswer,
        ]
    );
    assert_eq!(
        stop_next(StopStep::FindRecording, StopOutcome::NothingToAsk, 5),
        Some(StopStep::Poll)
    );
    for step in [StopStep::FindRecording, StopStep::RequestStop, StopStep::Forget] {
        assert_eq!(stop_next(step, StopOutcome::Failed, 5), Some(StopStep::Fail));
    }
    let late_but_ended = StopOutcome::Polled { running: false, elapsed_nanos: u128::MAX };
    assert_eq!(stop_next(StopStep::Poll, late_but_ended, 5), Some(StopStep::Forget));
    assert_eq!(stop_next(StopStep::TakeAnswer, StopOutcome::Done, 5), None);
    assert_eq!(stop_next(StopStep::Fail, StopOutcome::Done, 5), None);
}

#[test]
fn a_recording_that_does_not_end_stays_remembered() {
    let steps = stopping(None);
    assert_eq!(steps.iter().filter(|step| **step == StopStep::Poll).count(), 4);
    assert!(!steps.contains(&StopStep::Forget));
    assert!(!steps.contains(&StopStep::TakeAnswer));
    assert_eq!(steps[steps.len() - 1], StopStep::Fail);
}

#[test]
fn input_modes_are_read_back_from_the_command_line() {
    for mode in [
        InputMode::MicSystemMix,
        InputMode::Microphone,
        InputMode::SystemAudio,
        InputMode::SingleDevice,
    ] {
        assert_eq!(input_mode_from_cli(input_mode_cli_value(mode)), Some(mode));
    }
    assert_eq!(input_mode_from_cli("mic-system-mix"), Some(InputMode::MicSystemMix));
    assert_eq!(input_mode_from_cli("mic_system_mix"), None);
    assert_eq!(input_mode_from_cli(""), None);
}

#[test]
fn the_runner_gets_no_session_name() {
    let args = RecordArgs { session_name: Some("weekly".to_string()), ..no_args() };
    let line = build_background_record_command(&config(), &args, "s", "/stop");
    assert!(!line.contains(&"--session-name".to_string()));
}
