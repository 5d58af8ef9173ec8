use scribecli::config::{EffectiveConfig, InputMode};
use scribecli::disk::{PathFact, PathKind, Snapshot};
use scribecli::doctor::{
    build_devices_report, build_doctor_report, DoctorFacts, DoctorReport, HelperState,
};
use scribecli::error::Error;
use scribecli::native::{NativeDisplay, NativeStatus};
use scribecli::recording::validate_record_prerequisites;
use scribecli::tool::{ToolOutput, ToolRun};

fn run(success: bool, stdout: &str) -> ToolRun {
    ToolRun::Finished(ToolOutput {
        success,
        status: "exit status: 3".to_string(),
        stdout: stdout.to_string(),
        stdout_fault: None,
        stderr: String::new(),
    })
}

fn status(access: bool, permission: &str, displays: usize) -> NativeStatus {
    NativeStatus {
        object: String::new(),
        screen_capture_access: access,
        microphone_permission: permission.to_string(),
        microphone_capture_supported: true,
        displays: vec![
            NativeDisplay { display_id: 6, width: 1, height: 2, is_main: true };
            displays
        ],
    }
}

fn config(mode: InputMode) -> EffectiveConfig {
    EffectiveConfig {
        ffmpeg_path: "/f".to_string(),
        whisper_cli_path: Some("/w".to_string()),
        whisper_model_path: Some("/m".to_string()),
        artifacts_dir: "/a".to_string(),
        partial_interval_seconds: 15,
        input_mode: mode,
        display_id: None,
        microphone_device: None,
        system_device: None,
        single_input_device: None,
        config_file: "/c".to_string(),
    }
}

fn good_facts() -> DoctorFacts {
    DoctorFacts {
        helper: HelperState::Answered("/h".to_string(), status(true, "authorized", 2)),
        ffmpeg: run(true, "ffmpeg 7\n"),
        whisper: run(true, "usage\n"),
        artifacts_fault: None,
    }
}

fn disk() -> Snapshot {
    Snapshot {
        facts: vec![PathFact { path: "/m".to_string(), kind: PathKind::File }],
        listings: Vec::new(),
        resolved: Vec::new(),
    }
}

fn lines(report: &DoctorReport) -> Vec<String> {
    report
        .checks
        .iter()
        .map(|check| format!("{} {} {}", check.name, check.ok, check.message))
        .collect()
}

#[test]
fn a_ready_machine_is_fine() {
    let config = config(InputMode::MicSystemMix);
    let report = build_doctor_report(&config, true, &good_facts(), &disk()).unwrap();
    assert_eq!(report.object, "doctor_report");
    assert!(report.ok);
    assert_eq!(
        lines(&report),
        [
            "native_helper true compiled at /h",
            "screen_capture_access true screen recording permission is granted",
            "native_displays true found 2 shareable display(s)",
            "microphone_capture true microphone permission: authorized; supported: true",
            "ffmpeg_binary true used for post-capture audio mixing: ffmpeg 7",
            "whisper_cli_binary true usage",
            "whisper_model_path true found /m",
            "artifacts_dir true writable at /a",
            "capture_configuration true native ScreenCaptureKit capture will record system audio and microphone separately, then mix them",
        ]
    );
    assert_eq!(report.native_displays.len(), 2);
    assert_eq!(report.native_displays[0].display_id, 6);
    assert_eq!(report.config.ffmpeg_path, "/f");
    let facts = good_facts();
    assert!(
        validate_record_prerequisites(&config, true, &facts.ffmpeg, &facts.whisper, &disk()).is_ok()
    );
}

#[test]
fn system_audio_needs_neither_microphone_nor_ffmpeg() {
    let facts = DoctorFacts {
        helper: HelperState::Answered("/h".to_string(), status(true, "denied", 1)),
        ffmpeg: ToolRun::NotStarted("gone".to_string()),
        ..good_facts()
    };
    let report =
        build_doctor_report(&config(InputMode::SystemAudio), true, &facts, &disk()).unwrap();
    assert!(report.ok);
    assert_eq!(report.checks.len(), 7);
    assert_eq!(
        lines(&report)[6],
        "capture_configuration true native ScreenCaptureKit capture will record system audio"
    );
    let report =
        build_doctor_report(&config(InputMode::Microphone), true, &facts, &disk()).unwrap();
    assert!(!report.ok);
    assert_eq!(
        lines(&report)[3],
        "microphone_capture false microphone permission: denied; supported: true"
    );
    assert_eq!(
        lines(&report)[7],
        "capture_configuration true native ScreenCaptureKit capture will record microphone audio"
    );
}

#[test]
fn every_fault_is_named() {
    let facts = DoctorFacts {
        helper: HelperState::NotBuilt(Error::with_cause("no swift".to_string(), "x".to_string())),
        ffmpeg: run(false, ""),
        whisper: run(false, "broken"),
        artifacts_fault: Some("read-only".to_string()),
    };
    let nothing = Snapshot { facts: Vec::new(), listings: Vec::new(), resolved: Vec::new() };
    let report =
        build_doctor_report(&config(InputMode::MicSystemMix), true, &facts, &nothing).unwrap();
    assert!(!report.ok);
    assert_eq!(
        lines(&report)[..5],
        [
            "native_helper false no swift".to_string(),
            "ffmpeg_binary false /f exited with status exit status: 3".to_string(),
            "whisper_cli_binary false failed to run whisper.cpp CLI at /w: broken".to_string(),
            "whisper_model_path false model file does not exist at /m".to_string(),
            "artifacts_dir false read-only".to_string(),
        ]
    );
    assert!(report.native_displays.is_empty());
    let silent = DoctorFacts {
        helper: HelperState::Silent("/h".to_string(), Error::new("mute".to_string())),
        whisper: run(true, ""),
        ..good_facts()
    };
    let bare = EffectiveConfig { whisper_model_path: None, ..config(InputMode::SystemAudio) };
    let report = build_doctor_report(&bare, true, &silent, &nothing).unwrap();
    assert_eq!(
        lines(&report)[..4],
        [
            "native_helper true compiled at /h".to_string(),
            "native_capture false mute".to_string(),
            "whisper_cli_binary true reachable at /w".to_string(),
            "whisper_model_path false whisper_model_path is not configured and no local Whisper model was auto-detected; run `scribecli setup` to create a managed model".to_string(),
        ]
    );
    let no_tool = EffectiveConfig { whisper_cli_path: None, ..config(InputMode::SystemAudio) };
    let report = build_doctor_report(&no_tool, true, &good_facts(), &disk()).unwrap();
    assert!(!report.ok);
    assert!(lines(&report)[3].starts_with(
        "whisper_cli_binary false whisper_cli_path is not configured and no bundled or local whisper-cli install was auto-detected"
    ));
    let blind = DoctorFacts {
        helper: HelperState::Answered("/h".to_string(), status(false, "authorized", 0)),
        ..good_facts()
    };
    let report =
        build_doctor_report(&config(InputMode::SystemAudio), true, &blind, &disk()).unwrap();
    assert_eq!(
        lines(&report)[1..3],
        [
            "screen_capture_access false screen recording permission is not granted".to_string(),
            "native_displays false found 0 shareable display(s)".to_string(),
        ]
    );
}

#[test]
fn reports_are_for_macos() {
    assert_eq!(
        build_doctor_report(&config(InputMode::SystemAudio), false, &good_facts(), &disk())
            .unwrap_err()
            .full_text(),
        "scribecli currently supports macOS only"
    );
    assert_eq!(
        build_devices_report(false, Ok(status(true, "", 1))).unwrap_err().full_text(),
        "scribecli currently supports macOS only"
    );
}

#[test]
fn displays_are_listed() {
    let report = build_devices_report(true, Ok(status(true, "", 1))).unwrap();
    assert_eq!(report.object, "device_list");
    assert!(report.native_screen_capture_access);
    assert_eq!(report.native_displays[0].display_id, 6);
    assert_eq!(
        build_devices_report(true, Err(Error::new("mute".to_string()))).unwrap_err().full_text(),
        "mute"
    );
}
