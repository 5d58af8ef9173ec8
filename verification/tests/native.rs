use scribecli::config::{AppPaths, InputMode};
use scribecli::native::{
    build_record_command, check_capture, compile_arguments, compile_helper, doctor,
    doctor_arguments, helper_files, helper_output, list_displays, list_displays_arguments,
    needs_compile, needs_write, record, require_macos, NativeDisplay, NativeRecordRequest,
    NativeRecordResult, NativeStatus,
};
use scribecli::tool::{ToolOutput, ToolRun};

const STATUS: &str = r#"{"object":"native_macos_status","screenCaptureAccess":true,"microphonePermission":"authorized","microphoneCaptureSupported":true,"displays":[{"displayID":7,"width":1728,"height":1117,"isMain":true}]}"#;

fn finished(success: bool, status: &str, stdout: &str, stderr: &str) -> ToolRun {
    ToolRun::Finished(ToolOutput {
        success,
        status: status.to_string(),
        stdout: stdout.to_string(),
        stdout_fault: None,
        stderr: stderr.to_string(),
    })
}

fn read_status(raw: &str) -> Result<NativeStatus, String> {
    let value: serde_json::Value = serde_json::from_str(raw).map_err(|error| error.to_string())?;
    let displays = value["displays"]
        .as_array()
        .unwrap()
        .iter()
        .map(|display| NativeDisplay {
            display_id: display["displayID"].as_u64().unwrap() as u32,
            width: display["width"].as_i64().unwrap(),
            height: display["height"].as_i64().unwrap(),
            is_main: display["isMain"].as_bool().unwrap(),
        })
        .collect();
    Ok(NativeStatus {
        object: value["object"].as_str().unwrap().to_string(),
        screen_capture_access: value["screenCaptureAccess"].as_bool().unwrap(),
        microphone_permission: value["microphonePermission"].as_str().unwrap().to_string(),
        microphone_capture_supported: value["microphoneCaptureSupported"].as_bool().unwrap(),
        displays,
    })
}

fn read_record(raw: &str) -> Result<NativeRecordResult, String> {
    let value: serde_json::Value = serde_json::from_str(raw).map_err(|error| error.to_string())?;
    Ok(NativeRecordResult {
        object: value["object"].as_str().unwrap().to_string(),
        status: value["status"].as_str().unwrap().to_string(),
        system_audio_path: value["systemAudioPath"].as_str().unwrap().to_string(),
        microphone_audio_path: value["microphoneAudioPath"].as_str().map(str::to_string),
        captured_microphone: value["capturedMicrophone"].as_bool().unwrap(),
        display_id: value["displayID"].as_u64().unwrap() as u32,
    })
}

fn status(access: bool, permission: &str, supported: bool, displays: usize) -> NativeStatus {
    NativeStatus {
        object: "native_macos_status".to_string(),
        screen_capture_access: access,
        microphone_permission: permission.to_string(),
        microphone_capture_supported: supported,
        displays: vec![
            NativeDisplay { display_id: 1, width: 10, height: 20, is_main: true };
            displays
        ],
    }
}

#[test]
fn doctor_and_list_displays_parse_helper_json() {
    let printed = format!("{STATUS}\n");
    let run = finished(true, "exit status: 0", &printed, "");

    let doctor_status = doctor("/t/scribecapture", &run, read_status(&printed)).unwrap();
    assert!(doctor_status.screen_capture_access);
    assert_eq!(doctor_status.microphone_permission, "authorized");
    assert_eq!(doctor_status.displays.len(), 1);
    assert_eq!(doctor_status.displays[0].display_id, 7);

    let list_status = list_displays("/t/scribecapture", &run, read_status(&printed)).unwrap();
    assert_eq!(list_status.displays[0].width, 1728);
    assert!(list_status.displays[0].is_main);
    assert_eq!(doctor_arguments(), ["doctor"]);
    assert_eq!(list_displays_arguments(), ["list-displays"]);
}

#[test]
fn record_passes_expected_arguments_to_helper() {
    let request = NativeRecordRequest {
        system_audio_path: "/tmp/system.wav".to_string(),
        microphone_audio_path: Some("/tmp/microphone.wav".to_string()),
        capture_microphone: true,
        duration_seconds: Some(8),
        display_id: Some(42),
    };
    assert_eq!(
        build_record_command(&request),
        [
            "record",
            "--system-audio-path",
            "/tmp/system.wav",
            "--capture-microphone",
            "true",
            "--microphone-audio-path",
            "/tmp/microphone.wav",
            "--duration-seconds",
            "8",
            "--display-id",
            "42",
        ]
    );
    let printed = r#"{"object":"native_record_result","status":"completed","systemAudioPath":"/tmp/system.wav","microphoneAudioPath":"/tmp/microphone.wav","capturedMicrophone":true,"displayID":99}"#;
    let result = record(
        "/t/scribecapture",
        &finished(true, "exit status: 0", printed, ""),
        read_record(printed),
    )
    .unwrap();
    assert_eq!(result.display_id, 99);
    assert!(result.captured_microphone);
}

#[test]
fn absent_options_are_not_passed() {
    let request = NativeRecordRequest {
        system_audio_path: "/s".to_string(),
        microphone_audio_path: None,
        capture_microphone: false,
        duration_seconds: None,
        display_id: None,
    };
    assert_eq!(
        build_record_command(&request),
        ["record", "--system-audio-path", "/s", "--capture-microphone", "false"]
    );
}

#[test]
fn doctor_surfaces_helper_failure_output() {
    let run = finished(
        false,
        "exit status: 1",
        "",
        "screen recording permission was not granted\n",
    );
    let error = doctor("/t/scribecapture", &run, Err("unread".to_string())).unwrap_err();
    assert!(error.message.contains("screen recording permission was not granted"));
    assert_eq!(
        error.full_text(),
        "/t/scribecapture exited with status exit status: 1:  screen recording permission was not granted"
    );
}

#[test]
fn record_rejects_invalid_helper_json() {
    let run = finished(true, "exit status: 0", "not json\n", "");
    let error = record("/t/scribecapture", &run, read_record("not json\n")).unwrap_err();
    assert!(error.message.contains("failed to parse helper JSON output"));
    assert_eq!(error.message, "failed to parse helper JSON output: not json");
    assert_eq!(error.cause.as_deref(), Some("expected ident at line 1 column 2"));
}

#[test]
fn only_the_first_lines_of_bad_output_are_shown() {
    let printed: String = (0..30).map(|n| format!("line {n}\n")).collect();
    let error = doctor(
        "/h",
        &finished(true, "exit status: 0", &printed, ""),
        Err("bad".to_string()),
    )
    .unwrap_err();
    assert!(error.message.ends_with("line 18\nline 19"));
    assert!(error.message.starts_with("failed to parse helper JSON output: line 0\nline 1\n"));
}

#[test]
fn output_that_is_no_text_is_refused() {
    let run = ToolRun::Finished(ToolOutput {
        success: true,
        status: "exit status: 0".to_string(),
        stdout: "\u{fffd}".to_string(),
        stdout_fault: Some("invalid utf-8".to_string()),
        stderr: String::new(),
    });
    let error = helper_output("/h", &run).unwrap_err();
    assert_eq!(error.full_text(), "helper output was not valid UTF-8: invalid utf-8");
    let error = helper_output("/h", &ToolRun::NotStarted("gone".to_string())).unwrap_err();
    assert_eq!(error.full_text(), "failed to execute /h: gone");
}

#[test]
fn the_helper_is_built_when_it_is_out_of_date() {
    let files = helper_files(&AppPaths::from_base("/cfg".to_string()));
    assert_eq!(files.dir, "/cfg/native-helper");
    assert_eq!(files.source_path, "/cfg/native-helper/ScribeCapture.swift");
    assert_eq!(files.binary_path, "/cfg/native-helper/scribecapture");
    assert!(needs_write(None, "a"));
    assert!(needs_write(Some("b"), "a"));
    assert!(!needs_write(Some("a"), "a"));
    assert!(needs_compile(false, None, None));
    assert!(needs_compile(true, Some(2), Some(1)));
    assert!(!needs_compile(true, Some(1), Some(1)));
    assert!(needs_compile(true, Some(1), None));
    assert!(!needs_compile(true, None, Some(1)));
    assert!(!needs_compile(true, None, None));
}

#[test]
fn compiling_names_the_frameworks() {
    assert_eq!(
        compile_arguments("/s.swift", "/b"),
        [
            "swiftc",
            "-framework",
            "ScreenCaptureKit",
            "-framework",
            "AVFoundation",
            "-framework",
            "CoreMedia",
            "-framework",
            "CoreGraphics",
            "/s.swift",
            "-o",
            "/b",
        ]
    );
    assert!(compile_helper(&finished(true, "exit status: 0", "", "")).is_ok());
    assert_eq!(
        compile_helper(&finished(false, "exit status: 1", " out ", " err "))
            .unwrap_err()
            .full_text(),
        "failed to compile native ScreenCaptureKit helper:\nout\nerr"
    );
    assert_eq!(
        compile_helper(&ToolRun::NotStarted("no xcrun".to_string())).unwrap_err().full_text(),
        "failed to run xcrun swiftc: no xcrun"
    );
}

#[test]
fn a_recording_needs_what_it_takes_in() {
    let ready = status(true, "authorized", true, 1);
    assert!(check_capture(InputMode::MicSystemMix, &ready).is_ok());
    assert_eq!(
        check_capture(InputMode::SystemAudio, &status(true, "authorized", true, 0))
            .unwrap_err()
            .full_text(),
        "no shareable displays are available for native capture"
    );
    assert!(check_capture(InputMode::SystemAudio, &status(false, "denied", false, 0)).is_ok());
    for (permission, supported) in [("denied", true), ("restricted", true), ("authorized", false)] {
        for mode in [InputMode::MicSystemMix, InputMode::Microphone, InputMode::SingleDevice] {
            assert_eq!(
                check_capture(mode, &status(true, permission, supported, 1))
                    .unwrap_err()
                    .full_text(),
                format!(
                    "native microphone capture is unavailable: permission={permission}, supported={supported}"
                )
            );
        }
    }
}

#[test]
fn other_platforms_are_refused() {
    assert!(require_macos(true).is_ok());
    assert_eq!(
        require_macos(false).unwrap_err().full_text(),
        "scribecli currently supports macOS only"
    );
}
