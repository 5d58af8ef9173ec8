use scribecli::audio::{
    check_mix, ffmpeg_version, ffmpeg_version_arguments, mix_audio_files, MixPlan,
};
use scribecli::tool::{ToolOutput, ToolRun};

fn finished(success: bool, stdout: &str, stderr: &str) -> ToolRun {
    ToolRun::Finished(ToolOutput {
        success,
        status: "exit status: 1".to_string(),
        stdout: stdout.to_string(),
        stdout_fault: None,
        stderr: stderr.to_string(),
    })
}

#[test]
fn ffmpeg_says_its_version_first() {
    assert_eq!(ffmpeg_version_arguments(), ["-version"]);
    assert_eq!(
        ffmpeg_version("ffmpeg", &finished(true, " ffmpeg version 7\nbuilt", "x")).unwrap(),
        " ffmpeg version 7"
    );
    assert_eq!(ffmpeg_version("ffmpeg", &finished(true, "", "x")).unwrap(), "");
    assert_eq!(
        ffmpeg_version("ffmpeg", &finished(false, "", "")).unwrap_err().full_text(),
        "ffmpeg exited with status exit status: 1"
    );
    assert_eq!(
        ffmpeg_version("/f", &ToolRun::NotStarted("no".to_string())).unwrap_err().full_text(),
        "failed to execute /f: no"
    );
}

#[test]
fn several_files_are_mixed() {
    let inputs = vec!["/s.wav".to_string(), "/m.wav".to_string()];
    match mix_audio_files(&inputs, "/out.wav").unwrap() {
        MixPlan::RunFfmpeg(arguments) => assert_eq!(
            arguments,
            [
                "-hide_banner",
                "-loglevel",
                "error",
                "-y",
                "-i",
                "/s.wav",
                "-i",
                "/m.wav",
                "-filter_complex",
                "[0:a][1:a]amix=inputs=2:duration=longest:dropout_transition=0[aout]",
                "-map",
                "[aout]",
                "/out.wav",
            ]
        ),
        other => panic!("{other:?}"),
    }
}

#[test]
fn one_file_is_copied_and_none_is_refused() {
    match mix_audio_files(&vec!["/s.wav".to_string()], "/out.wav").unwrap() {
        MixPlan::CopyFrom(path) => assert_eq!(path, "/s.wav"),
        other => panic!("{other:?}"),
    }
    assert_eq!(
        mix_audio_files(&Vec::new(), "/out.wav").unwrap_err().full_text(),
        "no audio inputs were provided for mixing"
    );
}

#[test]
fn a_failed_mix_says_why() {
    assert!(check_mix("/f", &finished(true, "", "")).is_ok());
    assert_eq!(
        check_mix("/f", &finished(false, " a", "b ")).unwrap_err().full_text(),
        "failed to mix audio files: ab"
    );
    assert_eq!(
        check_mix("/f", &ToolRun::NotStarted("no".to_string())).unwrap_err().full_text(),
        "failed to execute /f: no"
    );
}
