use scribecli::tool::{ToolOutput, ToolRun};
use scribecli::whisper::{
    apply_basic_speaker_labels, normalize_segment_text, parse_timestamp_ms,
    parse_transcript_output, segment_from_groups, transcribe_arguments, transcribe_audio,
    whisper_version, whisper_version_arguments, WhisperConfig,
};

fn finished(success: bool, stdout: &str, stderr: &str) -> ToolRun {
    ToolRun::Finished(ToolOutput {
        success,
        status: "exit status: 0".to_string(),
        stdout: stdout.to_string(),
        stdout_fault: None,
        stderr: stderr.to_string(),
    })
}

fn config() -> WhisperConfig {
    WhisperConfig { cli_path: "/bin/w".to_string(), model_path: "/m.bin".to_string() }
}

#[test]
fn parses_timestamped_output() {
    let output = r#"
[00:00:00.000 --> 00:00:01.250]   Hello there [SPEAKER_TURN]
[00:00:01.250 --> 00:00:02.500]   General Kenobi
"#;

    let mut transcript = parse_transcript_output(output);
    apply_basic_speaker_labels(&mut transcript);

    assert_eq!(transcript.segments.len(), 2);
    assert_eq!(transcript.segments[0].speaker, "speaker_1");
    assert_eq!(transcript.segments[1].speaker, "speaker_2");
    assert_eq!(transcript.text, "Hello there General Kenobi");
}

#[test]
fn times_are_read_in_milliseconds() {
    let transcript = parse_transcript_output("[01:02:03.004 --> 10:20:30.400] x");
    assert_eq!(transcript.segments[0].start_ms, 3_723_004);
    assert_eq!(transcript.segments[0].end_ms, 37_230_400);
    assert_eq!(transcript.segments[0].text, "x");
    let groups: Vec<Option<String>> =
        ["", "01", "02", "03", "004"].iter().map(|s| Some(s.to_string())).collect();
    assert_eq!(parse_timestamp_ms(&groups, 1), 3_723_004);
}

#[test]
fn captured_groups_make_a_segment() {
    let groups: Vec<Option<String>> =
        ["", "00", "00", "01", "000", "00", "00", "02", "500", " hi "]
            .iter()
            .map(|s| Some(s.to_string()))
            .collect();
    let segment = segment_from_groups(&groups);
    assert_eq!(segment.start_ms, 1000);
    assert_eq!(segment.end_ms, 2500);
    assert_eq!(segment.text, "hi");
}

#[test]
fn lines_without_times_are_skipped_where_others_have_them() {
    let output = "loading\n[00:00:00.000 --> 00:00:01.000] a\nnoise\n[00:00:01.000 --> 00:00:02.000] b\n";
    let transcript = parse_transcript_output(output);
    assert_eq!(transcript.segments.len(), 2);
    assert_eq!(transcript.text, "a b");
    let almost = [
        "[00:00:00.000 -> 00:00:01.000] a",
        "[0:00:00.000 --> 00:00:01.000] a",
        " x [00:00:00.000 --> 00:00:01.000] a",
        "[00:00:00.000 --> 00:00:01.000]",
        "[00:00:00.00a --> 00:00:01.000] a",
    ];
    for line in almost {
        assert!(parse_transcript_output(line).segments.is_empty(), "{line}");
    }
}

#[test]
fn plain_output_is_text_without_segments() {
    let transcript = parse_transcript_output("  hello \n\n world\n");
    assert_eq!(transcript.text, "hello world");
    assert!(transcript.segments.is_empty());
}

#[test]
fn digits_of_other_scripts_count_as_nothing() {
    let line = "[\u{0660}\u{0661}:00:01.000 --> 00:00:02.000] x";
    let transcript = parse_transcript_output(line);
    assert_eq!(transcript.segments.len(), 1);
    assert_eq!(transcript.segments[0].start_ms, 1000);
}

#[test]
fn speakers_take_turns() {
    let output = "[00:00:00.000 --> 00:00:01.000] a [SPEAKER_TURN]\n\
                  [00:00:01.000 --> 00:00:02.000] b\n\
                  [00:00:02.000 --> 00:00:03.000] c [SPEAKER_TURN]\n\
                  [00:00:03.000 --> 00:00:04.000] d\n";
    let mut transcript = parse_transcript_output(output);
    apply_basic_speaker_labels(&mut transcript);
    let speakers: Vec<&str> =
        transcript.segments.iter().map(|segment| segment.speaker.as_str()).collect();
    assert_eq!(speakers, ["speaker_1", "speaker_2", "speaker_1", "speaker_2"]);
    let times: Vec<u64> = transcript.segments.iter().map(|segment| segment.start_ms).collect();
    assert_eq!(times, [0, 1000, 2000, 3000]);
    assert_eq!(transcript.text, "a b c d");
}

#[test]
fn without_a_turn_there_is_one_speaker() {
    let output = "[00:00:00.000 --> 00:00:01.000] a\n[00:00:01.000 --> 00:00:02.000] b\n";
    let mut transcript = parse_transcript_output(output);
    apply_basic_speaker_labels(&mut transcript);
    assert!(transcript.segments.iter().all(|segment| segment.speaker == "speaker_1"));
}

#[test]
fn markers_are_taken_out_of_the_text() {
    assert_eq!(normalize_segment_text(" a [SPEAKER_TURN] b "), "a  b");
    assert_eq!(normalize_segment_text("[SPEAKER_TURN]"), "");
}

#[test]
fn versions_are_first_lines() {
    assert_eq!(whisper_version_arguments(), ["-h"]);
    assert_eq!(
        whisper_version("/bin/w", &finished(true, "", " usage: w \nmore")).unwrap(),
        "usage: w"
    );
    let error = whisper_version("/bin/w", &finished(false, "out ", "err\n")).unwrap_err();
    assert_eq!(error.full_text(), "failed to run whisper.cpp CLI at /bin/w: out err");
    let error =
        whisper_version("/bin/w", &ToolRun::NotStarted("not found".to_string())).unwrap_err();
    assert_eq!(error.full_text(), "failed to execute /bin/w: not found");
}

#[test]
fn transcribing_reads_both_streams() {
    assert_eq!(transcribe_arguments(&config(), "/a.wav"), ["-m", "/m.bin", "-f", "/a.wav"]);
    let transcript = transcribe_audio(
        &config(),
        &finished(true, "[00:00:00.000 --> 00:00:01.000] a\n", "[00:00:01.000 --> 00:00:02.000] b"),
    )
    .unwrap();
    assert_eq!(transcript.text, "a b");
    let error = transcribe_audio(&config(), &finished(false, "", " broken ")).unwrap_err();
    assert_eq!(error.full_text(), "whisper.cpp transcription failed: broken");
    let error =
        transcribe_audio(&config(), &ToolRun::NotStarted("gone".to_string())).unwrap_err();
    assert_eq!(error.full_text(), "failed to execute /bin/w: gone");
}
