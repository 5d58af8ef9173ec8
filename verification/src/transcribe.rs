//! Transcribing what was recorded before: which audio is meant, what must be there first, and what
//! is reported.
use crate::config::{EffectiveConfig, EffectiveView};
use crate::detect;
use crate::disk;
use crate::disk::Snapshot;
use crate::encoding;
use crate::error;
use crate::error::{Error, ErrorView};
use crate::json;
use crate::json::{Field, FieldView, Json, JsonView};
use crate::path;
use crate::session::{
    EventView, SegmentView, SessionEvent, Transcript, TranscriptSegment, TranscriptView,
};
use crate::text;
use crate::tool::ToolRun;
use crate::whisper;
use crate::whisper::WhisperConfig;
use vstd::prelude::*;

verus! {

// ---------------------------------------------------------------------------------------------
// Prerequisites
// ---------------------------------------------------------------------------------------------
/// Whether the tool and the model are there: `whisper` is what came of asking the configured tool
/// for its help text.
pub open spec fn whisper_check(config: EffectiveView, whisper: ToolRun, disk: Snapshot) -> Result<
    (),
    ErrorView,
> {
    match config.whisper_cli_path {
        None => Err(
            error::plain(
                "whisper_cli_path is not configured; use a bundled release or install whisper-cpp, then run `scribecli setup`"@,
            ),
        ),
        Some(cli) => match whisper::version_of(cli, whisper) {
            Err(e) => Err(e),
            Ok(_) => match config.whisper_model_path {
                None => Err(
                    error::plain(
                        "whisper_model_path is not configured; run `scribecli setup`"@,
                    ),
                ),
                Some(model) => if disk.has(model) {
                    Ok(())
                } else {
                    Err(
                        error::plain(
                            "whisper model path does not exist: "@ + model
                                + "; run `scribecli setup` to create a managed model"@,
                        ),
                    )
                },
            },
        },
    }
}

/// Whether the tool and the model are there.
pub fn validate_transcribe_prerequisites(
    config: &EffectiveConfig,
    whisper: &ToolRun,
    disk: &Snapshot,
) -> (r: Result<(), Error>)
    ensures
        match r {
            Ok(()) => whisper_check(config@, *whisper, *disk) == Ok::<(), ErrorView>(()),
            Err(e) => whisper_check(config@, *whisper, *disk) == Err::<(), ErrorView>(e@),
        },
{
    let cli = match &config.whisper_cli_path {
        Some(cli) => cli,
        None => {
            return Err(
                Error::new(
                    "whisper_cli_path is not configured; use a bundled release or install whisper-cpp, then run `scribecli setup`".to_owned(),
                ),
            );
        },
    };
    if let Err(e) = whisper::whisper_version(cli.as_str(), whisper) {
        return Err(e);
    }
    let model = match &config.whisper_model_path {
        Some(model) => model,
        None => {
            return Err(
                Error::new(
                    "whisper_model_path is not configured; run `scribecli setup`".to_owned(),
                ),
            );
        },
    };
    if !disk.is_present(model.as_str()) {
        return Err(
            Error::new(
                text::cat3(
                    "whisper model path does not exist: ",
                    model.as_str(),
                    "; run `scribecli setup` to create a managed model",
                ),
            ),
        );
    }
    Ok(())
}

/// Whether `whisper` names the configured tool and model, both of which there are.
pub open spec fn is_configured(config: EffectiveView, whisper: WhisperConfig) -> bool {
    &&& config.whisper_cli_path == Some(whisper.cli_path@)
    &&& config.whisper_model_path == Some(whisper.model_path@)
}

/// The configured tool and model.
pub fn whisper_config(config: &EffectiveConfig) -> (r: Result<WhisperConfig, Error>)
    ensures
        match r {
            Ok(whisper) => is_configured(config@, whisper),
            Err(e) => {
                ||| config@.whisper_cli_path is None && e@ == error::plain(
                    "whisper_cli_path is not configured"@,
                )
                ||| config@.whisper_cli_path is Some && config@.whisper_model_path is None && e@
                    == error::plain("whisper_model_path is not configured"@)
            },
        },
{
    let cli_path = match &config.whisper_cli_path {
        Some(path) => path.clone(),
        None => {
            return Err(Error::new("whisper_cli_path is not configured".to_owned()));
        },
    };
    let model_path = match &config.whisper_model_path {
        Some(path) => path.clone(),
        None => {
            return Err(Error::new("whisper_model_path is not configured".to_owned()));
        },
    };
    Ok(WhisperConfig { cli_path, model_path })
}

// ---------------------------------------------------------------------------------------------
// What is to be transcribed
// ---------------------------------------------------------------------------------------------
/// What is asked of a transcription.
#[derive(Debug)]
pub struct TranscribeArgs {
    /// A session's directory, an audio file, or a session's name.
    pub input: String,
    /// Where to put the transcript.
    pub transcript_path: Option<String>,
}

/// What is to be transcribed, and where the outcome goes.
#[derive(Debug)]
pub struct ResolvedTranscriptionTarget {
    pub session_dir: Option<String>,
    pub audio_path: String,
    pub transcript_path: String,
    pub event_log_path: Option<String>,
    pub warnings: Vec<String>,
    /// The files that are to be mixed into the audio first, where there is no audio yet.
    pub mix_inputs: Option<Vec<String>>,
}

/// What a [`ResolvedTranscriptionTarget`] holds.
pub struct TargetView {
    pub session_dir: Option<Seq<char>>,
    pub audio_path: Seq<char>,
    pub transcript_path: Seq<char>,
    pub event_log_path: Option<Seq<char>>,
    pub warnings: Seq<Seq<char>>,
    pub mix_inputs: Option<Seq<Seq<char>>>,
}

impl View for ResolvedTranscriptionTarget {
    type V = TargetView;

    open spec fn view(&self) -> TargetView {
        TargetView {
            session_dir: self.session_dir.deep_view(),
            audio_path: self.audio_path@,
            transcript_path: self.transcript_path@,
            event_log_path: self.event_log_path.deep_view(),
            warnings: self.warnings.deep_view(),
            mix_inputs: self.mix_inputs.deep_view(),
        }
    }
}

/// Where the transcript of an audio file goes where nothing else is asked for: beside it, and under
/// its name if that is all Unicode.
pub open spec fn transcript_beside(audio: Seq<char>) -> Seq<char> {
    let stem = match path::spec_file_stem(audio) {
        Some(stem) => if encoding::is_unicode(stem) {
            stem
        } else {
            "transcript"@
        },
        None => "transcript"@,
    };
    path::spec_with_file_name(audio, stem + ".transcript.json"@)
}

/// Where the transcript of an audio file goes where nothing else is asked for.
pub fn default_transcript_path_for_audio(audio_path: &str) -> (r: String)
    ensures
        r@ == transcript_beside(audio_path@),
{
    let stem = match path::file_stem(audio_path) {
        Some(stem) => if encoding::holds_unicode(stem.as_str()) {
            stem
        } else {
            "transcript".to_owned()
        },
        None => "transcript".to_owned(),
    };
    path::with_file_name(audio_path, text::cat2(stem.as_str(), ".transcript.json").as_str())
}

/// What every transcript is to be taken with.
pub open spec fn label_warning() -> Seq<char> {
    "speaker labels are heuristic only in v1"@
}

/// The audio of a session: its path, what is to be said of it, and what is to be mixed into it
/// first.
pub struct AudioChoice {
    pub audio_path: Seq<char>,
    pub warning: Option<Seq<char>>,
    pub mix_inputs: Option<Seq<Seq<char>>>,
}

/// The audio of the session in `dir`: the finished audio if it is there, and else the best of what
/// the recording left behind.
pub open spec fn session_audio(dir: Seq<char>, disk: Snapshot) -> Option<AudioChoice> {
    let finished = path::spec_join(dir, "session.wav"@);
    let trimmed = path::spec_join(dir, "system-trimmed.wav"@);
    let system = path::spec_join(dir, "system.wav"@);
    let microphone = path::spec_join(dir, "microphone.wav"@);
    if disk.has(finished) {
        Some(AudioChoice { audio_path: finished, warning: None, mix_inputs: None })
    } else if disk.has(trimmed) {
        Some(
            AudioChoice {
                audio_path: trimmed,
                warning: Some(
                    "session.wav was missing; used system-trimmed.wav for recovery transcription"@,
                ),
                mix_inputs: None,
            },
        )
    } else if disk.has(system) && disk.has(microphone) {
        Some(
            AudioChoice {
                audio_path: finished,
                warning: Some(
                    "session.wav was missing; mixed system.wav and microphone.wav before transcription"@,
                ),
                mix_inputs: Some(seq![system, microphone]),
            },
        )
    } else if disk.has(system) {
        Some(
            AudioChoice {
                audio_path: system,
                warning: Some("session.wav was missing; used system.wav for transcription"@),
                mix_inputs: None,
            },
        )
    } else if disk.has(microphone) {
        Some(
            AudioChoice {
                audio_path: microphone,
                warning: Some("session.wav was missing; used microphone.wav for transcription"@),
                mix_inputs: None,
            },
        )
    } else {
        None
    }
}

/// What stands where the input says, or, where nothing stands there, under the directory of
/// sessions.
pub open spec fn located(input: Seq<char>, artifacts_dir: Seq<char>, disk: Snapshot) -> Result<
    Seq<char>,
    ErrorView,
> {
    let relative = path::spec_join(artifacts_dir, input);
    if disk.has(input) {
        Ok(input)
    } else if disk.has(relative) {
        Ok(relative)
    } else {
        Err(
            error::plain(
                "transcription input was not found at "@ + input + " or "@ + relative,
            ),
        )
    }
}

/// A path, or another where there is none.
pub open spec fn path_or(given: Option<Seq<char>>, other: Seq<char>) -> Seq<char> {
    match given {
        Some(path) => path,
        None => other,
    }
}

/// The warnings of a transcription.
pub open spec fn warnings_with(warning: Option<Seq<char>>) -> Seq<Seq<char>> {
    match warning {
        Some(warning) => seq![label_warning(), warning],
        None => seq![label_warning()],
    }
}

/// What is to be transcribed where `candidate` is meant.
pub open spec fn target_at(
    candidate: Seq<char>,
    transcript_path: Option<Seq<char>>,
    disk: Snapshot,
) -> Result<TargetView, ErrorView> {
    if disk.has_file(candidate) {
        Ok(
            TargetView {
                session_dir: None,
                audio_path: candidate,
                transcript_path: path_or(transcript_path, transcript_beside(candidate)),
                event_log_path: None,
                warnings: warnings_with(None),
                mix_inputs: None,
            },
        )
    } else if !disk.has_dir(candidate) {
        Err(error::plain("transcription input is neither a file nor a directory"@))
    } else {
        match session_audio(candidate, disk) {
            Some(audio) => Ok(
                TargetView {
                    session_dir: Some(candidate),
                    audio_path: audio.audio_path,
                    transcript_path: path_or(
                        transcript_path,
                        path::spec_join(candidate, "transcript.json"@),
                    ),
                    event_log_path: Some(path::spec_join(candidate, "events.jsonl"@)),
                    warnings: warnings_with(audio.warning),
                    mix_inputs: audio.mix_inputs,
                },
            ),
            None => Err(
                error::plain(
                    "no transcribable audio file was found under "@ + candidate
                        + "; expected session.wav, system.wav, system-trimmed.wav, or microphone.wav"@,
                ),
            ),
        }
    }
}

/// What is to be transcribed.
pub open spec fn target_of(
    config: EffectiveView,
    input: Seq<char>,
    transcript_path: Option<Seq<char>>,
    home: Option<Seq<char>>,
    disk: Snapshot,
) -> Result<TargetView, ErrorView> {
    match located(detect::expanded(input, home), config.artifacts_dir, disk) {
        Ok(candidate) => target_at(candidate, transcript_path, disk),
        Err(e) => Err(e),
    }
}

/// The audio that a recording may have left behind in `dir`.
pub open spec fn session_files(dir: Seq<char>) -> Seq<Seq<char>> {
    seq![
        path::spec_join(dir, "session.wav"@),
        path::spec_join(dir, "system-trimmed.wav"@),
        path::spec_join(dir, "system.wav"@),
        path::spec_join(dir, "microphone.wav"@),
    ]
}

/// What [`target_of`] looks at: the path that the input says, the one under the directory of
/// sessions, and the audio in each of them.
pub open spec fn paths_for_target(
    config: EffectiveView,
    input: Seq<char>,
    home: Option<Seq<char>>,
) -> Seq<Seq<char>> {
    let given = detect::expanded(input, home);
    let relative = path::spec_join(config.artifacts_dir, given);
    seq![given, relative] + session_files(given) + session_files(relative)
}

fn push_session_files(paths: &mut Vec<String>, dir: &str)
    ensures
        final(paths).deep_view() == old(paths).deep_view() + session_files(dir@),
{
    text::push_text(paths, path::join(dir, "session.wav").as_str());
    text::push_text(paths, path::join(dir, "system-trimmed.wav").as_str());
    text::push_text(paths, path::join(dir, "system.wav").as_str());
    text::push_text(paths, path::join(dir, "microphone.wav").as_str());
    assert(paths.deep_view() =~= old(paths).deep_view() + session_files(dir@));
}

/// The paths to look at before it is decided what is to be transcribed.
pub fn target_paths(
    config: &EffectiveConfig,
    args: &TranscribeArgs,
    home: &Option<String>,
) -> (r: Vec<String>)
    ensures
        r.deep_view() == paths_for_target(config@, args.input@, home.deep_view()),
{
    let given = detect::expand_home(args.input.clone(), home);
    let relative = path::join(config.artifacts_dir.as_str(), given.as_str());
    let mut paths: Vec<String> = Vec::new();
    text::push_text(&mut paths, given.as_str());
    text::push_text(&mut paths, relative.as_str());
    assert(paths.deep_view() =~= seq![given@, relative@]);
    push_session_files(&mut paths, given.as_str());
    push_session_files(&mut paths, relative.as_str());
    paths
}

fn given_or(given: &Option<String>, other: String) -> (r: String)
    ensures
        r@ == path_or(given.deep_view(), other@),
{
    match given {
        Some(path) => path.clone(),
        None => other,
    }
}

fn warnings_list(warning: Option<&str>) -> (r: Vec<String>)
    ensures
        r.deep_view() == warnings_with(warning.deep_view()),
{
    let mut warnings: Vec<String> = Vec::new();
    text::push_text(&mut warnings, "speaker labels are heuristic only in v1");
    if let Some(warning) = warning {
        text::push_text(&mut warnings, warning);
    }
    assert(warnings.deep_view() =~= warnings_with(warning.deep_view()));
    warnings
}

fn resolve_session(
    candidate: String,
    transcript_path: &Option<String>,
    disk: &Snapshot,
) -> (r: Result<ResolvedTranscriptionTarget, Error>)
    requires
        !disk.has_file(candidate@),
        disk.has_dir(candidate@),
    ensures
        match r {
            Ok(target) => target_at(candidate@, transcript_path.deep_view(), *disk) == Ok::<
                TargetView,
                ErrorView,
            >(target@),
            Err(e) => target_at(candidate@, transcript_path.deep_view(), *disk) == Err::<
                TargetView,
                ErrorView,
            >(e@),
        },
{
    let transcript_path = given_or(
        transcript_path,
        path::join(candidate.as_str(), "transcript.json"),
    );
    let event_log_path = path::join(candidate.as_str(), "events.jsonl");
    let finished = path::join(candidate.as_str(), "session.wav");
    let trimmed = path::join(candidate.as_str(), "system-trimmed.wav");
    let system = path::join(candidate.as_str(), "system.wav");
    let microphone = path::join(candidate.as_str(), "microphone.wav");
    let mut mix_inputs: Option<Vec<String>> = None;
    let audio_path;
    let warnings;
    if disk.is_present(finished.as_str()) {
        audio_path = finished;
        warnings = warnings_list(None);
    } else if disk.is_present(trimmed.as_str()) {
        audio_path = trimmed;
        warnings = warnings_list(
            Some("session.wav was missing; used system-trimmed.wav for recovery transcription"),
        );
    } else if disk.is_present(system.as_str()) && disk.is_present(microphone.as_str()) {
        let mut inputs: Vec<String> = Vec::new();
        text::push_text(&mut inputs, system.as_str());
        text::push_text(&mut inputs, microphone.as_str());
        assert(inputs.deep_view() =~= seq![system@, microphone@]);
        mix_inputs = Some(inputs);
        audio_path = finished;
        warnings = warnings_list(
            Some(
                "session.wav was missing; mixed system.wav and microphone.wav before transcription",
            ),
        );
    } else if disk.is_present(system.as_str()) {
        audio_path = system;
        warnings = warnings_list(
            Some("session.wav was missing; used system.wav for transcription"),
        );
    } else if disk.is_present(microphone.as_str()) {
        audio_path = microphone;
        warnings = warnings_list(
            Some("session.wav was missing; used microphone.wav for transcription"),
        );
    } else {
        return Err(
            Error::new(
                text::cat3(
                    "no transcribable audio file was found under ",
                    candidate.as_str(),
                    "; expected session.wav, system.wav, system-trimmed.wav, or microphone.wav",
                ),
            ),
        );
    }
    Ok(
        ResolvedTranscriptionTarget {
            session_dir: Some(candidate),
            audio_path,
            transcript_path,
            event_log_path: Some(event_log_path),
            warnings,
            mix_inputs,
        },
    )
}

/// What is to be transcribed, and where the outcome goes.
pub fn resolve_transcription_target(
    config: &EffectiveConfig,
    args: &TranscribeArgs,
    home: &Option<String>,
    disk: &Snapshot,
) -> (r: Result<ResolvedTranscriptionTarget, Error>)
    ensures
        match r {
            Ok(target) => target_of(
                config@,
                args.input@,
                args.transcript_path.deep_view(),
                home.deep_view(),
                *disk,
            ) == Ok::<TargetView, ErrorView>(target@),
            Err(e) => target_of(
                config@,
                args.input@,
                args.transcript_path.deep_view(),
                home.deep_view(),
                *disk,
            ) == Err::<TargetView, ErrorView>(e@),
        },
{
    let input = detect::expand_home(args.input.clone(), home);
    let candidate = if disk.is_present(input.as_str()) {
        input
    } else {
        let relative = path::join(config.artifacts_dir.as_str(), input.as_str());
        if disk.is_present(relative.as_str()) {
            relative
        } else {
            return Err(
                Error::new(
                    text::cat4(
                        "transcription input was not found at ",
                        input.as_str(),
                        " or ",
                        relative.as_str(),
                    ),
                ),
            );
        }
    };
    if disk.is_file(candidate.as_str()) {
        let transcript_path = given_or(
            &args.transcript_path,
            default_transcript_path_for_audio(candidate.as_str()),
        );
        return Ok(
            ResolvedTranscriptionTarget {
                session_dir: None,
                audio_path: candidate,
                transcript_path,
                event_log_path: None,
                warnings: warnings_list(None),
                mix_inputs: None,
            },
        );
    }
    if !disk.is_dir(candidate.as_str()) {
        return Err(
            Error::new("transcription input is neither a file nor a directory".to_owned()),
        );
    }
    resolve_session(candidate, &args.transcript_path, disk)
}

// ---------------------------------------------------------------------------------------------
// The outcome
// ---------------------------------------------------------------------------------------------
/// What is reported of a transcription.
#[derive(Debug)]
pub struct TranscriptionReport {
    pub object: &'static str,
    pub status: &'static str,
    pub audio_path: String,
    pub transcript_path: String,
    pub session_dir: Option<String>,
    pub text: String,
    pub segments: Vec<TranscriptSegment>,
    pub warnings: Vec<String>,
}

/// What a [`TranscriptionReport`] holds.
pub struct TranscriptionReportView {
    pub object: Seq<char>,
    pub status: Seq<char>,
    pub audio_path: Seq<char>,
    pub transcript_path: Seq<char>,
    pub session_dir: Option<Seq<char>>,
    pub text: Seq<char>,
    pub segments: Seq<SegmentView>,
    pub warnings: Seq<Seq<char>>,
}

impl View for TranscriptionReport {
    type V = TranscriptionReportView;

    open spec fn view(&self) -> TranscriptionReportView {
        TranscriptionReportView {
            object: self.object@,
            status: self.status@,
            audio_path: self.audio_path@,
            transcript_path: self.transcript_path@,
            session_dir: self.session_dir.deep_view(),
            text: self.text@,
            segments: self.segments.deep_view(),
            warnings: self.warnings.deep_view(),
        }
    }
}

/// The transcript that a transcription keeps: what the tool printed, with its speakers labelled.
pub open spec fn final_transcript(config: EffectiveView, run: ToolRun) -> Result<
    TranscriptView,
    ErrorView,
> {
    match config.whisper_cli_path {
        None => Err(error::plain("whisper_cli_path is not configured"@)),
        Some(cli) => if config.whisper_model_path is None {
            Err(error::plain("whisper_model_path is not configured"@))
        } else {
            match whisper::transcription_of(cli, run) {
                Ok(transcript) => Ok(whisper::labelled_transcript(transcript)),
                Err(e) => Err(e),
            }
        },
    }
}

/// The transcript that a transcription keeps, from what came of running the tool.
pub fn finished_transcript(config: &EffectiveConfig, run: &ToolRun) -> (r: Result<
    Transcript,
    Error,
>)
    ensures
        match r {
            Ok(transcript) => final_transcript(config@, *run) == Ok::<TranscriptView, ErrorView>(
                transcript@,
            ),
            Err(e) => final_transcript(config@, *run) == Err::<TranscriptView, ErrorView>(e@),
        },
{
    let whisper = match whisper_config(config) {
        Ok(whisper) => whisper,
        Err(e) => {
            return Err(e);
        },
    };
    let mut transcript = match whisper::transcribe_audio(&whisper, run) {
        Ok(transcript) => transcript,
        Err(e) => {
            return Err(e);
        },
    };
    whisper::apply_basic_speaker_labels(&mut transcript);
    Ok(transcript)
}

/// What the event log says of a transcription of existing audio.
pub open spec fn transcription_event(
    target: TargetView,
    transcript: TranscriptView,
    ts: Seq<char>,
) -> EventView {
    EventView {
        ts,
        kind: "transcription_completed"@,
        message: "wrote transcript from existing audio"@,
        data: Some(
            seq![
                FieldView { name: "audio_path"@, value: JsonView::Text(target.audio_path) },
                FieldView {
                    name: "transcript_path"@,
                    value: JsonView::Text(target.transcript_path),
                },
                FieldView {
                    name: "segments"@,
                    value: JsonView::Number(transcript.segments.len() as u64),
                },
                FieldView {
                    name: "text_length"@,
                    value: JsonView::Number(text::spec_byte_length(transcript.text) as u64),
                },
            ],
        ),
    }
}

/// What is reported of a transcription.
pub open spec fn transcription_report(
    target: TargetView,
    transcript: TranscriptView,
) -> TranscriptionReportView {
    TranscriptionReportView {
        object: "transcription"@,
        status: "completed"@,
        audio_path: target.audio_path,
        transcript_path: target.transcript_path,
        session_dir: target.session_dir,
        text: transcript.text,
        segments: transcript.segments,
        warnings: target.warnings,
    }
}

/// What the event log says of a transcription, where the target has one.
pub open spec fn transcription_log(
    target: TargetView,
    transcript: TranscriptView,
    ts: Seq<char>,
) -> Option<EventView> {
    if target.event_log_path is Some {
        Some(transcription_event(target, transcript, ts))
    } else {
        None
    }
}

/// What the event log says of a transcription, where the target has one.
pub fn transcription_entry(
    target: &ResolvedTranscriptionTarget,
    transcript: &Transcript,
    ts: String,
) -> (r: Option<SessionEvent>)
    ensures
        match r {
            Some(event) => transcription_log(target@, transcript@, ts@) == Some(event@),
            None => transcription_log(target@, transcript@, ts@) is None,
        },
        match r {
            Some(event) => target.event_log_path is Some && event@ == transcription_event(
                target@,
                transcript@,
                ts@,
            ),
            None => target.event_log_path is None,
        },
{
    if target.event_log_path.is_none() {
        return None;
    }
    let mut data: Vec<Field> = Vec::new();
    json::push_field(&mut data, "audio_path", Json::text(target.audio_path.as_str()));
    json::push_field(&mut data, "transcript_path", Json::text(target.transcript_path.as_str()));
    json::push_field(&mut data, "segments", Json::Number(transcript.segments.len() as u64));
    json::push_field(
        &mut data,
        "text_length",
        Json::Number(text::byte_length(transcript.text.as_str()) as u64),
    );
    assert(data.deep_view() =~= transcription_event(target@, transcript@, ts@).data->0);
    Some(
        SessionEvent::new(
            ts,
            "transcription_completed",
            "wrote transcript from existing audio",
            Some(data),
        ),
    )
}

/// What is reported of a transcription.
pub fn run_transcribe(target: ResolvedTranscriptionTarget, transcript: Transcript) -> (r:
    TranscriptionReport)
    ensures
        r@ == transcription_report(target@, transcript@),
{
    TranscriptionReport {
        object: "transcription",
        status: "completed",
        audio_path: target.audio_path,
        transcript_path: target.transcript_path,
        session_dir: target.session_dir,
        text: transcript.text,
        segments: transcript.segments,
        warnings: target.warnings,
    }
}

// ---------------------------------------------------------------------------------------------
// Laws
// ---------------------------------------------------------------------------------------------
/// Whether the tool and the model are fit for use depends on nothing on disk but what is at the
/// configured model's path.
pub proof fn law_whisper_check_looks_at(
    config: EffectiveView,
    whisper: ToolRun,
    a: Snapshot,
    b: Snapshot,
)
    requires
        config.whisper_model_path matches Some(model) ==> a.kind_of(model) == b.kind_of(model),
    ensures
        whisper_check(config, whisper, a) == whisper_check(config, whisper, b),
{
}

/// What is transcribed depends on nothing on disk but what is at the paths that were looked at.
pub proof fn law_target_looks_at(
    config: EffectiveView,
    input: Seq<char>,
    transcript_path: Option<Seq<char>>,
    home: Option<Seq<char>>,
    a: Snapshot,
    b: Snapshot,
)
    requires
        disk::agree_on(a, b, paths_for_target(config, input, home)),
    ensures
        target_of(config, input, transcript_path, home, a) == target_of(
            config,
            input,
            transcript_path,
            home,
            b,
        ),
{
    let given = detect::expanded(input, home);
    let relative = path::spec_join(config.artifacts_dir, given);
    let looked_at = paths_for_target(config, input, home);
    assert(looked_at[0] == given && looked_at[1] == relative);
    assert(looked_at.contains(given) && looked_at.contains(relative));
    assert forall|i: int| 0 <= i < 4 implies looked_at.contains(#[trigger] session_files(given)[i])
        && looked_at.contains(session_files(relative)[i]) by {
        assert(looked_at[2 + i] == session_files(given)[i]);
        assert(looked_at[6 + i] == session_files(relative)[i]);
    }
    lemma_session_looks_at(given, a, b);
    lemma_session_looks_at(relative, a, b);
}

proof fn lemma_session_looks_at(dir: Seq<char>, a: Snapshot, b: Snapshot)
    requires
        forall|i: int|
            0 <= i < 4 ==> a.kind_of(#[trigger] session_files(dir)[i]) == b.kind_of(
                session_files(dir)[i],
            ),
    ensures
        session_audio(dir, a) == session_audio(dir, b),
{
    assert(session_files(dir)[0] == path::spec_join(dir, "session.wav"@));
    assert(session_files(dir)[1] == path::spec_join(dir, "system-trimmed.wav"@));
    assert(session_files(dir)[2] == path::spec_join(dir, "system.wav"@));
    assert(session_files(dir)[3] == path::spec_join(dir, "microphone.wav"@));
}

/// Once the tool and the model are checked, both are configured.
pub proof fn law_checked_whisper_is_configured(
    config: EffectiveView,
    whisper: ToolRun,
    disk: Snapshot,
)
    requires
        whisper_check(config, whisper, disk) is Ok,
    ensures
        config.whisper_cli_path is Some,
        config.whisper_model_path matches Some(model) && disk.has(model),
        forall|run: ToolRun|
            #[trigger] final_transcript(config, run) matches Err(e) ==> whisper::transcription_of(
                config.whisper_cli_path->0,
                run,
            ) == Err::<TranscriptView, ErrorView>(e),
{
}

/// What is transcribed is there already, or is mixed first from two files that are there.
pub proof fn law_transcribed_audio_is_there(
    config: EffectiveView,
    input: Seq<char>,
    transcript_path: Option<Seq<char>>,
    home: Option<Seq<char>>,
    disk: Snapshot,
)
    ensures
        target_of(config, input, transcript_path, home, disk) matches Ok(target) ==> {
            match target.mix_inputs {
                None => disk.has(target.audio_path),
                Some(inputs) => inputs.len() == 2 && disk.has(inputs[0]) && disk.has(inputs[1])
                    && !disk.has(target.audio_path),
            }
        },
{
}

/// Finished audio is transcribed as it is, with no other warning than the one on speaker labels.
pub proof fn law_finished_audio_is_preferred(
    dir: Seq<char>,
    transcript_path: Option<Seq<char>>,
    disk: Snapshot,
)
    requires
        disk.has_dir(dir),
        disk.has(path::spec_join(dir, "session.wav"@)),
    ensures
        target_at(dir, transcript_path, disk) matches Ok(target) && {
            &&& target.audio_path == path::spec_join(dir, "session.wav"@)
            &&& target.mix_inputs is None
            &&& target.warnings == seq![label_warning()]
        },
{
}

/// Whatever is transcribed, it is said that speaker labels are heuristic.
pub proof fn law_labels_are_always_warned_of(
    config: EffectiveView,
    input: Seq<char>,
    transcript_path: Option<Seq<char>>,
    home: Option<Seq<char>>,
    disk: Snapshot,
)
    ensures
        target_of(config, input, transcript_path, home, disk) matches Ok(target)
            ==> target.warnings.len() > 0 && target.warnings[0] == label_warning(),
{
}

/// A transcript goes where it is asked to go.
pub proof fn law_given_transcript_path_is_used(
    config: EffectiveView,
    input: Seq<char>,
    transcript_path: Seq<char>,
    home: Option<Seq<char>>,
    disk: Snapshot,
)
    ensures
        target_of(config, input, Some(transcript_path), home, disk) matches Ok(target)
            ==> target.transcript_path == transcript_path,
{
}

/// A session that is named rather than located is looked for among the recorded sessions.
pub proof fn law_sessions_are_found_by_name(
    config: EffectiveView,
    name: Seq<char>,
    transcript_path: Option<Seq<char>>,
    home: Option<Seq<char>>,
    disk: Snapshot,
)
    requires
        !disk.has(detect::expanded(name, home)),
        disk.has_dir(path::spec_join(config.artifacts_dir, detect::expanded(name, home))),
    ensures
        target_of(config, name, transcript_path, home, disk) matches Ok(target)
            ==> target.session_dir == Some(
            path::spec_join(config.artifacts_dir, detect::expanded(name, home)),
        ),
{
}

proof fn lemma_spare_name()
    ensures
        path::is_plain_name("transcript"@ + ".transcript.json"@),
{
    reveal_strlit(".transcript.json");
    reveal_strlit("transcript");
    let name = "transcript"@ + ".transcript.json"@;
    assert forall|i: int| 0 <= i < name.len() implies name[i] != '/' && name[i] != '\0' by {
        if i < 10 {
            assert(name[i] == "transcript"@[i]);
        } else {
            assert(name[i] == ".transcript.json"@[i - 10]);
        }
    }
}

/// An audio file and its transcript are two files: a transcript never takes the place of what it was
/// made from, unless it is asked to.
pub proof fn law_transcript_is_another_file(audio: Seq<char>)
    ensures
        transcript_beside(audio) != audio,
{
    reveal_strlit(".transcript.json");
    reveal_strlit("transcript");
    let suffix = ".transcript.json"@;
    assert(suffix.len() == 16);
    assert(suffix[11] == '.');
    lemma_spare_name();
    match path::spec_file_name(audio) {
        Some(name) => {
            let stem = path::stem_of(name);
            path::lemma_file_name_is_plain(audio);
            path::lemma_stem_is_prefix(name);
            path::lemma_last_point(name);
            if encoding::is_unicode(stem) {
                let other = stem + suffix;
                assert forall|i: int| 0 <= i < other.len() implies other[i] != '/' by {
                    if i < stem.len() {
                        assert(other[i] == name[i]);
                        assert(name.contains(name[i]));
                    } else {
                        assert(other[i] == suffix[i - stem.len()]);
                    }
                }
                path::law_join_file_name(path::spec_parent(audio)->0, other);
                if other == name {
                    assert(name[stem.len() as int + 11] == suffix[11]);
                }
            } else {
                let i = choose|i: int| 0 <= i < stem.len() && stem[i] == '\0';
                assert(name[i] == '\0');
                assert(name.contains('\0'));
                path::law_join_file_name(path::spec_parent(audio)->0, "transcript"@ + suffix);
            }
        },
        None => {
            path::law_join_file_name(audio, "transcript"@ + suffix);
        },
    }
}

// ---------------------------------------------------------------------------------------------
// What is transcribed
// ---------------------------------------------------------------------------------------------
/// A file that the input names is what is transcribed, as it is and on its own: it belongs to no
/// session, and its transcript goes where it is asked to go, or else beside it.
pub proof fn law_named_file_is_transcribed(
    config: EffectiveView,
    input: Seq<char>,
    transcript_path: Option<Seq<char>>,
    home: Option<Seq<char>>,
    disk: Snapshot,
)
    requires
        disk.has_file(detect::expanded(input, home)),
    ensures
        target_of(config, input, transcript_path, home, disk) matches Ok(target) && {
            &&& target.audio_path == detect::expanded(input, home)
            &&& target.session_dir is None
            &&& target.event_log_path is None
            &&& target.mix_inputs is None
            &&& target.warnings == seq!["speaker labels are heuristic only in v1"@]
            &&& transcript_path matches Some(path) ==> target.transcript_path == path
            &&& transcript_path is None ==> target.transcript_path == transcript_beside(
                detect::expanded(input, home),
            )
        },
{
}

/// What stands where the input says comes before what stands under that name among the sessions:
/// that is looked at only where nothing stands at the input itself. Where nothing stands at either,
/// both are named.
pub proof fn law_input_comes_before_sessions(
    config: EffectiveView,
    input: Seq<char>,
    transcript_path: Option<Seq<char>>,
    home: Option<Seq<char>>,
    disk: Snapshot,
)
    ensures
        ({
            let given = detect::expanded(input, home);
            let among = path::spec_join(config.artifacts_dir, given);
            let target = target_of(config, input, transcript_path, home, disk);
            &&& disk.has_dir(given) && target is Ok ==> target->Ok_0.session_dir == Some(given)
            &&& disk.has(given) && !disk.has_dir(given) && !disk.has_file(given) ==> target == Err::<
                TargetView,
                ErrorView,
            >(error::plain("transcription input is neither a file nor a directory"@))
            &&& !disk.has(given) && disk.has_file(among) ==> (target matches Ok(found)
                && found.audio_path == among && found.session_dir is None)
            &&& !disk.has(given) && disk.has_dir(among) && target is Ok
                ==> target->Ok_0.session_dir == Some(among)
            &&& !disk.has(given) && !disk.has(among) ==> target == Err::<TargetView, ErrorView>(
                error::plain("transcription input was not found at "@ + given + " or "@ + among),
            )
        }),
{
}

/// The audio of a session without finished audio is what was trimmed for recovery; without that,
/// both recordings, mixed into the finished audio; with one of them alone, that one; and it is said
/// which it is. With none of them, the session is refused.
pub proof fn law_session_audio_is_recovered(
    dir: Seq<char>,
    transcript_path: Option<Seq<char>>,
    disk: Snapshot,
)
    requires
        disk.has_dir(dir),
        !disk.has(path::spec_join(dir, "session.wav"@)),
    ensures
        ({
            let trimmed = path::spec_join(dir, "system-trimmed.wav"@);
            let system = path::spec_join(dir, "system.wav"@);
            let microphone = path::spec_join(dir, "microphone.wav"@);
            let target = target_at(dir, transcript_path, disk);
            &&& target is Ok <==> disk.has(trimmed) || disk.has(system) || disk.has(microphone)
            &&& target matches Ok(found) ==> {
                &&& found.warnings.len() == 2
                &&& disk.has(trimmed) ==> found.audio_path == trimmed && found.mix_inputs is None
                    && found.warnings[1]
                    == "session.wav was missing; used system-trimmed.wav for recovery transcription"@
                &&& !disk.has(trimmed) && disk.has(system) && disk.has(microphone)
                    ==> found.audio_path == path::spec_join(dir, "session.wav"@)
                    && found.mix_inputs == Some(seq![system, microphone]) && found.warnings[1]
                    == "session.wav was missing; mixed system.wav and microphone.wav before transcription"@
                &&& !disk.has(trimmed) && disk.has(system) && !disk.has(microphone)
                    ==> found.audio_path == system && found.mix_inputs is None
                    && found.warnings[1]
                    == "session.wav was missing; used system.wav for transcription"@
                &&& !disk.has(trimmed) && !disk.has(system) && disk.has(microphone)
                    ==> found.audio_path == microphone && found.mix_inputs is None
                    && found.warnings[1]
                    == "session.wav was missing; used microphone.wav for transcription"@
            }
            &&& target matches Err(e) ==> e == error::plain(
                "no transcribable audio file was found under "@ + dir
                    + "; expected session.wav, system.wav, system-trimmed.wav, or microphone.wav"@,
            )
        }),
{
}

/// What comes of a session's audio goes into the session: its log, and, unless it is asked to go
/// elsewhere, its transcript.
pub proof fn law_session_keeps_its_transcript(
    dir: Seq<char>,
    transcript_path: Option<Seq<char>>,
    disk: Snapshot,
)
    requires
        disk.has_dir(dir),
    ensures
        target_at(dir, transcript_path, disk) matches Ok(target) ==> {
            &&& target.session_dir == Some(dir)
            &&& target.event_log_path == Some(path::spec_join(dir, "events.jsonl"@))
            &&& transcript_path matches Some(path) ==> target.transcript_path == path
            &&& transcript_path is None ==> target.transcript_path == path::spec_join(
                dir,
                "transcript.json"@,
            )
            &&& target.warnings[0] == "speaker labels are heuristic only in v1"@
        },
{
}

/// The transcript of an audio file lies in the same directory, under the file's name with
/// `.transcript.json` in place of its extension.
pub proof fn law_transcript_lies_beside_audio(audio: Seq<char>, name: Seq<char>)
    requires
        path::spec_file_name(audio) == Some(name),
        encoding::is_unicode(path::stem_of(name)),
    ensures
        path::components(transcript_beside(audio)) == path::components(audio).drop_last().push(
            path::stem_of(name) + ".transcript.json"@,
        ),
{
    reveal_strlit(".transcript.json");
    let suffix = ".transcript.json"@;
    let stem = path::stem_of(name);
    path::lemma_file_name_is_plain(audio);
    path::lemma_stem_is_prefix(name);
    path::lemma_last_point(name);
    let other = stem + suffix;
    assert forall|i: int| 0 <= i < other.len() implies other[i] != '/' by {
        if i < stem.len() {
            assert(other[i] == name[i]);
            assert(name.contains(name[i]));
        } else {
            assert(other[i] == suffix[i - stem.len()]);
        }
    }
    path::law_other_name_keeps_directory(audio, other);
}

// ---------------------------------------------------------------------------------------------
// What must be there, and what comes of it
// ---------------------------------------------------------------------------------------------
/// A transcription can start exactly if whisper-cli is configured and works and the configured model
/// is there; else the first of these that fails is what is said.
pub proof fn law_transcription_can_start(config: EffectiveView, whisper: ToolRun, disk: Snapshot)
    ensures
        whisper_check(config, whisper, disk) is Ok <==> {
            &&& config.whisper_cli_path is Some
            &&& whisper matches ToolRun::Finished(output) && output.success
            &&& config.whisper_model_path matches Some(model) && disk.has(model)
        },
        config.whisper_cli_path is None ==> whisper_check(config, whisper, disk) == Err::<
            (),
            ErrorView,
        >(
            error::plain(
                "whisper_cli_path is not configured; use a bundled release or install whisper-cpp, then run `scribecli setup`"@,
            ),
        ),
        config.whisper_cli_path matches Some(cli) ==> {
            &&& whisper matches ToolRun::NotStarted(reason) ==> whisper_check(config, whisper, disk)
                == Err::<(), ErrorView>(error::caused("failed to execute "@ + cli, reason@))
            &&& whisper matches ToolRun::Finished(output) ==> !output.success ==> whisper_check(
                config,
                whisper,
                disk,
            ) == Err::<(), ErrorView>(
                error::plain(
                    "failed to run whisper.cpp CLI at "@ + cli + ": "@ + text::spec_trim(
                        output.stdout@ + output.stderr@,
                    ),
                ),
            )
            &&& whisper matches ToolRun::Finished(output) ==> output.success ==> {
                &&& config.whisper_model_path is None ==> whisper_check(config, whisper, disk)
                    == Err::<(), ErrorView>(
                    error::plain("whisper_model_path is not configured; run `scribecli setup`"@),
                )
                &&& config.whisper_model_path matches Some(model) ==> !disk.has(model)
                    ==> whisper_check(config, whisper, disk) == Err::<(), ErrorView>(
                    error::plain(
                        "whisper model path does not exist: "@ + model
                            + "; run `scribecli setup` to create a managed model"@,
                    ),
                )
            }
        },
{
}

/// A transcript is kept exactly where a tool and a model are configured and the tool's run succeeded;
/// it is then what the tool printed, segment by segment, with its speakers labelled.
pub proof fn law_transcript_is_what_was_printed(config: EffectiveView, run: ToolRun, i: int)
    ensures
        final_transcript(config, run) is Ok <==> {
            &&& config.whisper_cli_path is Some
            &&& config.whisper_model_path is Some
            &&& run matches ToolRun::Finished(output) && output.success
        },
        final_transcript(config, run) matches Ok(transcript) ==> (run matches ToolRun::Finished(
            output,
        ) ==> {
            let printed = whisper::transcript_of(output.stdout@ + output.stderr@);
            &&& transcript.segments.len() == printed.segments.len()
            &&& printed.segments.len() > 0 ==> transcript.text == printed.text
            &&& 0 <= i < printed.segments.len() ==> {
                &&& transcript.segments[i].start_ms == printed.segments[i].start_ms
                &&& transcript.segments[i].end_ms == printed.segments[i].end_ms
                &&& transcript.segments[i].text == whisper::normalized(printed.segments[i].text)
            }
        }),
        config.whisper_cli_path is None ==> final_transcript(config, run) == Err::<
            TranscriptView,
            ErrorView,
        >(error::plain("whisper_cli_path is not configured"@)),
        config.whisper_cli_path is Some && config.whisper_model_path is None ==> final_transcript(
            config,
            run,
        ) == Err::<TranscriptView, ErrorView>(error::plain("whisper_model_path is not configured"@)),
{
}

/// The log says of a transcription what was transcribed, where the transcript lies, how many segments
/// it has, and how long it is.
pub proof fn law_transcription_is_logged(
    target: TargetView,
    transcript: TranscriptView,
    ts: Seq<char>,
)
    ensures
        ({
            let event = transcription_event(target, transcript, ts);
            &&& event.ts == ts
            &&& event.kind == "transcription_completed"@
            &&& event.message == "wrote transcript from existing audio"@
            &&& event.data matches Some(fields) && fields.len() == 4
            &&& json::says(event.data, "audio_path"@, JsonView::Text(target.audio_path))
            &&& json::says(event.data, "transcript_path"@, JsonView::Text(target.transcript_path))
            &&& json::says(
                event.data,
                "segments"@,
                JsonView::Number(transcript.segments.len() as u64),
            )
            &&& json::says(
                event.data,
                "text_length"@,
                JsonView::Number(vstd::utf8::encode_utf8(transcript.text).len() as u64),
            )
        }),
{
    reveal_strlit("audio_path");
    reveal_strlit("transcript_path");
    reveal_strlit("segments");
    reveal_strlit("text_length");
    assert("audio_path"@[0] == 'a');
    assert("transcript_path"@[0] == 't' && "transcript_path"@[1] == 'r');
    assert("segments"@[0] == 's');
    assert("text_length"@[0] == 't' && "text_length"@[1] == 'e');
    let fields = transcription_event(target, transcript, ts).data->0;
    assert(fields[0].name == "audio_path"@);
    assert(fields[1].name == "transcript_path"@);
    assert(fields[2].name == "segments"@);
    assert(fields[3].name == "text_length"@);
}

/// A transcription is reported with what was transcribed, where it lies, and all of its transcript
/// and of its warnings.
pub proof fn law_transcription_is_reported(target: TargetView, transcript: TranscriptView)
    ensures
        ({
            let report = transcription_report(target, transcript);
            &&& report.object == "transcription"@
            &&& report.status == "completed"@
            &&& report.audio_path == target.audio_path
            &&& report.transcript_path == target.transcript_path
            &&& report.session_dir == target.session_dir
            &&& report.text == transcript.text
            &&& report.segments == transcript.segments
            &&& report.warnings == target.warnings
        }),
{
}

/// What was transcribed is logged exactly where there is a log to write to.
pub proof fn law_session_transcription_is_logged(
    target: TargetView,
    transcript: TranscriptView,
    ts: Seq<char>,
)
    ensures
        transcription_log(target, transcript, ts) is Some <==> target.event_log_path is Some,
        transcription_log(target, transcript, ts) matches Some(event) ==> event
            == transcription_event(target, transcript, ts),
{
}

/// The tool and the model that transcribe are those that are configured.
pub proof fn law_configured_tool_transcribes(config: EffectiveView, whisper: WhisperConfig)
    requires
        is_configured(config, whisper),
    ensures
        config.whisper_cli_path == Some(whisper.cli_path@),
        config.whisper_model_path == Some(whisper.model_path@),
{
}

/// What is transcribed goes by what stands where the input says, and, where nothing stands there, by
/// what stands under that name among the sessions, just as if that had been the input.
pub proof fn law_name_stands_for_its_session(
    config: EffectiveView,
    input: Seq<char>,
    transcript_path: Option<Seq<char>>,
    home: Option<Seq<char>>,
    disk: Snapshot,
)
    ensures
        ({
            let given = detect::expanded(input, home);
            let among = path::spec_join(config.artifacts_dir, given);
            let target = target_of(config, input, transcript_path, home, disk);
            &&& disk.has(given) ==> target == target_at(given, transcript_path, disk)
            &&& !disk.has(given) && disk.has(among) ==> target == target_at(
                among,
                transcript_path,
                disk,
            )
        }),
{
}

/// A transcript whose audio has no name, or one that is not all Unicode, is called just a transcript,
/// and lies in the same directory.
pub proof fn law_nameless_transcript(audio: Seq<char>, name: Seq<char>)
    ensures
        path::spec_file_name(audio) == Some(name) && !encoding::is_unicode(path::stem_of(name))
            ==> path::components(transcript_beside(audio)) == path::components(
            audio,
        ).drop_last().push("transcript"@ + ".transcript.json"@),
        path::spec_file_name(audio) is None ==> path::components(transcript_beside(audio))
            == path::components(audio).push("transcript"@ + ".transcript.json"@),
{
    lemma_spare_name();
    let spare = "transcript"@ + ".transcript.json"@;
    if path::spec_file_name(audio) is Some {
        path::law_other_name_keeps_directory(audio, spare);
    } else {
        path::law_join_adds_component(audio, spare);
    }
}

/// What the tool printed without a single timestamped line leaves a transcript without text.
pub proof fn law_no_segments_no_text(config: EffectiveView, run: ToolRun)
    ensures
        final_transcript(config, run) matches Ok(transcript) ==> (transcript.segments.len() == 0
            ==> transcript.text.len() == 0),
{
    if final_transcript(config, run) is Ok {
        let printed = whisper::transcription_of(config.whisper_cli_path->0, run)->Ok_0;
        if whisper::labelled_transcript(printed).segments.len() == 0 {
            assert(whisper::normalized_texts(printed.segments) =~= Seq::empty());
            whisper::law_each_text_is_told(Seq::empty(), Seq::empty());
        }
    }
}

/// The speakers of a transcript that is kept are those of the labels.
pub proof fn law_kept_transcript_is_labelled(config: EffectiveView, run: ToolRun)
    ensures
        final_transcript(config, run) matches Ok(transcript) ==> (run matches ToolRun::Finished(
            output,
        ) && transcript.segments == whisper::labelled(
            whisper::transcript_of(output.stdout@ + output.stderr@).segments,
        )),
{
}

} // verus!
