//! Recording in the background: starting a runner, asking it to stop, and taking its answer.
use crate::config;
use crate::config::{AppPaths, EffectiveConfig, EffectiveView, InputMode};
use crate::error;
use crate::error::{Error, ErrorView};
use crate::native;
use crate::path;
use crate::recording;
use crate::recording::RecordArgs;
use crate::session;
use crate::session::SessionPaths;
use crate::text;
use vstd::prelude::*;

verus! {

// ---------------------------------------------------------------------------------------------
// The recording that is under way
// ---------------------------------------------------------------------------------------------
/// What is remembered of a recording that is under way.
#[derive(Debug)]
pub struct ActiveRecordingState {
    pub object: String,
    pub status: String,
    pub session_id: String,
    pub started_at: String,
    pub pid: u32,
    pub session_dir: String,
    pub audio_path: String,
    pub transcript_path: String,
    pub event_log_path: String,
    pub runner_stdout_path: String,
    pub runner_stderr_path: String,
    pub stop_request_path: String,
}

/// Where the recording that is under way is remembered.
pub fn active_recording_state_path(paths: &AppPaths) -> (r: String)
    ensures
        r@ == path::spec_join(paths.config_dir@, "active-recording.json"@),
{
    path::join(paths.config_dir.as_str(), "active-recording.json")
}

/// Whether a process runs, judging by a signal that only asks: it was delivered, or the process
/// belongs to someone else.
pub open spec fn seems_running(delivered: bool, denied: bool) -> bool {
    delivered || denied
}

/// Whether a process runs, judging by a signal that only asks.
pub fn process_is_running(delivered: bool, denied: bool) -> (r: bool)
    ensures
        r == seems_running(delivered, denied),
        r == (delivered || denied),
{
    delivered || denied
}

/// Whether another recording can start: if so, whether an old one is to be forgotten first.
pub open spec fn admission(existing: Option<ActiveRecordingState>, running: bool) -> Result<
    bool,
    ErrorView,
> {
    match existing {
        Some(state) => if running {
            Err(
                error::plain(
                    "an active recording is already running: "@ + state.session_id@
                        + "; run `scribecli stop` first"@,
                ),
            )
        } else {
            Ok(true)
        },
        None => Ok(false),
    }
}

/// Whether another recording can start, and whether an old one is to be forgotten first. `existing`
/// is the recording that is remembered, and `running` whether its process still runs.
pub fn admit_recording(existing: &Option<ActiveRecordingState>, running: bool) -> (r: Result<
    bool,
    Error,
>)
    ensures
        match r {
            Ok(forget) => admission(*existing, running) == Ok::<bool, ErrorView>(forget),
            Err(e) => admission(*existing, running) == Err::<bool, ErrorView>(e@),
        },
        match r {
            Ok(forget) => forget == existing is Some && !(existing is Some && running),
            Err(e) => existing matches Some(state) && running && e@ == error::plain(
                "an active recording is already running: "@ + state.session_id@
                    + "; run `scribecli stop` first"@,
            ),
        },
{
    match existing {
        Some(state) => if running {
            Err(
                Error::new(
                    text::cat3(
                        "an active recording is already running: ",
                        state.session_id.as_str(),
                        "; run `scribecli stop` first",
                    ),
                ),
            )
        } else {
            Ok(true)
        },
        None => Ok(false),
    }
}

/// Whether no recording is under way.
pub open spec fn idle_check(existing: Option<ActiveRecordingState>, running: bool) -> Result<
    (),
    ErrorView,
> {
    match existing {
        Some(state) => if running {
            Err(
                error::plain(
                    "an active recording is running: "@ + state.session_id@
                        + "; stop it before cleanup"@,
                ),
            )
        } else {
            Ok(())
        },
        None => Ok(()),
    }
}

/// Refuses to go on while a recording is under way.
pub fn ensure_no_active_recording(existing: &Option<ActiveRecordingState>, running: bool) -> (r:
    Result<(), Error>)
    ensures
        match r {
            Ok(()) => idle_check(*existing, running) == Ok::<(), ErrorView>(()),
            Err(e) => idle_check(*existing, running) == Err::<(), ErrorView>(e@),
        },
{
    match existing {
        Some(state) => if running {
            Err(
                Error::new(
                    text::cat3(
                        "an active recording is running: ",
                        state.session_id.as_str(),
                        "; stop it before cleanup",
                    ),
                ),
            )
        } else {
            Ok(())
        },
        None => Ok(()),
    }
}

// ---------------------------------------------------------------------------------------------
// The runner's command line
// ---------------------------------------------------------------------------------------------
/// The mode's name on the command line.
pub open spec fn cli_value(mode: InputMode) -> Seq<char> {
    match mode {
        InputMode::MicSystemMix => "mic-system-mix"@,
        InputMode::Microphone => "microphone"@,
        InputMode::SystemAudio => "system-audio"@,
        InputMode::SingleDevice => "single-device"@,
    }
}

/// The mode's name on the command line.
pub fn input_mode_cli_value(value: InputMode) -> (r: &'static str)
    ensures
        r@ == cli_value(value),
{
    match value {
        InputMode::MicSystemMix => "mic-system-mix",
        InputMode::Microphone => "microphone",
        InputMode::SystemAudio => "system-audio",
        InputMode::SingleDevice => "single-device",
    }
}

/// The mode that has this name on the command line.
pub open spec fn mode_by_cli_value(raw: Seq<char>) -> Option<InputMode> {
    if raw == cli_value(InputMode::MicSystemMix) {
        Some(InputMode::MicSystemMix)
    } else if raw == cli_value(InputMode::Microphone) {
        Some(InputMode::Microphone)
    } else if raw == cli_value(InputMode::SystemAudio) {
        Some(InputMode::SystemAudio)
    } else if raw == cli_value(InputMode::SingleDevice) {
        Some(InputMode::SingleDevice)
    } else {
        None
    }
}

/// The mode that has this name on the command line.
pub fn input_mode_from_cli(raw: &str) -> (r: Option<InputMode>)
    ensures
        r == mode_by_cli_value(raw@),
{
    if text::same(raw, "mic-system-mix") {
        Some(InputMode::MicSystemMix)
    } else if text::same(raw, "microphone") {
        Some(InputMode::Microphone)
    } else if text::same(raw, "system-audio") {
        Some(InputMode::SystemAudio)
    } else if text::same(raw, "single-device") {
        Some(InputMode::SingleDevice)
    } else {
        None
    }
}

/// The options that the runner always gets.
pub open spec fn fixed_options(
    config: EffectiveView,
    session_id: Seq<char>,
    stop_request_path: Seq<char>,
) -> Seq<Seq<char>> {
    seq![
        "--input-mode"@,
        cli_value(config.input_mode),
        "--partial-interval-seconds"@,
        text::decimal(config.partial_interval_seconds as nat),
        "--artifacts-dir"@,
        config.artifacts_dir,
        "--ffmpeg-path"@,
        config.ffmpeg_path,
        "--session-id"@,
        session_id,
        "--stop-request-path"@,
        stop_request_path,
    ]
}

/// The options with which the runner records.
pub open spec fn runner_options(
    config: EffectiveView,
    duration_seconds: Option<u64>,
    session_id: Seq<char>,
    stop_request_path: Seq<char>,
) -> Seq<Seq<char>> {
    fixed_options(config, session_id, stop_request_path) + native::optional_argument(
        "--display-id"@,
        native::optional_decimal(native::widened(config.display_id)),
    ) + native::optional_argument("--microphone-device"@, config.microphone_device)
        + native::optional_argument("--system-device"@, config.system_device)
        + native::optional_argument("--single-input-device"@, config.single_input_device)
        + native::optional_argument("--whisper-cli-path"@, config.whisper_cli_path)
        + native::optional_argument("--whisper-model-path"@, config.whisper_model_path)
        + native::optional_argument("--duration-seconds"@, native::optional_decimal(duration_seconds))
}

/// The arguments with which the runner records.
pub open spec fn runner_line(
    config: EffectiveView,
    duration_seconds: Option<u64>,
    session_id: Seq<char>,
    stop_request_path: Seq<char>,
) -> Seq<Seq<char>> {
    seq!["--output"@, "json"@, "record"@] + runner_options(
        config,
        duration_seconds,
        session_id,
        stop_request_path,
    )
}

proof fn lemma_regroup(a: Seq<Seq<char>>, b: Seq<Seq<char>>, c: Seq<Seq<char>>)
    ensures
        a + b + c == a + (b + c),
{
    assert(a + b + c =~= a + (b + c));
}

/// The arguments that the runner always gets.
fn fixed_arguments(config: &EffectiveConfig, session_id: &str, stop_request_path: &str) -> (r: Vec<
    String,
>)
    ensures
        r.deep_view() == seq!["--output"@, "json"@, "record"@] + fixed_options(
            config@,
            session_id@,
            stop_request_path@,
        ),
{
    let mut line: Vec<String> = Vec::new();
    text::push_text(&mut line, "--output");
    text::push_text(&mut line, "json");
    text::push_text(&mut line, "record");
    text::push_text(&mut line, "--input-mode");
    text::push_text(&mut line, input_mode_cli_value(config.input_mode));
    text::push_text(&mut line, "--partial-interval-seconds");
    text::push_text(&mut line, text::decimal_text(config.partial_interval_seconds).as_str());
    text::push_text(&mut line, "--artifacts-dir");
    text::push_text(&mut line, config.artifacts_dir.as_str());
    text::push_text(&mut line, "--ffmpeg-path");
    text::push_text(&mut line, config.ffmpeg_path.as_str());
    text::push_text(&mut line, "--session-id");
    text::push_text(&mut line, session_id);
    text::push_text(&mut line, "--stop-request-path");
    text::push_text(&mut line, stop_request_path);
    assert(line.deep_view() =~= seq!["--output"@, "json"@, "record"@] + fixed_options(
        config@,
        session_id@,
        stop_request_path@,
    ));
    line
}

/// The arguments with which the runner records.
pub fn build_background_record_command(
    config: &EffectiveConfig,
    args: &RecordArgs,
    session_id: &str,
    stop_request_path: &str,
) -> (r: Vec<String>)
    ensures
        r.deep_view() == runner_line(
            config@,
            args.duration_seconds,
            session_id@,
            stop_request_path@,
        ),
{
    let mut line = fixed_arguments(config, session_id, stop_request_path);
    let ghost head = seq!["--output"@, "json"@, "record"@];
    let ghost fixed = fixed_options(config@, session_id@, stop_request_path@);
    let ghost display = native::optional_argument(
        "--display-id"@,
        native::optional_decimal(native::widened(config@.display_id)),
    );
    let ghost microphone = native::optional_argument(
        "--microphone-device"@,
        config@.microphone_device,
    );
    let ghost system = native::optional_argument("--system-device"@, config@.system_device);
    let ghost single = native::optional_argument(
        "--single-input-device"@,
        config@.single_input_device,
    );
    let ghost cli = native::optional_argument("--whisper-cli-path"@, config@.whisper_cli_path);
    let ghost model = native::optional_argument(
        "--whisper-model-path"@,
        config@.whisper_model_path,
    );
    let ghost duration = native::optional_argument(
        "--duration-seconds"@,
        native::optional_decimal(args.duration_seconds),
    );
    let display_id = match config.display_id {
        Some(id) => Some(id as u64),
        None => None,
    };
    native::push_number_option(&mut line, "--display-id", display_id);
    native::push_option(&mut line, "--microphone-device", &config.microphone_device);
    native::push_option(&mut line, "--system-device", &config.system_device);
    native::push_option(&mut line, "--single-input-device", &config.single_input_device);
    native::push_option(&mut line, "--whisper-cli-path", &config.whisper_cli_path);
    native::push_option(&mut line, "--whisper-model-path", &config.whisper_model_path);
    native::push_number_option(&mut line, "--duration-seconds", args.duration_seconds);
    proof {
        lemma_regroup(head, fixed, display);
        lemma_regroup(head, fixed + display, microphone);
        lemma_regroup(head, fixed + display + microphone, system);
        lemma_regroup(head, fixed + display + microphone + system, single);
        lemma_regroup(head, fixed + display + microphone + system + single, cli);
        lemma_regroup(head, fixed + display + microphone + system + single + cli, model);
        lemma_regroup(head, fixed + display + microphone + system + single + cli + model, duration);
    }
    line
}

// ---------------------------------------------------------------------------------------------
// Starting
// ---------------------------------------------------------------------------------------------
/// What the runner of a session works with.
#[derive(Debug)]
pub struct RunnerPlan {
    pub session_id: String,
    pub session: SessionPaths,
    /// Where the runner's standard output goes.
    pub stdout_path: String,
    /// Where the runner's standard error goes.
    pub stderr_path: String,
    /// The file whose appearance ends the recording.
    pub stop_request_path: String,
    /// The runner's arguments.
    pub arguments: Vec<String>,
}

impl RunnerPlan {
    /// Whether this is what the runner of session `session_id` works with.
    pub open spec fn is_for(
        self,
        config: EffectiveView,
        duration_seconds: Option<u64>,
        session_id: Seq<char>,
    ) -> bool {
        let root = path::spec_join(config.artifacts_dir, session_id);
        &&& self.session_id@ == session_id
        &&& self.session.lie_in(root)
        &&& self.stdout_path@ == path::spec_join(root, "runner.stdout.json"@)
        &&& self.stderr_path@ == path::spec_join(root, "runner.stderr.json"@)
        &&& self.stop_request_path@ == path::spec_join(root, "stop-request"@)
        &&& self.arguments.deep_view() == runner_line(
            config,
            duration_seconds,
            session_id,
            self.stop_request_path@,
        )
    }
}

/// What the runner of a session works with.
pub fn plan_runner(config: &EffectiveConfig, args: &RecordArgs, session_id: String) -> (r:
    RunnerPlan)
    ensures
        r.is_for(config@, args.duration_seconds, session_id@),
{
    let session = SessionPaths::create(config.artifacts_dir.as_str(), session_id.as_str());
    let stdout_path = path::join(session.root_dir.as_str(), "runner.stdout.json");
    let stderr_path = path::join(session.root_dir.as_str(), "runner.stderr.json");
    let stop_request_path = path::join(session.root_dir.as_str(), "stop-request");
    let arguments = build_background_record_command(
        config,
        args,
        session_id.as_str(),
        stop_request_path.as_str(),
    );
    RunnerPlan { session_id, session, stdout_path, stderr_path, stop_request_path, arguments }
}

/// Whether `id` is a name for the session that is to be recorded: the one that was chosen before, or
/// else a new one, made in the process of number `pid`.
pub open spec fn names_session(
    id: Seq<char>,
    chosen: Option<Seq<char>>,
    name: Option<Seq<char>>,
    pid: u32,
) -> bool {
    match chosen {
        Some(chosen) => id == chosen,
        None => exists|nanos: int, seconds: int|
            id == session::session_id_of(
                name,
                #[trigger] session::stamp(session::compact_of(nanos), seconds),
                pid,
            ),
    }
}

/// The name of the session that is to be recorded: the one that was chosen before, or else a new
/// one, made in the process of number `pid`.
pub fn chosen_session_id(args: &RecordArgs, pid: u32) -> (r: String)
    ensures
        names_session(r@, args.session_id.deep_view(), args.session_name.deep_view(), pid),
        match args.session_id {
            Some(id) => r@ == id@,
            None => path::is_plain_name(r@) && exists|nanos: int, seconds: int|
                r@ == session::session_id_of(
                    args.session_name.deep_view(),
                    #[trigger] session::stamp(session::compact_of(nanos), seconds),
                    pid,
                ),
        },
{
    match &args.session_id {
        Some(id) => id.clone(),
        None => match &args.session_name {
            Some(name) => {
                let prefix = Some(name.as_str());
                assert(prefix.deep_view() == args.session_name.deep_view());
                session::build_session_id(prefix, pid)
            },
            None => session::build_session_id(None, pid),
        },
    }
}

/// What is reported of a recording that was started.
#[derive(Debug)]
pub struct RecordingStartedReport {
    pub object: &'static str,
    pub status: &'static str,
    pub session_id: String,
    pub started_at: String,
    pub pid: u32,
    pub session_dir: String,
    pub audio_path: String,
    pub transcript_path: String,
    pub event_log_path: String,
}

/// Whether `state` is what is remembered of the recording that `plan` describes.
pub open spec fn remembers(
    state: ActiveRecordingState,
    plan: RunnerPlan,
    started_at: Seq<char>,
    pid: u32,
) -> bool {
    &&& state.object@ == "active_recording"@
    &&& state.status@ == "recording"@
    &&& state.session_id@ == plan.session_id@
    &&& state.started_at@ == started_at
    &&& state.pid == pid
    &&& state.session_dir@ == plan.session.root_dir@
    &&& state.audio_path@ == plan.session.raw_audio_path@
    &&& state.transcript_path@ == plan.session.transcript_path@
    &&& state.event_log_path@ == plan.session.event_log_path@
    &&& state.runner_stdout_path@ == plan.stdout_path@
    &&& state.runner_stderr_path@ == plan.stderr_path@
    &&& state.stop_request_path@ == plan.stop_request_path@
}

/// Whether `report` is what is reported of the recording that `state` remembers.
pub open spec fn reports(report: RecordingStartedReport, state: ActiveRecordingState) -> bool {
    &&& report.object@ == "recording_session"@
    &&& report.status@ == "recording"@
    &&& report.session_id@ == state.session_id@
    &&& report.started_at@ == state.started_at@
    &&& report.pid == state.pid
    &&& report.session_dir@ == state.session_dir@
    &&& report.audio_path@ == state.audio_path@
    &&& report.transcript_path@ == state.transcript_path@
    &&& report.event_log_path@ == state.event_log_path@
}

/// What is remembered of a recording whose runner was started.
pub fn recording_state(plan: &RunnerPlan, started_at: String, pid: u32) -> (r: ActiveRecordingState)
    ensures
        remembers(r, *plan, started_at@, pid),
{
    ActiveRecordingState {
        object: "active_recording".to_owned(),
        status: "recording".to_owned(),
        session_id: plan.session_id.clone(),
        started_at,
        pid,
        session_dir: plan.session.root_dir.clone(),
        audio_path: plan.session.raw_audio_path.clone(),
        transcript_path: plan.session.transcript_path.clone(),
        event_log_path: plan.session.event_log_path.clone(),
        runner_stdout_path: plan.stdout_path.clone(),
        runner_stderr_path: plan.stderr_path.clone(),
        stop_request_path: plan.stop_request_path.clone(),
    }
}

/// What is reported of a recording that was started.
pub fn started_report(state: ActiveRecordingState) -> (r: RecordingStartedReport)
    ensures
        reports(r, state),
{
    RecordingStartedReport {
        object: "recording_session",
        status: "recording",
        session_id: state.session_id,
        started_at: state.started_at,
        pid: state.pid,
        session_dir: state.session_dir,
        audio_path: state.audio_path,
        transcript_path: state.transcript_path,
        event_log_path: state.event_log_path,
    }
}

/// A step of starting a recording in the background.
#[derive(Debug, Clone, Copy, PartialEq, Eq, Structural)]
pub enum StartStep {
    /// Ask the tools for their versions, and look for the model.
    CheckPrerequisites,
    /// Write and compile the helper, where that is needed.
    PrepareHelper,
    /// Ask the helper whether it can record.
    AskHelper,
    /// See whether a recording is remembered, and whether its process still runs.
    CheckActive,
    /// Forget the recording that is remembered.
    ForgetOld,
    /// Create the session's directory.
    CreateSession,
    /// Start the runner.
    Spawn,
    /// Remember the recording.
    Remember,
    /// End the runner.
    KillRunner,
    /// Report the recording.
    Report,
    /// Give up.
    Fail,
}

/// How a step of starting a recording ended.
#[derive(Debug, Clone, Copy, PartialEq, Eq, Structural)]
pub enum StartOutcome {
    /// As it should.
    Done,
    /// With a recording that is remembered but does not run any more.
    FoundOld,
    /// With an error.
    Failed,
}

/// What comes after a step of starting a recording; after the report and after giving up, nothing
/// does. A runner that cannot be remembered is ended.
pub open spec fn start_after(step: StartStep, outcome: StartOutcome) -> Option<StartStep> {
    match step {
        StartStep::Report => None,
        StartStep::Fail => None,
        StartStep::KillRunner => Some(StartStep::Fail),
        StartStep::Remember => Some(
            if outcome == StartOutcome::Failed {
                StartStep::KillRunner
            } else {
                StartStep::Report
            },
        ),
        _ => if outcome == StartOutcome::Failed {
            Some(StartStep::Fail)
        } else {
            Some(
                match step {
                    StartStep::CheckPrerequisites => StartStep::PrepareHelper,
                    StartStep::PrepareHelper => StartStep::AskHelper,
                    StartStep::AskHelper => StartStep::CheckActive,
                    StartStep::CheckActive => if outcome == StartOutcome::FoundOld {
                        StartStep::ForgetOld
                    } else {
                        StartStep::CreateSession
                    },
                    StartStep::ForgetOld => StartStep::CreateSession,
                    StartStep::CreateSession => StartStep::Spawn,
                    _ => StartStep::Remember,
                },
            )
        },
    }
}

/// The first step of starting a recording.
pub fn start_first() -> (r: StartStep)
    ensures
        r == StartStep::CheckPrerequisites,
{
    StartStep::CheckPrerequisites
}

/// What comes after a step of starting a recording.
pub fn start_next(step: StartStep, outcome: StartOutcome) -> (r: Option<StartStep>)
    ensures
        r == start_after(step, outcome),
{
    match step {
        StartStep::Report => {
            return None;
        },
        StartStep::Fail => {
            return None;
        },
        StartStep::KillRunner => {
            return Some(StartStep::Fail);
        },
        StartStep::Remember => {
            if outcome == StartOutcome::Failed {
                return Some(StartStep::KillRunner);
            } else {
                return Some(StartStep::Report);
            }
        },
        _ => {},
    }
    if outcome == StartOutcome::Failed {
        return Some(StartStep::Fail);
    }
    Some(
        match step {
            StartStep::CheckPrerequisites => StartStep::PrepareHelper,
            StartStep::PrepareHelper => StartStep::AskHelper,
            StartStep::AskHelper => StartStep::CheckActive,
            StartStep::CheckActive => if outcome == StartOutcome::FoundOld {
                StartStep::ForgetOld
            } else {
                StartStep::CreateSession
            },
            StartStep::ForgetOld => StartStep::CreateSession,
            StartStep::CreateSession => StartStep::Spawn,
            _ => StartStep::Remember,
        },
    )
}

// ---------------------------------------------------------------------------------------------
// Stopping
// ---------------------------------------------------------------------------------------------
/// The recording that is to be stopped.
pub fn recording_to_stop(existing: Option<ActiveRecordingState>) -> (r: Result<
    ActiveRecordingState,
    Error,
>)
    ensures
        match r {
            Ok(state) => existing == Some(state),
            Err(e) => existing is None && e@ == error::plain("no active recording is running"@),
        },
{
    match existing {
        Some(state) => Ok(state),
        None => Err(Error::new("no active recording is running".to_owned())),
    }
}

/// Whether the runner is to be asked to stop: it runs, and was not asked before.
pub open spec fn is_to_be_asked(running: bool, already_requested: bool) -> bool {
    running && !already_requested
}

/// Whether the runner is to be asked to stop.
pub fn should_request_stop(running: bool, already_requested: bool) -> (r: bool)
    ensures
        r == is_to_be_asked(running, already_requested),
        r == (running && !already_requested),
{
    running && !already_requested
}

/// What to do while the runner is to stop.
#[derive(Debug, Clone, Copy, PartialEq, Eq, Structural)]
pub enum StopAction {
    /// Take the runner's answer: it has ended.
    Collect,
    /// Give up.
    GiveUp,
    /// Wait for a while.
    Wait,
}

/// What to do while the runner is to stop: it has `timeout_seconds` to do so, and at least one.
pub open spec fn waiting_action(running: bool, elapsed_nanos: nat, timeout_seconds: u64) -> StopAction {
    if !running {
        StopAction::Collect
    } else if elapsed_nanos >= config::at_least_one(timeout_seconds) * 1_000_000_000 {
        StopAction::GiveUp
    } else {
        StopAction::Wait
    }
}

/// What to do while the runner is to stop, `elapsed_nanos` nanoseconds after it was asked to.
pub fn stop_action(running: bool, elapsed_nanos: u128, timeout_seconds: u64) -> (r: StopAction)
    ensures
        r == waiting_action(running, elapsed_nanos as nat, timeout_seconds),
{
    if !running {
        return StopAction::Collect;
    }
    let limit: u128 = config::clamp_seconds(timeout_seconds) as u128 * 1_000_000_000;
    if elapsed_nanos >= limit {
        StopAction::GiveUp
    } else {
        StopAction::Wait
    }
}

/// The failure of a recording to stop in time.
pub fn stop_timeout(session_id: &str) -> (r: Error)
    ensures
        r@ == error::plain(
            "timed out waiting for recording "@ + session_id@ + " to stop and transcribe"@,
        ),
{
    Error::new(
        text::cat3("timed out waiting for recording ", session_id, " to stop and transcribe"),
    )
}

/// A step of stopping a recording.
#[derive(Debug, Clone, Copy, PartialEq, Eq, Structural)]
pub enum StopStep {
    /// See whether a recording is remembered, and whether its runner is still to be asked to stop.
    FindRecording,
    /// Ask the runner to stop.
    RequestStop,
    /// See whether the runner still runs.
    Poll,
    /// Wait for a while.
    Pause,
    /// Forget the recording that is remembered.
    Forget,
    /// Take the runner's answer.
    TakeAnswer,
    /// Give up.
    Fail,
}

/// How a step of stopping a recording ended.
#[derive(Debug, Clone, Copy, PartialEq, Eq, Structural)]
pub enum StopOutcome {
    /// As it should.
    Done,
    /// With a runner that needs not be asked.
    NothingToAsk,
    /// With whether the runner still runs, `elapsed_nanos` nanoseconds after it was to stop.
    Polled { running: bool, elapsed_nanos: u128 },
    /// With an error.
    Failed,
}

/// What comes after a step of stopping a recording; after the answer and after giving up, nothing
/// does. The recording is forgotten once its runner has ended, and before its answer is taken. The
/// runner has `timeout_seconds` to end, and at least one.
pub open spec fn stop_after(step: StopStep, outcome: StopOutcome, timeout_seconds: u64) -> Option<
    StopStep,
> {
    match step {
        StopStep::TakeAnswer => None,
        StopStep::Fail => None,
        _ => if outcome == StopOutcome::Failed {
            Some(StopStep::Fail)
        } else {
            Some(
                match step {
                    StopStep::FindRecording => if outcome == StopOutcome::NothingToAsk {
                        StopStep::Poll
                    } else {
                        StopStep::RequestStop
                    },
                    StopStep::Poll => match outcome {
                        StopOutcome::Polled { running, elapsed_nanos } => match waiting_action(
                            running,
                            elapsed_nanos as nat,
                            timeout_seconds,
                        ) {
                            StopAction::Collect => StopStep::Forget,
                            StopAction::Wait => StopStep::Pause,
                            StopAction::GiveUp => StopStep::Fail,
                        },
                        _ => StopStep::Fail,
                    },
                    StopStep::Forget => StopStep::TakeAnswer,
                    _ => StopStep::Poll,
                },
            )
        },
    }
}

/// The first step of stopping a recording.
pub fn stop_first() -> (r: StopStep)
    ensures
        r == StopStep::FindRecording,
{
    StopStep::FindRecording
}

/// What comes after a step of stopping a recording.
pub fn stop_next(step: StopStep, outcome: StopOutcome, timeout_seconds: u64) -> (r: Option<
    StopStep,
>)
    ensures
        r == stop_after(step, outcome, timeout_seconds),
{
    match step {
        StopStep::TakeAnswer => {
            return None;
        },
        StopStep::Fail => {
            return None;
        },
        _ => {},
    }
    if outcome == StopOutcome::Failed {
        return Some(StopStep::Fail);
    }
    Some(
        match step {
            StopStep::FindRecording => if outcome == StopOutcome::NothingToAsk {
                StopStep::Poll
            } else {
                StopStep::RequestStop
            },
            StopStep::Poll => match outcome {
                StopOutcome::Polled { running, elapsed_nanos } => match stop_action(
                    running,
                    elapsed_nanos,
                    timeout_seconds,
                ) {
                    StopAction::Collect => StopStep::Forget,
                    StopAction::Wait => StopStep::Pause,
                    StopAction::GiveUp => StopStep::Fail,
                },
                _ => StopStep::Fail,
            },
            StopStep::Forget => StopStep::TakeAnswer,
            _ => StopStep::Poll,
        },
    )
}

// ---------------------------------------------------------------------------------------------
// The runner's answer
// ---------------------------------------------------------------------------------------------
/// A JSON value.
#[verifier::external_type_specification]
#[verifier::external_body]
pub struct ExJsonValue(serde_json::Value);

/// What `serde_json` reads `s` as, or what it says is wrong with it.
pub uninterp spec fn json_value(s: Seq<char>) -> Result<serde_json::Value, Seq<char>>;

/// `serde_json::from_str`, into a `Value`: what it returns depends on the text alone.
#[verifier::external_body]
fn read_json(s: &str) -> (r: Result<serde_json::Value, String>)
    ensures
        match r {
            Ok(value) => json_value(s@) == Ok::<serde_json::Value, Seq<char>>(value),
            Err(fault) => json_value(s@) == Err::<serde_json::Value, Seq<char>>(fault@),
        },
{
    serde_json::from_str::<serde_json::Value>(s).map_err(|e| e.to_string())
}

/// What a runner that failed says of it.
#[derive(Debug)]
pub struct RunnerErrorEnvelope {
    pub code: String,
    pub message: String,
}

/// What a runner printed to its standard output.
pub open spec fn result_of_json(
    stdout_path: Seq<char>,
    parsed: Result<serde_json::Value, Seq<char>>,
) -> Result<serde_json::Value, ErrorView> {
    match parsed {
        Ok(value) => Ok(value),
        Err(fault) => Err(
            error::caused("failed to parse session result from "@ + stdout_path, fault),
        ),
    }
}

/// Why a runner that printed nothing to its standard output failed. `envelope` is what its standard
/// error was read as, where it could be.
pub open spec fn failure_of(
    session_id: Seq<char>,
    stderr: Seq<char>,
    envelope: Option<RunnerErrorEnvelope>,
) -> ErrorView {
    if text::spec_trim(stderr).len() > 0 {
        match envelope {
            Some(envelope) => error::plain(
                envelope.message@ + " ("@ + envelope.code@ + ")"@,
            ),
            None => error::plain(text::spec_trim(stderr)),
        }
    } else {
        error::plain(
            "recording runner for "@ + session_id + " exited without writing a result"@,
        )
    }
}

/// What came of a recording in the background.
pub open spec fn background_result(
    state: ActiveRecordingState,
    stdout: Seq<char>,
    stderr: Seq<char>,
    envelope: Option<RunnerErrorEnvelope>,
) -> Result<serde_json::Value, ErrorView> {
    if text::spec_trim(stdout).len() > 0 {
        result_of_json(state.runner_stdout_path@, json_value(text::spec_trim(stdout)))
    } else {
        Err(failure_of(state.session_id@, stderr, envelope))
    }
}

/// What a runner printed to its standard output, from what reading it as JSON gave.
pub fn session_value(stdout_path: &str, parsed: Result<serde_json::Value, String>) -> (r: Result<
    serde_json::Value,
    Error,
>)
    ensures
        match (parsed, r) {
            (Ok(value), Ok(result)) => result == value,
            (Err(fault), Err(e)) => e@ == error::caused(
                "failed to parse session result from "@ + stdout_path@,
                fault@,
            ),
            _ => false,
        },
{
    match parsed {
        Ok(value) => Ok(value),
        Err(fault) => Err(
            Error::with_cause(
                text::cat2("failed to parse session result from ", stdout_path),
                fault,
            ),
        ),
    }
}

/// Why a runner that printed nothing to its standard output failed.
pub fn runner_failure(
    session_id: &str,
    stderr: &str,
    envelope: &Option<RunnerErrorEnvelope>,
) -> (r: Error)
    ensures
        r@ == failure_of(session_id@, stderr@, *envelope),
{
    let said = text::trim(stderr);
    if !said.as_str().is_empty() {
        return match envelope {
            Some(envelope) => Error::new(
                text::cat4(envelope.message.as_str(), " (", envelope.code.as_str(), ")"),
            ),
            None => Error::new(said),
        };
    }
    Error::new(
        text::cat3("recording runner for ", session_id, " exited without writing a result"),
    )
}

/// What came of a recording in the background, from what its runner printed.
pub fn read_background_record_result(
    state: &ActiveRecordingState,
    stdout: &str,
    stderr: &str,
    envelope: &Option<RunnerErrorEnvelope>,
) -> (r: Result<serde_json::Value, Error>)
    ensures
        match r {
            Ok(value) => background_result(*state, stdout@, stderr@, *envelope) == Ok::<
                serde_json::Value,
                ErrorView,
            >(value),
            Err(e) => background_result(*state, stdout@, stderr@, *envelope) == Err::<
                serde_json::Value,
                ErrorView,
            >(e@),
        },
{
    let printed = text::trim(stdout);
    if !printed.as_str().is_empty() {
        return session_value(state.runner_stdout_path.as_str(), read_json(printed.as_str()));
    }
    Err(runner_failure(state.session_id.as_str(), stderr, envelope))
}

// ---------------------------------------------------------------------------------------------
// Laws
// ---------------------------------------------------------------------------------------------
/// The value of the option `name` among `options`, each of which is followed by its value.
pub open spec fn option_value(options: Seq<Seq<char>>, name: Seq<char>) -> Option<Seq<char>>
    decreases options.len(),
{
    if options.len() < 2 {
        None
    } else if options[0] == name {
        Some(options[1])
    } else {
        option_value(options.skip(2), name)
    }
}

proof fn lemma_option_in_front(front: Seq<Seq<char>>, rest: Seq<Seq<char>>, name: Seq<char>)
    requires
        front.len() % 2 == 0,
    ensures
        option_value(front + rest, name) == match option_value(front, name) {
            Some(value) => Some(value),
            None => option_value(rest, name),
        },
    decreases front.len(),
{
    if front.len() == 0 {
        assert(front + rest =~= rest);
    } else {
        assert(front.len() >= 2);
        lemma_option_in_front(front.skip(2), rest, name);
        assert((front + rest).skip(2) =~= front.skip(2) + rest);
    }
}

proof fn lemma_optional_option(name: Seq<char>, value: Option<Seq<char>>, asked: Seq<char>)
    ensures
        native::optional_argument(name, value).len() % 2 == 0,
        option_value(native::optional_argument(name, value), asked) == if name == asked {
            value
        } else {
            None
        },
{
    reveal_with_fuel(option_value, 2);
}

/// What the options of a recording that the runner gets say of `name`.
pub open spec fn runner_value(
    config: EffectiveView,
    duration_seconds: Option<u64>,
    session_id: Seq<char>,
    stop_request_path: Seq<char>,
    name: Seq<char>,
) -> Option<Seq<char>> {
    option_value(runner_options(config, duration_seconds, session_id, stop_request_path), name)
}

proof fn lemma_fixed_options(
    config: EffectiveView,
    session_id: Seq<char>,
    stop_request_path: Seq<char>,
    name: Seq<char>,
)
    ensures
        fixed_options(config, session_id, stop_request_path).len() == 12,
        option_value(fixed_options(config, session_id, stop_request_path), name) == if name
            == "--input-mode"@ {
            Some(cli_value(config.input_mode))
        } else if name == "--partial-interval-seconds"@ {
            Some(text::decimal(config.partial_interval_seconds as nat))
        } else if name == "--artifacts-dir"@ {
            Some(config.artifacts_dir)
        } else if name == "--ffmpeg-path"@ {
            Some(config.ffmpeg_path)
        } else if name == "--session-id"@ {
            Some(session_id)
        } else if name == "--stop-request-path"@ {
            Some(stop_request_path)
        } else {
            None
        },
{
    let all = fixed_options(config, session_id, stop_request_path);
    let b = all.skip(2);
    let c = b.skip(2);
    let d = c.skip(2);
    let e = d.skip(2);
    let f = e.skip(2);
    assert(f.skip(2).len() == 0);
    assert(option_value(f.skip(2), name) is None);
    assert(option_value(f, name) == if name == "--stop-request-path"@ {
        Some(stop_request_path)
    } else {
        None
    });
    assert(e[0] == "--session-id"@ && e[1] == session_id);
    assert(d[0] == "--ffmpeg-path"@ && d[1] == config.ffmpeg_path);
    assert(c[0] == "--artifacts-dir"@ && c[1] == config.artifacts_dir);
    assert(option_value(e, name) == if e[0] == name {
        Some(e[1])
    } else {
        option_value(f, name)
    });
    assert(option_value(d, name) == if d[0] == name {
        Some(d[1])
    } else {
        option_value(e, name)
    });
    assert(option_value(c, name) == if c[0] == name {
        Some(c[1])
    } else {
        option_value(d, name)
    });
    assert(option_value(b, name) == if b[0] == name {
        Some(b[1])
    } else {
        option_value(c, name)
    });
}

proof fn lemma_runner_value(
    config: EffectiveView,
    duration_seconds: Option<u64>,
    session_id: Seq<char>,
    stop_request_path: Seq<char>,
    name: Seq<char>,
)
    ensures
        runner_value(config, duration_seconds, session_id, stop_request_path, name) == if name
            == "--input-mode"@ {
            Some(cli_value(config.input_mode))
        } else if name == "--partial-interval-seconds"@ {
            Some(text::decimal(config.partial_interval_seconds as nat))
        } else if name == "--artifacts-dir"@ {
            Some(config.artifacts_dir)
        } else if name == "--ffmpeg-path"@ {
            Some(config.ffmpeg_path)
        } else if name == "--session-id"@ {
            Some(session_id)
        } else if name == "--stop-request-path"@ {
            Some(stop_request_path)
        } else if name == "--display-id"@ {
            native::optional_decimal(native::widened(config.display_id))
        } else if name == "--microphone-device"@ {
            config.microphone_device
        } else if name == "--system-device"@ {
            config.system_device
        } else if name == "--single-input-device"@ {
            config.single_input_device
        } else if name == "--whisper-cli-path"@ {
            config.whisper_cli_path
        } else if name == "--whisper-model-path"@ {
            config.whisper_model_path
        } else if name == "--duration-seconds"@ {
            native::optional_decimal(duration_seconds)
        } else {
            None
        },
{
    lemma_option_names();
    let display = native::optional_decimal(native::widened(config.display_id));
    let duration = native::optional_decimal(duration_seconds);
    let fixed = fixed_options(config, session_id, stop_request_path);
    let a = native::optional_argument("--display-id"@, display);
    let b = native::optional_argument("--microphone-device"@, config.microphone_device);
    let c = native::optional_argument("--system-device"@, config.system_device);
    let d = native::optional_argument("--single-input-device"@, config.single_input_device);
    let e = native::optional_argument("--whisper-cli-path"@, config.whisper_cli_path);
    let f = native::optional_argument("--whisper-model-path"@, config.whisper_model_path);
    let g = native::optional_argument("--duration-seconds"@, duration);
    lemma_fixed_options(config, session_id, stop_request_path, name);
    lemma_optional_option("--display-id"@, display, name);
    lemma_optional_option("--microphone-device"@, config.microphone_device, name);
    lemma_optional_option("--system-device"@, config.system_device, name);
    lemma_optional_option("--single-input-device"@, config.single_input_device, name);
    lemma_optional_option("--whisper-cli-path"@, config.whisper_cli_path, name);
    lemma_optional_option("--whisper-model-path"@, config.whisper_model_path, name);
    lemma_optional_option("--duration-seconds"@, duration, name);
    lemma_option_in_front(fixed, a, name);
    lemma_option_in_front(fixed + a, b, name);
    lemma_option_in_front(fixed + a + b, c, name);
    lemma_option_in_front(fixed + a + b + c, d, name);
    lemma_option_in_front(fixed + a + b + c + d, e, name);
    lemma_option_in_front(fixed + a + b + c + d + e, f, name);
    lemma_option_in_front(fixed + a + b + c + d + e + f, g, name);
}

/// Whether `args` is what the runner's options say of a recording.
pub open spec fn is_read_from(args: RecordArgs, options: Seq<Seq<char>>) -> bool {
    &&& args.input_mode == match option_value(options, "--input-mode"@) {
        Some(raw) => mode_by_cli_value(raw),
        None => None,
    }
    &&& native::optional_decimal(native::widened(args.display_id)) == option_value(
        options,
        "--display-id"@,
    )
    &&& args.microphone_device.deep_view() == option_value(options, "--microphone-device"@)
    &&& args.system_device.deep_view() == option_value(options, "--system-device"@)
    &&& args.single_input_device.deep_view() == option_value(options, "--single-input-device"@)
    &&& native::optional_decimal(args.partial_interval_seconds) == option_value(
        options,
        "--partial-interval-seconds"@,
    )
    &&& args.artifacts_dir.deep_view() == option_value(options, "--artifacts-dir"@)
    &&& args.ffmpeg_path.deep_view() == option_value(options, "--ffmpeg-path"@)
    &&& args.whisper_cli_path.deep_view() == option_value(options, "--whisper-cli-path"@)
    &&& args.whisper_model_path.deep_view() == option_value(options, "--whisper-model-path"@)
    &&& native::optional_decimal(args.duration_seconds) == option_value(
        options,
        "--duration-seconds"@,
    )
    &&& args.session_name.deep_view() == option_value(options, "--session-name"@)
    &&& args.session_id.deep_view() == option_value(options, "--session-id"@)
    &&& args.stop_request_path.deep_view() == option_value(options, "--stop-request-path"@)
}

/// Every mode is read back from its name on the command line, and no two modes have the same name.
pub proof fn law_input_mode_is_read_back(a: InputMode, b: InputMode)
    ensures
        mode_by_cli_value(cli_value(a)) == Some(a),
        cli_value(a) == cli_value(b) ==> a == b,
        forall|raw: Seq<char>| #[trigger]
            mode_by_cli_value(raw) matches Some(mode) ==> raw == cli_value(mode),
{
    reveal_strlit("mic-system-mix");
    reveal_strlit("microphone");
    reveal_strlit("system-audio");
    reveal_strlit("single-device");
    assert("mic-system-mix"@.len() == 14);
    assert("microphone"@.len() == 10);
    assert("system-audio"@.len() == 12);
    assert("single-device"@.len() == 13);
}

proof fn lemma_decimals_differ(a: Option<u64>, b: Option<u64>)
    requires
        native::optional_decimal(a) == native::optional_decimal(b),
    ensures
        a == b,
{
    if a is Some && b is Some {
        text::law_decimal_round_trip(a->0 as nat, u64::MAX as nat);
        text::law_decimal_round_trip(b->0 as nat, u64::MAX as nat);
    }
}

proof fn lemma_option_names()
    ensures
        "--input-mode"@.len() == 12,
        "--partial-interval-seconds"@.len() == 26,
        "--artifacts-dir"@.len() == 15,
        "--ffmpeg-path"@.len() == 13,
        "--session-id"@.len() == 12,
        "--session-name"@.len() == 14,
        "--stop-request-path"@.len() == 19,
        "--display-id"@.len() == 12,
        "--microphone-device"@.len() == 19,
        "--system-device"@.len() == 15,
        "--single-input-device"@.len() == 21,
        "--whisper-cli-path"@.len() == 18,
        "--whisper-model-path"@.len() == 20,
        "--duration-seconds"@.len() == 18,
        "--input-mode"@[2] == 'i',
        "--session-id"@[2] == 's',
        "--display-id"@[2] == 'd',
        "--artifacts-dir"@[2] == 'a',
        "--system-device"@[2] == 's',
        "--stop-request-path"@[2] == 's',
        "--microphone-device"@[2] == 'm',
        "--whisper-cli-path"@[2] == 'w',
        "--duration-seconds"@[2] == 'd',
{
    reveal_strlit("--input-mode");
    reveal_strlit("--partial-interval-seconds");
    reveal_strlit("--artifacts-dir");
    reveal_strlit("--ffmpeg-path");
    reveal_strlit("--session-id");
    reveal_strlit("--session-name");
    reveal_strlit("--stop-request-path");
    reveal_strlit("--display-id");
    reveal_strlit("--microphone-device");
    reveal_strlit("--system-device");
    reveal_strlit("--single-input-device");
    reveal_strlit("--whisper-cli-path");
    reveal_strlit("--whisper-model-path");
    reveal_strlit("--duration-seconds");
}

/// The runner records with the configuration that the recording was started with: where it reads
/// its own options, and the same stored configuration, what is in effect is the same, and so are the
/// session and the file that asks it to stop.
pub proof fn law_runner_records_as_started(
    base: EffectiveView,
    started: RecordArgs,
    session_id: Seq<char>,
    stop_request_path: Seq<char>,
    args: RecordArgs,
)
    requires
        base.partial_interval_seconds >= 1,
        is_read_from(
            args,
            runner_options(
                recording::overridden(base, started),
                started.duration_seconds,
                session_id,
                stop_request_path,
            ),
        ),
    ensures
        recording::overridden(base, args) == recording::overridden(base, started),
        args.duration_seconds == started.duration_seconds,
        args.session_name is None,
        args.session_id.deep_view() == Some(session_id),
        args.stop_request_path.deep_view() == Some(stop_request_path),
{
    let config = recording::overridden(base, started);
    let duration = started.duration_seconds;
    lemma_option_names();
    lemma_runner_value(config, duration, session_id, stop_request_path, "--input-mode"@);
    lemma_runner_value(config, duration, session_id, stop_request_path, "--display-id"@);
    lemma_runner_value(config, duration, session_id, stop_request_path, "--microphone-device"@);
    lemma_runner_value(config, duration, session_id, stop_request_path, "--system-device"@);
    lemma_runner_value(config, duration, session_id, stop_request_path, "--single-input-device"@);
    lemma_runner_value(
        config,
        duration,
        session_id,
        stop_request_path,
        "--partial-interval-seconds"@,
    );
    lemma_runner_value(config, duration, session_id, stop_request_path, "--artifacts-dir"@);
    lemma_runner_value(config, duration, session_id, stop_request_path, "--ffmpeg-path"@);
    lemma_runner_value(config, duration, session_id, stop_request_path, "--whisper-cli-path"@);
    lemma_runner_value(config, duration, session_id, stop_request_path, "--whisper-model-path"@);
    lemma_runner_value(config, duration, session_id, stop_request_path, "--duration-seconds"@);
    lemma_runner_value(config, duration, session_id, stop_request_path, "--session-name"@);
    lemma_runner_value(config, duration, session_id, stop_request_path, "--session-id"@);
    lemma_runner_value(config, duration, session_id, stop_request_path, "--stop-request-path"@);
    law_input_mode_is_read_back(config.input_mode, config.input_mode);
    lemma_decimals_differ(native::widened(args.display_id), native::widened(config.display_id));
    lemma_decimals_differ(
        args.partial_interval_seconds,
        Some(config.partial_interval_seconds),
    );
    lemma_decimals_differ(args.duration_seconds, duration);
    recording::law_override_keeps_interval(base, started);
}

/// What is remembered of a recording is what its runner works with: the runner looks for the stop
/// file that is remembered, and leaves its artifacts where they are remembered to be.
pub proof fn law_runner_and_memory_agree(
    plan: RunnerPlan,
    config: EffectiveView,
    duration_seconds: Option<u64>,
    state: ActiveRecordingState,
    started_at: Seq<char>,
    pid: u32,
    artifacts: SessionPaths,
)
    requires
        plan.is_for(config, duration_seconds, plan.session_id@),
        remembers(state, plan, started_at, pid),
        artifacts.lie_in(path::spec_join(config.artifacts_dir, state.session_id@)),
    ensures
        plan.arguments.deep_view() == runner_line(
            config,
            duration_seconds,
            state.session_id@,
            state.stop_request_path@,
        ),
        runner_value(
            config,
            duration_seconds,
            state.session_id@,
            state.stop_request_path@,
            "--stop-request-path"@,
        ) == Some(state.stop_request_path@),
        runner_value(
            config,
            duration_seconds,
            state.session_id@,
            state.stop_request_path@,
            "--session-id"@,
        ) == Some(state.session_id@),
        artifacts.root_dir@ == state.session_dir@,
        artifacts.raw_audio_path@ == state.audio_path@,
        artifacts.transcript_path@ == state.transcript_path@,
        artifacts.event_log_path@ == state.event_log_path@,
{
    let id = state.session_id@;
    let stop = state.stop_request_path@;
    lemma_option_names();
    lemma_runner_value(config, duration_seconds, id, stop, "--stop-request-path"@);
    lemma_runner_value(config, duration_seconds, id, stop, "--session-id"@);
}

/// Cleaning up is refused exactly while a recording is under way.
pub proof fn law_cleanup_waits_for_recording(
    existing: Option<ActiveRecordingState>,
    running: bool,
)
    ensures
        idle_check(existing, running) is Ok <==> !(existing is Some && running),
{
}

/// A runner that was started is either remembered and reported, or ended again.
pub proof fn law_no_runner_is_left_behind(outcome: StartOutcome)
    ensures
        start_after(StartStep::Spawn, StartOutcome::Done) == Some(StartStep::Remember),
        outcome == StartOutcome::Failed ==> start_after(StartStep::Remember, outcome) == Some(
            StartStep::KillRunner,
        ),
        outcome != StartOutcome::Failed ==> start_after(StartStep::Remember, outcome) == Some(
            StartStep::Report,
        ),
        start_after(StartStep::KillRunner, outcome) == Some(StartStep::Fail),
{
}

/// How far a step of starting a recording is from the end.
pub open spec fn start_distance(step: StartStep) -> nat {
    match step {
        StartStep::CheckPrerequisites => 9,
        StartStep::PrepareHelper => 8,
        StartStep::AskHelper => 7,
        StartStep::CheckActive => 6,
        StartStep::ForgetOld => 5,
        StartStep::CreateSession => 4,
        StartStep::Spawn => 3,
        StartStep::Remember => 2,
        StartStep::KillRunner => 1,
        StartStep::Report => 0,
        StartStep::Fail => 0,
    }
}

/// Starting a recording comes to an end whatever happens, and no runner is started before all
/// checks have succeeded.
pub proof fn law_start_comes_to_an_end(step: StartStep, outcome: StartOutcome)
    ensures
        start_after(step, outcome) matches Some(next) ==> start_distance(next) < start_distance(
            step,
        ),
        start_after(step, outcome) is None <==> (step == StartStep::Report || step
            == StartStep::Fail),
        start_after(step, outcome) == Some(StartStep::Spawn) ==> step == StartStep::CreateSession
            && outcome != StartOutcome::Failed,
        start_after(step, outcome) == Some(StartStep::CreateSession) ==> outcome
            != StartOutcome::Failed && (step == StartStep::CheckActive || step
            == StartStep::ForgetOld),
{
}

/// Waiting for a runner to stop comes to an end: once the time is up, it is not waited for any more,
/// and its answer is taken exactly when it has ended.
pub proof fn law_stop_comes_to_an_end(running: bool, elapsed_nanos: nat, timeout_seconds: u64)
    ensures
        waiting_action(running, elapsed_nanos, timeout_seconds) == StopAction::Collect <==> !running,
        elapsed_nanos >= config::at_least_one(timeout_seconds) * 1_000_000_000 ==> waiting_action(
            running,
            elapsed_nanos,
            timeout_seconds,
        ) != StopAction::Wait,
        elapsed_nanos < 1_000_000_000 ==> waiting_action(running, elapsed_nanos, timeout_seconds)
            != StopAction::GiveUp,
{
}

/// Whether `run` is a course of stopping a recording: its steps from the first on, each with how it
/// ended.
pub open spec fn is_stop_run(run: Seq<(StopStep, StopOutcome)>, timeout_seconds: u64) -> bool {
    &&& run.len() > 0 ==> run[0].0 == StopStep::FindRecording
    &&& forall|i: int| 0 <= i < run.len() - 1 ==> #[trigger] goes_on(run, i, timeout_seconds)
}

/// Whether the step behind the one at `i` is the one that comes after it.
pub open spec fn goes_on(run: Seq<(StopStep, StopOutcome)>, i: int, timeout_seconds: u64) -> bool {
    stop_after(run[i].0, run[i].1, timeout_seconds) == Some(run[i + 1].0)
}

/// Whether the step at `i` found that the runner has ended.
pub open spec fn found_ended(run: Seq<(StopStep, StopOutcome)>, i: int) -> bool {
    &&& run[i].0 == StopStep::Poll
    &&& run[i].1 matches StopOutcome::Polled { running, .. } && !running
}

/// Whether the step at `i` found the runner still running when its time was up.
pub open spec fn found_late(
    run: Seq<(StopStep, StopOutcome)>,
    i: int,
    timeout_seconds: u64,
) -> bool {
    &&& run[i].0 == StopStep::Poll
    &&& run[i].1 matches StopOutcome::Polled { running, elapsed_nanos } && running
        && elapsed_nanos >= config::at_least_one(timeout_seconds) * 1_000_000_000
}

spec fn stop_stage(step: StopStep) -> nat {
    match step {
        StopStep::FindRecording => 0,
        StopStep::RequestStop => 1,
        StopStep::Poll => 2,
        StopStep::Pause => 2,
        StopStep::Forget => 3,
        StopStep::TakeAnswer => 4,
        StopStep::Fail => 5,
    }
}

proof fn lemma_stop_goes_forward(
    run: Seq<(StopStep, StopOutcome)>,
    timeout_seconds: u64,
    i: int,
    j: int,
)
    requires
        is_stop_run(run, timeout_seconds),
        0 <= i <= j < run.len(),
    ensures
        stop_stage(run[i].0) <= stop_stage(run[j].0),
    decreases j - i,
{
    if i < j {
        assert(goes_on(run, j - 1, timeout_seconds));
        lemma_stop_goes_forward(run, timeout_seconds, i, j - 1);
    }
}

/// A recording is forgotten only once its runner was found to have ended, and its answer is taken
/// only after that.
pub proof fn law_forgotten_once_ended(
    run: Seq<(StopStep, StopOutcome)>,
    timeout_seconds: u64,
    i: int,
)
    requires
        is_stop_run(run, timeout_seconds),
        0 <= i < run.len(),
    ensures
        run[i].0 == StopStep::Forget ==> i > 0 && found_ended(run, i - 1),
        run[i].0 == StopStep::TakeAnswer ==> i > 1 && run[i - 1].0 == StopStep::Forget
            && found_ended(run, i - 2),
{
    if i > 0 {
        assert(goes_on(run, i - 1, timeout_seconds));
    }
    if i > 1 {
        assert(goes_on(run, i - 2, timeout_seconds));
    }
}

/// Once the runner was found to have ended, nothing else comes before the recording is forgotten.
pub proof fn law_ended_is_forgotten(
    run: Seq<(StopStep, StopOutcome)>,
    timeout_seconds: u64,
    i: int,
)
    requires
        is_stop_run(run, timeout_seconds),
        0 <= i < run.len(),
        found_ended(run, i),
    ensures
        stop_after(run[i].0, run[i].1, timeout_seconds) == Some(StopStep::Forget),
        i + 1 < run.len() ==> run[i + 1].0 == StopStep::Forget,
{
    if i + 1 < run.len() {
        assert(goes_on(run, i, timeout_seconds));
    }
}

/// Where the runner does not end in time, stopping fails and the recording stays remembered: at no
/// step is it forgotten, or its answer taken.
pub proof fn law_late_stays_remembered(
    run: Seq<(StopStep, StopOutcome)>,
    timeout_seconds: u64,
    i: int,
)
    requires
        is_stop_run(run, timeout_seconds),
        0 <= i < run.len(),
        found_late(run, i, timeout_seconds),
    ensures
        stop_after(run[i].0, run[i].1, timeout_seconds) == Some(StopStep::Fail),
        forall|j: int|
            0 <= j < run.len() ==> (#[trigger] run[j]).0 != StopStep::Forget && run[j].0
                != StopStep::TakeAnswer,
{
    assert forall|j: int| 0 <= j < run.len() implies (#[trigger] run[j]).0 != StopStep::Forget
        && run[j].0 != StopStep::TakeAnswer by {
        if j <= i {
            lemma_stop_goes_forward(run, timeout_seconds, j, i);
        } else {
            assert(goes_on(run, i, timeout_seconds));
            lemma_stop_goes_forward(run, timeout_seconds, i + 1, j);
        }
    }
}

/// Stopping goes on from every step but the last ones. Where no recording is remembered, it fails
/// at once.
pub proof fn law_stop_goes_on(step: StopStep, outcome: StopOutcome, timeout_seconds: u64)
    ensures
        stop_after(step, outcome, timeout_seconds) is None <==> (step == StopStep::TakeAnswer || step
            == StopStep::Fail),
        stop_after(StopStep::FindRecording, StopOutcome::Failed, timeout_seconds) == Some(
            StopStep::Fail,
        ),
        stop_after(step, outcome, timeout_seconds) == Some(StopStep::RequestStop) ==> step
            == StopStep::FindRecording && outcome != StopOutcome::Failed && outcome
            != StopOutcome::NothingToAsk,
{
}

/// All that a runner leaves behind lies in its session's directory.
pub proof fn law_runner_files_lie_in_session(
    plan: RunnerPlan,
    config: EffectiveView,
    duration_seconds: Option<u64>,
    session_id: Seq<char>,
)
    requires
        plan.is_for(config, duration_seconds, session_id),
    ensures
        path::spec_lies_within(plan.stdout_path@, plan.session.root_dir@),
        path::spec_lies_within(plan.stderr_path@, plan.session.root_dir@),
        path::spec_lies_within(plan.stop_request_path@, plan.session.root_dir@),
{
    reveal_strlit("runner.stdout.json");
    reveal_strlit("runner.stderr.json");
    reveal_strlit("stop-request");
    path::law_join_adds_component(plan.session.root_dir@, "runner.stdout.json"@);
    path::law_join_adds_component(plan.session.root_dir@, "runner.stderr.json"@);
    path::law_join_adds_component(plan.session.root_dir@, "stop-request"@);
}

// ---------------------------------------------------------------------------------------------
// What the runner is told, and what is remembered of it
// ---------------------------------------------------------------------------------------------
/// What the modes are called on the command line.
pub proof fn law_modes_have_their_names()
    ensures
        cli_value(InputMode::MicSystemMix) == "mic-system-mix"@,
        cli_value(InputMode::Microphone) == "microphone"@,
        cli_value(InputMode::SystemAudio) == "system-audio"@,
        cli_value(InputMode::SingleDevice) == "single-device"@,
{
}

/// The runner is told of every setting that is in effect, each under its own option; an option whose
/// setting is missing is left out.
pub proof fn law_runner_is_told_every_setting(
    config: EffectiveView,
    duration_seconds: Option<u64>,
    session_id: Seq<char>,
    stop_request_path: Seq<char>,
)
    ensures
        ({
            let told = |name: Seq<char>|
                runner_value(config, duration_seconds, session_id, stop_request_path, name);
            &&& told("--input-mode"@) == Some(cli_value(config.input_mode))
            &&& told("--partial-interval-seconds"@) == Some(
                text::decimal(config.partial_interval_seconds as nat),
            )
            &&& told("--artifacts-dir"@) == Some(config.artifacts_dir)
            &&& told("--ffmpeg-path"@) == Some(config.ffmpeg_path)
            &&& told("--session-id"@) == Some(session_id)
            &&& told("--stop-request-path"@) == Some(stop_request_path)
            &&& config.display_id matches Some(id) ==> told("--display-id"@) == Some(
                text::decimal(id as nat),
            )
            &&& config.display_id is None ==> told("--display-id"@) is None
            &&& told("--microphone-device"@) == config.microphone_device
            &&& told("--system-device"@) == config.system_device
            &&& told("--single-input-device"@) == config.single_input_device
            &&& told("--whisper-cli-path"@) == config.whisper_cli_path
            &&& told("--whisper-model-path"@) == config.whisper_model_path
            &&& duration_seconds matches Some(seconds) ==> told("--duration-seconds"@) == Some(
                text::decimal(seconds as nat),
            )
            &&& duration_seconds is None ==> told("--duration-seconds"@) is None
        }),
        runner_line(config, duration_seconds, session_id, stop_request_path).take(3) == seq![
            "--output"@,
            "json"@,
            "record"@,
        ],
        runner_line(config, duration_seconds, session_id, stop_request_path).skip(3)
            == runner_options(config, duration_seconds, session_id, stop_request_path),
{
    let (id, stop) = (session_id, stop_request_path);
    lemma_option_names();
    lemma_runner_value(config, duration_seconds, id, stop, "--input-mode"@);
    lemma_runner_value(config, duration_seconds, id, stop, "--display-id"@);
    lemma_runner_value(config, duration_seconds, id, stop, "--microphone-device"@);
    lemma_runner_value(config, duration_seconds, id, stop, "--system-device"@);
    lemma_runner_value(config, duration_seconds, id, stop, "--single-input-device"@);
    lemma_runner_value(config, duration_seconds, id, stop, "--partial-interval-seconds"@);
    lemma_runner_value(config, duration_seconds, id, stop, "--artifacts-dir"@);
    lemma_runner_value(config, duration_seconds, id, stop, "--ffmpeg-path"@);
    lemma_runner_value(config, duration_seconds, id, stop, "--whisper-cli-path"@);
    lemma_runner_value(config, duration_seconds, id, stop, "--whisper-model-path"@);
    lemma_runner_value(config, duration_seconds, id, stop, "--duration-seconds"@);
    lemma_runner_value(config, duration_seconds, id, stop, "--session-id"@);
    lemma_runner_value(config, duration_seconds, id, stop, "--stop-request-path"@);
    let line = runner_line(config, duration_seconds, id, stop);
    assert(line.take(3) =~= seq!["--output"@, "json"@, "record"@]);
    assert(line.skip(3) =~= runner_options(config, duration_seconds, id, stop));
}

/// What the runner works with lies in its session's directory, each file under its own name.
pub proof fn law_runner_works_in_its_session(
    plan: RunnerPlan,
    config: EffectiveView,
    duration_seconds: Option<u64>,
    session_id: Seq<char>,
)
    requires
        plan.is_for(config, duration_seconds, session_id),
    ensures
        ({
            let root = path::spec_join(config.artifacts_dir, session_id);
            &&& plan.session_id@ == session_id
            &&& plan.session.root_dir@ == root
            &&& plan.stdout_path@ == path::spec_join(root, "runner.stdout.json"@)
            &&& plan.stderr_path@ == path::spec_join(root, "runner.stderr.json"@)
            &&& plan.stop_request_path@ == path::spec_join(root, "stop-request"@)
        }),
{
}

/// What is remembered and reported of a recording that was started is what its runner works with.
pub proof fn law_started_recording_is_remembered(
    state: ActiveRecordingState,
    report: RecordingStartedReport,
    plan: RunnerPlan,
    started_at: Seq<char>,
    pid: u32,
)
    requires
        remembers(state, plan, started_at, pid),
        reports(report, state),
    ensures
        state.session_id@ == plan.session_id@ && report.session_id@ == plan.session_id@,
        state.started_at@ == started_at && report.started_at@ == started_at,
        state.pid == pid && report.pid == pid,
        state.session_dir@ == plan.session.root_dir@ && report.session_dir@
            == plan.session.root_dir@,
        state.audio_path@ == plan.session.raw_audio_path@ && report.audio_path@
            == plan.session.raw_audio_path@,
        state.transcript_path@ == plan.session.transcript_path@ && report.transcript_path@
            == plan.session.transcript_path@,
        state.event_log_path@ == plan.session.event_log_path@ && report.event_log_path@
            == plan.session.event_log_path@,
        state.runner_stdout_path@ == plan.stdout_path@,
        state.runner_stderr_path@ == plan.stderr_path@,
        state.stop_request_path@ == plan.stop_request_path@,
        state.status@ == "recording"@ && report.status@ == "recording"@,
        state.object@ == "active_recording"@ && report.object@ == "recording_session"@,
{
}

// ---------------------------------------------------------------------------------------------
// In which order a recording is started and stopped
// ---------------------------------------------------------------------------------------------
/// Starting goes from one check to the next, then to the session, to the runner, to what is
/// remembered of it, and to the report; an old recording that was found is forgotten on the way. A
/// failure before there is a runner ends it.
pub proof fn law_start_goes_in_order(step: StartStep)
    ensures
        start_after(StartStep::CheckPrerequisites, StartOutcome::Done) == Some(
            StartStep::PrepareHelper,
        ),
        start_after(StartStep::PrepareHelper, StartOutcome::Done) == Some(StartStep::AskHelper),
        start_after(StartStep::AskHelper, StartOutcome::Done) == Some(StartStep::CheckActive),
        start_after(StartStep::CheckActive, StartOutcome::Done) == Some(StartStep::CreateSession),
        start_after(StartStep::CheckActive, StartOutcome::FoundOld) == Some(StartStep::ForgetOld),
        start_after(StartStep::ForgetOld, StartOutcome::Done) == Some(StartStep::CreateSession),
        start_after(StartStep::CreateSession, StartOutcome::Done) == Some(StartStep::Spawn),
        start_after(StartStep::Spawn, StartOutcome::Done) == Some(StartStep::Remember),
        start_after(StartStep::Remember, StartOutcome::Done) == Some(StartStep::Report),
        step != StartStep::Remember && step != StartStep::Report && step != StartStep::Fail
            ==> start_after(step, StartOutcome::Failed) == Some(StartStep::Fail),
{
}

/// Stopping asks the runner to stop, where it is to be asked, and then sees in turns whether it still
/// runs and waits; once it has ended, the recording is forgotten and its answer taken. A failure, and
/// a runner that is still there when its time is up, ends it.
pub proof fn law_stop_goes_in_order(
    step: StopStep,
    running: bool,
    elapsed_nanos: u128,
    timeout_seconds: u64,
)
    ensures
        stop_after(StopStep::FindRecording, StopOutcome::Done, timeout_seconds) == Some(
            StopStep::RequestStop,
        ),
        stop_after(StopStep::FindRecording, StopOutcome::NothingToAsk, timeout_seconds) == Some(
            StopStep::Poll,
        ),
        stop_after(StopStep::RequestStop, StopOutcome::Done, timeout_seconds) == Some(
            StopStep::Poll,
        ),
        stop_after(StopStep::Pause, StopOutcome::Done, timeout_seconds) == Some(StopStep::Poll),
        stop_after(StopStep::Forget, StopOutcome::Done, timeout_seconds) == Some(
            StopStep::TakeAnswer,
        ),
        ({
            let next = stop_after(
                StopStep::Poll,
                StopOutcome::Polled { running, elapsed_nanos },
                timeout_seconds,
            );
            &&& !running ==> next == Some(StopStep::Forget)
            &&& running && timeout_seconds >= 1 ==> {
                &&& elapsed_nanos < timeout_seconds * 1_000_000_000 ==> next == Some(
                    StopStep::Pause,
                )
                &&& elapsed_nanos >= timeout_seconds * 1_000_000_000 ==> next == Some(
                    StopStep::Fail,
                )
            }
            &&& running && timeout_seconds == 0 ==> {
                &&& elapsed_nanos < 1_000_000_000 ==> next == Some(StopStep::Pause)
                &&& elapsed_nanos >= 1_000_000_000 ==> next == Some(StopStep::Fail)
            }
        }),
        step != StopStep::TakeAnswer && step != StopStep::Fail ==> stop_after(
            step,
            StopOutcome::Failed,
            timeout_seconds,
        ) == Some(StopStep::Fail),
        stop_after(StopStep::TakeAnswer, StopOutcome::Done, timeout_seconds) is None,
        stop_after(StopStep::Fail, StopOutcome::Done, timeout_seconds) is None,
{
}

// ---------------------------------------------------------------------------------------------
// What the runner answered
// ---------------------------------------------------------------------------------------------
/// What a runner printed to its standard output is its answer, whatever it wrote to its standard
/// error; it is read without the white space around it.
pub proof fn law_printed_result_is_the_answer(
    state: ActiveRecordingState,
    stdout: Seq<char>,
    stderr: Seq<char>,
    envelope: Option<RunnerErrorEnvelope>,
)
    requires
        text::spec_trim(stdout).len() > 0,
    ensures
        json_value(text::spec_trim(stdout)) matches Ok(value) ==> background_result(
            state,
            stdout,
            stderr,
            envelope,
        ) == Ok::<serde_json::Value, ErrorView>(value),
        json_value(text::spec_trim(stdout)) matches Err(fault) ==> background_result(
            state,
            stdout,
            stderr,
            envelope,
        ) == Err::<serde_json::Value, ErrorView>(
            error::caused(
                "failed to parse session result from "@ + state.runner_stdout_path@,
                fault,
            ),
        ),
{
}

/// A runner that printed nothing to its standard output failed, and said why on its standard error:
/// in its own form, or else in plain words; where it said nothing there either, that is said.
pub proof fn law_silent_runner_failed(
    state: ActiveRecordingState,
    stdout: Seq<char>,
    stderr: Seq<char>,
    envelope: Option<RunnerErrorEnvelope>,
)
    requires
        text::spec_trim(stdout).len() == 0,
    ensures
        background_result(state, stdout, stderr, envelope) is Err,
        text::spec_trim(stderr).len() == 0 ==> background_result(state, stdout, stderr, envelope)
            == Err::<serde_json::Value, ErrorView>(
            error::plain(
                "recording runner for "@ + state.session_id@ + " exited without writing a result"@,
            ),
        ),
        text::spec_trim(stderr).len() > 0 ==> {
            &&& envelope matches Some(said) ==> background_result(state, stdout, stderr, envelope)
                == Err::<serde_json::Value, ErrorView>(
                error::plain(said.message@ + " ("@ + said.code@ + ")"@),
            )
            &&& envelope is None ==> background_result(state, stdout, stderr, envelope) == Err::<
                serde_json::Value,
                ErrorView,
            >(error::plain(text::spec_trim(stderr)))
        },
{
}

/// Another recording can start exactly if none is under way, and an old one that was left behind is
/// forgotten first.
pub proof fn law_one_recording_at_a_time(existing: Option<ActiveRecordingState>, running: bool)
    ensures
        admission(existing, running) is Err <==> existing is Some && running,
        existing is None ==> admission(existing, running) == Ok::<bool, ErrorView>(false),
        existing is Some && !running ==> admission(existing, running) == Ok::<bool, ErrorView>(true),
        existing matches Some(state) ==> running ==> admission(existing, running) == Err::<
            bool,
            ErrorView,
        >(
            error::plain(
                "an active recording is already running: "@ + state.session_id@
                    + "; run `scribecli stop` first"@,
            ),
        ),
{
}

/// A process runs if a signal reaches it, or if it is there but belongs to someone else; a runner is
/// asked to stop once, and only while it runs.
pub proof fn law_runner_is_asked_once(delivered: bool, denied: bool, requested: bool)
    ensures
        seems_running(true, denied),
        seems_running(delivered, true),
        !seems_running(false, false),
        !is_to_be_asked(false, requested),
        !is_to_be_asked(delivered, true),
        is_to_be_asked(true, false),
{
}

/// A session keeps the name that was chosen for it before; a new name is made of what the session is
/// to be called, of the time, and of the process.
pub proof fn law_chosen_name_is_kept(
    id: Seq<char>,
    chosen: Option<Seq<char>>,
    name: Option<Seq<char>>,
    pid: u32,
)
    requires
        names_session(id, chosen, name, pid),
    ensures
        chosen matches Some(kept) ==> id == kept,
        chosen is None ==> exists|ts: Seq<char>|
            id == #[trigger] session::session_id_of(name, ts, pid),
{
    if chosen is None {
        let (nanos, seconds) = choose|nanos: int, seconds: int|
            id == session::session_id_of(
                name,
                #[trigger] session::stamp(session::compact_of(nanos), seconds),
                pid,
            );
        assert(id == session::session_id_of(
            name,
            session::stamp(session::compact_of(nanos), seconds),
            pid,
        ));
    }
}

/// The runner is told nothing else.
pub proof fn law_runner_is_told_nothing_else(
    config: EffectiveView,
    duration_seconds: Option<u64>,
    session_id: Seq<char>,
    stop_request_path: Seq<char>,
    name: Seq<char>,
)
    requires
        name != "--input-mode"@,
        name != "--partial-interval-seconds"@,
        name != "--artifacts-dir"@,
        name != "--ffmpeg-path"@,
        name != "--session-id"@,
        name != "--stop-request-path"@,
        name != "--display-id"@,
        name != "--microphone-device"@,
        name != "--system-device"@,
        name != "--single-input-device"@,
        name != "--whisper-cli-path"@,
        name != "--whisper-model-path"@,
        name != "--duration-seconds"@,
    ensures
        runner_value(config, duration_seconds, session_id, stop_request_path, name) is None,
{
    lemma_runner_value(config, duration_seconds, session_id, stop_request_path, name);
}

} // verus!
