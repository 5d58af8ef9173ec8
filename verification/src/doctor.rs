//! What is reported of the machine: whether all that a recording needs is there, and the displays.
use crate::audio;
use crate::config::{EffectiveConfig, EffectiveView, InputMode};
use crate::disk::Snapshot;
use crate::error::{Error, ErrorView};
use crate::native;
use crate::native::{NativeDisplay, NativeStatus};
use crate::recording;
use crate::text;
use crate::tool::ToolRun;
use crate::whisper;
use vstd::prelude::*;

verus! {

// ---------------------------------------------------------------------------------------------
// Checks
// ---------------------------------------------------------------------------------------------
/// One thing that was checked.
#[derive(Debug)]
pub struct DoctorCheck {
    pub name: &'static str,
    pub ok: bool,
    pub message: String,
}

/// What a [`DoctorCheck`] holds.
pub struct CheckView {
    pub name: Seq<char>,
    pub ok: bool,
    pub message: Seq<char>,
}

impl DeepView for DoctorCheck {
    type V = CheckView;

    open spec fn deep_view(&self) -> CheckView {
        CheckView { name: self.name@, ok: self.ok, message: self.message@ }
    }
}

/// What became of the helper.
#[derive(Debug)]
pub enum HelperState {
    /// It could not be built.
    NotBuilt(Error),
    /// It was built at this path, but gave no answer.
    Silent(String, Error),
    /// It was built at this path, and answered.
    Answered(String, NativeStatus),
}

/// What was found out about the machine.
#[derive(Debug)]
pub struct DoctorFacts {
    pub helper: HelperState,
    /// What came of asking the configured ffmpeg for its version.
    pub ffmpeg: ToolRun,
    /// What came of asking the configured whisper-cli for its help text.
    pub whisper: ToolRun,
    /// Why the directory of sessions could not be created, where it could not be.
    pub artifacts_fault: Option<String>,
}

/// A check.
pub open spec fn check(name: Seq<char>, ok: bool, message: Seq<char>) -> CheckView {
    CheckView { name, ok, message }
}

/// What is said of the helper and of what it answered.
pub open spec fn helper_checks(mode: InputMode, helper: HelperState) -> Seq<CheckView> {
    match helper {
        HelperState::NotBuilt(e) => seq![check("native_helper"@, false, e@.message)],
        HelperState::Silent(path, e) => seq![
            check("native_helper"@, true, "compiled at "@ + path@),
            check("native_capture"@, false, e@.message),
        ],
        HelperState::Answered(path, status) => {
            let always = seq![
                check("native_helper"@, true, "compiled at "@ + path@),
                check(
                    "screen_capture_access"@,
                    status.screen_capture_access,
                    if status.screen_capture_access {
                        "screen recording permission is granted"@
                    } else {
                        "screen recording permission is not granted"@
                    },
                ),
                check(
                    "native_displays"@,
                    status.displays@.len() > 0,
                    "found "@ + text::decimal(status.displays@.len()) + " shareable display(s)"@,
                ),
            ];
            if recording::takes_microphone(mode) {
                always.push(
                    check(
                        "microphone_capture"@,
                        native::microphone_usable(status),
                        "microphone permission: "@ + status.microphone_permission@
                            + "; supported: "@ + native::bool_word(
                            status.microphone_capture_supported,
                        ),
                    ),
                )
            } else {
                always
            }
        },
    }
}

/// What is said of ffmpeg, where it is needed.
pub open spec fn mixer_checks(config: EffectiveView, ffmpeg: ToolRun) -> Seq<CheckView> {
    if config.input_mode == InputMode::MicSystemMix {
        seq![
            match audio::version_of(config.ffmpeg_path, ffmpeg) {
                Ok(version) => check(
                    "ffmpeg_binary"@,
                    true,
                    "used for post-capture audio mixing: "@ + version,
                ),
                Err(e) => check("ffmpeg_binary"@, false, e.message),
            },
        ]
    } else {
        Seq::empty()
    }
}

/// What is said of whisper-cli.
pub open spec fn cli_check(config: EffectiveView, whisper: ToolRun) -> CheckView {
    match config.whisper_cli_path {
        Some(path) => match whisper::version_of(path, whisper) {
            Ok(version) => check(
                "whisper_cli_binary"@,
                true,
                if version.len() == 0 {
                    "reachable at "@ + path
                } else {
                    version
                },
            ),
            Err(e) => check("whisper_cli_binary"@, false, e.message),
        },
        None => check(
            "whisper_cli_binary"@,
            false,
            "whisper_cli_path is not configured and no bundled or local whisper-cli install was auto-detected; use a bundled release or install whisper-cpp, then run `scribecli setup`"@,
        ),
    }
}

/// What is said of the model.
pub open spec fn model_check(config: EffectiveView, disk: Snapshot) -> CheckView {
    match config.whisper_model_path {
        Some(path) => if disk.has(path) {
            check("whisper_model_path"@, true, "found "@ + path)
        } else {
            check("whisper_model_path"@, false, "model file does not exist at "@ + path)
        },
        None => check(
            "whisper_model_path"@,
            false,
            "whisper_model_path is not configured and no local Whisper model was auto-detected; run `scribecli setup` to create a managed model"@,
        ),
    }
}

/// What is said of the directory of sessions.
pub open spec fn artifacts_check(config: EffectiveView, fault: Option<Seq<char>>) -> CheckView {
    match fault {
        Some(fault) => check("artifacts_dir"@, false, fault),
        None => check("artifacts_dir"@, true, "writable at "@ + config.artifacts_dir),
    }
}

/// What is said of the mode.
pub open spec fn mode_check(mode: InputMode) -> CheckView {
    check(
        "capture_configuration"@,
        true,
        match mode {
            InputMode::Microphone => "native ScreenCaptureKit capture will record microphone audio"@,
            InputMode::MicSystemMix => "native ScreenCaptureKit capture will record system audio and microphone separately, then mix them"@,
            _ => "native ScreenCaptureKit capture will record system audio"@,
        },
    )
}

/// All that is said of the machine.
pub open spec fn checks_of(config: EffectiveView, facts: DoctorFacts, disk: Snapshot) -> Seq<
    CheckView,
> {
    helper_checks(config.input_mode, facts.helper) + mixer_checks(config, facts.ffmpeg) + seq![
        cli_check(config, facts.whisper),
        model_check(config, disk),
        artifacts_check(config, facts.artifacts_fault.deep_view()),
        mode_check(config.input_mode),
    ]
}

/// Whether nothing is wrong.
pub open spec fn all_ok(checks: Seq<CheckView>) -> bool {
    forall|i: int| 0 <= i < checks.len() ==> (#[trigger] checks[i]).ok
}

/// The displays that the helper named.
pub open spec fn displays_of(helper: HelperState) -> Seq<NativeDisplay> {
    match helper {
        HelperState::Answered(_, status) => status.displays@,
        _ => Seq::empty(),
    }
}

/// What is reported of the machine.
#[derive(Debug)]
pub struct DoctorReport {
    pub object: &'static str,
    pub ok: bool,
    pub checks: Vec<DoctorCheck>,
    pub native_displays: Vec<NativeDisplay>,
    pub config: EffectiveConfig,
}

fn push_check(checks: &mut Vec<DoctorCheck>, name: &'static str, ok: bool, message: String)
    ensures
        final(checks).deep_view() == old(checks).deep_view().push(check(name@, ok, message@)),
{
    let ghost shown = check(name@, ok, message@);
    checks.push(DoctorCheck { name, ok, message });
    assert(checks.deep_view() =~= old(checks).deep_view().push(shown));
}

fn check_helper(mode: InputMode, helper: &HelperState) -> (r: Vec<DoctorCheck>)
    ensures
        r.deep_view() == helper_checks(mode, *helper),
{
    let mut checks: Vec<DoctorCheck> = Vec::new();
    match helper {
        HelperState::NotBuilt(e) => {
            push_check(&mut checks, "native_helper", false, e.message.clone());
        },
        HelperState::Silent(path, e) => {
            push_check(&mut checks, "native_helper", true, text::cat2("compiled at ", path.as_str()));
            push_check(&mut checks, "native_capture", false, e.message.clone());
        },
        HelperState::Answered(path, status) => {
            push_check(&mut checks, "native_helper", true, text::cat2("compiled at ", path.as_str()));
            let access = if status.screen_capture_access {
                "screen recording permission is granted"
            } else {
                "screen recording permission is not granted"
            };
            push_check(
                &mut checks,
                "screen_capture_access",
                status.screen_capture_access,
                access.to_owned(),
            );
            let count = text::decimal_text(status.displays.len() as u64);
            push_check(
                &mut checks,
                "native_displays",
                status.displays.len() > 0,
                text::cat3("found ", count.as_str(), " shareable display(s)"),
            );
            if mode != InputMode::SystemAudio {
                push_check(
                    &mut checks,
                    "microphone_capture",
                    native::is_microphone_usable(status),
                    text::cat4(
                        "microphone permission: ",
                        status.microphone_permission.as_str(),
                        "; supported: ",
                        native::bool_text(status.microphone_capture_supported),
                    ),
                );
            }
        },
    }
    assert(checks.deep_view() =~= helper_checks(mode, *helper));
    checks
}

fn check_mixer(checks: &mut Vec<DoctorCheck>, config: &EffectiveConfig, ffmpeg: &ToolRun)
    ensures
        final(checks).deep_view() == old(checks).deep_view() + mixer_checks(config@, *ffmpeg),
{
    if config.input_mode == InputMode::MicSystemMix {
        match audio::ffmpeg_version(config.ffmpeg_path.as_str(), ffmpeg) {
            Ok(version) => push_check(
                checks,
                "ffmpeg_binary",
                true,
                text::cat2("used for post-capture audio mixing: ", version.as_str()),
            ),
            Err(e) => push_check(checks, "ffmpeg_binary", false, e.message),
        }
    }
    assert(checks.deep_view() =~= old(checks).deep_view() + mixer_checks(config@, *ffmpeg));
}

fn check_cli(checks: &mut Vec<DoctorCheck>, config: &EffectiveConfig, whisper: &ToolRun)
    ensures
        final(checks).deep_view() == old(checks).deep_view().push(cli_check(config@, *whisper)),
{
    match &config.whisper_cli_path {
        Some(path) => match whisper::whisper_version(path.as_str(), whisper) {
            Ok(version) => {
                let message = if version.as_str().is_empty() {
                    text::cat2("reachable at ", path.as_str())
                } else {
                    version
                };
                push_check(checks, "whisper_cli_binary", true, message);
            },
            Err(e) => push_check(checks, "whisper_cli_binary", false, e.message),
        },
        None => push_check(
            checks,
            "whisper_cli_binary",
            false,
            "whisper_cli_path is not configured and no bundled or local whisper-cli install was auto-detected; use a bundled release or install whisper-cpp, then run `scribecli setup`".to_owned(),
        ),
    }
}

fn check_model(checks: &mut Vec<DoctorCheck>, config: &EffectiveConfig, disk: &Snapshot)
    ensures
        final(checks).deep_view() == old(checks).deep_view().push(model_check(config@, *disk)),
{
    match &config.whisper_model_path {
        Some(path) => {
            if disk.is_present(path.as_str()) {
                push_check(
                    checks,
                    "whisper_model_path",
                    true,
                    text::cat2("found ", path.as_str()),
                );
            } else {
                push_check(
                    checks,
                    "whisper_model_path",
                    false,
                    text::cat2("model file does not exist at ", path.as_str()),
                );
            }
        },
        None => push_check(
            checks,
            "whisper_model_path",
            false,
            "whisper_model_path is not configured and no local Whisper model was auto-detected; run `scribecli setup` to create a managed model".to_owned(),
        ),
    }
}

fn check_artifacts(checks: &mut Vec<DoctorCheck>, config: &EffectiveConfig, fault: &Option<String>)
    ensures
        final(checks).deep_view() == old(checks).deep_view().push(
            artifacts_check(config@, fault.deep_view()),
        ),
{
    match fault {
        Some(fault) => push_check(checks, "artifacts_dir", false, fault.clone()),
        None => push_check(
            checks,
            "artifacts_dir",
            true,
            text::cat2("writable at ", config.artifacts_dir.as_str()),
        ),
    }
}

fn check_mode(checks: &mut Vec<DoctorCheck>, mode: InputMode)
    ensures
        final(checks).deep_view() == old(checks).deep_view().push(mode_check(mode)),
{
    let message = match mode {
        InputMode::Microphone => "native ScreenCaptureKit capture will record microphone audio",
        InputMode::MicSystemMix => "native ScreenCaptureKit capture will record system audio and microphone separately, then mix them",
        _ => "native ScreenCaptureKit capture will record system audio",
    };
    push_check(checks, "capture_configuration", true, message.to_owned());
}

fn none_failed(checks: &Vec<DoctorCheck>) -> (r: bool)
    ensures
        r == all_ok(checks.deep_view()),
{
    let mut i: usize = 0;
    while i < checks.len()
        invariant
            i <= checks@.len(),
            forall|k: int| 0 <= k < i ==> (#[trigger] checks.deep_view()[k]).ok,
        decreases checks@.len() - i,
    {
        assert(checks.deep_view()[i as int].ok == checks@[i as int].ok);
        if !checks[i].ok {
            return false;
        }
        i = i + 1;
    }
    true
}

fn copy_displays(displays: &Vec<NativeDisplay>) -> (r: Vec<NativeDisplay>)
    ensures
        r@ == displays@,
{
    let mut out: Vec<NativeDisplay> = Vec::new();
    let mut i: usize = 0;
    while i < displays.len()
        invariant
            i <= displays@.len(),
            out@ =~= displays@.take(i as int),
        decreases displays@.len() - i,
    {
        out.push(displays[i]);
        i = i + 1;
    }
    assert(displays@.take(i as int) =~= displays@);
    out
}

/// Whether `report` is what is reported of the machine.
pub open spec fn is_report(
    report: DoctorReport,
    config: EffectiveView,
    facts: DoctorFacts,
    disk: Snapshot,
) -> bool {
    &&& report.object@ == "doctor_report"@
    &&& report.checks.deep_view() == checks_of(config, facts, disk)
    &&& report.ok == all_ok(checks_of(config, facts, disk))
    &&& report.native_displays@ == displays_of(facts.helper)
    &&& report.config@ == config
}

/// What is reported of the machine.
pub fn build_doctor_report(
    config: &EffectiveConfig,
    macos: bool,
    facts: &DoctorFacts,
    disk: &Snapshot,
) -> (r: Result<DoctorReport, Error>)
    ensures
        match r {
            Ok(report) => macos && is_report(report, config@, *facts, *disk),
            Err(e) => !macos && e@ == native::unsupported(),
        },
{
    if let Err(e) = native::require_macos(macos) {
        return Err(e);
    }
    let mut checks = check_helper(config.input_mode, &facts.helper);
    check_mixer(&mut checks, config, &facts.ffmpeg);
    check_cli(&mut checks, config, &facts.whisper);
    check_model(&mut checks, config, disk);
    check_artifacts(&mut checks, config, &facts.artifacts_fault);
    check_mode(&mut checks, config.input_mode);
    assert(checks.deep_view() =~= checks_of(config@, *facts, *disk));
    let native_displays = match &facts.helper {
        HelperState::Answered(_, status) => copy_displays(&status.displays),
        _ => Vec::new(),
    };
    let ok = none_failed(&checks);
    Ok(DoctorReport { object: "doctor_report", ok, checks, native_displays, config: config.copy() })
}

// ---------------------------------------------------------------------------------------------
// Displays
// ---------------------------------------------------------------------------------------------
/// What is reported of the displays.
#[derive(Debug)]
pub struct DevicesReport {
    pub object: &'static str,
    pub native_screen_capture_access: bool,
    pub native_displays: Vec<NativeDisplay>,
}

/// Whether the screen may be captured, and the displays, given what the helper answered.
pub open spec fn devices_of(macos: bool, status: Result<NativeStatus, Error>) -> Result<
    (bool, Seq<NativeDisplay>),
    ErrorView,
> {
    match native::platform_check(macos) {
        Ok(()) => match status {
            Ok(status) => Ok((status.screen_capture_access, status.displays@)),
            Err(e) => Err(e@),
        },
        Err(e) => Err(e),
    }
}

/// What is reported of the displays, given what the helper answered.
pub fn build_devices_report(macos: bool, status: Result<NativeStatus, Error>) -> (r: Result<
    DevicesReport,
    Error,
>)
    ensures
        match r {
            Ok(report) => devices_of(macos, status) == Ok::<
                (bool, Seq<NativeDisplay>),
                ErrorView,
            >((report.native_screen_capture_access, report.native_displays@)),
            Err(e) => devices_of(macos, status) == Err::<(bool, Seq<NativeDisplay>), ErrorView>(
                e@,
            ),
        },
        match r {
            Ok(report) => {
                &&& macos
                &&& status matches Ok(status) && report.native_screen_capture_access
                    == status.screen_capture_access && report.native_displays@ == status.displays@
                &&& report.object@ == "device_list"@
            },
            Err(e) => {
                ||| !macos && e@ == native::unsupported()
                ||| macos && (status matches Err(fault) && e == fault)
            },
        },
{
    if let Err(e) = native::require_macos(macos) {
        return Err(e);
    }
    match status {
        Ok(status) => Ok(
            DevicesReport {
                object: "device_list",
                native_screen_capture_access: status.screen_capture_access,
                native_displays: status.displays,
            },
        ),
        Err(e) => Err(e),
    }
}

// ---------------------------------------------------------------------------------------------
// Laws
// ---------------------------------------------------------------------------------------------
/// What is checked depends on nothing on disk but what is at the configured model's path.
pub proof fn law_checks_look_at(config: EffectiveView, facts: DoctorFacts, a: Snapshot, b: Snapshot)
    requires
        config.whisper_model_path matches Some(model) ==> a.kind_of(model) == b.kind_of(model),
    ensures
        checks_of(config, facts, a) == checks_of(config, facts, b),
{
}

/// Whether all that a recording needs was found.
pub open spec fn is_ready(config: EffectiveView, facts: DoctorFacts, disk: Snapshot) -> bool {
    &&& facts.helper matches HelperState::Answered(_, status) && status.screen_capture_access
        && status.displays@.len() > 0 && (recording::takes_microphone(config.input_mode)
        ==> native::microphone_usable(status))
    &&& config.input_mode == InputMode::MicSystemMix ==> audio::version_of(
        config.ffmpeg_path,
        facts.ffmpeg,
    ) is Ok
    &&& config.whisper_cli_path matches Some(path) && whisper::version_of(path, facts.whisper) is Ok
    &&& config.whisper_model_path matches Some(path) && disk.has(path)
    &&& facts.artifacts_fault is None
}

proof fn lemma_all_ok_split(a: Seq<CheckView>, b: Seq<CheckView>)
    ensures
        all_ok(a + b) <==> all_ok(a) && all_ok(b),
{
    if all_ok(a + b) {
        assert forall|i: int| 0 <= i < a.len() implies (#[trigger] a[i]).ok by {
            assert((a + b)[i].ok);
        }
        assert forall|i: int| 0 <= i < b.len() implies (#[trigger] b[i]).ok by {
            assert((a + b)[a.len() + i].ok);
        }
    }
}

/// The machine is reported to be fine exactly if all that a recording needs was found.
pub proof fn law_report_is_ok_when_ready(config: EffectiveView, facts: DoctorFacts, disk: Snapshot)
    ensures
        all_ok(checks_of(config, facts, disk)) <==> is_ready(config, facts, disk),
{
    let helper = helper_checks(config.input_mode, facts.helper);
    let mixer = mixer_checks(config, facts.ffmpeg);
    let rest = seq![
        cli_check(config, facts.whisper),
        model_check(config, disk),
        artifacts_check(config, facts.artifacts_fault.deep_view()),
        mode_check(config.input_mode),
    ];
    lemma_all_ok_split(helper + mixer, rest);
    lemma_all_ok_split(helper, mixer);
    assert(all_ok(rest) <==> rest[0].ok && rest[1].ok && rest[2].ok && rest[3].ok);
    match facts.helper {
        HelperState::NotBuilt(_) => {
            assert(!helper[0].ok);
        },
        HelperState::Silent(_, _) => {
            assert(!helper[1].ok);
        },
        HelperState::Answered(_, status) => {
            if recording::takes_microphone(config.input_mode) {
                assert(all_ok(helper) <==> helper[0].ok && helper[1].ok && helper[2].ok
                    && helper[3].ok);
            } else {
                assert(all_ok(helper) <==> helper[0].ok && helper[1].ok && helper[2].ok);
            }
        },
    }
    if config.input_mode == InputMode::MicSystemMix {
        assert(all_ok(mixer) <==> mixer[0].ok);
    }
}

/// Where the machine is reported to be fine, a recording is not refused.
pub proof fn law_recording_starts_when_ok(config: EffectiveView, facts: DoctorFacts, disk: Snapshot)
    requires
        all_ok(checks_of(config, facts, disk)),
    ensures
        recording::record_check(config, true, facts.ffmpeg, facts.whisper, disk) == Ok::<
            (),
            ErrorView,
        >(()),
        facts.helper matches HelperState::Answered(_, status) && native::capture_check(
            config.input_mode,
            status,
        ) == Ok::<(), ErrorView>(()),
{
    law_report_is_ok_when_ready(config, facts, disk);
}

/// Whether `checks` hold exactly one check of this name, with this verdict.
pub open spec fn finds(checks: Seq<CheckView>, name: Seq<char>, ok: bool) -> bool {
    &&& exists|i: int| 0 <= i < checks.len() && (#[trigger] checks[i]).name == name
    &&& forall|i: int|
        0 <= i < checks.len() && (#[trigger] checks[i]).name == name ==> checks[i].ok == ok
}

/// Whether `checks` hold no check of this name.
pub open spec fn passes_over(checks: Seq<CheckView>, name: Seq<char>) -> bool {
    forall|i: int| 0 <= i < checks.len() ==> (#[trigger] checks[i]).name != name
}

proof fn lemma_check_names()
    ensures
        "native_helper"@.len() == 13,
        "native_capture"@.len() == 14,
        "screen_capture_access"@.len() == 21,
        "native_displays"@.len() == 15,
        "microphone_capture"@.len() == 18,
        "ffmpeg_binary"@.len() == 13,
        "whisper_cli_binary"@.len() == 18,
        "whisper_model_path"@.len() == 18,
        "artifacts_dir"@.len() == 13,
        "capture_configuration"@.len() == 21,
        "native_helper"@[0] == 'n',
        "ffmpeg_binary"@[0] == 'f',
        "artifacts_dir"@[0] == 'a',
        "screen_capture_access"@[0] == 's',
        "capture_configuration"@[0] == 'c',
        "microphone_capture"@[0] == 'm',
        "whisper_cli_binary"@[8] == 'c',
        "whisper_model_path"@[8] == 'm',
        "whisper_cli_binary"@[0] == 'w',
        "whisper_model_path"@[0] == 'w',
{
    reveal_strlit("native_helper");
    reveal_strlit("native_capture");
    reveal_strlit("screen_capture_access");
    reveal_strlit("native_displays");
    reveal_strlit("microphone_capture");
    reveal_strlit("ffmpeg_binary");
    reveal_strlit("whisper_cli_binary");
    reveal_strlit("whisper_model_path");
    reveal_strlit("artifacts_dir");
    reveal_strlit("capture_configuration");
}


/// What is found of the tools and of what they work with: whisper-cli passes exactly if one is
/// configured and works, the model exactly if one is configured and is there, the directory of
/// sessions exactly if it could be created; ffmpeg is looked at only for a mix, and passes exactly if
/// it works.
pub proof fn law_checks_tell_of_tools(config: EffectiveView, facts: DoctorFacts, disk: Snapshot)
    ensures
        ({
            let checks = checks_of(config, facts, disk);
            &&& finds(
                checks,
                "whisper_cli_binary"@,
                config.whisper_cli_path is Some && (facts.whisper matches ToolRun::Finished(output)
                    && output.success),
            )
            &&& finds(
                checks,
                "whisper_model_path"@,
                config.whisper_model_path matches Some(model) && disk.has(model),
            )
            &&& finds(checks, "artifacts_dir"@, facts.artifacts_fault is None)
            &&& config.input_mode == InputMode::MicSystemMix ==> finds(
                checks,
                "ffmpeg_binary"@,
                facts.ffmpeg matches ToolRun::Finished(output) && output.success,
            )
            &&& config.input_mode != InputMode::MicSystemMix ==> passes_over(
                checks,
                "ffmpeg_binary"@,
            )
            &&& finds(checks, "capture_configuration"@, true)
        }),
{
    lemma_check_names();
    let checks = checks_of(config, facts, disk);
    let helper = helper_checks(config.input_mode, facts.helper);
    let mixer = mixer_checks(config, facts.ffmpeg);
    let n = (helper.len() + mixer.len()) as int;
    assert(checks.len() == n + 4);
    assert(checks[n] == cli_check(config, facts.whisper));
    assert(checks[n + 1] == model_check(config, disk));
    assert(checks[n + 2] == artifacts_check(config, facts.artifacts_fault.deep_view()));
    assert(checks[n + 3] == mode_check(config.input_mode));
    assert forall|i: int| 0 <= i < helper.len() implies #[trigger] checks[i] == helper[i] by {}
    assert forall|i: int| helper.len() <= i < n implies #[trigger] checks[i] == mixer[i
        - helper.len()] by {}
    assert forall|i: int| 0 <= i < helper.len() implies ({
        let name = (#[trigger] helper[i]).name;
        name == "native_helper"@ || name == "native_capture"@ || name == "screen_capture_access"@
            || name == "native_displays"@ || name == "microphone_capture"@
    }) by {}
    if config.input_mode == InputMode::MicSystemMix {
        assert(checks[helper.len() as int] == mixer[0]);
    }
}

/// What is found of the helper: it passes exactly if it was built; where it answered, the access to
/// the screen passes exactly if it was granted, the displays exactly if there are any, and the
/// microphone, in every mode but that of system audio alone, exactly if it can be recorded. A helper
/// that gave no answer is said to have failed, and nothing is said of what it would have answered.
pub proof fn law_checks_tell_of_helper(config: EffectiveView, facts: DoctorFacts, disk: Snapshot)
    ensures
        ({
            let checks = checks_of(config, facts, disk);
            &&& finds(checks, "native_helper"@, !(facts.helper is NotBuilt))
            &&& facts.helper is Silent ==> finds(checks, "native_capture"@, false)
            &&& !(facts.helper is Silent) ==> passes_over(checks, "native_capture"@)
            &&& !(facts.helper is Answered) ==> passes_over(checks, "screen_capture_access"@)
                && passes_over(checks, "native_displays"@) && passes_over(
                checks,
                "microphone_capture"@,
            )
            &&& facts.helper matches HelperState::Answered(_, status) ==> {
                &&& finds(checks, "screen_capture_access"@, status.screen_capture_access)
                &&& finds(checks, "native_displays"@, status.displays@.len() > 0)
                &&& config.input_mode == InputMode::SystemAudio ==> passes_over(
                    checks,
                    "microphone_capture"@,
                )
                &&& config.input_mode != InputMode::SystemAudio ==> finds(
                    checks,
                    "microphone_capture"@,
                    status.microphone_capture_supported && status.microphone_permission@
                        != "denied"@ && status.microphone_permission@ != "restricted"@,
                )
            }
        }),
{
    lemma_check_names();
    let checks = checks_of(config, facts, disk);
    let helper = helper_checks(config.input_mode, facts.helper);
    let mixer = mixer_checks(config, facts.ffmpeg);
    let n = (helper.len() + mixer.len()) as int;
    assert(checks.len() == n + 4);
    assert(checks[n] == cli_check(config, facts.whisper));
    assert(checks[n + 1] == model_check(config, disk));
    assert(checks[n + 2] == artifacts_check(config, facts.artifacts_fault.deep_view()));
    assert(checks[n + 3] == mode_check(config.input_mode));
    assert forall|i: int| 0 <= i < helper.len() implies #[trigger] checks[i] == helper[i] by {}
    assert forall|i: int| helper.len() <= i < n implies #[trigger] checks[i] == mixer[i
        - helper.len()] by {}
    assert(checks[0] == helper[0]);
    if facts.helper is Silent {
        assert(checks[1] == helper[1]);
    }
    if facts.helper is Answered {
        assert(checks[1] == helper[1]);
        assert(checks[2] == helper[2]);
        if config.input_mode != InputMode::SystemAudio {
            assert(checks[3] == helper[3]);
        }
    }
}

/// A report tells what was checked, the displays that the helper named, and the configuration in
/// effect.
pub proof fn law_report_tells_what_was_found(
    report: DoctorReport,
    config: EffectiveView,
    facts: DoctorFacts,
    disk: Snapshot,
)
    requires
        is_report(report, config, facts, disk),
    ensures
        report.checks.deep_view() == checks_of(config, facts, disk),
        report.ok <==> is_ready(config, facts, disk),
        facts.helper matches HelperState::Answered(_, status) ==> report.native_displays@
            == status.displays@,
        !(facts.helper is Answered) ==> report.native_displays@.len() == 0,
        report.config@ == config,
        report.object@ == "doctor_report"@,
{
    law_report_is_ok_when_ready(config, facts, disk);
}

/// What a check says: of a tool that works its version, or where it is if it told none; of one that
/// does not, why; of the model and of the directory of sessions, where they are.
pub proof fn law_checks_say_what_was_found(
    config: EffectiveView,
    facts: DoctorFacts,
    disk: Snapshot,
)
    ensures
        config.whisper_cli_path matches Some(path) ==> {
            &&& whisper::version_of(path, facts.whisper) matches Ok(version) ==> cli_check(
                config,
                facts.whisper,
            ).message == if version.len() > 0 {
                version
            } else {
                "reachable at "@ + path
            }
            &&& whisper::version_of(path, facts.whisper) matches Err(e) ==> cli_check(
                config,
                facts.whisper,
            ).message == e.message
        },
        config.whisper_model_path matches Some(path) ==> {
            &&& disk.has(path) ==> model_check(config, disk).message == "found "@ + path
            &&& !disk.has(path) ==> model_check(config, disk).message
                == "model file does not exist at "@ + path
        },
        facts.artifacts_fault matches Some(fault) ==> artifacts_check(config, Some(fault@)).message
            == fault@,
        artifacts_check(config, None).message == "writable at "@ + config.artifacts_dir,
        facts.helper matches HelperState::NotBuilt(e) ==> checks_of(config, facts, disk)[0].message
            == e@.message,
        facts.helper matches HelperState::Silent(path, e) ==> {
            &&& checks_of(config, facts, disk)[0].message == "compiled at "@ + path@
            &&& checks_of(config, facts, disk)[1].message == e@.message
        },
        facts.helper matches HelperState::Answered(path, status) ==> {
            &&& checks_of(config, facts, disk)[0].message == "compiled at "@ + path@
            &&& status.screen_capture_access ==> checks_of(config, facts, disk)[1].message
                == "screen recording permission is granted"@
            &&& !status.screen_capture_access ==> checks_of(config, facts, disk)[1].message
                == "screen recording permission is not granted"@
            &&& checks_of(config, facts, disk)[2].message == "found "@ + text::decimal(
                status.displays@.len(),
            ) + " shareable display(s)"@
            &&& config.input_mode != InputMode::SystemAudio ==> checks_of(
                config,
                facts,
                disk,
            )[3].message == "microphone permission: "@ + status.microphone_permission@
                + "; supported: "@ + (if status.microphone_capture_supported {
                "true"@
            } else {
                "false"@
            })
        },
        config.whisper_cli_path is None ==> cli_check(config, facts.whisper).message
            == "whisper_cli_path is not configured and no bundled or local whisper-cli install was auto-detected; use a bundled release or install whisper-cpp, then run `scribecli setup`"@,
        config.whisper_model_path is None ==> model_check(config, disk).message
            == "whisper_model_path is not configured and no local Whisper model was auto-detected; run `scribecli setup` to create a managed model"@,
        config.input_mode == InputMode::MicSystemMix ==> {
            let said = mixer_checks(config, facts.ffmpeg)[0].message;
            &&& audio::version_of(config.ffmpeg_path, facts.ffmpeg) matches Ok(version) ==> said
                == "used for post-capture audio mixing: "@ + version
            &&& audio::version_of(config.ffmpeg_path, facts.ffmpeg) matches Err(e) ==> said
                == e.message
        },
{
    let checks = checks_of(config, facts, disk);
    let helper = helper_checks(config.input_mode, facts.helper);
    assert forall|i: int| 0 <= i < helper.len() implies #[trigger] checks[i] == helper[i] by {}
    assert(checks[0] == helper[0]);
    if facts.helper is Silent {
        assert(checks[1] == helper[1]);
    }
    if facts.helper is Answered {
        assert(checks[1] == helper[1]);
        assert(checks[2] == helper[2]);
        if config.input_mode != InputMode::SystemAudio {
            assert(checks[3] == helper[3]);
        }
    }
}

/// What is said of a mode is what will be recorded in it.
pub proof fn law_mode_is_described(config: EffectiveView, facts: DoctorFacts, disk: Snapshot)
    ensures
        ({
            let said = checks_of(config, facts, disk).last();
            &&& said.name == "capture_configuration"@
            &&& config.input_mode == InputMode::Microphone ==> said.message
                == "native ScreenCaptureKit capture will record microphone audio"@
            &&& config.input_mode == InputMode::MicSystemMix ==> said.message
                == "native ScreenCaptureKit capture will record system audio and microphone separately, then mix them"@
            &&& config.input_mode == InputMode::SystemAudio || config.input_mode
                == InputMode::SingleDevice ==> said.message
                == "native ScreenCaptureKit capture will record system audio"@
        }),
{
}

/// The checks come in order, and there are no others: those of the helper, that of ffmpeg for a mix,
/// then those of whisper-cli, of the model, of the directory of sessions, and of the mode.
pub proof fn law_checks_come_in_order(config: EffectiveView, facts: DoctorFacts, disk: Snapshot)
    ensures
        ({
            let checks = checks_of(config, facts, disk);
            let of_helper: int = match facts.helper {
                HelperState::NotBuilt(_) => 1,
                HelperState::Silent(_, _) => 2,
                HelperState::Answered(_, _) => if config.input_mode == InputMode::SystemAudio {
                    3
                } else {
                    4
                },
            };
            let n: int = if config.input_mode == InputMode::MicSystemMix {
                of_helper + 1
            } else {
                of_helper
            };
            &&& checks.len() == n + 4
            &&& checks[0].name == "native_helper"@
            &&& facts.helper is Silent ==> checks[1].name == "native_capture"@
            &&& facts.helper is Answered ==> checks[1].name == "screen_capture_access"@
                && checks[2].name == "native_displays"@ && (config.input_mode
                != InputMode::SystemAudio ==> checks[3].name == "microphone_capture"@)
            &&& config.input_mode == InputMode::MicSystemMix ==> checks[of_helper].name
                == "ffmpeg_binary"@
            &&& checks[n].name == "whisper_cli_binary"@
            &&& checks[n + 1].name == "whisper_model_path"@
            &&& checks[n + 2].name == "artifacts_dir"@
            &&& checks[n + 3].name == "capture_configuration"@
        }),
{
}

/// The displays are reported as the helper named them, and so is whether the screen may be captured;
/// what the helper failed with is passed on, and every platform but macOS is refused.
pub proof fn law_displays_are_reported(
    macos: bool,
    status: Result<NativeStatus, Error>,
)
    ensures
        !macos ==> devices_of(macos, status) == Err::<(bool, Seq<NativeDisplay>), ErrorView>(
            native::unsupported(),
        ),
        macos ==> (status matches Ok(answer) ==> devices_of(macos, status) == Ok::<
            (bool, Seq<NativeDisplay>),
            ErrorView,
        >((answer.screen_capture_access, answer.displays@))),
        macos ==> (status matches Err(fault) ==> devices_of(macos, status) == Err::<
            (bool, Seq<NativeDisplay>),
            ErrorView,
        >(fault@)),
{
}

} // verus!
