//! The native capture helper: where it lies, when it is rebuilt, what it is asked and what its
//! answers mean.
use crate::config::{AppPaths, InputMode};
use crate::error;
use crate::error::{Error, ErrorView};
use crate::path;
use crate::text;
use crate::tool;
use crate::tool::ToolRun;
use vstd::prelude::*;

verus! {

/// A display whose contents can be captured.
#[derive(Debug, Clone, Copy, PartialEq, Eq, Structural)]
pub struct NativeDisplay {
    pub display_id: u32,
    pub width: i64,
    pub height: i64,
    pub is_main: bool,
}

/// What the helper says of the machine.
#[derive(Debug)]
pub struct NativeStatus {
    pub object: String,
    pub screen_capture_access: bool,
    pub microphone_permission: String,
    pub microphone_capture_supported: bool,
    pub displays: Vec<NativeDisplay>,
}

/// What the helper says of a recording.
#[derive(Debug)]
pub struct NativeRecordResult {
    pub object: String,
    pub status: String,
    pub system_audio_path: String,
    pub microphone_audio_path: Option<String>,
    pub captured_microphone: bool,
    pub display_id: u32,
}

/// What the helper is asked to record.
#[derive(Debug)]
pub struct NativeRecordRequest {
    pub system_audio_path: String,
    pub microphone_audio_path: Option<String>,
    pub capture_microphone: bool,
    pub duration_seconds: Option<u64>,
    pub display_id: Option<u32>,
}

// ---------------------------------------------------------------------------------------------
// The platform
// ---------------------------------------------------------------------------------------------
/// The refusal to work on another platform.
pub open spec fn unsupported() -> ErrorView {
    error::plain("scribecli currently supports macOS only"@)
}

/// Whether the platform is one to work on.
pub open spec fn platform_check(macos: bool) -> Result<(), ErrorView> {
    if macos {
        Ok(())
    } else {
        Err(unsupported())
    }
}

/// Refuses every platform but macOS.
pub fn require_macos(macos: bool) -> (r: Result<(), Error>)
    ensures
        match r {
            Ok(()) => platform_check(macos) == Ok::<(), ErrorView>(()),
            Err(e) => platform_check(macos) == Err::<(), ErrorView>(e@),
        },
        match r {
            Ok(()) => macos,
            Err(e) => !macos && e@ == unsupported(),
        },
{
    if macos {
        Ok(())
    } else {
        Err(Error::new("scribecli currently supports macOS only".to_owned()))
    }
}

// ---------------------------------------------------------------------------------------------
// Building the helper
// ---------------------------------------------------------------------------------------------
/// Where the helper lies.
#[derive(Debug)]
pub struct HelperFiles {
    pub dir: String,
    pub source_path: String,
    pub binary_path: String,
}

impl HelperFiles {
    /// Whether these are the paths of the helper for state under `base`.
    pub open spec fn lie_under(self, base: Seq<char>) -> bool {
        &&& self.dir@ == path::spec_join(base, "native-helper"@)
        &&& self.source_path@ == path::spec_join(self.dir@, "ScribeCapture.swift"@)
        &&& self.binary_path@ == path::spec_join(self.dir@, "scribecapture"@)
    }
}

/// Where the helper lies for state under `paths`.
pub fn helper_files(paths: &AppPaths) -> (r: HelperFiles)
    ensures
        r.lie_under(paths.config_dir@),
        r.dir@ == path::spec_join(paths.config_dir@, "native-helper"@),
        r.source_path@ == path::spec_join(r.dir@, "ScribeCapture.swift"@),
        r.binary_path@ == path::spec_join(r.dir@, "scribecapture"@),
{
    let dir = path::join(paths.config_dir.as_str(), "native-helper");
    let source_path = path::join(dir.as_str(), "ScribeCapture.swift");
    let binary_path = path::join(dir.as_str(), "scribecapture");
    HelperFiles { dir, source_path, binary_path }
}

/// Whether the helper's source is to be written, given what stands in its place, if that could be
/// read.
pub open spec fn is_outdated(existing: Option<Seq<char>>, source: Seq<char>) -> bool {
    match existing {
        Some(existing) => existing != source,
        None => true,
    }
}

/// Whether the helper's source is to be written, given what stands in its place, if that could be
/// read.
pub fn needs_write(existing: Option<&str>, source: &str) -> (r: bool)
    ensures
        r == is_outdated(existing.deep_view(), source@),
        r == (existing.deep_view() != Some(source@)),
{
    match existing {
        Some(existing) => !text::same(existing, source),
        None => true,
    }
}

/// Whether the helper's binary is out of date: there is none, or its source was modified later, as
/// far as the times are known.
pub open spec fn is_stale(
    binary_present: bool,
    source_modified: Option<i128>,
    binary_modified: Option<i128>,
) -> bool {
    !binary_present || match (source_modified, binary_modified) {
        (Some(source), Some(binary)) => source > binary,
        (Some(_), None) => true,
        (None, _) => false,
    }
}

/// Whether the helper is to be compiled.
pub fn needs_compile(
    binary_present: bool,
    source_modified: Option<i128>,
    binary_modified: Option<i128>,
) -> (r: bool)
    ensures
        r == is_stale(binary_present, source_modified, binary_modified),
{
    if !binary_present {
        return true;
    }
    match (source_modified, binary_modified) {
        (Some(source), Some(binary)) => source > binary,
        (Some(_), None) => true,
        (None, _) => false,
    }
}

/// The arguments with which `xcrun` compiles the helper.
pub open spec fn compile_line(source: Seq<char>, binary: Seq<char>) -> Seq<Seq<char>> {
    seq![
        "swiftc"@,
        "-framework"@,
        "ScreenCaptureKit"@,
        "-framework"@,
        "AVFoundation"@,
        "-framework"@,
        "CoreMedia"@,
        "-framework"@,
        "CoreGraphics"@,
        source,
        "-o"@,
        binary,
    ]
}

/// The arguments with which `xcrun` compiles the helper.
pub fn compile_arguments(source_path: &str, binary_path: &str) -> (r: Vec<String>)
    ensures
        r.deep_view() == compile_line(source_path@, binary_path@),
{
    let mut arguments: Vec<String> = Vec::new();
    text::push_text(&mut arguments, "swiftc");
    text::push_text(&mut arguments, "-framework");
    text::push_text(&mut arguments, "ScreenCaptureKit");
    text::push_text(&mut arguments, "-framework");
    text::push_text(&mut arguments, "AVFoundation");
    text::push_text(&mut arguments, "-framework");
    text::push_text(&mut arguments, "CoreMedia");
    text::push_text(&mut arguments, "-framework");
    text::push_text(&mut arguments, "CoreGraphics");
    text::push_text(&mut arguments, source_path);
    text::push_text(&mut arguments, "-o");
    text::push_text(&mut arguments, binary_path);
    assert(arguments.deep_view() =~= compile_line(source_path@, binary_path@));
    arguments
}

/// What came of compiling the helper.
pub open spec fn compile_outcome(run: ToolRun) -> Result<(), ErrorView> {
    match run {
        ToolRun::NotStarted(reason) => Err(error::caused("failed to run xcrun swiftc"@, reason@)),
        ToolRun::Finished(output) => if output.success {
            Ok(())
        } else {
            Err(
                error::plain(
                    "failed to compile native ScreenCaptureKit helper:\n"@ + text::spec_trim(
                        output.stdout@,
                    ) + "\n"@ + text::spec_trim(output.stderr@),
                ),
            )
        },
    }
}

/// Whether the helper was compiled, from what came of running the compiler.
pub fn compile_helper(run: &ToolRun) -> (r: Result<(), Error>)
    ensures
        match r {
            Ok(()) => compile_outcome(*run) == Ok::<(), ErrorView>(()),
            Err(e) => compile_outcome(*run) == Err::<(), ErrorView>(e@),
        },
{
    match run {
        ToolRun::NotStarted(reason) => Err(
            Error::with_cause("failed to run xcrun swiftc".to_owned(), reason.clone()),
        ),
        ToolRun::Finished(output) => if output.success {
            Ok(())
        } else {
            Err(
                Error::new(
                    text::cat4(
                        "failed to compile native ScreenCaptureKit helper:\n",
                        text::trim(output.stdout.as_str()).as_str(),
                        "\n",
                        text::trim(output.stderr.as_str()).as_str(),
                    ),
                ),
            )
        },
    }
}

// ---------------------------------------------------------------------------------------------
// Asking the helper
// ---------------------------------------------------------------------------------------------
/// The arguments with which the helper is asked for the state of the machine.
pub fn doctor_arguments() -> (r: Vec<String>)
    ensures
        r.deep_view() == seq!["doctor"@],
{
    let mut arguments: Vec<String> = Vec::new();
    text::push_text(&mut arguments, "doctor");
    assert(arguments.deep_view() =~= seq!["doctor"@]);
    arguments
}

/// The arguments with which the helper is asked for the displays.
pub fn list_displays_arguments() -> (r: Vec<String>)
    ensures
        r.deep_view() == seq!["list-displays"@],
{
    let mut arguments: Vec<String> = Vec::new();
    text::push_text(&mut arguments, "list-displays");
    assert(arguments.deep_view() =~= seq!["list-displays"@]);
    arguments
}

/// `true` or `false`.
pub open spec fn bool_word(b: bool) -> Seq<char> {
    if b {
        "true"@
    } else {
        "false"@
    }
}

/// `true` or `false`.
pub fn bool_text(b: bool) -> (r: &'static str)
    ensures
        r@ == bool_word(b),
{
    if b {
        "true"
    } else {
        "false"
    }
}

/// An option and its value, where it has one.
pub open spec fn optional_argument(name: Seq<char>, value: Option<Seq<char>>) -> Seq<Seq<char>> {
    match value {
        Some(value) => seq![name, value],
        None => Seq::empty(),
    }
}

/// The digits of a number that may be missing.
pub open spec fn optional_decimal(value: Option<u64>) -> Option<Seq<char>> {
    match value {
        Some(n) => Some(text::decimal(n as nat)),
        None => None,
    }
}

/// A display's number that may be missing, as any number that may be.
pub open spec fn widened(value: Option<u32>) -> Option<u64> {
    match value {
        Some(n) => Some(n as u64),
        None => None,
    }
}

/// Puts an option and its value at the end of `arguments`, where it has one.
pub fn push_option(arguments: &mut Vec<String>, name: &str, value: &Option<String>)
    ensures
        final(arguments).deep_view() == old(arguments).deep_view() + optional_argument(
            name@,
            value.deep_view(),
        ),
{
    if let Some(value) = value {
        text::push_text(arguments, name);
        text::push_text(arguments, value.as_str());
    }
    assert(arguments.deep_view() =~= old(arguments).deep_view() + optional_argument(
        name@,
        value.deep_view(),
    ));
}

/// Puts an option and its number at the end of `arguments`, where it has one.
pub fn push_number_option(arguments: &mut Vec<String>, name: &str, value: Option<u64>)
    ensures
        final(arguments).deep_view() == old(arguments).deep_view() + optional_argument(
            name@,
            optional_decimal(value),
        ),
{
    if let Some(value) = value {
        text::push_text(arguments, name);
        text::push_text(arguments, text::decimal_text(value).as_str());
    }
    assert(arguments.deep_view() =~= old(arguments).deep_view() + optional_argument(
        name@,
        optional_decimal(value),
    ));
}

fn widen(value: Option<u32>) -> (r: Option<u64>)
    ensures
        r == widened(value),
{
    match value {
        Some(n) => Some(n as u64),
        None => None,
    }
}

/// The arguments with which the helper records.
pub open spec fn record_line(request: NativeRecordRequest) -> Seq<Seq<char>> {
    seq![
        "record"@,
        "--system-audio-path"@,
        request.system_audio_path@,
        "--capture-microphone"@,
        bool_word(request.capture_microphone),
    ] + optional_argument("--microphone-audio-path"@, request.microphone_audio_path.deep_view())
        + optional_argument("--duration-seconds"@, optional_decimal(request.duration_seconds))
        + optional_argument("--display-id"@, optional_decimal(widened(request.display_id)))
}

/// The arguments with which the helper records.
pub fn build_record_command(request: &NativeRecordRequest) -> (r: Vec<String>)
    ensures
        r.deep_view() == record_line(*request),
{
    let mut arguments: Vec<String> = Vec::new();
    text::push_text(&mut arguments, "record");
    text::push_text(&mut arguments, "--system-audio-path");
    text::push_text(&mut arguments, request.system_audio_path.as_str());
    text::push_text(&mut arguments, "--capture-microphone");
    text::push_text(&mut arguments, bool_text(request.capture_microphone));
    let ghost front = seq![
        "record"@,
        "--system-audio-path"@,
        request.system_audio_path@,
        "--capture-microphone"@,
        bool_word(request.capture_microphone),
    ];
    assert(arguments.deep_view() =~= front);
    push_option(&mut arguments, "--microphone-audio-path", &request.microphone_audio_path);
    push_number_option(&mut arguments, "--duration-seconds", request.duration_seconds);
    push_number_option(&mut arguments, "--display-id", widen(request.display_id));
    arguments
}

// ---------------------------------------------------------------------------------------------
// The helper's answers
// ---------------------------------------------------------------------------------------------
/// What the helper at `path` printed, or why that is no answer.
pub open spec fn helper_text(path: Seq<char>, run: ToolRun) -> Result<Seq<char>, ErrorView> {
    match run {
        ToolRun::NotStarted(reason) => Err(tool::not_started(path, reason@)),
        ToolRun::Finished(output) => if !output.success {
            Err(
                error::plain(
                    path + " exited with status "@ + output.status@ + ": "@ + text::spec_trim(
                        output.stdout@,
                    ) + " "@ + text::spec_trim(output.stderr@),
                ),
            )
        } else {
            match output.stdout_fault {
                Some(fault) => Err(error::caused("helper output was not valid UTF-8"@, fault@)),
                None => Ok(output.stdout@),
            }
        },
    }
}

/// The first lines of a text, at most twenty.
pub open spec fn excerpt(s: Seq<char>) -> Seq<char> {
    let lines = text::spec_lines(s);
    text::spec_join(
        if lines.len() <= 20 {
            lines
        } else {
            lines.take(20)
        },
        "\n"@,
    )
}

/// What the helper at `path` answered: `parsed` is what reading its output as JSON gave.
pub open spec fn reply<T>(path: Seq<char>, run: ToolRun, parsed: Result<T, String>) -> Result<
    T,
    ErrorView,
> {
    match helper_text(path, run) {
        Ok(printed) => match parsed {
            Ok(value) => Ok(value),
            Err(fault) => Err(
                error::caused(
                    "failed to parse helper JSON output: "@ + excerpt(printed),
                    fault@,
                ),
            ),
        },
        Err(e) => Err(e),
    }
}

/// What the helper printed, from what came of running it.
pub fn helper_output(helper_path: &str, run: &ToolRun) -> (r: Result<String, Error>)
    ensures
        match r {
            Ok(printed) => helper_text(helper_path@, *run) == Ok::<Seq<char>, ErrorView>(printed@),
            Err(e) => helper_text(helper_path@, *run) == Err::<Seq<char>, ErrorView>(e@),
        },
{
    match run {
        ToolRun::NotStarted(reason) => Err(tool::not_started_error(helper_path, reason.as_str())),
        ToolRun::Finished(output) => {
            if !output.success {
                let front = text::cat4(
                    helper_path,
                    " exited with status ",
                    output.status.as_str(),
                    ": ",
                );
                return Err(
                    Error::new(
                        text::cat4(
                            front.as_str(),
                            text::trim(output.stdout.as_str()).as_str(),
                            " ",
                            text::trim(output.stderr.as_str()).as_str(),
                        ),
                    ),
                );
            }
            match &output.stdout_fault {
                Some(fault) => Err(
                    Error::with_cause(
                        "helper output was not valid UTF-8".to_owned(),
                        fault.clone(),
                    ),
                ),
                None => Ok(output.stdout.clone()),
            }
        },
    }
}

/// The first lines of a text, at most twenty.
fn first_lines(s: &str) -> (r: String)
    ensures
        r@ == excerpt(s@),
{
    let lines = text::lines(s);
    let ghost all = lines.deep_view();
    let mut kept: Vec<String> = Vec::new();
    let mut i: usize = 0;
    assert(kept.deep_view() =~= all.take(0));
    while i < lines.len() && i < 20
        invariant
            i <= lines@.len(),
            i <= 20,
            all == lines.deep_view(),
            kept.deep_view() == all.take(i as int),
        decreases lines@.len() - i,
    {
        text::push_text(&mut kept, lines[i].as_str());
        assert(kept.deep_view() =~= all.take(i + 1));
        i = i + 1;
    }
    assert(i == all.len() ==> all.take(i as int) =~= all);
    text::join(&kept, "\n")
}

/// The helper's answer, from what came of running it and what reading its output as JSON gave.
pub fn parse_json_output<T>(helper_path: &str, run: &ToolRun, parsed: Result<T, String>) -> (r:
    Result<T, Error>)
    ensures
        match r {
            Ok(value) => reply(helper_path@, *run, parsed) == Ok::<T, ErrorView>(value),
            Err(e) => reply(helper_path@, *run, parsed) == Err::<T, ErrorView>(e@),
        },
{
    match helper_output(helper_path, run) {
        Ok(printed) => match parsed {
            Ok(value) => Ok(value),
            Err(fault) => Err(
                Error::with_cause(
                    text::cat2(
                        "failed to parse helper JSON output: ",
                        first_lines(printed.as_str()).as_str(),
                    ),
                    fault,
                ),
            ),
        },
        Err(e) => Err(e),
    }
}

/// The state of the machine, from what came of asking the helper for it.
pub fn doctor(helper_path: &str, run: &ToolRun, parsed: Result<NativeStatus, String>) -> (r: Result<
    NativeStatus,
    Error,
>)
    ensures
        match r {
            Ok(status) => reply(helper_path@, *run, parsed) == Ok::<NativeStatus, ErrorView>(status),
            Err(e) => reply(helper_path@, *run, parsed) == Err::<NativeStatus, ErrorView>(e@),
        },
{
    parse_json_output(helper_path, run, parsed)
}

/// The displays, from what came of asking the helper for them.
pub fn list_displays(helper_path: &str, run: &ToolRun, parsed: Result<NativeStatus, String>) -> (r:
    Result<NativeStatus, Error>)
    ensures
        match r {
            Ok(status) => reply(helper_path@, *run, parsed) == Ok::<NativeStatus, ErrorView>(status),
            Err(e) => reply(helper_path@, *run, parsed) == Err::<NativeStatus, ErrorView>(e@),
        },
{
    parse_json_output(helper_path, run, parsed)
}

/// The recording, from what came of letting the helper record.
pub fn record(helper_path: &str, run: &ToolRun, parsed: Result<NativeRecordResult, String>) -> (r:
    Result<NativeRecordResult, Error>)
    ensures
        match r {
            Ok(result) => reply(helper_path@, *run, parsed) == Ok::<NativeRecordResult, ErrorView>(
                result,
            ),
            Err(e) => reply(helper_path@, *run, parsed) == Err::<NativeRecordResult, ErrorView>(e@),
        },
{
    parse_json_output(helper_path, run, parsed)
}

// ---------------------------------------------------------------------------------------------
// Whether a recording can start
// ---------------------------------------------------------------------------------------------
/// Whether the microphone can be recorded.
pub open spec fn microphone_usable(status: NativeStatus) -> bool {
    &&& status.microphone_capture_supported
    &&& status.microphone_permission@ != "denied"@
    &&& status.microphone_permission@ != "restricted"@
}

/// Whether a recording in this mode can start: there is a display, unless access is still to be
/// asked for, and the microphone can be recorded, if it is wanted.
pub open spec fn capture_check(mode: InputMode, status: NativeStatus) -> Result<(), ErrorView> {
    if status.screen_capture_access && status.displays@.len() == 0 {
        Err(error::plain("no shareable displays are available for native capture"@))
    } else if mode != InputMode::SystemAudio && !microphone_usable(status) {
        Err(
            error::plain(
                "native microphone capture is unavailable: permission="@
                    + status.microphone_permission@ + ", supported="@ + bool_word(
                    status.microphone_capture_supported,
                ),
            ),
        )
    } else {
        Ok(())
    }
}

/// Whether the microphone can be recorded.
pub fn is_microphone_usable(status: &NativeStatus) -> (r: bool)
    ensures
        r == microphone_usable(*status),
{
    status.microphone_capture_supported && !text::same(
        status.microphone_permission.as_str(),
        "denied",
    ) && !text::same(status.microphone_permission.as_str(), "restricted")
}

/// Whether a recording can start.
pub fn check_capture(mode: InputMode, status: &NativeStatus) -> (r: Result<(), Error>)
    ensures
        match r {
            Ok(()) => capture_check(mode, *status) == Ok::<(), ErrorView>(()),
            Err(e) => capture_check(mode, *status) == Err::<(), ErrorView>(e@),
        },
{
    if status.screen_capture_access && status.displays.len() == 0 {
        return Err(
            Error::new("no shareable displays are available for native capture".to_owned()),
        );
    }
    if mode != InputMode::SystemAudio && !is_microphone_usable(status) {
        return Err(
            Error::new(
                text::cat4(
                    "native microphone capture is unavailable: permission=",
                    status.microphone_permission.as_str(),
                    ", supported=",
                    bool_text(status.microphone_capture_supported),
                ),
            ),
        );
    }
    Ok(())
}

// ---------------------------------------------------------------------------------------------
// Laws
// ---------------------------------------------------------------------------------------------
/// The helper is told where to put microphone audio exactly when the request says where.
pub proof fn law_microphone_path_is_passed_on(request: NativeRecordRequest)
    ensures
        request.microphone_audio_path matches Some(path) ==> record_line(request).len() >= 7
            && record_line(request)[5] == "--microphone-audio-path"@ && record_line(request)[6]
            == path@,
        request.microphone_audio_path is None && record_line(request).len() > 5 ==> record_line(
            request,
        )[5] != "--microphone-audio-path"@,
{
    reveal_strlit("--microphone-audio-path");
    reveal_strlit("--duration-seconds");
    reveal_strlit("--display-id");
    assert("--duration-seconds"@.len() < "--microphone-audio-path"@.len());
    assert("--display-id"@.len() < "--microphone-audio-path"@.len());
    let microphone = optional_argument(
        "--microphone-audio-path"@,
        request.microphone_audio_path.deep_view(),
    );
    let duration = optional_argument(
        "--duration-seconds"@,
        optional_decimal(request.duration_seconds),
    );
    let display = optional_argument("--display-id"@, optional_decimal(widened(request.display_id)));
    let line = record_line(request);
    match request.microphone_audio_path {
        Some(path) => {
            assert(request.microphone_audio_path.deep_view() == Some(path@));
            assert(line[5] == microphone[0]);
            assert(line[6] == microphone[1]);
        },
        None => {
            if request.duration_seconds is Some {
                assert(line[5] == duration[0]);
            } else if request.display_id is Some {
                assert(line[5] == display[0]);
            }
        },
    }
}

/// Once the helper's binary is as new as its source, it is not compiled again.
pub proof fn law_compiled_helper_is_up_to_date(source_modified: i128, binary_modified: i128)
    requires
        binary_modified >= source_modified,
    ensures
        !is_stale(true, Some(source_modified), Some(binary_modified)),
{
}

/// Recording system audio alone never depends on the microphone.
pub proof fn law_system_audio_needs_no_microphone(status: NativeStatus, other: NativeStatus)
    requires
        status.screen_capture_access == other.screen_capture_access,
        status.displays == other.displays,
    ensures
        capture_check(InputMode::SystemAudio, status) == capture_check(
            InputMode::SystemAudio,
            other,
        ),
        status.displays@.len() > 0 ==> capture_check(InputMode::SystemAudio, status) is Ok,
{
}

/// A recording is refused for want of displays only where access to the screen was granted.
pub proof fn law_missing_access_is_no_refusal(mode: InputMode, status: NativeStatus)
    requires
        !status.screen_capture_access,
        mode == InputMode::SystemAudio || microphone_usable(status),
    ensures
        capture_check(mode, status) == Ok::<(), ErrorView>(()),
{
}

/// The helper is compiled exactly if there is no binary, or if the source is known to be newer, or
/// is known to have a time while the binary has none.
pub proof fn law_helper_is_compiled_when_stale(
    binary_present: bool,
    source_modified: Option<i128>,
    binary_modified: Option<i128>,
)
    ensures
        !binary_present ==> is_stale(binary_present, source_modified, binary_modified),
        binary_present && source_modified is None ==> !is_stale(
            binary_present,
            source_modified,
            binary_modified,
        ),
        binary_present && source_modified is Some && binary_modified is None ==> is_stale(
            binary_present,
            source_modified,
            binary_modified,
        ),
        binary_present ==> (source_modified matches Some(source) ==> (binary_modified matches Some(
            binary,
        ) ==> (is_stale(binary_present, source_modified, binary_modified) <==> source > binary))),
{
}

/// The compiler gets the source as its input and the binary as its output.
pub proof fn law_helper_is_compiled_from_source(source: Seq<char>, binary: Seq<char>)
    ensures
        ({
            let line = compile_line(source, binary);
            &&& line.len() == 12
            &&& line[0] == "swiftc"@
            &&& line[9] == source
            &&& line[10] == "-o"@
            &&& line[11] == binary
            &&& forall|i: int| 0 <= i < 4 ==> #[trigger] line[2 * i + 1] == "-framework"@
            &&& line[2] == "ScreenCaptureKit"@
            &&& line[4] == "AVFoundation"@
            &&& line[6] == "CoreMedia"@
            &&& line[8] == "CoreGraphics"@
        }),
{
}

/// The helper was compiled exactly if the compiler ran and succeeded; else what the compiler said is
/// passed on.
pub proof fn law_compiler_decides(run: ToolRun)
    ensures
        compile_outcome(run) is Ok <==> (run matches ToolRun::Finished(output) && output.success),
        run matches ToolRun::NotStarted(reason) ==> compile_outcome(run) == Err::<(), ErrorView>(
            error::caused("failed to run xcrun swiftc"@, reason@),
        ),
        run matches ToolRun::Finished(output) ==> !output.success ==> compile_outcome(run) == Err::<
            (),
            ErrorView,
        >(
            error::plain(
                "failed to compile native ScreenCaptureKit helper:\n"@ + text::spec_trim(
                    output.stdout@,
                ) + "\n"@ + text::spec_trim(output.stderr@),
            ),
        ),
{
}

/// The helper is told all that is asked of it: where system audio goes, whether to record the
/// microphone and where that goes, for how long, and from which display; what is not asked for is
/// left out.
pub proof fn law_helper_is_told_the_request(request: NativeRecordRequest)
    ensures
        ({
            let line = record_line(request);
            let microphone: int = if request.microphone_audio_path is Some {
                2
            } else {
                0
            };
            let duration: int = if request.duration_seconds is Some {
                2
            } else {
                0
            };
            let display: int = if request.display_id is Some {
                2
            } else {
                0
            };
            &&& line.len() == 5 + microphone + duration + display
            &&& line[0] == "record"@
            &&& line[1] == "--system-audio-path"@ && line[2] == request.system_audio_path@
            &&& line[3] == "--capture-microphone"@
            &&& request.capture_microphone ==> line[4] == "true"@
            &&& !request.capture_microphone ==> line[4] == "false"@
            &&& request.microphone_audio_path matches Some(path) ==> line[5]
                == "--microphone-audio-path"@ && line[6] == path@
            &&& request.duration_seconds matches Some(seconds) ==> line[5 + microphone]
                == "--duration-seconds"@ && line[6 + microphone] == text::decimal(
                seconds as nat,
            )
            &&& request.display_id matches Some(id) ==> line[5 + microphone
                + duration] == "--display-id"@ && line[6 + microphone
                + duration] == text::decimal(id as nat)
        }),
{
    let line = record_line(request);
    let front = seq![
        "record"@,
        "--system-audio-path"@,
        request.system_audio_path@,
        "--capture-microphone"@,
        bool_word(request.capture_microphone),
    ];
    let a = optional_argument(
        "--microphone-audio-path"@,
        request.microphone_audio_path.deep_view(),
    );
    let b = optional_argument("--duration-seconds"@, optional_decimal(request.duration_seconds));
    let c = optional_argument("--display-id"@, optional_decimal(widened(request.display_id)));
    let (m, d) = (a.len() as int, b.len() as int);
    assert(line == front + a + b + c);
    if request.microphone_audio_path is Some {
        assert(line[5] == a[0] && line[6] == a[1]);
    }
    if request.duration_seconds is Some {
        assert(line[5 + m] == b[0] && line[6 + m] == b[1]);
    }
    if request.display_id is Some {
        assert(line[5 + m + d] == c[0] && line[6 + m + d] == c[1]);
    }
}

/// The helper's answer is what reading its output as JSON gave, exactly if the helper succeeded, what
/// it printed is text, and that could be read.
pub proof fn law_helper_answer_is_what_it_printed<T>(
    path: Seq<char>,
    run: ToolRun,
    parsed: Result<T, String>,
)
    ensures
        reply(path, run, parsed) is Ok <==> {
            &&& run matches ToolRun::Finished(output) && output.success
                && output.stdout_fault is None
            &&& parsed is Ok
        },
        reply(path, run, parsed) matches Ok(value) ==> parsed == Ok::<T, String>(value),
        run matches ToolRun::NotStarted(reason) ==> reply(path, run, parsed) == Err::<T, ErrorView>(
            error::caused("failed to execute "@ + path, reason@),
        ),
        run matches ToolRun::Finished(output) ==> {
            &&& !output.success ==> reply(path, run, parsed) == Err::<T, ErrorView>(
                error::plain(
                    path + " exited with status "@ + output.status@ + ": "@ + text::spec_trim(
                        output.stdout@,
                    ) + " "@ + text::spec_trim(output.stderr@),
                ),
            )
            &&& output.success ==> (output.stdout_fault matches Some(fault) ==> reply(
                path,
                run,
                parsed,
            ) == Err::<T, ErrorView>(
                error::caused("helper output was not valid UTF-8"@, fault@),
            ))
            &&& output.success && output.stdout_fault is None ==> helper_text(path, run) == Ok::<
                Seq<char>,
                ErrorView,
            >(output.stdout@) && (parsed matches Err(fault) ==> reply(path, run, parsed) == Err::<
                T,
                ErrorView,
            >(
                error::caused(
                    "failed to parse helper JSON output: "@ + excerpt(output.stdout@),
                    fault@,
                ),
            ))
        },
{
}

/// Of what cannot be read, the first twenty lines are shown, and all of them where there are no more.
pub proof fn law_excerpt_shows_first_lines(s: Seq<char>)
    ensures
        text::spec_lines(s).len() <= 20 ==> excerpt(s) == text::spec_join(
            text::spec_lines(s),
            seq!['\n'],
        ),
        text::spec_lines(s).len() > 20 ==> excerpt(s) == text::spec_join(
            text::spec_lines(s).take(20),
            seq!['\n'],
        ),
{
    reveal_strlit("\n");
    assert("\n"@ =~= seq!['\n']);
}

/// A recording can start exactly if there is a display, or access to the screen is still to be asked
/// for, and, in every mode but that of system audio alone, the microphone is supported and neither
/// denied nor restricted.
pub proof fn law_capture_can_start(mode: InputMode, status: NativeStatus)
    ensures
        capture_check(mode, status) is Ok <==> {
            &&& !status.screen_capture_access || status.displays@.len() > 0
            &&& mode != InputMode::SystemAudio ==> status.microphone_capture_supported
                && status.microphone_permission@ != "denied"@ && status.microphone_permission@
                != "restricted"@
        },
        status.screen_capture_access && status.displays@.len() == 0 ==> capture_check(mode, status)
            == Err::<(), ErrorView>(
            error::plain("no shareable displays are available for native capture"@),
        ),
        capture_check(mode, status) is Err && !(status.screen_capture_access
            && status.displays@.len() == 0) ==> capture_check(mode, status) == Err::<
            (),
            ErrorView,
        >(
            error::plain(
                "native microphone capture is unavailable: permission="@
                    + status.microphone_permission@ + ", supported="@ + (
                if status.microphone_capture_supported {
                    "true"@
                } else {
                    "false"@
                }),
            ),
        ),
{
}

/// Every platform but macOS is refused.
pub proof fn law_only_macos_is_supported(macos: bool)
    ensures
        platform_check(macos) is Ok <==> macos,
        platform_check(false) == Err::<(), ErrorView>(
            error::plain("scribecli currently supports macOS only"@),
        ),
{
}

/// The helper's source and binary are two files in a directory of their own among the program's
/// state.
pub proof fn law_helper_lies_in_its_directory(files: HelperFiles, base: Seq<char>)
    requires
        files.lie_under(base),
    ensures
        path::components(files.dir@) == path::components(base).push("native-helper"@),
        path::components(files.source_path@) == path::components(files.dir@).push(
            "ScribeCapture.swift"@,
        ),
        path::components(files.binary_path@) == path::components(files.dir@).push(
            "scribecapture"@,
        ),
        files.source_path@ != files.binary_path@,
{
    reveal_strlit("native-helper");
    reveal_strlit("ScribeCapture.swift");
    reveal_strlit("scribecapture");
    assert("ScribeCapture.swift"@.len() == 19);
    assert("scribecapture"@.len() == 13);
    path::law_join_adds_component(base, "native-helper"@);
    path::law_join_adds_component(files.dir@, "ScribeCapture.swift"@);
    path::law_join_adds_component(files.dir@, "scribecapture"@);
    path::law_names_are_told_apart(files.dir@, "ScribeCapture.swift"@, "scribecapture"@);
}

/// The helper's source is written exactly if it does not stand there already, letter for letter.
pub proof fn law_source_is_written_when_it_differs(existing: Option<Seq<char>>, source: Seq<char>)
    ensures
        is_outdated(existing, source) <==> existing != Some(source),
{
}

} // verus!
