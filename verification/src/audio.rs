//! Audio files: what ffmpeg is asked to do with them, and what its answers mean.
use crate::error;
use crate::error::{Error, ErrorView};
use crate::text;
use crate::tool;
use crate::tool::ToolRun;
use vstd::prelude::*;

verus! {

/// What asking the ffmpeg at `path` for its version says of it: the first line that it printed, or
/// why it does not work.
pub open spec fn version_of(path: Seq<char>, run: ToolRun) -> Result<Seq<char>, ErrorView> {
    match run {
        ToolRun::NotStarted(reason) => Err(tool::not_started(path, reason@)),
        ToolRun::Finished(output) => if output.success {
            Ok(text::spec_first_line(output.stdout@))
        } else {
            Err(error::plain(path + " exited with status "@ + output.status@))
        },
    }
}

/// The arguments with which ffmpeg is asked for its version.
pub fn ffmpeg_version_arguments() -> (r: Vec<String>)
    ensures
        r.deep_view() == seq!["-version"@],
{
    let mut arguments: Vec<String> = Vec::new();
    text::push_text(&mut arguments, "-version");
    assert(arguments.deep_view() =~= seq!["-version"@]);
    arguments
}

/// The version of ffmpeg, from what came of asking for it.
pub fn ffmpeg_version(ffmpeg_path: &str, run: &ToolRun) -> (r: Result<String, Error>)
    ensures
        match r {
            Ok(version) => version_of(ffmpeg_path@, *run) == Ok::<Seq<char>, ErrorView>(version@),
            Err(e) => version_of(ffmpeg_path@, *run) == Err::<Seq<char>, ErrorView>(e@),
        },
{
    match run {
        ToolRun::NotStarted(reason) => Err(tool::not_started_error(ffmpeg_path, reason.as_str())),
        ToolRun::Finished(output) => if output.success {
            Ok(text::first_line(output.stdout.as_str()))
        } else {
            Err(
                Error::new(
                    text::cat3(ffmpeg_path, " exited with status ", output.status.as_str()),
                ),
            )
        },
    }
}

/// How several audio files become one.
#[derive(Debug)]
pub enum MixPlan {
    /// By copying this file, the only one.
    CopyFrom(String),
    /// By running ffmpeg with these arguments.
    RunFfmpeg(Vec<String>),
}

/// What a [`MixPlan`] holds.
pub enum MixView {
    CopyFrom(Seq<char>),
    RunFfmpeg(Seq<Seq<char>>),
}

impl View for MixPlan {
    type V = MixView;

    open spec fn view(&self) -> MixView {
        match self {
            MixPlan::CopyFrom(path) => MixView::CopyFrom(path@),
            MixPlan::RunFfmpeg(arguments) => MixView::RunFfmpeg(arguments.deep_view()),
        }
    }
}

/// The arguments that name the inputs.
pub open spec fn input_arguments(inputs: Seq<Seq<char>>) -> Seq<Seq<char>>
    decreases inputs.len(),
{
    if inputs.len() == 0 {
        Seq::empty()
    } else {
        input_arguments(inputs.drop_last()).push("-i"@).push(inputs.last())
    }
}

/// The names by which a filter knows the audio of the first `count` inputs.
pub open spec fn input_labels(count: nat) -> Seq<char>
    decreases count,
{
    if count == 0 {
        Seq::empty()
    } else {
        input_labels((count - 1) as nat) + "["@ + text::decimal((count - 1) as nat) + ":a]"@
    }
}

/// The filter that mixes the audio of `count` inputs.
pub open spec fn mix_filter(count: nat) -> Seq<char> {
    input_labels(count) + "amix=inputs="@ + text::decimal(count)
        + ":duration=longest:dropout_transition=0[aout]"@
}

/// How `inputs` become `output`.
pub open spec fn mix_plan(inputs: Seq<Seq<char>>, output: Seq<char>) -> Result<
    MixView,
    ErrorView,
> {
    if inputs.len() == 0 {
        Err(error::plain("no audio inputs were provided for mixing"@))
    } else if inputs.len() == 1 {
        Ok(MixView::CopyFrom(inputs[0]))
    } else {
        Ok(
            MixView::RunFfmpeg(
                seq!["-hide_banner"@, "-loglevel"@, "error"@, "-y"@] + input_arguments(inputs)
                    + seq!["-filter_complex"@, mix_filter(inputs.len()), "-map"@, "[aout]"@, output],
            ),
        )
    }
}

/// The filter that mixes the audio of several inputs.
fn mix_filter_text(count: usize) -> (r: String)
    ensures
        r@ == mix_filter(count as nat),
{
    let mut labels = String::new();
    let mut i: usize = 0;
    assert(labels@ =~= input_labels(0));
    while i < count
        invariant
            i <= count,
            labels@ == input_labels(i as nat),
        decreases count - i,
    {
        labels.append("[");
        labels.append(text::decimal_text(i as u64).as_str());
        labels.append(":a]");
        i = i + 1;
    }
    text::cat4(
        labels.as_str(),
        "amix=inputs=",
        text::decimal_text(count as u64).as_str(),
        ":duration=longest:dropout_transition=0[aout]",
    )
}

/// How several audio files become one.
pub fn mix_audio_files(input_paths: &Vec<String>, output_path: &str) -> (r: Result<MixPlan, Error>)
    ensures
        match r {
            Ok(plan) => mix_plan(input_paths.deep_view(), output_path@) == Ok::<MixView, ErrorView>(
                plan@,
            ),
            Err(e) => mix_plan(input_paths.deep_view(), output_path@) == Err::<MixView, ErrorView>(
                e@,
            ),
        },
{
    if input_paths.len() == 0 {
        return Err(Error::new("no audio inputs were provided for mixing".to_owned()));
    }
    if input_paths.len() == 1 {
        return Ok(MixPlan::CopyFrom(input_paths[0].clone()));
    }
    let ghost all = input_paths.deep_view();
    let ghost front = seq!["-hide_banner"@, "-loglevel"@, "error"@, "-y"@];
    let mut arguments: Vec<String> = Vec::new();
    text::push_text(&mut arguments, "-hide_banner");
    text::push_text(&mut arguments, "-loglevel");
    text::push_text(&mut arguments, "error");
    text::push_text(&mut arguments, "-y");
    assert(arguments.deep_view() =~= front + input_arguments(all.take(0)));
    let mut i: usize = 0;
    while i < input_paths.len()
        invariant
            i <= input_paths@.len(),
            all == input_paths.deep_view(),
            arguments.deep_view() == front + input_arguments(all.take(i as int)),
        decreases input_paths@.len() - i,
    {
        assert(all.take(i + 1).drop_last() =~= all.take(i as int));
        assert(all.take(i + 1).last() == input_paths@[i as int]@);
        text::push_text(&mut arguments, "-i");
        text::push_text(&mut arguments, input_paths[i].as_str());
        assert(arguments.deep_view() =~= front + input_arguments(all.take(i + 1)));
        i = i + 1;
    }
    assert(all.take(i as int) =~= all);
    text::push_text(&mut arguments, "-filter_complex");
    text::push_text(&mut arguments, mix_filter_text(input_paths.len()).as_str());
    text::push_text(&mut arguments, "-map");
    text::push_text(&mut arguments, "[aout]");
    text::push_text(&mut arguments, output_path);
    assert(arguments.deep_view() =~= front + input_arguments(all) + seq![
        "-filter_complex"@,
        mix_filter(all.len()),
        "-map"@,
        "[aout]"@,
        output_path@,
    ]);
    Ok(MixPlan::RunFfmpeg(arguments))
}

/// What came of mixing with the ffmpeg at `path`.
pub open spec fn mix_outcome(path: Seq<char>, run: ToolRun) -> Result<(), ErrorView> {
    match run {
        ToolRun::NotStarted(reason) => Err(tool::not_started(path, reason@)),
        ToolRun::Finished(output) => if output.success {
            Ok(())
        } else {
            Err(
                error::plain(
                    "failed to mix audio files: "@ + text::spec_trim(output.spec_combined()),
                ),
            )
        },
    }
}

/// Whether mixing succeeded, from what came of running ffmpeg.
pub fn check_mix(ffmpeg_path: &str, run: &ToolRun) -> (r: Result<(), Error>)
    ensures
        match r {
            Ok(()) => mix_outcome(ffmpeg_path@, *run) == Ok::<(), ErrorView>(()),
            Err(e) => mix_outcome(ffmpeg_path@, *run) == Err::<(), ErrorView>(e@),
        },
{
    match run {
        ToolRun::NotStarted(reason) => Err(tool::not_started_error(ffmpeg_path, reason.as_str())),
        ToolRun::Finished(output) => if output.success {
            Ok(())
        } else {
            Err(
                Error::new(
                    text::cat2(
                        "failed to mix audio files: ",
                        text::trim(output.combined().as_str()).as_str(),
                    ),
                ),
            )
        },
    }
}

// ---------------------------------------------------------------------------------------------
// Laws
// ---------------------------------------------------------------------------------------------
proof fn lemma_input_arguments(inputs: Seq<Seq<char>>)
    ensures
        input_arguments(inputs).len() == 2 * inputs.len(),
        forall|i: int|
            0 <= i < inputs.len() ==> {
                &&& #[trigger] input_arguments(inputs)[2 * i] == "-i"@
                &&& input_arguments(inputs)[2 * i + 1] == inputs[i]
            },
    decreases inputs.len(),
{
    if inputs.len() > 0 {
        lemma_input_arguments(inputs.drop_last());
        let rest = input_arguments(inputs.drop_last());
        assert forall|i: int| 0 <= i < inputs.len() implies {
            &&& #[trigger] input_arguments(inputs)[2 * i] == "-i"@
            &&& input_arguments(inputs)[2 * i + 1] == inputs[i]
        } by {
            if i < inputs.len() - 1 {
                assert(rest[2 * i] == "-i"@);
                assert(input_arguments(inputs)[2 * i + 1] == rest[2 * i + 1]);
            }
        }
    }
}

/// Where audio is mixed, every input is handed to ffmpeg, each once and in order, and the last
/// argument is the output.
pub proof fn law_every_input_is_mixed(inputs: Seq<Seq<char>>, output: Seq<char>)
    requires
        inputs.len() >= 2,
    ensures
        mix_plan(inputs, output) matches Ok(MixView::RunFfmpeg(arguments)) && {
            &&& arguments.len() == 4 + 2 * inputs.len() + 5
            &&& forall|i: int|
                0 <= i < inputs.len() ==> {
                    &&& #[trigger] arguments[4 + 2 * i] == "-i"@
                    &&& arguments[5 + 2 * i] == inputs[i]
                }
            &&& arguments.last() == output
        },
{
    lemma_input_arguments(inputs);
    let named = input_arguments(inputs);
    let arguments = mix_plan(inputs, output)->Ok_0->RunFfmpeg_0;
    assert forall|i: int| 0 <= i < inputs.len() implies {
        &&& #[trigger] arguments[4 + 2 * i] == "-i"@
        &&& arguments[5 + 2 * i] == inputs[i]
    } by {
        assert(named[2 * i] == "-i"@);
        assert(arguments[5 + 2 * i] == named[2 * i + 1]);
    }
}

/// ffmpeg works exactly if it ran and succeeded; its version is then the first line of what it wrote
/// to its standard output, whatever else it wrote.
pub proof fn law_version_is_first_line(path: Seq<char>, run: ToolRun)
    ensures
        version_of(path, run) is Ok <==> (run matches ToolRun::Finished(output) && output.success),
        run matches ToolRun::Finished(output) ==> {
            &&& output.success ==> version_of(path, run) == Ok::<Seq<char>, ErrorView>(
                text::spec_first_line(output.stdout@),
            )
            &&& !output.success ==> version_of(path, run) == Err::<Seq<char>, ErrorView>(
                error::plain(path + " exited with status "@ + output.status@),
            )
        },
        run matches ToolRun::NotStarted(reason) ==> version_of(path, run) == Err::<
            Seq<char>,
            ErrorView,
        >(error::caused("failed to execute "@ + path, reason@)),
{
}

/// Nothing to mix is refused, and one file is copied as it is, whatever the output is called.
pub proof fn law_one_input_is_copied(input: Seq<char>, output: Seq<char>)
    ensures
        mix_plan(Seq::empty(), output) == Err::<MixView, ErrorView>(
            error::plain("no audio inputs were provided for mixing"@),
        ),
        mix_plan(seq![input], output) == Ok::<MixView, ErrorView>(MixView::CopyFrom(input)),
{
}

/// ffmpeg mixes quietly, over what stands at the output: its filter names the audio of every input
/// and how many there are, and what comes of the filter is what is written.
pub proof fn law_mix_filter_takes_every_input(inputs: Seq<Seq<char>>, output: Seq<char>)
    requires
        inputs.len() >= 2,
    ensures
        mix_plan(inputs, output) matches Ok(MixView::RunFfmpeg(arguments)) && {
            let n = 4 + 2 * inputs.len() as int;
            &&& arguments.take(4) == seq!["-hide_banner"@, "-loglevel"@, "error"@, "-y"@]
            &&& arguments[n] == "-filter_complex"@
            &&& arguments[n + 1] == input_labels(inputs.len()) + "amix=inputs="@ + text::decimal(
                inputs.len(),
            ) + ":duration=longest:dropout_transition=0[aout]"@
            &&& arguments[n + 2] == "-map"@
            &&& arguments[n + 3] == "[aout]"@
            &&& arguments[n + 4] == output
        },
        input_labels(0) == Seq::<char>::empty(),
        forall|k: nat|
            #[trigger] input_labels(k + 1) == input_labels(k) + "["@ + text::decimal(k) + ":a]"@,
{
    lemma_input_arguments(inputs);
    let arguments = mix_plan(inputs, output)->Ok_0->RunFfmpeg_0;
    assert(arguments.take(4) =~= seq!["-hide_banner"@, "-loglevel"@, "error"@, "-y"@]);
}

/// Mixing succeeded exactly if ffmpeg ran and succeeded; else all that it wrote is passed on.
pub proof fn law_mixer_decides(path: Seq<char>, run: ToolRun)
    ensures
        mix_outcome(path, run) is Ok <==> (run matches ToolRun::Finished(output) && output.success),
        run matches ToolRun::Finished(output) ==> !output.success ==> mix_outcome(path, run)
            == Err::<(), ErrorView>(
            error::plain(
                "failed to mix audio files: "@ + text::spec_trim(output.stdout@ + output.stderr@),
            ),
        ),
        run matches ToolRun::NotStarted(reason) ==> mix_outcome(path, run) == Err::<(), ErrorView>(
            error::caused("failed to execute "@ + path, reason@),
        ),
{
}

} // verus!
