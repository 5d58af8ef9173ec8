//! Reading what the whisper.cpp command line tool prints.
use crate::error;
use crate::error::{Error, ErrorView};
use crate::session::{SegmentView, Transcript, TranscriptSegment, TranscriptView};
use crate::text;
use crate::tool;
use crate::tool::ToolRun;
use vstd::prelude::*;

verus! {

// ---------------------------------------------------------------------------------------------
// The grammar of a timestamped line
// ---------------------------------------------------------------------------------------------
/// The pattern of a timestamped line: two clock times in brackets, then what was said.
pub const SEGMENT_PATTERN: &'static str =
    r"^\[(\d{2}):(\d{2}):(\d{2})\.(\d{3}) --> (\d{2}):(\d{2}):(\d{2})\.(\d{3})\]\s*(.+)$";

/// Whether the class `\d` of the `regex` crate holds `c`, for a character `c` that is not ASCII.
pub uninterp spec fn is_wide_digit(c: char) -> bool;

/// The class `\d`: the ASCII digits, and outside ASCII the decimal digits of other scripts.
pub open spec fn is_decimal_number(c: char) -> bool {
    text::is_digit(c) || (c >= '\u{80}' && is_wide_digit(c))
}

/// The positions of the digits in a timestamped line.
pub open spec fn is_clock_position(i: int) -> bool {
    ||| 1 <= i < 3
    ||| 4 <= i < 6
    ||| 7 <= i < 9
    ||| 10 <= i < 13
    ||| 18 <= i < 20
    ||| 21 <= i < 23
    ||| 24 <= i < 26
    ||| 27 <= i < 30
}

/// Whether `line` has the brackets, the points, the colons and the arrow of a timestamped line in
/// their places, and something behind them.
pub open spec fn has_clock_frame(line: Seq<char>) -> bool {
    &&& line.len() > 31
    &&& line[0] == '['
    &&& line[3] == ':'
    &&& line[6] == ':'
    &&& line[9] == '.'
    &&& line[13] == ' '
    &&& line[14] == '-'
    &&& line[15] == '-'
    &&& line[16] == '>'
    &&& line[17] == ' '
    &&& line[20] == ':'
    &&& line[23] == ':'
    &&& line[26] == '.'
    &&& line[30] == ']'
}

/// What `\s*(.+)$` captures of `tail`: all of it behind the white space in front, which must be on
/// one line; of white space alone, its last character.
pub open spec fn tail_group(tail: Seq<char>) -> Option<Seq<char>> {
    let rest = text::spec_trim_start(tail);
    if rest.len() > 0 {
        if rest.contains('\n') {
            None
        } else {
            Some(rest)
        }
    } else if tail.len() > 0 && tail.last() != '\n' {
        Some(seq![tail.last()])
    } else {
        None
    }
}

/// What the groups of the pattern capture of `line`, the whole match first, where it matches.
pub open spec fn segment_groups(line: Seq<char>) -> Option<Seq<Option<Seq<char>>>> {
    if has_clock_frame(line) && (forall|i: int|
        is_clock_position(i) ==> is_decimal_number(#[trigger] line[i])) && tail_group(
        line.skip(31),
    ) is Some {
        Some(
            seq![
                Some(line),
                Some(line.subrange(1, 3)),
                Some(line.subrange(4, 6)),
                Some(line.subrange(7, 9)),
                Some(line.subrange(10, 13)),
                Some(line.subrange(18, 20)),
                Some(line.subrange(21, 23)),
                Some(line.subrange(24, 26)),
                Some(line.subrange(27, 30)),
                tail_group(line.skip(31)),
            ],
        )
    } else {
        None
    }
}

/// `regex::Regex::new` and `regex::Regex::captures`: what the groups of the pattern of a
/// timestamped line capture of `line`, group by group, or nothing where it does not match.
///
/// Taken from the syntax that the crate documents: `\d` is a decimal digit of any script, `\s` is
/// white space, `.` is any character but a line feed, repetition is greedy, and `^` and `$` are the
/// ends of the text. Which characters beyond ASCII are decimal digits is left open.
#[verifier::external_body]
fn capture_groups(pattern: &str, line: &str) -> (r: Option<Vec<Option<String>>>)
    requires
        pattern@ == SEGMENT_PATTERN@,
    ensures
        r.deep_view() == segment_groups(line@),
        r is Some ==> forall|i: int|
            is_clock_position(i) && (#[trigger] line@[i]) >= '\u{80}' ==> is_wide_digit(line@[i]),
{
    let groups = regex::Regex::new(pattern).expect("regex").captures(line)?;
    Some(groups.iter().map(|group| group.map(|found| found.as_str().to_string())).collect())
}

// ---------------------------------------------------------------------------------------------
// From captured groups to a segment
// ---------------------------------------------------------------------------------------------
/// The number in group `i`: 0 where the group captured nothing, or no number that fits.
pub open spec fn field_value(groups: Seq<Option<Seq<char>>>, i: int) -> nat {
    if 0 <= i < groups.len() {
        match groups[i] {
            Some(digits) => match text::spec_parse(digits, u64::MAX as nat) {
                Ok(n) => n,
                Err(_) => 0,
            },
            None => 0,
        }
    } else {
        0
    }
}

/// The time whose hours stand in group `start`, with minutes, seconds and milliseconds in the three
/// groups behind it, in milliseconds.
pub open spec fn timestamp_ms(groups: Seq<Option<Seq<char>>>, start: int) -> nat {
    ((field_value(groups, start) * 60 + field_value(groups, start + 1)) * 60 + field_value(
        groups,
        start + 2,
    )) * 1000 + field_value(groups, start + 3)
}

/// The segment that the groups of a timestamped line describe, with the first speaker's label.
pub open spec fn segment_of(groups: Seq<Option<Seq<char>>>) -> SegmentView {
    SegmentView {
        start_ms: timestamp_ms(groups, 1),
        end_ms: timestamp_ms(groups, 5),
        text: if groups.len() > 9 && groups[9] is Some {
            text::spec_trim(groups[9]->0)
        } else {
            Seq::empty()
        },
        speaker: "speaker_1"@,
        speaker_confidence_percent: 20,
    }
}

fn field(groups: &Vec<Option<String>>, i: usize) -> (r: u64)
    ensures
        r == field_value(groups.deep_view(), i as int),
{
    if i < groups.len() {
        assert(groups.deep_view()[i as int] == groups@[i as int].deep_view());
        match &groups[i] {
            Some(digits) => match text::parse_u64(digits.as_str()) {
                Ok(n) => n,
                Err(_) => 0,
            },
            None => 0,
        }
    } else {
        0
    }
}

/// The time in the four groups from `start` on, in milliseconds.
pub fn parse_timestamp_ms(groups: &Vec<Option<String>>, start: usize) -> (r: u64)
    requires
        start <= usize::MAX - 3,
        timestamp_ms(groups.deep_view(), start as int) <= u64::MAX,
    ensures
        r == timestamp_ms(groups.deep_view(), start as int),
{
    let hours = field(groups, start);
    let minutes = field(groups, start + 1);
    let seconds = field(groups, start + 2);
    let millis = field(groups, start + 3);
    (((hours * 60 + minutes) * 60) + seconds) * 1000 + millis
}

/// The segment that the groups of a timestamped line describe.
pub fn segment_from_groups(groups: &Vec<Option<String>>) -> (r: TranscriptSegment)
    requires
        timestamp_ms(groups.deep_view(), 1) <= u64::MAX,
        timestamp_ms(groups.deep_view(), 5) <= u64::MAX,
    ensures
        r.deep_view() == segment_of(groups.deep_view()),
{
    let start_ms = parse_timestamp_ms(groups, 1);
    let end_ms = parse_timestamp_ms(groups, 5);
    let text = if groups.len() > 9 {
        assert(groups.deep_view()[9] == groups@[9].deep_view());
        match &groups[9] {
            Some(said) => text::trim(said.as_str()),
            None => String::new(),
        }
    } else {
        String::new()
    };
    TranscriptSegment {
        start_ms,
        end_ms,
        text,
        speaker: "speaker_1".to_owned(),
        speaker_confidence_percent: 20,
    }
}

proof fn lemma_short_number(digits: Seq<char>, max: nat)
    requires
        digits.len() <= 3,
    ensures
        text::spec_parse(digits, max) matches Ok(n) ==> n <= 999,
{
    reveal_with_fuel(text::read_digits, 4);
}

/// The clock times of a timestamped line fit into 64 bits.
proof fn lemma_clock_fits(line: Seq<char>)
    ensures
        segment_groups(line) matches Some(groups) ==> timestamp_ms(groups, 1) <= u64::MAX
            && timestamp_ms(groups, 5) <= u64::MAX,
{
    if let Some(groups) = segment_groups(line) {
        assert forall|i: int| 1 <= i <= 8 implies field_value(groups, i) <= 999 by {
            lemma_short_number(groups[i]->0, u64::MAX as nat);
        }
        assert(field_value(groups, 1) <= 999 && field_value(groups, 2) <= 999 && field_value(
            groups,
            3,
        ) <= 999 && field_value(groups, 4) <= 999);
        assert(field_value(groups, 5) <= 999 && field_value(groups, 6) <= 999 && field_value(
            groups,
            7,
        ) <= 999 && field_value(groups, 8) <= 999);
    }
}

// ---------------------------------------------------------------------------------------------
// From printed text to a transcript
// ---------------------------------------------------------------------------------------------
/// The segment that one printed line describes, if it is a timestamped line.
pub open spec fn segment_of_line(line: Seq<char>) -> Option<SegmentView> {
    match segment_groups(text::spec_trim(line)) {
        Some(groups) => Some(segment_of(groups)),
        None => None,
    }
}

/// The segments that printed lines describe, in order.
pub open spec fn segments_of(lines: Seq<Seq<char>>) -> Seq<SegmentView>
    decreases lines.len(),
{
    if lines.len() == 0 {
        Seq::empty()
    } else {
        match segment_of_line(lines.last()) {
            Some(segment) => segments_of(lines.drop_last()).push(segment),
            None => segments_of(lines.drop_last()),
        }
    }
}

/// The texts that are not empty, in order.
pub open spec fn spoken(texts: Seq<Seq<char>>) -> Seq<Seq<char>>
    decreases texts.len(),
{
    if texts.len() == 0 {
        Seq::empty()
    } else if texts.last().len() > 0 {
        spoken(texts.drop_last()).push(texts.last())
    } else {
        spoken(texts.drop_last())
    }
}

/// The texts that are not empty, with a space between each two.
pub open spec fn joined(texts: Seq<Seq<char>>) -> Seq<char> {
    text::spec_join(spoken(texts), " "@)
}

/// The mark that whisper.cpp leaves where it takes the speaker to change.
pub open spec fn turn_marker() -> Seq<char> {
    "[SPEAKER_TURN]"@
}

/// A segment's text without turn markers and without white space around it.
pub open spec fn normalized(said: Seq<char>) -> Seq<char> {
    text::spec_trim(text::spec_replace(said, turn_marker(), ""@))
}

/// The normalized texts of segments.
pub open spec fn normalized_texts(segments: Seq<SegmentView>) -> Seq<Seq<char>> {
    Seq::new(segments.len(), |i: int| normalized(segments[i].text))
}

/// The trimmed lines.
pub open spec fn trimmed_lines(lines: Seq<Seq<char>>) -> Seq<Seq<char>> {
    Seq::new(lines.len(), |i: int| text::spec_trim(lines[i]))
}

/// The transcript that printed text stands for: its timestamped lines, or, where it has none, all
/// of its lines as plain text.
pub open spec fn transcript_of(output: Seq<char>) -> TranscriptView {
    let lines = text::spec_lines(output);
    let segments = segments_of(lines);
    if segments.len() == 0 {
        TranscriptView { text: joined(trimmed_lines(lines)), segments }
    } else {
        TranscriptView { text: joined(normalized_texts(segments)), segments }
    }
}

fn join_spoken(texts: &Vec<String>) -> (r: String)
    ensures
        r@ == joined(texts.deep_view()),
{
    let mut kept: Vec<String> = Vec::new();
    let mut i: usize = 0;
    let ghost all = texts.deep_view();
    assert(all.take(0) =~= Seq::<Seq<char>>::empty());
    assert(kept.deep_view() =~= spoken(all.take(0)));
    while i < texts.len()
        invariant
            i <= texts@.len(),
            all == texts.deep_view(),
            kept.deep_view() == spoken(all.take(i as int)),
        decreases texts@.len() - i,
    {
        assert(all.take(i + 1).drop_last() =~= all.take(i as int));
        assert(all.take(i + 1).last() == texts@[i as int]@);
        let ghost before = kept.deep_view();
        if !texts[i].as_str().is_empty() {
            kept.push(texts[i].clone());
            assert(kept.deep_view() =~= before.push(texts@[i as int]@));
        }
        i = i + 1;
    }
    assert(all.take(i as int) =~= all);
    text::join(&kept, " ")
}

/// A segment's text without turn markers and without white space around it.
pub fn normalize_segment_text(said: &str) -> (r: String)
    ensures
        r@ == normalized(said@),
{
    proof {
        reveal_strlit("[SPEAKER_TURN]");
    }
    let unmarked = text::replace(said, "[SPEAKER_TURN]", "");
    text::trim(unmarked.as_str())
}

/// The transcript that the tool's printed text stands for.
pub fn parse_transcript_output(output: &str) -> (r: Transcript)
    ensures
        r@ == transcript_of(output@),
{
    let lines = text::lines(output);
    let ghost all = lines.deep_view();
    let mut segments: Vec<TranscriptSegment> = Vec::new();
    let mut i: usize = 0;
    assert(all.take(0) =~= Seq::<Seq<char>>::empty());
    assert(segments.deep_view() =~= segments_of(all.take(0)));
    while i < lines.len()
        invariant
            i <= lines@.len(),
            all == lines.deep_view(),
            segments.deep_view() == segments_of(all.take(i as int)),
        decreases lines@.len() - i,
    {
        assert(all.take(i + 1).drop_last() =~= all.take(i as int));
        assert(all.take(i + 1).last() == lines@[i as int]@);
        let line = text::trim(lines[i].as_str());
        if let Some(groups) = capture_groups(SEGMENT_PATTERN, line.as_str()) {
            proof {
                lemma_clock_fits(line@);
            }
            let ghost before = segments.deep_view();
            let segment = segment_from_groups(&groups);
            let ghost found = segment.deep_view();
            segments.push(segment);
            assert(segments.deep_view() =~= before.push(found));
        }
        i = i + 1;
    }
    assert(all.take(i as int) =~= all);

    let mut texts: Vec<String> = Vec::new();
    if segments.len() == 0 {
        let mut k: usize = 0;
        while k < lines.len()
            invariant
                k <= lines@.len(),
                all == lines.deep_view(),
                texts.deep_view() =~= trimmed_lines(all).take(k as int),
            decreases lines@.len() - k,
        {
            let ghost before = texts.deep_view();
            texts.push(text::trim(lines[k].as_str()));
            assert(texts.deep_view() =~= before.push(text::spec_trim(all[k as int])));
            k = k + 1;
        }
        assert(trimmed_lines(all).take(k as int) =~= trimmed_lines(all));
    } else {
        let ghost found = segments.deep_view();
        let mut k: usize = 0;
        while k < segments.len()
            invariant
                k <= segments@.len(),
                found == segments.deep_view(),
                texts.deep_view() =~= normalized_texts(found).take(k as int),
            decreases segments@.len() - k,
        {
            let ghost before = texts.deep_view();
            texts.push(normalize_segment_text(segments[k].text.as_str()));
            assert(texts.deep_view() =~= before.push(normalized(found[k as int].text)));
            k = k + 1;
        }
        assert(normalized_texts(found).take(k as int) =~= normalized_texts(found));
    }
    let text = join_spoken(&texts);
    Transcript { text, segments }
}

// ---------------------------------------------------------------------------------------------
// Speaker labels
// ---------------------------------------------------------------------------------------------
/// The index of the first segment with a turn marker, or the number of segments.
pub open spec fn first_turn(segments: Seq<SegmentView>) -> int
    decreases segments.len(),
{
    if segments.len() == 0 || text::spec_contains(segments[0].text, turn_marker()) {
        0
    } else {
        1 + first_turn(segments.skip(1))
    }
}

proof fn lemma_first_turn(segments: Seq<SegmentView>)
    ensures
        0 <= first_turn(segments) <= segments.len(),
        first_turn(segments) < segments.len() ==> text::spec_contains(
            segments[first_turn(segments)].text,
            turn_marker(),
        ),
        forall|i: int|
            0 <= i < first_turn(segments) ==> !text::spec_contains(
                (#[trigger] segments[i]).text,
                turn_marker(),
            ),
    decreases segments.len(),
{
    if segments.len() > 0 && !text::spec_contains(segments[0].text, turn_marker()) {
        lemma_first_turn(segments.skip(1));
        assert forall|i: int| 0 <= i < first_turn(segments) implies !text::spec_contains(
            (#[trigger] segments[i]).text,
            turn_marker(),
        ) by {
            if i > 0 {
                assert(segments.skip(1)[i - 1] == segments[i]);
            }
        }
    }
}

/// Whether segment `i` is the second speaker's: from the first turn on the two take turns, and the
/// segment with the first turn is still the first speaker's.
pub open spec fn is_second_speaker(segments: Seq<SegmentView>, i: int) -> bool {
    i > first_turn(segments) && (i - first_turn(segments)) % 2 == 1
}

/// The segments with normalized texts and speaker labels. A label is trusted at 20 percent before
/// the first turn, and at 45 percent from it on.
pub open spec fn labelled(segments: Seq<SegmentView>) -> Seq<SegmentView> {
    Seq::new(
        segments.len(),
        |i: int|
            SegmentView {
                start_ms: segments[i].start_ms,
                end_ms: segments[i].end_ms,
                text: normalized(segments[i].text),
                speaker: if is_second_speaker(segments, i) {
                    "speaker_2"@
                } else {
                    "speaker_1"@
                },
                speaker_confidence_percent: if i < first_turn(segments) {
                    20
                } else {
                    45
                },
            },
    )
}

/// A transcript with its segments labelled, and its text made of theirs.
pub open spec fn labelled_transcript(transcript: TranscriptView) -> TranscriptView {
    TranscriptView {
        text: joined(normalized_texts(transcript.segments)),
        segments: labelled(transcript.segments),
    }
}

/// Labels the segments by speaker, going by the turn markers, which it takes out of the texts.
pub fn apply_basic_speaker_labels(transcript: &mut Transcript)
    ensures
        final(transcript)@ == labelled_transcript(old(transcript)@),
{
    let ghost all = transcript.segments.deep_view();
    proof {
        lemma_first_turn(all);
    }
    let mut second: bool = false;
    let mut saw_turn_marker: bool = false;
    let mut segments: Vec<TranscriptSegment> = Vec::new();
    let mut texts: Vec<String> = Vec::new();
    let mut i: usize = 0;
    while i < transcript.segments.len()
        invariant
            i <= transcript.segments@.len(),
            all == transcript.segments.deep_view(),
            saw_turn_marker == (first_turn(all) < i),
            second == is_second_speaker(all, i as int),
            segments.deep_view() =~= labelled(all).take(i as int),
            texts.deep_view() =~= normalized_texts(all).take(i as int),
            0 <= first_turn(all) <= all.len(),
            first_turn(all) < all.len() ==> text::spec_contains(
                all[first_turn(all)].text,
                turn_marker(),
            ),
            forall|k: int|
                0 <= k < first_turn(all) ==> !text::spec_contains(
                    (#[trigger] all[k]).text,
                    turn_marker(),
                ),
        decreases transcript.segments@.len() - i,
    {
        let segment = &transcript.segments[i];
        assert(all[i as int] == segment.deep_view());
        if text::contains(segment.text.as_str(), "[SPEAKER_TURN]") {
            saw_turn_marker = true;
        }
        let said = normalize_segment_text(segment.text.as_str());
        let ghost before = segments.deep_view();
        let ghost before_texts = texts.deep_view();
        texts.push(said.clone());
        let next = TranscriptSegment {
            start_ms: segment.start_ms,
            end_ms: segment.end_ms,
            text: said,
            speaker: if second {
                "speaker_2".to_owned()
            } else {
                "speaker_1".to_owned()
            },
            speaker_confidence_percent: if saw_turn_marker {
                45
            } else {
                20
            },
        };
        let ghost shown = next.deep_view();
        segments.push(next);
        assert(shown == labelled(all)[i as int]);
        assert(segments.deep_view() =~= before.push(shown));
        assert(texts.deep_view() =~= before_texts.push(normalized(all[i as int].text)));
        if saw_turn_marker {
            second = !second;
        }
        i = i + 1;
    }
    assert(labelled(all).take(i as int) =~= labelled(all));
    assert(normalized_texts(all).take(i as int) =~= normalized_texts(all));
    let text = join_spoken(&texts);
    *transcript = Transcript { text, segments };
}

// ---------------------------------------------------------------------------------------------
// Running the tool
// ---------------------------------------------------------------------------------------------
/// The tool and the model it works with.
#[derive(Debug)]
pub struct WhisperConfig {
    /// The path of the tool.
    pub cli_path: String,
    /// The path of the model file.
    pub model_path: String,
}

/// What asking the tool at `path` for its help text says of it: the first line that it printed, or
/// why it does not work.
pub open spec fn version_of(path: Seq<char>, run: ToolRun) -> Result<Seq<char>, ErrorView> {
    match run {
        ToolRun::NotStarted(reason) => Err(tool::not_started(path, reason@)),
        ToolRun::Finished(output) => if output.success {
            Ok(text::spec_trim(text::spec_first_line(output.spec_combined())))
        } else {
            Err(
                error::plain(
                    "failed to run whisper.cpp CLI at "@ + path + ": "@ + text::spec_trim(
                        output.spec_combined(),
                    ),
                ),
            )
        },
    }
}

/// The arguments with which the tool is asked for its help text.
pub fn whisper_version_arguments() -> (r: Vec<String>)
    ensures
        r.deep_view() == seq!["-h"@],
{
    let mut arguments: Vec<String> = Vec::new();
    arguments.push("-h".to_owned());
    assert(arguments.deep_view() =~= seq!["-h"@]);
    arguments
}

/// The first line of the tool's help text, from what came of asking for it.
pub fn whisper_version(cli_path: &str, run: &ToolRun) -> (r: Result<String, Error>)
    ensures
        match r {
            Ok(version) => version_of(cli_path@, *run) == Ok::<Seq<char>, ErrorView>(version@),
            Err(e) => version_of(cli_path@, *run) == Err::<Seq<char>, ErrorView>(e@),
        },
{
    match run {
        ToolRun::NotStarted(reason) => Err(tool::not_started_error(cli_path, reason.as_str())),
        ToolRun::Finished(output) => {
            let combined = output.combined();
            if !output.success {
                let said = text::trim(combined.as_str());
                return Err(
                    Error::new(
                        text::cat4(
                            "failed to run whisper.cpp CLI at ",
                            cli_path,
                            ": ",
                            said.as_str(),
                        ),
                    ),
                );
            }
            let line = text::first_line(combined.as_str());
            Ok(text::trim(line.as_str()))
        },
    }
}

/// The arguments with which the tool transcribes `audio_path`.
pub open spec fn transcribe_line(model: Seq<char>, audio: Seq<char>) -> Seq<Seq<char>> {
    seq!["-m"@, model, "-f"@, audio]
}

/// The arguments with which the tool transcribes `audio_path`.
pub fn transcribe_arguments(config: &WhisperConfig, audio_path: &str) -> (r: Vec<String>)
    ensures
        r.deep_view() == transcribe_line(config.model_path@, audio_path@),
        r.deep_view() == seq!["-m"@, config.model_path@, "-f"@, audio_path@],
{
    let mut arguments: Vec<String> = Vec::new();
    arguments.push("-m".to_owned());
    arguments.push(config.model_path.clone());
    arguments.push("-f".to_owned());
    arguments.push(audio_path.to_owned());
    assert(arguments.deep_view() =~= seq!["-m"@, config.model_path@, "-f"@, audio_path@]);
    arguments
}

/// What came of transcribing with the tool at `path`.
pub open spec fn transcription_of(path: Seq<char>, run: ToolRun) -> Result<
    TranscriptView,
    ErrorView,
> {
    match run {
        ToolRun::NotStarted(reason) => Err(tool::not_started(path, reason@)),
        ToolRun::Finished(output) => if output.success {
            Ok(transcript_of(output.spec_combined()))
        } else {
            Err(
                error::plain(
                    "whisper.cpp transcription failed: "@ + text::spec_trim(output.spec_combined()),
                ),
            )
        },
    }
}

/// The transcript, from what came of running the tool on an audio file.
pub fn transcribe_audio(config: &WhisperConfig, run: &ToolRun) -> (r: Result<Transcript, Error>)
    ensures
        match r {
            Ok(transcript) => transcription_of(config.cli_path@, *run) == Ok::<
                TranscriptView,
                ErrorView,
            >(transcript@),
            Err(e) => transcription_of(config.cli_path@, *run) == Err::<TranscriptView, ErrorView>(
                e@,
            ),
        },
{
    match run {
        ToolRun::NotStarted(reason) => Err(
            tool::not_started_error(config.cli_path.as_str(), reason.as_str()),
        ),
        ToolRun::Finished(output) => {
            let combined = output.combined();
            if !output.success {
                let said = text::trim(combined.as_str());
                return Err(
                    Error::new(text::cat2("whisper.cpp transcription failed: ", said.as_str())),
                );
            }
            Ok(parse_transcript_output(combined.as_str()))
        },
    }
}

// ---------------------------------------------------------------------------------------------
// Laws
// ---------------------------------------------------------------------------------------------
/// A time of day on the tool's clock.
pub struct Clock {
    pub hours: nat,
    pub minutes: nat,
    pub seconds: nat,
    pub millis: nat,
}

impl Clock {
    /// Whether each part fits the digits that it is printed with.
    pub open spec fn printable(self) -> bool {
        self.hours < 100 && self.minutes < 100 && self.seconds < 100 && self.millis < 1000
    }

    /// The time in milliseconds.
    pub open spec fn in_ms(self) -> nat {
        ((self.hours * 60 + self.minutes) * 60 + self.seconds) * 1000 + self.millis
    }
}

/// The bracket with which a timestamped line begins.
pub open spec fn clock_bracket(start: Clock, end: Clock) -> Seq<char> {
    seq![
        '[',
        text::digit_char(start.hours / 10),
        text::digit_char(start.hours % 10),
        ':',
        text::digit_char(start.minutes / 10),
        text::digit_char(start.minutes % 10),
        ':',
        text::digit_char(start.seconds / 10),
        text::digit_char(start.seconds % 10),
        '.',
        text::digit_char(start.millis / 100),
        text::digit_char(start.millis / 10 % 10),
        text::digit_char(start.millis % 10),
        ' ',
        '-',
        '-',
        '>',
        ' ',
        text::digit_char(end.hours / 10),
        text::digit_char(end.hours % 10),
        ':',
        text::digit_char(end.minutes / 10),
        text::digit_char(end.minutes % 10),
        ':',
        text::digit_char(end.seconds / 10),
        text::digit_char(end.seconds % 10),
        '.',
        text::digit_char(end.millis / 100),
        text::digit_char(end.millis / 10 % 10),
        text::digit_char(end.millis % 10),
        ']',
    ]
}

/// Whether `said` can stand on a timestamped line as it is: on one line, not empty, and without
/// white space at either end.
pub open spec fn is_line_text(said: Seq<char>) -> bool {
    said.len() > 0 && !text::is_space(said[0]) && !text::is_space(said.last()) && !said.contains(
        '\n',
    )
}

proof fn lemma_digit(d: nat)
    requires
        d < 10,
    ensures
        text::is_digit(text::digit_char(d)),
        text::digit_value(text::digit_char(d)) == d,
{
}

proof fn lemma_two_digits(n: nat, max: nat)
    requires
        n < 100 <= max,
    ensures
        text::spec_parse(seq![text::digit_char(n / 10), text::digit_char(n % 10)], max) == Ok::<
            nat,
            text::NumberError,
        >(n),
{
    let s = seq![text::digit_char(n / 10), text::digit_char(n % 10)];
    lemma_digit(n / 10);
    lemma_digit(n % 10);
    reveal_with_fuel(text::read_digits, 3);
    assert(s.skip(1)[0] == s[1]);
    assert(s.skip(1).skip(1).len() == 0);
    assert(text::read_digits(s, 0, max) == text::read_digits(s.skip(1), n / 10, max));
}

proof fn lemma_three_digits(n: nat, max: nat)
    requires
        n < 1000 <= max,
    ensures
        text::spec_parse(
            seq![
                text::digit_char(n / 100),
                text::digit_char(n / 10 % 10),
                text::digit_char(n % 10),
            ],
            max,
        ) == Ok::<nat, text::NumberError>(n),
{
    let s = seq![
        text::digit_char(n / 100),
        text::digit_char(n / 10 % 10),
        text::digit_char(n % 10),
    ];
    lemma_digit(n / 100);
    lemma_digit(n / 10 % 10);
    lemma_digit(n % 10);
    reveal_with_fuel(text::read_digits, 4);
    assert(s.skip(1)[0] == s[1]);
    assert(s.skip(1).skip(1)[0] == s[2]);
    assert(s.skip(1).skip(1).skip(1).len() == 0);
    assert(text::read_digits(s, 0, max) == text::read_digits(s.skip(1), n / 100, max));
    assert(text::read_digits(s.skip(1), n / 100, max) == text::read_digits(
        s.skip(1).skip(1),
        n / 10,
        max,
    ));
}

proof fn lemma_trim_start_spaces(gap: Seq<char>, rest: Seq<char>)
    requires
        forall|i: int| 0 <= i < gap.len() ==> text::is_space(#[trigger] gap[i]),
        rest.len() > 0,
        !text::is_space(rest[0]),
    ensures
        text::spec_trim_start(gap + rest) == rest,
    decreases gap.len(),
{
    if gap.len() == 0 {
        assert(gap + rest =~= rest);
    } else {
        assert((gap + rest)[0] == gap[0]);
        assert((gap + rest).skip(1) =~= gap.skip(1) + rest);
        lemma_trim_start_spaces(gap.skip(1), rest);
    }
}

/// A text with no white space at either end is its own trimmed text.
pub proof fn lemma_trim_of_trimmed(s: Seq<char>)
    requires
        s.len() > 0 ==> !text::is_space(s[0]) && !text::is_space(s.last()),
    ensures
        text::spec_trim(s) == s,
{
}

/// A line that gives two clock times and what was said between them is read as just that segment,
/// whatever white space stands before what was said.
pub proof fn law_timestamped_line(start: Clock, end: Clock, gap: Seq<char>, said: Seq<char>)
    requires
        start.printable(),
        end.printable(),
        forall|i: int| 0 <= i < gap.len() ==> text::is_space(#[trigger] gap[i]),
        is_line_text(said),
    ensures
        segment_of_line(clock_bracket(start, end) + gap + said) == Some(
            SegmentView {
                start_ms: start.in_ms(),
                end_ms: end.in_ms(),
                text: said,
                speaker: "speaker_1"@,
                speaker_confidence_percent: 20,
            },
        ),
{
    let head = clock_bracket(start, end);
    let line = head + gap + said;
    assert(head.len() == 31);
    assert forall|i: int| 0 <= i < 31 implies line[i] == head[i] by {}
    assert(line.last() == said.last());
    assert(!text::is_space('['));
    lemma_trim_of_trimmed(line);
    lemma_digit(start.hours / 10);
    lemma_digit(start.hours % 10);
    lemma_digit(start.minutes / 10);
    lemma_digit(start.minutes % 10);
    lemma_digit(start.seconds / 10);
    lemma_digit(start.seconds % 10);
    lemma_digit(start.millis / 100);
    lemma_digit(start.millis / 10 % 10);
    lemma_digit(start.millis % 10);
    lemma_digit(end.hours / 10);
    lemma_digit(end.hours % 10);
    lemma_digit(end.minutes / 10);
    lemma_digit(end.minutes % 10);
    lemma_digit(end.seconds / 10);
    lemma_digit(end.seconds % 10);
    lemma_digit(end.millis / 100);
    lemma_digit(end.millis / 10 % 10);
    lemma_digit(end.millis % 10);
    assert forall|i: int| is_clock_position(i) implies is_decimal_number(#[trigger] line[i]) by {
        assert(text::is_digit(head[i]));
    }
    assert(line.skip(31) =~= gap + said);
    lemma_trim_start_spaces(gap, said);
    assert(tail_group(line.skip(31)) == Some(said));
    assert(has_clock_frame(line));
    let groups = segment_groups(line)->0;
    assert(line.subrange(1, 3) =~= seq![
        text::digit_char(start.hours / 10),
        text::digit_char(start.hours % 10),
    ]);
    assert(line.subrange(4, 6) =~= seq![
        text::digit_char(start.minutes / 10),
        text::digit_char(start.minutes % 10),
    ]);
    assert(line.subrange(7, 9) =~= seq![
        text::digit_char(start.seconds / 10),
        text::digit_char(start.seconds % 10),
    ]);
    assert(line.subrange(10, 13) =~= seq![
        text::digit_char(start.millis / 100),
        text::digit_char(start.millis / 10 % 10),
        text::digit_char(start.millis % 10),
    ]);
    assert(line.subrange(18, 20) =~= seq![
        text::digit_char(end.hours / 10),
        text::digit_char(end.hours % 10),
    ]);
    assert(line.subrange(21, 23) =~= seq![
        text::digit_char(end.minutes / 10),
        text::digit_char(end.minutes % 10),
    ]);
    assert(line.subrange(24, 26) =~= seq![
        text::digit_char(end.seconds / 10),
        text::digit_char(end.seconds % 10),
    ]);
    assert(line.subrange(27, 30) =~= seq![
        text::digit_char(end.millis / 100),
        text::digit_char(end.millis / 10 % 10),
        text::digit_char(end.millis % 10),
    ]);
    let max = u64::MAX as nat;
    lemma_two_digits(start.hours, max);
    lemma_two_digits(start.minutes, max);
    lemma_two_digits(start.seconds, max);
    lemma_three_digits(start.millis, max);
    lemma_two_digits(end.hours, max);
    lemma_two_digits(end.minutes, max);
    lemma_two_digits(end.seconds, max);
    lemma_three_digits(end.millis, max);
    lemma_trim_of_trimmed(said);
    assert(field_value(groups, 1) == start.hours);
    assert(field_value(groups, 2) == start.minutes);
    assert(field_value(groups, 3) == start.seconds);
    assert(field_value(groups, 4) == start.millis);
    assert(field_value(groups, 5) == end.hours);
    assert(field_value(groups, 6) == end.minutes);
    assert(field_value(groups, 7) == end.seconds);
    assert(field_value(groups, 8) == end.millis);
}

/// Lines are read one by one: what one block of lines gives does not depend on the block before it.
pub proof fn law_lines_read_one_by_one(first: Seq<Seq<char>>, second: Seq<Seq<char>>)
    ensures
        segments_of(first + second) == segments_of(first) + segments_of(second),
    decreases second.len(),
{
    if second.len() == 0 {
        assert(first + second =~= first);
        assert(segments_of(first) + segments_of(second) =~= segments_of(first));
    } else {
        assert((first + second).drop_last() =~= first + second.drop_last());
        law_lines_read_one_by_one(first, second.drop_last());
        assert(segments_of(first + second) =~= segments_of(first) + segments_of(second));
    }
}

/// A line without the bracket of clock times adds no segment.
pub proof fn law_other_lines_are_skipped(line: Seq<char>)
    requires
        !has_clock_frame(text::spec_trim(line)),
    ensures
        segment_of_line(line) is None,
{
}

/// Labelling keeps the number, the order and the times of the segments.
pub proof fn law_labels_keep_times(segments: Seq<SegmentView>, i: int)
    requires
        0 <= i < segments.len(),
    ensures
        labelled(segments).len() == segments.len(),
        labelled(segments)[i].start_ms == segments[i].start_ms,
        labelled(segments)[i].end_ms == segments[i].end_ms,
{
}

/// Labelling a transcript that was read with segments keeps its text.
pub proof fn law_labels_keep_text(output: Seq<char>)
    requires
        transcript_of(output).segments.len() > 0,
    ensures
        labelled_transcript(transcript_of(output)).text == transcript_of(output).text,
{
}

/// The labels are only ever those of two speakers. Up to the first turn all segments are the first
/// speaker's, and from there on no two neighbours have the same speaker.
pub proof fn law_speakers_take_turns(segments: Seq<SegmentView>, i: int)
    requires
        0 <= i < segments.len(),
    ensures
        labelled(segments)[i].speaker == "speaker_1"@ || labelled(segments)[i].speaker
            == "speaker_2"@,
        i <= first_turn(segments) ==> labelled(segments)[i].speaker == "speaker_1"@,
        first_turn(segments) <= i && i + 1 < segments.len() ==> labelled(segments)[i].speaker
            != labelled(segments)[i + 1].speaker,
{
    reveal_strlit("speaker_1");
    reveal_strlit("speaker_2");
    assert("speaker_1"@[8] == '1');
    assert("speaker_2"@[8] == '2');
    assert(is_second_speaker(segments, i + 1) != is_second_speaker(segments, i)
        || i < first_turn(segments));
}

/// Where no segment has a turn marker, every segment is the first speaker's, with the lower trust.
pub proof fn law_no_turn_no_second_speaker(segments: Seq<SegmentView>, i: int)
    requires
        0 <= i < segments.len(),
        forall|k: int|
            0 <= k < segments.len() ==> !text::spec_contains(
                (#[trigger] segments[k]).text,
                turn_marker(),
            ),
    ensures
        labelled(segments)[i].speaker == "speaker_1"@,
        labelled(segments)[i].speaker_confidence_percent == 20,
{
    lemma_first_turn(segments);
}

/// A segment as the tool prints it.
pub struct PrintedSegment {
    pub start: Clock,
    pub end: Clock,
    pub gap: Seq<char>,
    pub said: Seq<char>,
}

impl PrintedSegment {
    /// Whether it stands on one line.
    pub open spec fn valid(self) -> bool {
        &&& self.start.printable()
        &&& self.end.printable()
        &&& is_line_text(self.said)
        &&& forall|i: int|
            0 <= i < self.gap.len() ==> text::is_space(#[trigger] self.gap[i]) && self.gap[i]
                != '\n'
    }

    /// Its line.
    pub open spec fn line(self) -> Seq<char> {
        clock_bracket(self.start, self.end) + self.gap + self.said
    }

    /// The segment it stands for.
    pub open spec fn segment(self) -> SegmentView {
        SegmentView {
            start_ms: self.start.in_ms(),
            end_ms: self.end.in_ms(),
            text: self.said,
            speaker: "speaker_1"@,
            speaker_confidence_percent: 20,
        }
    }
}

proof fn lemma_bracket_on_one_line(start: Clock, end: Clock)
    requires
        start.printable(),
        end.printable(),
    ensures
        !clock_bracket(start, end).contains('\n'),
{
    let head = clock_bracket(start, end);
    assert forall|i: int| 0 <= i < head.len() implies head[i] != '\n' by {
        if text::is_digit(head[i]) {
        } else {
            lemma_digit(start.hours / 10);
            lemma_digit(start.hours % 10);
            lemma_digit(start.minutes / 10);
            lemma_digit(start.minutes % 10);
            lemma_digit(start.seconds / 10);
            lemma_digit(start.seconds % 10);
            lemma_digit(start.millis / 100);
            lemma_digit(start.millis / 10 % 10);
            lemma_digit(start.millis % 10);
            lemma_digit(end.hours / 10);
            lemma_digit(end.hours % 10);
            lemma_digit(end.minutes / 10);
            lemma_digit(end.minutes % 10);
            lemma_digit(end.seconds / 10);
            lemma_digit(end.seconds % 10);
            lemma_digit(end.millis / 100);
            lemma_digit(end.millis / 10 % 10);
            lemma_digit(end.millis % 10);
        }
    }
}

proof fn lemma_segments_of_printed(segments: Seq<PrintedSegment>)
    requires
        forall|i: int| 0 <= i < segments.len() ==> (#[trigger] segments[i]).valid(),
    ensures
        segments_of(Seq::new(segments.len(), |i: int| segments[i].line())) == Seq::new(
            segments.len(),
            |i: int| segments[i].segment(),
        ),
    decreases segments.len(),
{
    let lines = Seq::new(segments.len(), |i: int| segments[i].line());
    let views = Seq::new(segments.len(), |i: int| segments[i].segment());
    if segments.len() > 0 {
        let rest = segments.drop_last();
        lemma_segments_of_printed(rest);
        assert(lines.drop_last() =~= Seq::new(rest.len(), |i: int| rest[i].line()));
        assert(views.drop_last() =~= Seq::new(rest.len(), |i: int| rest[i].segment()));
        let last = segments.last();
        assert(last.valid());
        law_timestamped_line(last.start, last.end, last.gap, last.said);
        assert(segments_of(lines) =~= views);
    } else {
        assert(segments_of(lines) =~= views);
    }
}

/// A printed transcript is read back segment by segment.
pub proof fn law_printed_transcript(segments: Seq<PrintedSegment>)
    requires
        forall|i: int| 0 <= i < segments.len() ==> (#[trigger] segments[i]).valid(),
    ensures
        transcript_of(
            text::printed(Seq::new(segments.len(), |i: int| segments[i].line())),
        ).segments == Seq::new(segments.len(), |i: int| segments[i].segment()),
{
    let lines = Seq::new(segments.len(), |i: int| segments[i].line());
    assert forall|i: int| 0 <= i < lines.len() implies !(#[trigger] lines[i]).contains('\n') && !(
    lines[i].len() > 0 && lines[i].last() == '\r') by {
        let p = segments[i];
        assert(p.valid());
        lemma_bracket_on_one_line(p.start, p.end);
        let head = clock_bracket(p.start, p.end);
        assert forall|k: int| 0 <= k < lines[i].len() implies lines[i][k] != '\n' by {
            if k < 31 {
                assert(lines[i][k] == head[k]);
                assert(head.contains(head[k]));
            } else if k < 31 + p.gap.len() {
                assert(lines[i][k] == p.gap[k - 31]);
            } else {
                assert(lines[i][k] == p.said[k - 31 - p.gap.len()]);
                assert(p.said.contains(p.said[k - 31 - p.gap.len()]));
            }
        }
        assert(lines[i].last() == p.said.last());
    }
    text::law_printed_lines(lines);
    lemma_segments_of_printed(segments);
}

// ---------------------------------------------------------------------------------------------
// The text of a transcript
// ---------------------------------------------------------------------------------------------
/// `before` with `said` behind it: a space stands between the two, unless one of them is empty.
pub open spec fn followed_by(before: Seq<char>, said: Seq<char>) -> Seq<char> {
    if said.len() == 0 {
        before
    } else if before.len() == 0 {
        said
    } else {
        before + seq![' '] + said
    }
}

proof fn lemma_joined_is_empty(texts: Seq<Seq<char>>)
    ensures
        joined(texts).len() == 0 <==> spoken(texts).len() == 0,
        forall|i: int| 0 <= i < spoken(texts).len() ==> (#[trigger] spoken(texts)[i]).len() > 0,
    decreases texts.len(),
{
    if texts.len() > 0 {
        lemma_joined_is_empty(texts.drop_last());
        let rest = spoken(texts.drop_last());
        if texts.last().len() > 0 {
            text::law_join_adds_item(rest, texts.last(), " "@);
        }
    }
}

/// One more text makes the whole longer by that text, behind a space, whatever the text is: also
/// where it equals the one before it. Only an empty one adds nothing.
pub proof fn law_each_text_is_told(texts: Seq<Seq<char>>, said: Seq<char>)
    ensures
        joined(Seq::empty()) == Seq::<char>::empty(),
        joined(texts.push(said)) == followed_by(joined(texts), said),
{
    reveal_strlit(" ");
    assert(" "@ =~= seq![' ']);
    assert(texts.push(said).drop_last() =~= texts);
    lemma_joined_is_empty(texts);
    if said.len() > 0 {
        text::law_join_adds_item(spoken(texts), said, " "@);
        assert(spoken(texts.push(said)) == spoken(texts).push(said));
    }
}

/// Where no text is empty, the whole is all of them with a space between each two neighbours.
pub proof fn law_all_texts_are_told(texts: Seq<Seq<char>>)
    requires
        forall|i: int| 0 <= i < texts.len() ==> (#[trigger] texts[i]).len() > 0,
    ensures
        joined(texts) == text::spec_join(texts, seq![' ']),
    decreases texts.len(),
{
    if texts.len() > 0 {
        let rest = texts.drop_last();
        assert forall|i: int| 0 <= i < rest.len() implies (#[trigger] rest[i]).len() > 0 by {
            assert(rest[i] == texts[i]);
        }
        law_all_texts_are_told(rest);
        assert(texts =~= rest.push(texts.last()));
        assert(texts[texts.len() - 1].len() > 0);
        law_each_text_is_told(rest, texts.last());
        text::law_join_adds_item(rest, texts.last(), seq![' ']);
        if rest.len() > 0 {
            assert(rest =~= rest.drop_last().push(rest.last()));
            assert(rest[rest.len() - 1].len() > 0);
            text::law_join_adds_item(rest.drop_last(), rest.last(), seq![' ']);
        } else {
            assert(rest =~= Seq::empty());
        }
    } else {
        assert(texts =~= Seq::empty());
    }
}

/// Said `n` times, a text is told `n` times.
pub proof fn law_repeated_text_is_repeated(n: nat, said: Seq<char>)
    requires
        said.len() > 0,
    ensures
        joined(Seq::new(n, |i: int| said)) == text::spec_join(Seq::new(n, |i: int| said), seq![' ']),
        n > 0 ==> joined(Seq::new(n, |i: int| said)).len() == n * said.len() + (n - 1),
    decreases n,
{
    let texts = Seq::new(n, |i: int| said);
    law_all_texts_are_told(texts);
    if n > 0 {
        let fewer = Seq::new((n - 1) as nat, |i: int| said);
        law_repeated_text_is_repeated((n - 1) as nat, said);
        assert(texts =~= fewer.push(said));
        law_each_text_is_told(fewer, said);
        assert(n * said.len() == (n - 1) * said.len() + said.len()) by (nonlinear_arith)
            requires
                n > 0,
        ;
        if n == 1 {
            assert(fewer =~= Seq::empty());
            assert((n - 1) * said.len() == 0) by (nonlinear_arith)
                requires
                    n == 1,
            ;
        } else {
            assert(joined(fewer).len() > 0) by (nonlinear_arith)
                requires
                    n >= 2,
                    said.len() > 0,
                    joined(fewer).len() == (n - 1) * said.len() + (n - 2),
            ;
        }
    }
}

/// The text of a labelled transcript is that of its segments: one more segment adds its own text,
/// without turn markers and outer white space, behind a space, whatever that text is.
pub proof fn law_each_segment_is_told(
    transcript: TranscriptView,
    longer: TranscriptView,
    segment: SegmentView,
)
    requires
        longer.segments == transcript.segments.push(segment),
    ensures
        transcript.segments.len() == 0 ==> labelled_transcript(transcript).text == Seq::<
            char,
        >::empty(),
        labelled_transcript(longer).text == followed_by(
            labelled_transcript(transcript).text,
            normalized(segment.text),
        ),
        labelled_transcript(longer).segments.last().text == normalized(segment.text),
{
    let before = normalized_texts(transcript.segments);
    assert(normalized_texts(longer.segments) =~= before.push(normalized(segment.text)));
    law_each_text_is_told(before, normalized(segment.text));
    if transcript.segments.len() == 0 {
        assert(before =~= Seq::empty());
    }
}

/// A line that was printed behind others adds its segment, and the text of that segment, if it is
/// timestamped; else it changes nothing where there are timestamped lines, and adds its own text
/// where there are none.
pub proof fn law_each_line_is_told(lines: Seq<Seq<char>>, line: Seq<char>)
    requires
        forall|i: int|
            0 <= i < lines.len() ==> !(#[trigger] lines[i]).contains('\n') && !(lines[i].len() > 0
                && lines[i].last() == '\r'),
        !line.contains('\n'),
        !(line.len() > 0 && line.last() == '\r'),
    ensures
        ({
            let before = transcript_of(text::printed(lines));
            let after = transcript_of(text::printed(lines.push(line)));
            match segment_of_line(line) {
                Some(segment) => {
                    &&& after.segments == before.segments.push(segment)
                    &&& before.segments.len() > 0 ==> after.text == followed_by(
                        before.text,
                        normalized(segment.text),
                    )
                    &&& before.segments.len() == 0 ==> after.text == normalized(segment.text)
                },
                None => {
                    &&& after.segments == before.segments
                    &&& before.segments.len() > 0 ==> after.text == before.text
                    &&& before.segments.len() == 0 ==> after.text == followed_by(
                        before.text,
                        text::spec_trim(line),
                    )
                },
            }
        }),
{
    let more = lines.push(line);
    assert forall|i: int| 0 <= i < more.len() implies !(#[trigger] more[i]).contains('\n') && !(
    more[i].len() > 0 && more[i].last() == '\r') by {
        if i < lines.len() {
            assert(more[i] == lines[i]);
        }
    }
    text::law_printed_lines(lines);
    text::law_printed_lines(more);
    assert(more.drop_last() =~= lines);
    let segments = segments_of(lines);
    match segment_of_line(line) {
        Some(segment) => {
            let told = normalized(segment.text);
            assert(normalized_texts(segments.push(segment)) =~= normalized_texts(segments).push(
                told,
            ));
            law_each_text_is_told(normalized_texts(segments), told);
            if segments.len() == 0 {
                assert(normalized_texts(segments) =~= Seq::empty());
            }
        },
        None => {
            assert(trimmed_lines(more) =~= trimmed_lines(lines).push(text::spec_trim(line)));
            law_each_text_is_told(trimmed_lines(lines), text::spec_trim(line));
        },
    }
}

/// White space around a line makes no difference to the segment it stands for.
pub proof fn law_space_around_line_is_skipped(line: Seq<char>)
    ensures
        segment_of_line(text::spec_trim(line)) == segment_of_line(line),
{
    text::law_trim_takes_outer_space(line);
    lemma_trim_of_trimmed(text::spec_trim(line));
}

// ---------------------------------------------------------------------------------------------
// Turn markers
// ---------------------------------------------------------------------------------------------
/// What is said without a turn marker is kept but for the white space around it.
pub proof fn law_unmarked_text_is_trimmed(said: Seq<char>)
    requires
        !text::spec_contains(said, "[SPEAKER_TURN]"@),
    ensures
        normalized(said) == text::spec_trim(said),
{
    reveal_strlit("[SPEAKER_TURN]");
    text::law_nothing_to_replace(said, "[SPEAKER_TURN]"@, ""@);
}

proof fn lemma_marker_opens_once(k: int)
    requires
        0 < k < 14,
    ensures
        "[SPEAKER_TURN]"@.len() == 14,
        "[SPEAKER_TURN]"@[0] == '[',
        "[SPEAKER_TURN]"@[k] != '[',
{
    reveal_strlit("[SPEAKER_TURN]");
}

proof fn lemma_marker_comes_at(before: Seq<char>, after: Seq<char>, i: int)
    requires
        !text::spec_contains(before, "[SPEAKER_TURN]"@),
        0 <= i < before.len(),
    ensures
        !text::occurs_at(before + "[SPEAKER_TURN]"@ + after, "[SPEAKER_TURN]"@, i),
{
    let marker = "[SPEAKER_TURN]"@;
    let s = before + marker + after;
    lemma_marker_opens_once(1);
    if text::occurs_at(s, marker, i) {
        if i + marker.len() <= before.len() {
            assert(before.subrange(i, i + marker.len()) =~= s.subrange(i, i + marker.len()));
            assert(text::occurs_at(before, marker, i));
        } else {
            let k = before.len() - i;
            lemma_marker_opens_once(k);
            assert(s.subrange(i, i + marker.len())[k] == s[before.len() as int]);
            assert(s[before.len() as int] == marker[0]);
        }
    }
}

/// A turn marker is taken out of what is said, and what stands around it is kept but for the outer
/// white space.
pub proof fn law_turn_marker_is_taken_out(before: Seq<char>, after: Seq<char>)
    requires
        !text::spec_contains(before, "[SPEAKER_TURN]"@),
        !text::spec_contains(after, "[SPEAKER_TURN]"@),
    ensures
        normalized(before + "[SPEAKER_TURN]"@ + after) == text::spec_trim(before + after),
        text::spec_contains(before + "[SPEAKER_TURN]"@ + after, "[SPEAKER_TURN]"@),
{
    reveal_strlit("[SPEAKER_TURN]");
    reveal_strlit("");
    let marker = "[SPEAKER_TURN]"@;
    assert(marker.len() == 14);
    assert forall|i: int| 0 <= i < before.len() implies !text::occurs_at(
        before + marker + after,
        marker,
        i,
    ) by {
        lemma_marker_comes_at(before, after, i);
    }
    text::law_replace_at_first_place(before, marker, after, ""@);
    text::law_nothing_to_replace(after, marker, ""@);
    assert(before + ""@ + after =~= before + after);
    let s = before + marker + after;
    assert(s.subrange(before.len() as int, (before.len() + marker.len()) as int) =~= marker);
    assert(text::occurs_at(s, marker, before.len() as int));
}

/// Who speaks goes by the turn markers alone. Up to and with the first segment that has one, the
/// first speaker speaks; from that segment on each segment is the other speaker's than the one
/// before. A label is trusted less before that segment than from it on.
pub proof fn law_turn_markers_decide_speakers(segments: Seq<SegmentView>, first: int, i: int)
    requires
        0 <= first < segments.len(),
        text::spec_contains(segments[first].text, "[SPEAKER_TURN]"@),
        forall|k: int|
            0 <= k < first ==> !text::spec_contains(
                (#[trigger] segments[k]).text,
                "[SPEAKER_TURN]"@,
            ),
        0 <= i < segments.len(),
    ensures
        i <= first ==> labelled(segments)[i].speaker == "speaker_1"@,
        i > first && (i - first) % 2 == 1 ==> labelled(segments)[i].speaker == "speaker_2"@,
        i > first && (i - first) % 2 == 0 ==> labelled(segments)[i].speaker == "speaker_1"@,
        i < first ==> labelled(segments)[i].speaker_confidence_percent == 20,
        i >= first ==> labelled(segments)[i].speaker_confidence_percent == 45,
        labelled(segments)[i].text == normalized(segments[i].text),
        labelled(segments)[i].start_ms == segments[i].start_ms,
        labelled(segments)[i].end_ms == segments[i].end_ms,
{
    lemma_first_turn(segments);
    let found = first_turn(segments);
    if found < first {
        assert(!text::spec_contains(segments[found].text, "[SPEAKER_TURN]"@));
    }
    if first < found {
        assert(!text::spec_contains(segments[first].text, turn_marker()));
    }
}

// ---------------------------------------------------------------------------------------------
// What the tool printed
// ---------------------------------------------------------------------------------------------
/// A transcript comes of a run that succeeded, and of no other: it is read from all that the tool
/// wrote, what it wrote to its standard output first.
pub proof fn law_successful_run_gives_transcript(path: Seq<char>, run: ToolRun)
    ensures
        transcription_of(path, run) is Ok <==> (run matches ToolRun::Finished(output)
            && output.success),
        version_of(path, run) is Ok <==> transcription_of(path, run) is Ok,
        run matches ToolRun::Finished(output) ==> output.success ==> transcription_of(path, run)
            == Ok::<TranscriptView, ErrorView>(transcript_of(output.stdout@ + output.stderr@))
            && version_of(path, run) == Ok::<Seq<char>, ErrorView>(
            text::spec_trim(text::spec_first_line(output.stdout@ + output.stderr@)),
        ),
        run matches ToolRun::Finished(output) ==> !output.success ==> transcription_of(path, run)
            == Err::<TranscriptView, ErrorView>(
            error::plain(
                "whisper.cpp transcription failed: "@ + text::spec_trim(
                    output.stdout@ + output.stderr@,
                ),
            ),
        ),
        run matches ToolRun::NotStarted(reason) ==> transcription_of(path, run) == Err::<
            TranscriptView,
            ErrorView,
        >(error::caused("failed to execute "@ + path, reason@)),
{
}

/// The tool gets the model behind `-m` and the audio behind `-f`.
pub proof fn law_tool_gets_model_and_audio(model: Seq<char>, audio: Seq<char>)
    ensures
        ({
            let line = transcribe_line(model, audio);
            &&& line.len() == 4
            &&& line[0] == "-m"@ && line[1] == model
            &&& line[2] == "-f"@ && line[3] == audio
        }),
{
}

/// A time is read from four groups: hours, minutes, seconds and milliseconds, in this order. A group
/// that captured nothing counts for nothing.
pub proof fn law_time_is_read_from_groups(
    groups: Seq<Option<Seq<char>>>,
    start: int,
    time: Clock,
)
    requires
        0 <= start,
        start + 4 <= groups.len(),
        time.printable(),
        groups[start] == Some(text::decimal(time.hours)) || (groups[start] is None && time.hours
            == 0),
        groups[start + 1] == Some(text::decimal(time.minutes)) || (groups[start + 1] is None
            && time.minutes == 0),
        groups[start + 2] == Some(text::decimal(time.seconds)) || (groups[start + 2] is None
            && time.seconds == 0),
        groups[start + 3] == Some(text::decimal(time.millis)) || (groups[start + 3] is None
            && time.millis == 0),
    ensures
        timestamp_ms(groups, start) == time.in_ms(),
{
    text::law_decimal_round_trip(time.hours, u64::MAX as nat);
    text::law_decimal_round_trip(time.minutes, u64::MAX as nat);
    text::law_decimal_round_trip(time.seconds, u64::MAX as nat);
    text::law_decimal_round_trip(time.millis, u64::MAX as nat);
}

/// A segment begins at the time in the first four groups behind the whole match, ends at that in the
/// next four, and says what the last group holds, without outer white space, or nothing where that
/// captured nothing. It is the first speaker's until it is labelled.
pub proof fn law_segment_is_read_from_groups(groups: Seq<Option<Seq<char>>>, said: Seq<char>)
    ensures
        segment_of(groups).start_ms == timestamp_ms(groups, 1),
        segment_of(groups).end_ms == timestamp_ms(groups, 5),
        groups.len() > 9 && groups[9] == Some(said) ==> segment_of(groups).text == text::spec_trim(
            said,
        ),
        groups.len() <= 9 || groups[9] is None ==> segment_of(groups).text.len() == 0,
        segment_of(groups).speaker == "speaker_1"@,
        segment_of(groups).speaker_confidence_percent == 20,
{
}

proof fn lemma_all_markers(pieces: Seq<Seq<char>>)
    requires
        pieces.len() > 0,
        forall|i: int|
            0 <= i < pieces.len() ==> !text::spec_contains(
                #[trigger] pieces[i],
                "[SPEAKER_TURN]"@,
            ),
    ensures
        text::spec_replace(text::spec_join(pieces, "[SPEAKER_TURN]"@), "[SPEAKER_TURN]"@, ""@)
            == text::spec_join(pieces, Seq::empty()),
    decreases pieces.len(),
{
    let marker = "[SPEAKER_TURN]"@;
    lemma_marker_opens_once(1);
    reveal_strlit("");
    if pieces.len() == 1 {
        assert(!text::spec_contains(pieces[0], marker));
        text::law_nothing_to_replace(pieces[0], marker, ""@);
    } else {
        let rest = pieces.skip(1);
        assert forall|i: int| 0 <= i < rest.len() implies !text::spec_contains(
            #[trigger] rest[i],
            marker,
        ) by {
            assert(rest[i] == pieces[i + 1]);
        }
        lemma_all_markers(rest);
        text::law_join_begins_with_first(pieces, marker);
        text::law_join_begins_with_first(pieces, Seq::empty());
        let after = text::spec_join(rest, marker);
        assert(!text::spec_contains(pieces[0], marker));
        assert forall|i: int| 0 <= i < pieces[0].len() implies !text::occurs_at(
            pieces[0] + marker + after,
            marker,
            i,
        ) by {
            lemma_marker_comes_at(pieces[0], after, i);
        }
        text::law_replace_at_first_place(pieces[0], marker, after, ""@);
        assert(pieces[0] + ""@ + text::spec_join(rest, Seq::empty()) =~= pieces[0] + Seq::<
            char,
        >::empty() + text::spec_join(rest, Seq::empty()));
    }
}

/// However many turn markers there are, all of them are taken out, and what stands between them is
/// kept, one behind the other, but for the outer white space.
pub proof fn law_all_turn_markers_are_taken_out(pieces: Seq<Seq<char>>)
    requires
        pieces.len() > 0,
        forall|i: int|
            0 <= i < pieces.len() ==> !text::spec_contains(
                #[trigger] pieces[i],
                "[SPEAKER_TURN]"@,
            ),
    ensures
        normalized(text::spec_join(pieces, "[SPEAKER_TURN]"@)) == text::spec_trim(
            text::spec_join(pieces, Seq::empty()),
        ),
{
    lemma_all_markers(pieces);
}

/// Nothing but its lines matters of what the tool printed, and nothing comes of nothing.
pub proof fn law_lines_make_the_transcript(a: Seq<char>, b: Seq<char>)
    ensures
        text::spec_lines(a) == text::spec_lines(b) ==> transcript_of(a) == transcript_of(b),
        text::spec_lines(a).len() == 0 ==> transcript_of(a).text.len() == 0 && transcript_of(
            a,
        ).segments.len() == 0,
{
    if text::spec_lines(a).len() == 0 {
        assert(trimmed_lines(text::spec_lines(a)) =~= Seq::empty());
        law_each_text_is_told(Seq::empty(), Seq::empty());
    }
}

/// Only a line with both clock times in their bracket, and something behind it, is read as a segment.
pub proof fn law_segment_lines_have_clock_times(line: Seq<char>)
    requires
        segment_of_line(line) is Some,
    ensures
        ({
            let inner = text::spec_trim(line);
            &&& inner.len() > 31
            &&& inner[0] == '[' && inner[3] == ':' && inner[6] == ':' && inner[9] == '.'
            &&& inner[13] == ' ' && inner[14] == '-' && inner[15] == '-' && inner[16] == '>'
                && inner[17] == ' '
            &&& inner[20] == ':' && inner[23] == ':' && inner[26] == '.' && inner[30] == ']'
            &&& forall|i: int|
                (1 <= i < 3 || 4 <= i < 6 || 7 <= i < 9 || 10 <= i < 13 || 18 <= i < 20 || 21 <= i
                    < 23 || 24 <= i < 26 || 27 <= i < 30) ==> '0' <= #[trigger] inner[i] <= '9'
                    || inner[i] >= '\u{80}'
        }),
{
    let inner = text::spec_trim(line);
    assert forall|i: int|
        (1 <= i < 3 || 4 <= i < 6 || 7 <= i < 9 || 10 <= i < 13 || 18 <= i < 20 || 21 <= i < 23
            || 24 <= i < 26 || 27 <= i < 30) implies '0' <= #[trigger] inner[i] <= '9' || inner[i]
        >= '\u{80}' by {
        assert(is_clock_position(i));
        assert(is_decimal_number(inner[i]));
    }
}

/// Labelling takes the turn markers and the outer white space off every text, whether or not any
/// segment has a turn marker, and changes nothing else of a segment but its label and how far that is
/// trusted.
pub proof fn law_every_labelled_text_is_normalized(segments: Seq<SegmentView>, i: int)
    requires
        0 <= i < segments.len(),
    ensures
        labelled(segments).len() == segments.len(),
        labelled(segments)[i].text == normalized(segments[i].text),
        labelled(segments)[i].start_ms == segments[i].start_ms,
        labelled(segments)[i].end_ms == segments[i].end_ms,
{
}

/// What a labelled transcript holds is its labelled segments.
pub proof fn law_labelled_transcript_holds_labels(transcript: TranscriptView)
    ensures
        labelled_transcript(transcript).segments == labelled(transcript.segments),
{
}

} // verus!
