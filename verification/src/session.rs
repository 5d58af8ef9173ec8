//! Sessions: where their artifacts lie, what a transcript is, and what is reported of them.
use crate::json::{Field, FieldView};
use crate::path;
use crate::text;
use vstd::prelude::*;

verus! {

/// A stretch of speech.
#[derive(Debug)]
pub struct TranscriptSegment {
    /// Where it starts, in milliseconds from the beginning of the audio.
    pub start_ms: u64,
    /// Where it ends, in milliseconds from the beginning of the audio.
    pub end_ms: u64,
    /// What was said.
    pub text: String,
    /// Who is taken to have said it.
    pub speaker: String,
    /// How far the speaker label is to be trusted, in percent.
    pub speaker_confidence_percent: u8,
}

/// A transcribed recording.
#[derive(Debug)]
pub struct Transcript {
    /// All that was said.
    pub text: String,
    /// The same, by segment.
    pub segments: Vec<TranscriptSegment>,
}

/// What a [`TranscriptSegment`] holds.
pub struct SegmentView {
    pub start_ms: nat,
    pub end_ms: nat,
    pub text: Seq<char>,
    pub speaker: Seq<char>,
    pub speaker_confidence_percent: nat,
}

/// What a [`Transcript`] holds.
pub struct TranscriptView {
    pub text: Seq<char>,
    pub segments: Seq<SegmentView>,
}

impl DeepView for TranscriptSegment {
    type V = SegmentView;

    open spec fn deep_view(&self) -> SegmentView {
        SegmentView {
            start_ms: self.start_ms as nat,
            end_ms: self.end_ms as nat,
            text: self.text@,
            speaker: self.speaker@,
            speaker_confidence_percent: self.speaker_confidence_percent as nat,
        }
    }
}

impl View for Transcript {
    type V = TranscriptView;

    open spec fn view(&self) -> TranscriptView {
        TranscriptView { text: self.text@, segments: self.segments.deep_view() }
    }
}

// ---------------------------------------------------------------------------------------------
// Artifacts
// ---------------------------------------------------------------------------------------------
/// Where the artifacts of a session lie.
#[derive(Debug)]
pub struct SessionPaths {
    pub root_dir: String,
    pub system_audio_path: String,
    pub microphone_audio_path: String,
    pub raw_audio_path: String,
    pub transcript_path: String,
    pub event_log_path: String,
}

impl SessionPaths {
    /// Whether these are the artifacts of the session whose directory is `root`.
    pub open spec fn lie_in(self, root: Seq<char>) -> bool {
        &&& self.root_dir@ == root
        &&& self.system_audio_path@ == path::spec_join(root, "system.wav"@)
        &&& self.microphone_audio_path@ == path::spec_join(root, "microphone.wav"@)
        &&& self.raw_audio_path@ == path::spec_join(root, "session.wav"@)
        &&& self.transcript_path@ == path::spec_join(root, "transcript.json"@)
        &&& self.event_log_path@ == path::spec_join(root, "events.jsonl"@)
    }

    /// Where the artifacts of a session lie under `base_dir`.
    pub fn create(base_dir: &str, session_id: &str) -> (r: SessionPaths)
        ensures
            r.lie_in(path::spec_join(base_dir@, session_id@)),
    {
        let root_dir = path::join(base_dir, session_id);
        SessionPaths {
            system_audio_path: path::join(root_dir.as_str(), "system.wav"),
            microphone_audio_path: path::join(root_dir.as_str(), "microphone.wav"),
            raw_audio_path: path::join(root_dir.as_str(), "session.wav"),
            transcript_path: path::join(root_dir.as_str(), "transcript.json"),
            event_log_path: path::join(root_dir.as_str(), "events.jsonl"),
            root_dir,
        }
    }
}

// ---------------------------------------------------------------------------------------------
// Events
// ---------------------------------------------------------------------------------------------
/// Something that happened in a session.
#[derive(Debug)]
pub struct SessionEvent {
    /// When it happened.
    pub ts: String,
    pub kind: String,
    pub message: String,
    pub data: Option<Vec<Field>>,
}

/// What a [`SessionEvent`] holds.
pub struct EventView {
    pub ts: Seq<char>,
    pub kind: Seq<char>,
    pub message: Seq<char>,
    pub data: Option<Seq<FieldView>>,
}

impl View for SessionEvent {
    type V = EventView;

    open spec fn view(&self) -> EventView {
        EventView {
            ts: self.ts@,
            kind: self.kind@,
            message: self.message@,
            data: self.data.deep_view(),
        }
    }
}

impl SessionEvent {
    /// Something that happened at the time `ts`.
    pub fn new(ts: String, kind: &str, message: &str, data: Option<Vec<Field>>) -> (r: SessionEvent)
        ensures
            r@ == (EventView {
                ts: ts@,
                kind: kind@,
                message: message@,
                data: data.deep_view(),
            }),
    {
        SessionEvent { ts, kind: kind.to_owned(), message: message.to_owned(), data }
    }
}

// ---------------------------------------------------------------------------------------------
// The result
// ---------------------------------------------------------------------------------------------
/// What is reported of a recorded session.
#[derive(Debug)]
pub struct SessionResult {
    pub object: &'static str,
    pub status: &'static str,
    pub session_id: String,
    pub started_at: String,
    pub ended_at: String,
    /// How long the session took, in nanoseconds.
    pub duration_nanos: u64,
    pub audio_path: String,
    pub transcript_path: String,
    pub event_log_path: String,
    pub text: String,
    pub segments: Vec<TranscriptSegment>,
    pub warnings: Vec<String>,
    pub partial_chunks_transcribed: usize,
}

/// What a [`SessionResult`] holds.
pub struct SessionResultView {
    pub object: Seq<char>,
    pub status: Seq<char>,
    pub session_id: Seq<char>,
    pub started_at: Seq<char>,
    pub ended_at: Seq<char>,
    pub duration_nanos: nat,
    pub audio_path: Seq<char>,
    pub transcript_path: Seq<char>,
    pub event_log_path: Seq<char>,
    pub text: Seq<char>,
    pub segments: Seq<SegmentView>,
    pub warnings: Seq<Seq<char>>,
    pub partial_chunks_transcribed: nat,
}

impl View for SessionResult {
    type V = SessionResultView;

    open spec fn view(&self) -> SessionResultView {
        SessionResultView {
            object: self.object@,
            status: self.status@,
            session_id: self.session_id@,
            started_at: self.started_at@,
            ended_at: self.ended_at@,
            duration_nanos: self.duration_nanos as nat,
            audio_path: self.audio_path@,
            transcript_path: self.transcript_path@,
            event_log_path: self.event_log_path@,
            text: self.text@,
            segments: self.segments.deep_view(),
            warnings: self.warnings.deep_view(),
            partial_chunks_transcribed: self.partial_chunks_transcribed as nat,
        }
    }
}

// ---------------------------------------------------------------------------------------------
// Time
// ---------------------------------------------------------------------------------------------
/// The moment `nanos` nanoseconds after the beginning of 1970 in the format of RFC 3339, in UTC, if
/// it has one.
pub uninterp spec fn rfc3339_of(nanos: int) -> Option<Seq<char>>;

/// The same moment as year, month, day, `T`, hour, minute, second and `Z`, if it can be written so.
pub uninterp spec fn compact_of(nanos: int) -> Option<Seq<char>>;

/// Whether a compact time may hold `c`.
pub open spec fn is_stamp_char(c: char) -> bool {
    text::is_digit(c) || c == 'T' || c == 'Z' || c == '-' || c == '+'
}

/// `time::OffsetDateTime::now_utc`, as nanoseconds since the beginning of 1970. It is read from the
/// system's clock, so nothing is promised of it.
#[verifier::external_body]
fn utc_nanos() -> (r: i128) {
    time::OffsetDateTime::now_utc().unix_timestamp_nanos()
}

/// `time::OffsetDateTime::unix_timestamp` of `now_utc`: whole seconds since the beginning of 1970.
/// They are read from the system's clock, so nothing is promised of them.
#[verifier::external_body]
fn utc_seconds() -> (r: i64) {
    time::OffsetDateTime::now_utc().unix_timestamp()
}

/// `time::OffsetDateTime::format` with the well-known description `Rfc3339`: the text depends on
/// the moment alone. There is none for a moment that has no such format.
#[verifier::external_body]
fn format_rfc3339(nanos: i128) -> (r: Option<String>)
    ensures
        r.deep_view() == rfc3339_of(nanos as int),
{
    time::OffsetDateTime::from_unix_timestamp_nanos(nanos)
        .ok()?
        .format(&time::format_description::well_known::Rfc3339)
        .ok()
}

/// `time::OffsetDateTime::format` with a parsed description of year, month, day, `T`, hour, minute,
/// second and `Z`: the text depends on the moment alone, and consists of digits, the two letters and
/// perhaps a sign before the year. There is none for a moment that is out of range.
#[verifier::external_body]
fn format_compact(nanos: i128) -> (r: Option<String>)
    ensures
        r.deep_view() == compact_of(nanos as int),
        r matches Some(text) ==> forall|i: int|
            0 <= i < text@.len() ==> is_stamp_char(#[trigger] text@[i]),
{
    let items = time::format_description::parse_borrowed::<1>(
        "[year][month][day]T[hour][minute][second]Z",
    ).ok()?;
    time::OffsetDateTime::from_unix_timestamp_nanos(nanos).ok()?.format(&items).ok()
}

/// The digits of `n`, with a sign where it is negative.
pub open spec fn signed_decimal(n: int) -> Seq<char> {
    if n < 0 {
        "-"@ + text::decimal((-n) as nat)
    } else {
        text::decimal(n as nat)
    }
}

/// A formatted time, or, where there is none, a number of seconds.
pub open spec fn stamp(formatted: Option<Seq<char>>, seconds: int) -> Seq<char> {
    match formatted {
        Some(text) => text,
        None => signed_decimal(seconds),
    }
}

/// The digits of a number, with a sign where it is negative.
pub fn signed_decimal_text(n: i64) -> (r: String)
    ensures
        r@ == signed_decimal(n as int),
{
    if n < 0 {
        let magnitude: u64 = ((-(n as i128)) as u64);
        text::cat2("-", text::decimal_text(magnitude).as_str())
    } else {
        text::decimal_text(n as u64)
    }
}

/// A formatted time, or, where there is none, a number of seconds.
pub fn stamp_text(formatted: Option<String>, seconds: i64) -> (r: String)
    ensures
        r@ == stamp(formatted.deep_view(), seconds as int),
{
    match formatted {
        Some(text) => text,
        None => signed_decimal_text(seconds),
    }
}

/// The moment `nanos` nanoseconds after the beginning of 1970 in the format of RFC 3339, or, where it
/// has none, `seconds`.
pub fn rfc3339_at(nanos: i128, seconds: i64) -> (r: String)
    ensures
        r@ == stamp(rfc3339_of(nanos as int), seconds as int),
{
    stamp_text(format_rfc3339(nanos), seconds)
}

/// The moment `nanos` nanoseconds after the beginning of 1970 as year, month, day, `T`, hour, minute,
/// second and `Z`, or, where it cannot be written so, `seconds`.
pub fn compact_at(nanos: i128, seconds: i64) -> (r: String)
    ensures
        r@ == stamp(compact_of(nanos as int), seconds as int),
        forall|i: int| 0 <= i < r@.len() ==> is_stamp_char(#[trigger] r@[i]),
{
    let formatted = format_compact(nanos);
    proof {
        let ts = stamp(formatted.deep_view(), seconds as int);
        assert forall|i: int| 0 <= i < ts.len() implies is_stamp_char(#[trigger] ts[i]) by {
            if formatted is None {
                lemma_signed_decimal_chars(seconds as int, i);
            } else {
                assert(ts == formatted->0@);
            }
        }
    }
    stamp_text(formatted, seconds)
}

/// The current time in the format of RFC 3339, or, where it has none, in seconds.
pub fn now_rfc3339() -> (r: String)
    ensures
        exists|nanos: int, seconds: int| r@ == #[trigger] stamp(rfc3339_of(nanos), seconds),
{
    rfc3339_at(utc_nanos(), utc_seconds())
}

// ---------------------------------------------------------------------------------------------
// Naming a session
// ---------------------------------------------------------------------------------------------
/// Whether `c` is an ASCII letter or digit.
pub open spec fn is_word_char(c: char) -> bool {
    ('a' <= c && c <= 'z') || ('A' <= c && c <= 'Z') || text::is_digit(c)
}

/// The words of `s`: its longest stretches of ASCII letters and digits, in small letters.
pub open spec fn words(s: Seq<char>) -> Seq<Seq<char>>
    decreases s.len(),
{
    if s.len() == 0 {
        Seq::empty()
    } else {
        let before = words(s.drop_last());
        let c = s.last();
        if !is_word_char(c) {
            before
        } else if s.len() > 1 && is_word_char(s[s.len() - 2]) {
            before.drop_last().push(before.last().push(text::ascii_lower(c)))
        } else {
            before.push(seq![text::ascii_lower(c)])
        }
    }
}

/// The words of `s`, joined by dashes.
pub open spec fn slug(s: Seq<char>) -> Seq<char> {
    text::spec_join(words(s), "-"@)
}

/// The name of a session: the words of `prefix`, or `session` where it has none, then a time and
/// the number of a process.
pub open spec fn session_id_of(prefix: Option<Seq<char>>, ts: Seq<char>, pid: u32) -> Seq<char> {
    slug_or_session(prefix) + "-"@ + ts + "-"@ + text::decimal(pid as nat)
}

/// The words of `prefix` joined by dashes, or `session` where there are none.
pub open spec fn slug_or_session(prefix: Option<Seq<char>>) -> Seq<char> {
    match prefix {
        Some(prefix) => if slug(prefix).len() > 0 {
            slug(prefix)
        } else {
            "session"@
        },
        None => "session"@,
    }
}

fn is_slug_char(c: char) -> (r: bool)
    ensures
        r == is_word_char(c),
{
    ('a' <= c && c <= 'z') || ('A' <= c && c <= 'Z') || ('0' <= c && c <= '9')
}

proof fn lemma_words_nonempty(s: Seq<char>)
    ensures
        s.len() > 0 && is_word_char(s.last()) ==> words(s).len() > 0,
        forall|i: int| 0 <= i < words(s).len() ==> (#[trigger] words(s)[i]).len() > 0,
    decreases s.len(),
{
    if s.len() > 0 {
        let front = s.drop_last();
        lemma_words_nonempty(front);
        assert forall|i: int| 0 <= i < words(s).len() implies (#[trigger] words(s)[i]).len() > 0 by {
            if i < words(front).len() - 1 || words(s).len() > words(front).len() && i < words(
                front,
            ).len() {
                assert(words(s)[i] == words(front)[i]);
            } else if words(s) == words(front) {
                assert(words(front)[i].len() > 0);
            }
        }
        if s.len() > 1 {
            assert(front.last() == s[s.len() - 2]);
        }
    }
}

proof fn lemma_join_longer_last(parts: Seq<Seq<char>>, sep: Seq<char>, c: char)
    requires
        parts.len() > 0,
    ensures
        text::spec_join(parts.drop_last().push(parts.last().push(c)), sep) == text::spec_join(
            parts,
            sep,
        ).push(c),
{
    let longer = parts.drop_last().push(parts.last().push(c));
    assert(longer.drop_last() =~= parts.drop_last());
    assert(text::spec_join(longer, sep) =~= text::spec_join(parts, sep).push(c));
}

proof fn lemma_join_one_more(parts: Seq<Seq<char>>, sep: Seq<char>, part: Seq<char>)
    ensures
        text::spec_join(parts.push(part), sep) == if parts.len() == 0 {
            part
        } else {
            text::spec_join(parts, sep) + sep + part
        },
{
    assert(parts.push(part).drop_last() =~= parts);
}

proof fn lemma_join_length(parts: Seq<Seq<char>>, sep: Seq<char>)
    requires
        forall|i: int| 0 <= i < parts.len() ==> (#[trigger] parts[i]).len() > 0,
    ensures
        text::spec_join(parts, sep).len() == 0 <==> parts.len() == 0,
{
}

/// The words of a text, joined by dashes.
pub fn slugify(input: &str) -> (r: String)
    ensures
        r@ == slug(input@),
{
    let chars = text::chars_of(input);
    let mut out = String::new();
    let mut started = false;
    let mut in_word = false;
    let mut i: usize = 0;
    assert(input@.take(0) =~= Seq::empty());
    assert(out@ =~= slug(input@.take(0)));
    while i < chars.len()
        invariant
            i <= chars@.len(),
            chars@ == input@,
            out@ == slug(input@.take(i as int)),
            started == (out@.len() > 0),
            in_word == (i > 0 && is_word_char(input@[i - 1])),
        decreases chars@.len() - i,
    {
        let c = chars[i];
        let ghost seen = input@.take(i as int);
        let ghost now = input@.take(i + 1);
        assert(now.drop_last() =~= seen);
        assert(now.last() == c);
        proof {
            lemma_words_nonempty(seen);
            lemma_join_length(words(seen), "-"@);
        }
        if is_slug_char(c) {
            let small = text::lower(c);
            if in_word {
                proof {
                    assert(now[now.len() - 2] == input@[i - 1]);
                    assert(seen.last() == input@[i - 1]);
                    lemma_join_longer_last(words(seen), "-"@, small);
                }
                out.push(small);
            } else {
                proof {
                    if i > 0 {
                        assert(now[now.len() - 2] == input@[i - 1]);
                    }
                    lemma_join_one_more(words(seen), "-"@, seq![small]);
                    reveal_strlit("-");
                }
                let ghost before = out@;
                if started {
                    out.push('-');
                    assert(out@ =~= before + "-"@);
                }
                let ghost ready = out@;
                out.push(small);
                assert(out@ =~= ready + seq![small]);
                assert(out@ =~= slug(now));
            }
            started = true;
            in_word = true;
        } else {
            in_word = false;
        }
        i = i + 1;
    }
    assert(input@.take(i as int) =~= input@);
    out
}

/// The name of a session, given the time and the number of the process.
pub fn session_id_text(prefix: Option<&str>, ts: &str, pid: u32) -> (r: String)
    ensures
        r@ == session_id_of(prefix.deep_view(), ts@, pid),
{
    let name = match prefix {
        Some(prefix) => {
            let name = slugify(prefix);
            if name.as_str().is_empty() {
                "session".to_owned()
            } else {
                name
            }
        },
        None => "session".to_owned(),
    };
    text::cat5(name.as_str(), "-", ts, "-", text::decimal_text(pid as u64).as_str())
}

/// A name for a session that starts `nanos` nanoseconds after the beginning of 1970, or, where that
/// moment cannot be written, `seconds` seconds after it, in the process of number `pid`.
pub fn session_id_at(prefix: Option<&str>, nanos: i128, seconds: i64, pid: u32) -> (r: String)
    ensures
        r@ == session_id_of(
            prefix.deep_view(),
            stamp(compact_of(nanos as int), seconds as int),
            pid,
        ),
        path::is_plain_name(r@),
{
    let ts = compact_at(nanos, seconds);
    proof {
        law_session_id_is_plain_name(prefix.deep_view(), ts@, pid);
    }
    session_id_text(prefix, ts.as_str(), pid)
}

/// A name for a session that starts now, in the process of number `pid`.
pub fn build_session_id(prefix: Option<&str>, pid: u32) -> (r: String)
    ensures
        exists|nanos: int, seconds: int|
            r@ == session_id_of(
                prefix.deep_view(),
                #[trigger] stamp(compact_of(nanos), seconds),
                pid,
            ),
        path::is_plain_name(r@),
{
    session_id_at(prefix, utc_nanos(), utc_seconds(), pid)
}

// ---------------------------------------------------------------------------------------------
// Laws
// ---------------------------------------------------------------------------------------------
/// All artifacts of a session lie in its directory.
pub proof fn law_artifacts_lie_in_session(paths: SessionPaths, root: Seq<char>)
    requires
        paths.lie_in(root),
    ensures
        path::spec_lies_within(paths.system_audio_path@, root),
        path::spec_lies_within(paths.microphone_audio_path@, root),
        path::spec_lies_within(paths.raw_audio_path@, root),
        path::spec_lies_within(paths.transcript_path@, root),
        path::spec_lies_within(paths.event_log_path@, root),
{
    reveal_strlit("system.wav");
    reveal_strlit("microphone.wav");
    reveal_strlit("session.wav");
    reveal_strlit("transcript.json");
    reveal_strlit("events.jsonl");
    path::law_join_adds_component(root, "system.wav"@);
    path::law_join_adds_component(root, "microphone.wav"@);
    path::law_join_adds_component(root, "session.wav"@);
    path::law_join_adds_component(root, "transcript.json"@);
    path::law_join_adds_component(root, "events.jsonl"@);
}

proof fn lemma_signed_decimal_chars(n: int, i: int)
    requires
        0 <= i < signed_decimal(n).len(),
    ensures
        is_stamp_char(signed_decimal(n)[i]),
{
    reveal_strlit("-");
    if n < 0 {
        text::lemma_decimal_digits((-n) as nat);
    } else {
        text::lemma_decimal_digits(n as nat);
    }
}

/// Whether `w` is a word in small letters.
pub open spec fn is_small_word(w: Seq<char>) -> bool {
    &&& w.len() > 0
    &&& forall|i: int|
        0 <= i < w.len() ==> is_word_char(#[trigger] w[i]) && text::ascii_lower(w[i]) == w[i]
}

/// Whether all of `parts` are words in small letters.
pub open spec fn are_small_words(parts: Seq<Seq<char>>) -> bool {
    forall|i: int| 0 <= i < parts.len() ==> is_small_word(#[trigger] parts[i])
}

proof fn lemma_words_are_small(s: Seq<char>)
    ensures
        are_small_words(words(s)),
    decreases s.len(),
{
    if s.len() > 0 {
        let front = s.drop_last();
        lemma_words_are_small(front);
        lemma_words_nonempty(front);
        let c = s.last();
        if is_word_char(c) {
            let small = text::ascii_lower(c);
            if s.len() > 1 && is_word_char(s[s.len() - 2]) {
                assert(front.last() == s[s.len() - 2]);
                let last = words(front).last();
                assert(is_small_word(last));
                assert(is_small_word(last.push(small)));
                assert forall|i: int| 0 <= i < words(s).len() implies is_small_word(
                    #[trigger] words(s)[i],
                ) by {
                    if i < words(front).len() - 1 {
                        assert(words(s)[i] == words(front)[i]);
                    }
                }
            } else {
                assert(is_small_word(seq![small]));
                assert forall|i: int| 0 <= i < words(s).len() implies is_small_word(
                    #[trigger] words(s)[i],
                ) by {
                    if i < words(front).len() {
                        assert(words(s)[i] == words(front)[i]);
                    }
                }
            }
        }
    }
}

/// Whether a dash or a word character in small letters.
pub open spec fn is_slug_text_char(c: char) -> bool {
    c == '-' || (is_word_char(c) && text::ascii_lower(c) == c)
}

proof fn lemma_join_of_words(parts: Seq<Seq<char>>)
    requires
        are_small_words(parts),
        parts.len() > 0,
    ensures
        ({
            let s = text::spec_join(parts, "-"@);
            &&& s.len() > 0
            &&& s[0] != '-'
            &&& s.last() != '-'
            &&& is_word_char(s.last())
            &&& forall|i: int| 0 <= i < s.len() ==> is_slug_text_char(#[trigger] s[i])
            &&& forall|i: int, j: int|
                0 <= i < s.len() && j == i + 1 && j < s.len() ==> !(#[trigger] s[i] == '-'
                    && #[trigger] s[j] == '-')
            &&& words(s) == parts
        }),
    decreases parts.len(),
{
    reveal_strlit("-");
    let s = text::spec_join(parts, "-"@);
    let last = parts.last();
    assert(is_small_word(last));
    if parts.len() == 1 {
        assert(is_small_word(parts[0]));
        assert(s =~= Seq::<char>::empty() + last);
        lemma_words_of_word(Seq::empty(), last);
        assert(words(s) =~= parts);
    } else {
        let rest = parts.drop_last();
        assert forall|i: int| 0 <= i < rest.len() implies is_small_word(#[trigger] rest[i]) by {
            assert(rest[i] == parts[i]);
        }
        lemma_join_of_words(rest);
        let front = text::spec_join(rest, "-"@) + "-"@;
        assert(front.drop_last() =~= text::spec_join(rest, "-"@));
        assert(front.last() == '-');
        assert(words(front) == rest);
        assert(s =~= front + last);
        lemma_words_of_word(front, last);
        assert(words(s) =~= parts);
        assert(s[0] == text::spec_join(rest, "-"@)[0]);
        assert forall|i: int| 0 <= i < s.len() implies is_slug_text_char(#[trigger] s[i]) by {
            if i < front.len() - 1 {
                assert(s[i] == text::spec_join(rest, "-"@)[i]);
            } else if i >= front.len() {
                assert(s[i] == last[i - front.len()]);
            }
        }
        assert forall|i: int, j: int|
            0 <= i < s.len() && j == i + 1 && j < s.len() implies !(#[trigger] s[i] == '-'
            && #[trigger] s[j] == '-') by {
            if j < front.len() - 1 {
                assert(s[i] == text::spec_join(rest, "-"@)[i]);
                assert(s[j] == text::spec_join(rest, "-"@)[j]);
            } else if j == front.len() - 1 {
                assert(s[i] == text::spec_join(rest, "-"@).last());
            } else {
                assert(s[j] == last[j - front.len()]);
            }
        }
    }
    assert(s.last() == last.last());
}

proof fn lemma_words_of_word(front: Seq<char>, w: Seq<char>)
    requires
        is_small_word(w),
        front.len() == 0 || !is_word_char(front.last()),
    ensures
        words(front + w) == words(front).push(w),
    decreases w.len(),
{
    let s = front + w;
    let shorter = w.drop_last();
    assert(s.drop_last() =~= front + shorter);
    assert(s.last() == w.last());
    assert(is_word_char(w[w.len() - 1]));
    if w.len() == 1 {
        assert(front + shorter =~= front);
        if s.len() > 1 {
            assert(s[s.len() - 2] == front.last());
        }
        assert(w =~= seq![text::ascii_lower(w.last())]);
    } else {
        assert(is_small_word(shorter)) by {
            assert forall|i: int| 0 <= i < shorter.len() implies is_word_char(
                #[trigger] shorter[i],
            ) && text::ascii_lower(shorter[i]) == shorter[i] by {
                assert(shorter[i] == w[i]);
            }
        }
        lemma_words_of_word(front, shorter);
        assert(s[s.len() - 2] == w[w.len() - 2]);
        assert(words(s) =~= words(front).push(w)) by {
            assert(words(front).push(shorter).drop_last() =~= words(front));
            assert(shorter.push(w.last()) =~= w);
        }
    }
}

/// A slug holds nothing but small ASCII letters, digits and single dashes between them.
pub proof fn law_slug_shape(s: Seq<char>)
    ensures
        forall|i: int| 0 <= i < slug(s).len() ==> is_slug_text_char(#[trigger] slug(s)[i]),
        slug(s).len() > 0 ==> slug(s)[0] != '-' && slug(s).last() != '-',
        forall|i: int, j: int|
            0 <= i < slug(s).len() && j == i + 1 && j < slug(s).len() ==> !(#[trigger] slug(s)[i]
                == '-' && #[trigger] slug(s)[j] == '-'),
{
    lemma_words_are_small(s);
    if words(s).len() > 0 {
        lemma_join_of_words(words(s));
    }
}

/// A slug is its own slug.
pub proof fn law_slug_of_slug(s: Seq<char>)
    ensures
        slug(slug(s)) == slug(s),
{
    lemma_words_are_small(s);
    if words(s).len() > 0 {
        lemma_join_of_words(words(s));
    } else {
        assert(slug(s) =~= Seq::empty());
    }
}

/// Words in small letters, joined by dashes, are kept as they are.
pub proof fn law_slug_keeps_words(parts: Seq<Seq<char>>)
    requires
        are_small_words(parts),
    ensures
        slug(text::spec_join(parts, "-"@)) == text::spec_join(parts, "-"@),
{
    if parts.len() > 0 {
        lemma_join_of_words(parts);
    } else {
        assert(text::spec_join(parts, "-"@) =~= Seq::empty());
    }
}

/// The name of a session is a single ordinary path component, whatever the user calls it: the
/// session's directory lies directly under the one that it is created in.
pub proof fn law_session_id_is_plain_name(prefix: Option<Seq<char>>, ts: Seq<char>, pid: u32)
    requires
        forall|i: int| 0 <= i < ts.len() ==> is_stamp_char(#[trigger] ts[i]),
    ensures
        path::is_plain_name(session_id_of(prefix, ts, pid)),
{
    let name = slug_or_session(prefix);
    let id = session_id_of(prefix, ts, pid);
    reveal_strlit("session");
    reveal_strlit("-");
    if prefix is Some {
        law_slug_shape(prefix->0);
    }
    text::lemma_decimal_digits(pid as nat);
    let digits = text::decimal(pid as nat);
    assert(name.len() > 0);
    assert(digits.len() > 0);
    assert forall|i: int| 0 <= i < id.len() implies id[i] != '/' by {
        let a = name.len() as int;
        let b = a + 1;
        let c = b + ts.len();
        let d = c + 1;
        if i < a {
            assert(id[i] == name[i]);
        } else if i < b {
            assert(id[i] == "-"@[0]);
        } else if i < c {
            assert(id[i] == ts[i - b]);
        } else if i < d {
            assert(id[i] == "-"@[0]);
        } else {
            assert(id[i] == digits[i - d]);
        }
    }
}

/// What a name becomes, character by character: a letter or digit of ASCII is kept, in lower case,
/// and begins a new word, behind a hyphen, exactly if the character before it was none; any other
/// character only ends the word before it.
pub proof fn law_slug_goes_by_character(s: Seq<char>, c: char)
    ensures
        slug(Seq::empty()) == Seq::<char>::empty(),
        ({
            let is_kept = |x: char|
                ('a' <= x && x <= 'z') || ('A' <= x && x <= 'Z') || ('0' <= x && x <= '9');
            let goes_on = s.len() > 0 && is_kept(s.last());
            let small = text::spec_lowercase(seq![c]);
            &&& !is_kept(c) ==> slug(s.push(c)) == slug(s)
            &&& is_kept(c) && goes_on ==> slug(s.push(c)) == slug(s) + small
            &&& is_kept(c) && !goes_on && slug(s).len() == 0 ==> slug(s.push(c)) == small
            &&& is_kept(c) && !goes_on && slug(s).len() > 0 ==> slug(s.push(c)) == slug(s) + seq![
                '-',
            ] + small
        }),
{
    reveal_strlit("-");
    assert("-"@ =~= seq!['-']);
    let t = s.push(c);
    let small = text::spec_lowercase(seq![c]);
    assert(small =~= seq![text::ascii_lower(c)]);
    assert(t.drop_last() =~= s);
    lemma_words_nonempty(s);
    lemma_join_length(words(s), "-"@);
    if is_word_char(c) {
        if s.len() > 0 && is_word_char(s.last()) {
            assert(t[t.len() - 2] == s.last());
            lemma_join_longer_last(words(s), "-"@, text::ascii_lower(c));
            assert(slug(t) =~= slug(s) + small);
        } else {
            if s.len() > 0 {
                assert(t[t.len() - 2] == s.last());
            }
            assert(words(t) == words(s).push(seq![text::ascii_lower(c)]));
            lemma_join_one_more(words(s), "-"@, small);
        }
    }
}

/// A session is called by what it is to be called, as far as letters and digits go, and else just a
/// session, then by the time at which it was named, then by the process that named it. So sessions
/// that two processes name at one time have different names.
pub proof fn law_session_id_tells(
    prefix: Option<Seq<char>>,
    ts: Seq<char>,
    pid: u32,
    other: u32,
)
    ensures
        prefix matches Some(name) ==> (slug(name).len() > 0 ==> session_id_of(prefix, ts, pid)
            == slug(name) + "-"@ + ts + "-"@ + text::decimal(pid as nat)),
        (prefix matches Some(name) ==> slug(name).len() == 0) ==> session_id_of(prefix, ts, pid)
            == "session"@ + "-"@ + ts + "-"@ + text::decimal(pid as nat),
        session_id_of(prefix, ts, pid) == session_id_of(prefix, ts, other) ==> pid == other,
{
    if session_id_of(prefix, ts, pid) == session_id_of(prefix, ts, other) {
        let front = slug_or_session(prefix) + "-"@ + ts + "-"@;
        let n = front.len() as int;
        let a = session_id_of(prefix, ts, pid);
        let b = session_id_of(prefix, ts, other);
        assert(a.skip(n) =~= text::decimal(pid as nat));
        assert(b.skip(n) =~= text::decimal(other as nat));
        text::law_decimal_round_trip(pid as nat, u32::MAX as nat);
        text::law_decimal_round_trip(other as nat, u32::MAX as nat);
    }
}

/// The artifacts of a session are five files of different names in its directory: what was recorded
/// of the system and of the microphone, the finished audio, the transcript, and the log.
pub proof fn law_artifacts_have_their_names(paths: SessionPaths, root: Seq<char>)
    requires
        paths.lie_in(root),
    ensures
        paths.root_dir@ == root,
        path::spec_file_name(paths.system_audio_path@) == Some("system.wav"@),
        path::spec_file_name(paths.microphone_audio_path@) == Some("microphone.wav"@),
        path::spec_file_name(paths.raw_audio_path@) == Some("session.wav"@),
        path::spec_file_name(paths.transcript_path@) == Some("transcript.json"@),
        path::spec_file_name(paths.event_log_path@) == Some("events.jsonl"@),
        path::components(paths.system_audio_path@).drop_last() == path::components(root),
        path::components(paths.microphone_audio_path@).drop_last() == path::components(root),
        path::components(paths.raw_audio_path@).drop_last() == path::components(root),
        path::components(paths.transcript_path@).drop_last() == path::components(root),
        path::components(paths.event_log_path@).drop_last() == path::components(root),
{
    reveal_strlit("system.wav");
    reveal_strlit("microphone.wav");
    reveal_strlit("session.wav");
    reveal_strlit("transcript.json");
    reveal_strlit("events.jsonl");
    path::law_join_file_name(root, "system.wav"@);
    path::law_join_file_name(root, "microphone.wav"@);
    path::law_join_file_name(root, "session.wav"@);
    path::law_join_file_name(root, "transcript.json"@);
    path::law_join_file_name(root, "events.jsonl"@);
    path::law_join_adds_component(root, "system.wav"@);
    path::law_join_adds_component(root, "microphone.wav"@);
    path::law_join_adds_component(root, "session.wav"@);
    path::law_join_adds_component(root, "transcript.json"@);
    path::law_join_adds_component(root, "events.jsonl"@);
    let base = path::components(root);
    assert(base.push("system.wav"@).drop_last() =~= base);
    assert(base.push("microphone.wav"@).drop_last() =~= base);
    assert(base.push("session.wav"@).drop_last() =~= base);
    assert(base.push("transcript.json"@).drop_last() =~= base);
    assert(base.push("events.jsonl"@).drop_last() =~= base);
}

/// A time is told as it was formatted; where it could not be, as its number of seconds, with a minus
/// before 1970.
pub proof fn law_time_is_told(formatted: Option<Seq<char>>, seconds: int)
    ensures
        formatted matches Some(text) ==> stamp(formatted, seconds) == text,
        formatted is None && seconds >= 0 ==> stamp(formatted, seconds) == text::decimal(
            seconds as nat,
        ),
        formatted is None && seconds < 0 ==> stamp(formatted, seconds) == seq!['-']
            + text::decimal((-seconds) as nat),
{
    reveal_strlit("-");
    assert("-"@ =~= seq!['-']);
}

} // verus!
