//! Paths as the operating system has them, and how they become text.
//!
//! The operating system's paths are bytes, which mostly are text in UTF-8. A component that is such
//! text stands for itself. In any other component each byte outside ASCII is written as a NUL,
//! which no path can hold, and the character of the byte's number, so that no byte is lost. A
//! message that names a path holds this text, and [`shown`] is what a reader sees of either.
use crate::text;
use vstd::prelude::*;

verus! {

// ---------------------------------------------------------------------------------------------
// From bytes to text
// ---------------------------------------------------------------------------------------------
/// `std::str::from_utf8`: there is a text exactly if the bytes are valid UTF-8, and it is the one
/// that they encode.
#[verifier::external_body]
fn utf8_text(bytes: &[u8]) -> (r: Option<String>)
    ensures
        r is Some <==> vstd::utf8::valid_utf8(bytes@),
        r matches Some(text) ==> text@ == vstd::utf8::decode_utf8(bytes@),
{
    std::str::from_utf8(bytes).ok().map(str::to_owned)
}

/// The text that `String::from_utf8_lossy` makes of bytes: what is not valid UTF-8 is replaced.
pub uninterp spec fn lossy_of(bytes: Seq<u8>) -> Seq<char>;

/// `String::from_utf8_lossy`: the text depends on the bytes alone, and is the one that they encode
/// where they are valid UTF-8. How much of other bytes a replacement character stands for is left
/// unsaid.
#[verifier::external_body]
fn lossy_text(bytes: &[u8]) -> (r: String)
    ensures
        r@ == lossy_of(bytes@),
        vstd::utf8::valid_utf8(bytes@) ==> r@ == vstd::utf8::decode_utf8(bytes@),
{
    String::from_utf8_lossy(bytes).into_owned()
}

/// Each byte by itself: ASCII as it is, and any other behind a NUL.
pub open spec fn escaped(bytes: Seq<u8>) -> Seq<char>
    decreases bytes.len(),
{
    if bytes.len() == 0 {
        Seq::empty()
    } else if bytes.last() < 0x80 {
        escaped(bytes.drop_last()).push(bytes.last() as char)
    } else {
        escaped(bytes.drop_last()).push('\0').push(bytes.last() as char)
    }
}

/// The text of a component.
pub open spec fn component_text(bytes: Seq<u8>) -> Seq<char> {
    if vstd::utf8::valid_utf8(bytes) {
        vstd::utf8::decode_utf8(bytes)
    } else {
        escaped(bytes)
    }
}

/// Where the last component of a path begins.
pub open spec fn component_start(bytes: Seq<u8>) -> int
    decreases bytes.len(),
{
    if bytes.len() == 0 || bytes.last() == 0x2f {
        bytes.len() as int
    } else {
        component_start(bytes.drop_last())
    }
}

pub proof fn lemma_component_start(bytes: Seq<u8>)
    ensures
        0 <= component_start(bytes) <= bytes.len(),
        forall|i: int| component_start(bytes) <= i < bytes.len() ==> bytes[i] != 0x2f,
        component_start(bytes) > 0 ==> bytes[component_start(bytes) - 1] == 0x2f,
    decreases bytes.len(),
{
    if bytes.len() > 0 && bytes.last() != 0x2f {
        lemma_component_start(bytes.drop_last());
        assert forall|i: int| component_start(bytes) <= i < bytes.len() implies bytes[i] != 0x2f by {
            if i < bytes.len() - 1 {
                assert(bytes.drop_last()[i] == bytes[i]);
            }
        }
    }
}

/// The text of a path.
pub open spec fn text_of(bytes: Seq<u8>) -> Seq<char>
    decreases bytes.len(),
{
    proof {
        lemma_component_start(bytes);
    }
    let start = component_start(bytes);
    let last = component_text(bytes.skip(start));
    if start <= 0 || bytes.len() < start {
        last
    } else {
        text_of(bytes.take(start - 1)).push('/') + last
    }
}

/// Whether a text is all Unicode, with no byte in it that is not.
pub open spec fn is_unicode(text: Seq<char>) -> bool {
    !text.contains('\0')
}

fn escape(bytes: &[u8]) -> (r: String)
    ensures
        r@ == escaped(bytes@),
{
    let mut out = String::new();
    let mut i: usize = 0;
    assert(bytes@.take(0) =~= Seq::<u8>::empty());
    assert(out@ =~= escaped(bytes@.take(0)));
    while i < bytes.len()
        invariant
            i <= bytes@.len(),
            out@ == escaped(bytes@.take(i as int)),
        decreases bytes@.len() - i,
    {
        assert(bytes@.take(i + 1).drop_last() =~= bytes@.take(i as int));
        assert(bytes@.take(i + 1).last() == bytes@[i as int]);
        if bytes[i] >= 0x80 {
            out.push('\0');
        }
        out.push(bytes[i] as char);
        i = i + 1;
    }
    assert(bytes@.take(i as int) =~= bytes@);
    out
}

fn component(bytes: &[u8]) -> (r: String)
    ensures
        r@ == component_text(bytes@),
{
    match utf8_text(bytes) {
        Some(text) => text,
        None => escape(bytes),
    }
}

proof fn lemma_start_is(bytes: Seq<u8>, start: int)
    requires
        0 <= start <= bytes.len(),
        forall|i: int| start <= i < bytes.len() ==> bytes[i] != 0x2f,
        start > 0 ==> bytes[start - 1] == 0x2f,
    ensures
        component_start(bytes) == start,
{
    lemma_component_start(bytes);
    let other = component_start(bytes);
    if other > start {
        assert(bytes[other - 1] != 0x2f);
    } else if other < start {
        assert(bytes[start - 1] != 0x2f);
    }
}

spec fn text_before(bytes: Seq<u8>, start: int) -> Seq<char> {
    if start <= 0 {
        Seq::empty()
    } else {
        text_of(bytes.take(start - 1)).push('/')
    }
}

proof fn lemma_text_so_far(bytes: Seq<u8>, start: int, end: int)
    requires
        0 <= start <= end <= bytes.len(),
        forall|i: int| start <= i < end ==> bytes[i] != 0x2f,
        start > 0 ==> bytes[start - 1] == 0x2f,
    ensures
        text_of(bytes.take(end)) == text_before(bytes, start) + component_text(
            bytes.subrange(start, end),
        ),
{
    let part = bytes.take(end);
    lemma_start_is(part, start);
    assert(part.skip(start) =~= bytes.subrange(start, end));
    if start > 0 {
        assert(part.take(start - 1) =~= bytes.take(start - 1));
    } else {
        assert(text_before(bytes, start) + component_text(part.skip(start)) =~= component_text(
            part.skip(start),
        ));
    }
}

/// The text of a path.
pub fn path_text(bytes: &[u8]) -> (r: String)
    ensures
        r@ == text_of(bytes@),
{
    let mut out = String::new();
    let mut start: usize = 0;
    let mut i: usize = 0;
    assert(out@ =~= text_before(bytes@, 0));
    while i < bytes.len()
        invariant
            start <= i <= bytes@.len(),
            forall|k: int| start <= k < i ==> bytes@[k] != 0x2f,
            start > 0 ==> bytes@[start - 1] == 0x2f,
            out@ == text_before(bytes@, start as int),
        decreases bytes@.len() - i,
    {
        if bytes[i] == 0x2f {
            proof {
                lemma_text_so_far(bytes@, start as int, i as int);
            }
            let part = component(vstd::slice::slice_subrange(bytes, start, i));
            out = text::cat2(out.as_str(), part.as_str());
            out.push('/');
            start = i + 1;
            assert(bytes@.take(start - 1) =~= bytes@.take(i as int));
        }
        i = i + 1;
    }
    proof {
        lemma_text_so_far(bytes@, start as int, i as int);
        assert(bytes@.take(i as int) =~= bytes@);
    }
    let part = component(vstd::slice::slice_subrange(bytes, start, bytes.len()));
    out = text::cat2(out.as_str(), part.as_str());
    out
}

// ---------------------------------------------------------------------------------------------
// From text to bytes
// ---------------------------------------------------------------------------------------------
/// Whether `c` stands for a byte outside ASCII where it follows a NUL.
pub open spec fn is_high(c: char) -> bool {
    '\u{80}' <= c && c <= '\u{ff}'
}

/// The bytes that a text stands for.
pub open spec fn bytes_of(text: Seq<char>) -> Seq<u8>
    decreases text.len(),
{
    if text.len() == 0 {
        Seq::empty()
    } else if text.len() >= 2 && text[0] == '\0' && is_high(text[1]) {
        seq![text[1] as u8] + bytes_of(text.skip(2))
    } else {
        vstd::utf8::encode_scalar(text[0] as u32) + bytes_of(text.skip(1))
    }
}

fn push_char(bytes: &mut Vec<u8>, c: char)
    ensures
        final(bytes)@ == old(bytes)@ + vstd::utf8::encode_scalar(c as u32),
{
    let mut one = String::new();
    one.push(c);
    proof {
        assert(one@ =~= seq![c]);
        assert(seq![c].drop_first() =~= Seq::<char>::empty());
        reveal_with_fuel(vstd::utf8::encode_utf8, 2);
        assert(vstd::utf8::encode_utf8(seq![c]) =~= vstd::utf8::encode_scalar(c as u32));
    }
    bytes.extend_from_slice(one.as_str().as_bytes());
    assert(bytes@ =~= old(bytes)@ + vstd::utf8::encode_scalar(c as u32));
}

/// The bytes that a text stands for.
pub fn path_bytes(text: &str) -> (r: Vec<u8>)
    ensures
        r@ == bytes_of(text@),
{
    let chars = text::chars_of(text);
    let mut out: Vec<u8> = Vec::new();
    let mut i: usize = 0;
    assert(text@.skip(0) =~= text@);
    assert(out@ + bytes_of(text@.skip(0)) =~= bytes_of(text@));
    while i < chars.len()
        invariant
            i <= chars@.len(),
            chars@ == text@,
            out@ + bytes_of(text@.skip(i as int)) == bytes_of(text@),
        decreases chars@.len() - i,
    {
        let ghost before = out@;
        let ghost rest = text@.skip(i as int);
        assert(rest[0] == chars@[i as int]);
        if chars.len() - i >= 2 && chars[i] == '\0' && chars[i + 1] >= '\u{80}' && chars[i + 1]
            <= '\u{ff}' {
            assert(rest[1] == chars@[i + 1]);
            out.push(chars[i + 1] as u8);
            assert(rest.skip(2) =~= text@.skip(i + 2));
            assert(out@ + bytes_of(rest.skip(2)) =~= before + bytes_of(rest));
            i = i + 2;
        } else {
            push_char(&mut out, chars[i]);
            assert(rest.len() >= 2 ==> rest[1] == chars@[i + 1]);
            assert(rest.skip(1) =~= text@.skip(i + 1));
            assert(out@ + bytes_of(rest.skip(1)) =~= before + bytes_of(rest));
            i = i + 1;
        }
    }
    assert(text@.skip(i as int) =~= Seq::empty());
    assert(out@ =~= out@ + bytes_of(text@.skip(i as int)));
    out
}

/// A text as it is shown: what in it is not Unicode is replaced.
pub open spec fn shown(text: Seq<char>) -> Seq<char> {
    if is_unicode(text) {
        text
    } else {
        lossy_of(bytes_of(text))
    }
}

/// Whether a text is all Unicode.
pub fn holds_unicode(text: &str) -> (r: bool)
    ensures
        r == is_unicode(text@),
{
    let chars = text::chars_of(text);
    let mut i: usize = 0;
    while i < chars.len()
        invariant
            i <= chars@.len(),
            chars@ == text@,
            forall|k: int| 0 <= k < i ==> chars@[k] != '\0',
        decreases chars@.len() - i,
    {
        if chars[i] == '\0' {
            assert(text@[i as int] == '\0');
            return false;
        }
        i = i + 1;
    }
    true
}

/// A text as it is shown.
pub fn shown_text(text: &str) -> (r: String)
    ensures
        r@ == shown(text@),
{
    if holds_unicode(text) {
        text.to_owned()
    } else {
        lossy_text(path_bytes(text).as_slice())
    }
}

// ---------------------------------------------------------------------------------------------
// Laws
// ---------------------------------------------------------------------------------------------
proof fn lemma_plain_in_front(plain: Seq<char>, rest: Seq<char>)
    requires
        is_unicode(plain),
    ensures
        bytes_of(plain + rest) == vstd::utf8::encode_utf8(plain) + bytes_of(rest),
    decreases plain.len(),
{
    if plain.len() == 0 {
        assert(plain + rest =~= rest);
        assert(vstd::utf8::encode_utf8(plain) + bytes_of(rest) =~= bytes_of(rest));
    } else {
        let after = plain.drop_first();
        assert(plain.contains(plain[0]));
        assert forall|c: char| #[trigger] after.contains(c) implies plain.contains(c) by {
            let i = choose|i: int| 0 <= i < after.len() && after[i] == c;
            assert(plain[i + 1] == c);
        }
        lemma_plain_in_front(after, rest);
        assert((plain + rest).skip(1) =~= after + rest);
        assert((plain + rest)[0] == plain[0]);
        assert(bytes_of(plain + rest) =~= vstd::utf8::encode_scalar(plain[0] as u32) + bytes_of(
            after + rest,
        ));
        assert(bytes_of(plain + rest) =~= vstd::utf8::encode_utf8(plain) + bytes_of(rest));
    }
}

/// A text that is all Unicode stands for itself in UTF-8, and is shown as it is.
pub proof fn law_unicode_text_stands_for_itself(text: Seq<char>)
    requires
        is_unicode(text),
    ensures
        bytes_of(text) == vstd::utf8::encode_utf8(text),
        shown(text) == text,
{
    lemma_plain_in_front(text, Seq::empty());
    assert(text + Seq::<char>::empty() =~= text);
    assert(vstd::utf8::encode_utf8(text) + bytes_of(Seq::empty()) =~= vstd::utf8::encode_utf8(
        text,
    ));
}

proof fn lemma_ascii_byte(b: u8)
    requires
        b < 0x80,
    ensures
        vstd::utf8::encode_scalar((b as char) as u32) == seq![b],
{
    let n = b as u32;
    assert((n & 0x7f) as u8 == b) by (bit_vector)
        requires
            n == b as u32,
            b < 0x80,
    ;
    assert((b as char) as u32 == n);
    assert(vstd::utf8::encode_scalar(n) =~= seq![b]);
}

proof fn lemma_escaped_in_front(bytes: Seq<u8>, rest: Seq<char>)
    requires
        forall|i: int| 0 <= i < bytes.len() ==> bytes[i] != 0,
    ensures
        bytes_of(escaped(bytes) + rest) == bytes + bytes_of(rest),
    decreases bytes.len(),
{
    if bytes.len() == 0 {
        assert(escaped(bytes) + rest =~= rest);
        assert(bytes + bytes_of(rest) =~= bytes_of(rest));
    } else {
        let before = bytes.drop_last();
        let b = bytes.last();
        if b < 0x80 {
            let next = seq![b as char] + rest;
            lemma_escaped_in_front(before, next);
            lemma_ascii_byte(b);
            assert(escaped(bytes) + rest =~= escaped(before) + next);
            assert(next.skip(1) =~= rest);
            assert(bytes_of(next) =~= seq![b] + bytes_of(rest));
        } else {
            let next = seq!['\0', b as char] + rest;
            lemma_escaped_in_front(before, next);
            assert(escaped(bytes) + rest =~= escaped(before) + next);
            assert(next.skip(2) =~= rest);
            assert(bytes_of(next) =~= seq![b] + bytes_of(rest));
        }
        assert(bytes + bytes_of(rest) =~= before + (seq![b] + bytes_of(rest)));
    }
}

proof fn lemma_decoded_is_unicode(bytes: Seq<u8>)
    requires
        vstd::utf8::valid_utf8(bytes),
        forall|i: int| 0 <= i < bytes.len() ==> bytes[i] != 0,
    ensures
        is_unicode(vstd::utf8::decode_utf8(bytes)),
    decreases bytes.len(),
{
    if bytes.len() > 0 {
        let rest = vstd::utf8::pop_first_scalar(bytes);
        let first = vstd::utf8::decode_first_scalar(bytes);
        assert(rest.len() < bytes.len());
        assert forall|i: int| 0 <= i < rest.len() implies rest[i] != 0 by {
            assert(rest[i] == bytes[i + vstd::utf8::length_of_first_scalar(bytes)]);
        }
        lemma_decoded_is_unicode(rest);
        assert(first as char != '\0') by {
            vstd::utf8::decode_utf8_first_scalar(bytes);
            lemma_ascii_byte(0);
            assert(vstd::utf8::take_first_scalar(bytes)[0] == bytes[0]);
            assert(0u8 as char == '\0');
        }
        let text = vstd::utf8::decode_utf8(bytes);
        let after = vstd::utf8::decode_utf8(rest);
        if text.contains('\0') {
            let i = choose|i: int| 0 <= i < text.len() && text[i] == '\0';
            assert(i > 0);
            assert(after[i - 1] == '\0');
        }
    }
}

proof fn lemma_component_in_front(bytes: Seq<u8>, rest: Seq<char>)
    requires
        forall|i: int| 0 <= i < bytes.len() ==> bytes[i] != 0,
    ensures
        bytes_of(component_text(bytes) + rest) == bytes + bytes_of(rest),
{
    if vstd::utf8::valid_utf8(bytes) {
        lemma_decoded_is_unicode(bytes);
        lemma_plain_in_front(vstd::utf8::decode_utf8(bytes), rest);
        vstd::utf8::decode_utf8_encode_utf8(bytes);
    } else {
        lemma_escaped_in_front(bytes, rest);
    }
}

proof fn lemma_text_in_front(bytes: Seq<u8>, rest: Seq<char>)
    requires
        forall|i: int| 0 <= i < bytes.len() ==> bytes[i] != 0,
    ensures
        bytes_of(text_of(bytes) + rest) == bytes + bytes_of(rest),
    decreases bytes.len(),
{
    lemma_component_start(bytes);
    let start = component_start(bytes);
    let last = bytes.skip(start);
    lemma_component_in_front(last, rest);
    if start > 0 {
        let front = bytes.take(start - 1);
        let next = seq!['/'] + (component_text(last) + rest);
        lemma_text_in_front(front, next);
        lemma_ascii_byte(0x2f);
        assert(0x2fu8 as char == '/');
        assert(text_of(bytes) + rest =~= text_of(front) + next);
        assert(next.skip(1) =~= component_text(last) + rest);
        assert(bytes_of(next) =~= seq![0x2fu8] + (last + bytes_of(rest)));
        assert(bytes + bytes_of(rest) =~= front + (seq![0x2fu8] + (last + bytes_of(rest))));
    } else {
        assert(last =~= bytes);
    }
}

/// No byte of a path is lost in its text: the text stands for the very same bytes. A path holds no
/// zero byte.
pub proof fn law_no_byte_is_lost(bytes: Seq<u8>)
    requires
        forall|i: int| 0 <= i < bytes.len() ==> bytes[i] != 0,
    ensures
        bytes_of(text_of(bytes)) == bytes,
{
    lemma_text_in_front(bytes, Seq::empty());
    assert(text_of(bytes) + Seq::<char>::empty() =~= text_of(bytes));
    assert(bytes + bytes_of(Seq::empty()) =~= bytes);
}

proof fn lemma_boundary(bytes: Seq<u8>, index: int)
    requires
        vstd::utf8::valid_utf8(bytes),
        0 <= index <= bytes.len(),
        index < bytes.len() ==> bytes[index] < 0x80,
    ensures
        vstd::utf8::is_char_boundary(bytes, index),
{
    if index < bytes.len() {
        vstd::utf8::is_char_boundary_iff_not_is_continuation_byte(bytes, index);
        vstd::utf8::utf8_byte_ranges_bitwise(bytes[index]);
    } else {
        vstd::utf8::is_char_boundary_start_end_of_seq(bytes);
    }
}

proof fn lemma_ascii_encodes(bytes: Seq<u8>, text: Seq<char>)
    requires
        end_in(bytes, text),
        bytes.len() == text.len(),
    ensures
        vstd::utf8::encode_utf8(text) == bytes,
    decreases text.len(),
{
    if text.len() > 0 {
        let bytes_after = bytes.drop_first();
        let after = text.drop_first();
        assert forall|i: int| 0 <= i < after.len() implies is_ascii_byte(
            #[trigger] bytes_after[i],
            after[i],
        ) by {
            assert(is_ascii_byte(bytes[i + 1], text[i + 1]));
        }
        lemma_ascii_encodes(bytes_after, after);
        assert(is_ascii_byte(bytes[0], text[0]));
        lemma_ascii_byte(bytes[0]);
        assert(seq![bytes[0]] + bytes_after =~= bytes);
    } else {
        assert(bytes =~= Seq::empty());
    }
}

proof fn lemma_ascii_is_text(bytes: Seq<u8>, text: Seq<char>)
    requires
        end_in(bytes, text),
        bytes.len() == text.len(),
    ensures
        vstd::utf8::valid_utf8(bytes),
        vstd::utf8::decode_utf8(bytes) == text,
{
    lemma_ascii_encodes(bytes, text);
    vstd::utf8::encode_utf8_valid_utf8(text);
    vstd::utf8::encode_utf8_decode_utf8(text);
}

/// A path that is valid UTF-8 has the text that it encodes.
pub proof fn law_unicode_path_is_its_text(bytes: Seq<u8>)
    requires
        vstd::utf8::valid_utf8(bytes),
    ensures
        text_of(bytes) == vstd::utf8::decode_utf8(bytes),
    decreases bytes.len(),
{
    lemma_component_start(bytes);
    let start = component_start(bytes);
    if start > 0 {
        let front = bytes.take(start - 1);
        let middle = bytes.subrange(start - 1, bytes.len() as int);
        let last = bytes.skip(start);
        lemma_boundary(bytes, start - 1);
        vstd::utf8::valid_utf8_split(bytes, start - 1);
        vstd::utf8::decode_utf8_split(bytes, start - 1);
        assert(front =~= bytes.subrange(0, start - 1));
        law_unicode_path_is_its_text(front);
        assert(middle[0] == 0x2f);
        vstd::utf8::utf8_byte_ranges_bitwise(middle[0]);
        assert(vstd::utf8::length_of_first_scalar(middle) == 1);
        assert(vstd::utf8::pop_first_scalar(middle) =~= last);
        assert(vstd::utf8::decode_first_scalar(middle) == 0x2f) by {
            assert((0x2fu8 & 0x7f) as u32 == 0x2f) by (bit_vector);
        }
        assert(text_of(bytes) =~= vstd::utf8::decode_utf8(front) + vstd::utf8::decode_utf8(
            middle,
        ));
    } else {
        assert(bytes.skip(start) =~= bytes);
    }
}

/// The text of a path is all Unicode exactly if the path is valid UTF-8.
pub proof fn law_text_is_unicode_if_valid(bytes: Seq<u8>)
    requires
        forall|i: int| 0 <= i < bytes.len() ==> bytes[i] != 0,
    ensures
        is_unicode(text_of(bytes)) <==> vstd::utf8::valid_utf8(bytes),
{
    if vstd::utf8::valid_utf8(bytes) {
        law_unicode_path_is_its_text(bytes);
        lemma_decoded_is_unicode(bytes);
    }
    if is_unicode(text_of(bytes)) {
        law_no_byte_is_lost(bytes);
        law_unicode_text_stands_for_itself(text_of(bytes));
        vstd::utf8::encode_utf8_valid_utf8(text_of(bytes));
    }
}

/// Whether `b` is the ASCII character `c`.
pub open spec fn is_ascii_byte(b: u8, c: char) -> bool {
    b < 0x80 && b as char == c
}

/// Whether `bytes` end in the ASCII text `name`.
pub open spec fn end_in(bytes: Seq<u8>, name: Seq<char>) -> bool {
    let at = bytes.len() - name.len();
    &&& at >= 0
    &&& forall|i: int| at <= i < bytes.len() ==> is_ascii_byte(#[trigger] bytes[i], name[i - at])
}

proof fn lemma_escaped_end(bytes: Seq<u8>, name: Seq<char>)
    requires
        end_in(bytes, name),
    ensures
        text::spec_ends_with(escaped(bytes), name),
    decreases name.len(),
{
    if name.len() > 0 {
        let before = name.drop_last();
        let c = name.last();
        let at = bytes.len() - name.len();
        assert forall|i: int| at <= i < bytes.len() - 1 implies is_ascii_byte(
            #[trigger] bytes.drop_last()[i],
            before[i - at],
        ) by {
            assert(is_ascii_byte(bytes[i], name[i - at]));
        }
        lemma_escaped_end(bytes.drop_last(), before);
        assert(is_ascii_byte(bytes[bytes.len() - 1], name[bytes.len() - 1 - at]));
        let front = escaped(bytes.drop_last());
        assert(escaped(bytes) == front.push(c));
        assert(escaped(bytes).subrange(
            escaped(bytes).len() - name.len(),
            escaped(bytes).len() as int,
        ) =~= front.subrange(front.len() - before.len(), front.len() as int).push(c));
        assert(name =~= before.push(c));
    } else {
        let text = escaped(bytes);
        assert(text.subrange(text.len() as int, text.len() as int) =~= name);
    }
}

proof fn lemma_component_end(bytes: Seq<u8>, name: Seq<char>)
    requires
        end_in(bytes, name),
    ensures
        text::spec_ends_with(component_text(bytes), name),
{
    if vstd::utf8::valid_utf8(bytes) {
        let at = bytes.len() - name.len();
        lemma_boundary(bytes, at);
        vstd::utf8::decode_utf8_split(bytes, at);
        let end = bytes.subrange(at, bytes.len() as int);
        assert forall|i: int| 0 <= i < end.len() implies is_ascii_byte(
            #[trigger] end[i],
            name[i],
        ) by {
            assert(is_ascii_byte(bytes[at + i], name[at + i - at]));
        }
        lemma_ascii_is_text(end, name);
        let text = vstd::utf8::decode_utf8(bytes);
        assert(text.subrange(text.len() - name.len(), text.len() as int) =~= name);
    } else {
        lemma_escaped_end(bytes, name);
    }
}

/// Where the bytes of a path end in an ASCII name, its text does so too.
pub proof fn law_text_ends_as_bytes_do(bytes: Seq<u8>, name: Seq<char>)
    requires
        end_in(bytes, name),
    ensures
        text::spec_ends_with(text_of(bytes), name),
    decreases bytes.len(),
{
    lemma_component_start(bytes);
    let start = component_start(bytes);
    let last = bytes.skip(start);
    let text = text_of(bytes);
    let at = bytes.len() - name.len();
    if start <= at {
        assert forall|i: int| at - start <= i < last.len() implies is_ascii_byte(
            #[trigger] last[i],
            name[i - (at - start)],
        ) by {
            assert(is_ascii_byte(bytes[start + i], name[start + i - at]));
        }
        lemma_component_end(last, name);
        let end = component_text(last);
        assert(text.subrange(text.len() - name.len(), text.len() as int) =~= end.subrange(
            end.len() - name.len(),
            end.len() as int,
        ));
    } else {
        let n = start - 1 - at;
        let front = bytes.take(start - 1);
        let first = name.take(n);
        let second = name.skip(n + 1);
        assert forall|i: int| at <= i < front.len() implies is_ascii_byte(
            #[trigger] front[i],
            first[i - at],
        ) by {
            assert(is_ascii_byte(bytes[i], name[i - at]));
        }
        law_text_ends_as_bytes_do(front, first);
        assert forall|i: int| 0 <= i < last.len() implies is_ascii_byte(
            #[trigger] last[i],
            second[i],
        ) by {
            assert(is_ascii_byte(bytes[start + i], name[start + i - at]));
        }
        lemma_ascii_is_text(last, second);
        assert(is_ascii_byte(bytes[start - 1], name[start - 1 - at]));
        assert(0x2fu8 as char == '/');
        let before = text_of(front);
        assert(text =~= before.push('/') + second);
        assert(name =~= first.push('/') + second);
        assert(text.subrange(text.len() - name.len(), text.len() as int) =~= before.subrange(
            before.len() - n,
            before.len() as int,
        ).push('/') + second);
    }
}

/// What in a text is not Unicode is replaced where it is shown, as it is in the bytes it stands for.
pub proof fn law_other_text_is_shown_replaced(text: Seq<char>)
    requires
        !is_unicode(text),
    ensures
        shown(text) == lossy_of(bytes_of(text)),
{
}

} // verus!
