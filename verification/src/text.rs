//! Text as sequences of characters: the string operations the rest of the crate is built on, each
//! stated over `Seq<char>`.
use vstd::prelude::*;

verus! {

/// `String::push`: the character goes to the end of the string, and nothing else changes.
pub assume_specification[ String::push ](s: &mut String, c: char)
    ensures
        final(s)@ == old(s)@.push(c),
;

/// The characters of `s`, in order.
pub fn chars_of(s: &str) -> (r: Vec<char>)
    ensures
        r@ == s@,
{
    let mut out: Vec<char> = Vec::new();
    for c in it: s.chars()
        invariant
            out@ == s@.take(it.index() as int),
            it.seq() == s@,
    {
        proof {
            assert(s@.take(it.index() as int).push(c) =~= s@.take(it.index() as int + 1));
        }
        out.push(c);
    }
    assert(s@.take(s@.len() as int) =~= s@);
    out
}

/// The string made of `chars[from..to]`.
pub fn string_of(chars: &Vec<char>, from: usize, to: usize) -> (r: String)
    requires
        from <= to <= chars@.len(),
    ensures
        r@ == chars@.subrange(from as int, to as int),
{
    let mut out = String::new();
    let mut i: usize = from;
    while i < to
        invariant
            from <= i <= to <= chars@.len(),
            out@ == chars@.subrange(from as int, i as int),
        decreases to - i,
    {
        out.push(chars[i]);
        i = i + 1;
        assert(chars@.subrange(from as int, i as int) =~= chars@.subrange(from as int, i - 1).push(
            chars@[i - 1],
        ));
    }
    out
}

/// Whether two strings hold the same characters.
pub fn same(a: &str, b: &str) -> (r: bool)
    ensures
        r == (a@ == b@),
{
    let x = chars_of(a);
    let y = chars_of(b);
    if x.len() != y.len() {
        return false;
    }
    let mut i: usize = 0;
    while i < x.len()
        invariant
            i <= x@.len(),
            x@.len() == y@.len(),
            x@ == a@,
            y@ == b@,
            forall|k: int| 0 <= k < i ==> x@[k] == y@[k],
        decreases x@.len() - i,
    {
        if x[i] != y[i] {
            return false;
        }
        i = i + 1;
    }
    assert(x@ =~= y@);
    true
}

/// `a` followed by `b`.
pub fn cat2(a: &str, b: &str) -> (r: String)
    ensures
        r@ == a@ + b@,
{
    let mut out = a.to_owned();
    out.append(b);
    out
}

/// `a`, `b` and `c`, one after the other.
pub fn cat3(a: &str, b: &str, c: &str) -> (r: String)
    ensures
        r@ == a@ + b@ + c@,
{
    let mut out = cat2(a, b);
    out.append(c);
    out
}

/// `a`, `b`, `c` and `d`, one after the other.
pub fn cat4(a: &str, b: &str, c: &str, d: &str) -> (r: String)
    ensures
        r@ == a@ + b@ + c@ + d@,
{
    let mut out = cat3(a, b, c);
    out.append(d);
    out
}

/// `a`, `b`, `c`, `d` and `e`, one after the other.
pub fn cat5(a: &str, b: &str, c: &str, d: &str, e: &str) -> (r: String)
    ensures
        r@ == a@ + b@ + c@ + d@ + e@,
{
    let mut out = cat4(a, b, c, d);
    out.append(e);
    out
}

// ---------------------------------------------------------------------------------------------
// White space and lines
// ---------------------------------------------------------------------------------------------
/// The characters with the Unicode property `White_Space`.
pub open spec fn is_space(c: char) -> bool {
    ||| '\u{9}' <= c <= '\u{d}'
    ||| c == '\u{20}'
    ||| c == '\u{85}'
    ||| c == '\u{a0}'
    ||| c == '\u{1680}'
    ||| '\u{2000}' <= c <= '\u{200a}'
    ||| c == '\u{2028}'
    ||| c == '\u{2029}'
    ||| c == '\u{202f}'
    ||| c == '\u{205f}'
    ||| c == '\u{3000}'
}

/// Whether `c` is white space.
pub fn is_whitespace(c: char) -> (r: bool)
    ensures
        r == is_space(c),
{
    ('\u{9}' <= c && c <= '\u{d}') || c == '\u{20}' || c == '\u{85}' || c == '\u{a0}' || c
        == '\u{1680}' || ('\u{2000}' <= c && c <= '\u{200a}') || c == '\u{2028}' || c == '\u{2029}'
        || c == '\u{202f}' || c == '\u{205f}' || c == '\u{3000}'
}

/// `s` without the white space in front.
pub open spec fn spec_trim_start(s: Seq<char>) -> Seq<char>
    decreases s.len(),
{
    if s.len() > 0 && is_space(s[0]) {
        spec_trim_start(s.skip(1))
    } else {
        s
    }
}

/// `s` without the white space at its end.
pub open spec fn spec_trim_end(s: Seq<char>) -> Seq<char>
    decreases s.len(),
{
    if s.len() > 0 && is_space(s.last()) {
        spec_trim_end(s.drop_last())
    } else {
        s
    }
}

/// `s` without the white space at both ends.
pub open spec fn spec_trim(s: Seq<char>) -> Seq<char> {
    spec_trim_end(spec_trim_start(s))
}

/// The string without white space at either end.
pub fn trim(s: &str) -> (r: String)
    ensures
        r@ == spec_trim(s@),
{
    let v = chars_of(s);
    let mut from: usize = 0;
    assert(s@.skip(0) =~= s@);
    while from < v.len() && is_whitespace(v[from])
        invariant
            from <= v@.len(),
            v@ == s@,
            spec_trim_start(s@) == spec_trim_start(s@.skip(from as int)),
        decreases v@.len() - from,
    {
        assert(s@.skip(from as int).skip(1) =~= s@.skip(from + 1));
        from = from + 1;
    }
    let ghost rest = s@.skip(from as int);
    assert(spec_trim_start(s@) == rest);
    let mut to: usize = v.len();
    assert(rest.take(to - from) =~= rest);
    while to > from && is_whitespace(v[to - 1])
        invariant
            from <= to <= v@.len(),
            v@ == s@,
            rest == s@.skip(from as int),
            spec_trim_end(rest) == spec_trim_end(rest.take(to - from)),
        decreases to,
    {
        assert(rest.take(to - from).drop_last() =~= rest.take(to - from - 1));
        to = to - 1;
    }
    assert(rest.take(to - from) =~= s@.subrange(from as int, to as int));
    string_of(&v, from, to)
}

/// Where the first line of `s` ends: the index of its first line feed, or its length.
pub open spec fn line_end(s: Seq<char>) -> int
    decreases s.len(),
{
    if s.len() == 0 || s[0] == '\n' {
        0
    } else {
        1 + line_end(s.skip(1))
    }
}

pub proof fn lemma_line_end(s: Seq<char>)
    ensures
        0 <= line_end(s) <= s.len(),
        line_end(s) < s.len() ==> s[line_end(s)] == '\n',
        forall|i: int| 0 <= i < line_end(s) ==> s[i] != '\n',
    decreases s.len(),
{
    if s.len() != 0 && s[0] != '\n' {
        lemma_line_end(s.skip(1));
        assert forall|i: int| 0 <= i < line_end(s) implies s[i] != '\n' by {
            if i > 0 {
                assert(s.skip(1)[i - 1] == s[i]);
            }
        }
    }
}

/// `line` without one carriage return at its end.
pub open spec fn chomp(line: Seq<char>) -> Seq<char> {
    if line.len() > 0 && line.last() == '\r' {
        line.drop_last()
    } else {
        line
    }
}

/// The lines of `s`. A line ends with a line feed, or with a carriage return and a line feed;
/// neither belongs to it. The ending of the last line is optional, and a last line without one is
/// kept as it stands.
pub open spec fn spec_lines(s: Seq<char>) -> Seq<Seq<char>>
    decreases s.len(),
{
    if s.len() == 0 {
        Seq::empty()
    } else {
        let e = line_end(s);
        proof {
            lemma_line_end(s);
        }
        if e < s.len() {
            seq![chomp(s.take(e))] + spec_lines(s.skip(e + 1))
        } else {
            seq![s]
        }
    }
}

/// The lines of a string.
pub fn lines(s: &str) -> (r: Vec<String>)
    ensures
        r.deep_view() == spec_lines(s@),
{
    let v = chars_of(s);
    let mut out: Vec<String> = Vec::new();
    let mut from: usize = 0;
    assert(s@.skip(0) =~= s@);
    assert(out.deep_view() + spec_lines(s@) =~= spec_lines(s@));
    while from < v.len()
        invariant
            from <= v@.len(),
            v@ == s@,
            out.deep_view() + spec_lines(s@.skip(from as int)) == spec_lines(s@),
        decreases v@.len() - from,
    {
        let ghost rest = s@.skip(from as int);
        let mut end: usize = from;
        assert(rest.skip(0) =~= rest);
        while end < v.len() && v[end] != '\n'
            invariant
                from <= end <= v@.len(),
                v@ == s@,
                rest == s@.skip(from as int),
                line_end(rest) == (end - from) + line_end(rest.skip(end - from)),
            decreases v@.len() - end,
        {
            assert(rest.skip(end - from).skip(1) =~= rest.skip(end - from + 1));
            end = end + 1;
        }
        assert(line_end(rest) == end - from);
        let ghost before = out.deep_view();
        if end < v.len() {
            let keep: usize = if end > from && v[end - 1] == '\r' {
                end - 1
            } else {
                end
            };
            let line = string_of(&v, from, keep);
            assert(line@ =~= chomp(rest.take(end - from)));
            out.push(line);
            assert(out.deep_view() =~= before.push(line@));
            assert(rest.skip(end - from + 1) =~= s@.skip(end + 1));
            assert(out.deep_view() + spec_lines(s@.skip(end + 1)) =~= before + (seq![line@]
                + spec_lines(s@.skip(end + 1))));
            from = end + 1;
        } else {
            let line = string_of(&v, from, end);
            assert(line@ =~= rest);
            out.push(line);
            assert(out.deep_view() =~= before + seq![rest]);
            from = end;
            assert(spec_lines(s@.skip(from as int)) =~= Seq::<Seq<char>>::empty());
            assert(out.deep_view() + spec_lines(s@.skip(from as int)) =~= out.deep_view());
        }
    }
    assert(s@.skip(from as int).len() == 0);
    assert(out.deep_view() + spec_lines(s@.skip(from as int)) =~= out.deep_view());
    out
}

/// The first line of a text, or nothing where there is none.
pub open spec fn spec_first_line(s: Seq<char>) -> Seq<char> {
    if spec_lines(s).len() > 0 {
        spec_lines(s)[0]
    } else {
        Seq::empty()
    }
}

/// The first line of a string, empty where there is none.
pub fn first_line(s: &str) -> (r: String)
    ensures
        r@ == spec_first_line(s@),
{
    let all = lines(s);
    if all.len() > 0 {
        assert(all.deep_view()[0] == all@[0]@);
        all[0].clone()
    } else {
        String::new()
    }
}

// ---------------------------------------------------------------------------------------------
// Searching and replacing
// ---------------------------------------------------------------------------------------------
/// Whether `needle` stands in `s` at position `i`.
pub open spec fn occurs_at(s: Seq<char>, needle: Seq<char>, i: int) -> bool {
    0 <= i && i + needle.len() <= s.len() && s.subrange(i, i + needle.len()) == needle
}

/// Whether `needle` stands somewhere in `s`.
pub open spec fn spec_contains(s: Seq<char>, needle: Seq<char>) -> bool {
    exists|i: int| occurs_at(s, needle, i)
}

/// Whether `s` begins with `prefix`.
pub open spec fn spec_starts_with(s: Seq<char>, prefix: Seq<char>) -> bool {
    occurs_at(s, prefix, 0)
}

/// Whether `s` ends with `suffix`.
pub open spec fn spec_ends_with(s: Seq<char>, suffix: Seq<char>) -> bool {
    occurs_at(s, suffix, s.len() - suffix.len())
}

fn matches_at(s: &Vec<char>, needle: &Vec<char>, i: usize) -> (r: bool)
    requires
        i <= s@.len(),
    ensures
        r == occurs_at(s@, needle@, i as int),
{
    if needle.len() > s.len() - i {
        return false;
    }
    let mut k: usize = 0;
    while k < needle.len()
        invariant
            k <= needle@.len(),
            i + needle@.len() <= s@.len() <= usize::MAX,
            forall|j: int| 0 <= j < k ==> s@[i + j] == needle@[j],
        decreases needle@.len() - k,
    {
        if s[i + k] != needle[k] {
            assert(s@.subrange(i as int, i + needle@.len())[k as int] != needle@[k as int]);
            return false;
        }
        k = k + 1;
    }
    assert(s@.subrange(i as int, i + needle@.len()) =~= needle@);
    true
}

/// Whether a string contains another.
pub fn contains(s: &str, needle: &str) -> (r: bool)
    ensures
        r == spec_contains(s@, needle@),
{
    let v = chars_of(s);
    let n = chars_of(needle);
    let mut i: usize = 0;
    while i < v.len()
        invariant
            i <= v@.len(),
            v@ == s@,
            n@ == needle@,
            forall|j: int| 0 <= j < i ==> !occurs_at(s@, needle@, j),
        decreases v@.len() - i,
    {
        if matches_at(&v, &n, i) {
            return true;
        }
        i = i + 1;
    }
    matches_at(&v, &n, i)
}

/// Whether a string begins with another.
pub fn starts_with(s: &str, prefix: &str) -> (r: bool)
    ensures
        r == spec_starts_with(s@, prefix@),
{
    let v = chars_of(s);
    let n = chars_of(prefix);
    matches_at(&v, &n, 0)
}

/// Whether a string ends with another.
pub fn ends_with(s: &str, suffix: &str) -> (r: bool)
    ensures
        r == spec_ends_with(s@, suffix@),
{
    let v = chars_of(s);
    let n = chars_of(suffix);
    if n.len() > v.len() {
        return false;
    }
    matches_at(&v, &n, v.len() - n.len())
}

/// `s` without its first `count` characters.
pub fn drop_chars(s: &str, count: usize) -> (r: String)
    requires
        count <= s@.len(),
    ensures
        r@ == s@.skip(count as int),
{
    let v = chars_of(s);
    assert(s@.skip(count as int) =~= s@.subrange(count as int, s@.len() as int));
    string_of(&v, count, v.len())
}

/// `s` with every occurrence of `needle`, taken from the left without overlap, replaced by `with`.
pub open spec fn spec_replace(s: Seq<char>, needle: Seq<char>, with: Seq<char>) -> Seq<char>
    decreases s.len(),
{
    if s.len() == 0 || needle.len() == 0 {
        s
    } else if occurs_at(s, needle, 0) {
        with + spec_replace(s.skip(needle.len() as int), needle, with)
    } else {
        seq![s[0]] + spec_replace(s.skip(1), needle, with)
    }
}

/// The string with every occurrence of `needle` replaced by `with`.
pub fn replace(s: &str, needle: &str, with: &str) -> (r: String)
    requires
        needle@.len() > 0,
    ensures
        r@ == spec_replace(s@, needle@, with@),
{
    let v = chars_of(s);
    let n = chars_of(needle);
    let mut out = String::new();
    let mut i: usize = 0;
    assert(s@.skip(0) =~= s@);
    assert(out@ + spec_replace(s@, needle@, with@) =~= spec_replace(s@, needle@, with@));
    while i < v.len()
        invariant
            i <= v@.len(),
            v@ == s@,
            n@ == needle@,
            needle@.len() > 0,
            out@ + spec_replace(s@.skip(i as int), needle@, with@) == spec_replace(
                s@,
                needle@,
                with@,
            ),
        decreases v@.len() - i,
    {
        let ghost rest = s@.skip(i as int);
        let ghost before = out@;
        let found = matches_at(&v, &n, i);
        assert(found == occurs_at(rest, needle@, 0)) by {
            if i + needle@.len() <= s@.len() {
                assert(rest.subrange(0, needle@.len() as int) =~= s@.subrange(
                    i as int,
                    i + needle@.len(),
                ));
            }
        }
        if found {
            out.append(with);
            assert(rest.skip(needle@.len() as int) =~= s@.skip(i + needle@.len()));
            i = i + n.len();
            assert(out@ + spec_replace(s@.skip(i as int), needle@, with@) =~= before + (with@
                + spec_replace(s@.skip(i as int), needle@, with@)));
        } else {
            out.push(v[i]);
            assert(rest.skip(1) =~= s@.skip(i + 1));
            i = i + 1;
            assert(out@ + spec_replace(s@.skip(i as int), needle@, with@) =~= before + (seq![rest[0]]
                + spec_replace(s@.skip(i as int), needle@, with@)));
        }
    }
    assert(s@.skip(i as int).len() == 0);
    assert(out@ + spec_replace(s@.skip(i as int), needle@, with@) =~= out@);
    out
}

/// `c` with an ASCII capital letter turned into its small letter.
pub open spec fn ascii_lower(c: char) -> char {
    if 'A' <= c <= 'Z' {
        (c as u8 + 32) as u8 as char
    } else {
        c
    }
}

/// `s` with every ASCII capital letter turned into its small letter.
pub open spec fn spec_lowercase(s: Seq<char>) -> Seq<char> {
    Seq::new(s.len(), |i: int| ascii_lower(s[i]))
}

/// The small letter of an ASCII capital; every other character as it is.
pub fn lower(c: char) -> (r: char)
    ensures
        r == ascii_lower(c),
{
    if 'A' <= c && c <= 'Z' {
        (c as u8 + 32) as char
    } else {
        c
    }
}

/// The string with its ASCII letters in lower case.
pub fn lowercase(s: &str) -> (r: String)
    ensures
        r@ == spec_lowercase(s@),
{
    let v = chars_of(s);
    let mut out = String::new();
    let mut i: usize = 0;
    while i < v.len()
        invariant
            i <= v@.len(),
            v@ == s@,
            out@ =~= spec_lowercase(s@).take(i as int),
        decreases v@.len() - i,
    {
        out.push(lower(v[i]));
        i = i + 1;
    }
    assert(spec_lowercase(s@).take(i as int) =~= spec_lowercase(s@));
    out
}

/// The parts, with `sep` between each two neighbours.
pub open spec fn spec_join(parts: Seq<Seq<char>>, sep: Seq<char>) -> Seq<char>
    decreases parts.len(),
{
    if parts.len() == 0 {
        Seq::empty()
    } else if parts.len() == 1 {
        parts[0]
    } else {
        spec_join(parts.drop_last(), sep) + sep + parts.last()
    }
}

/// The strings joined by `sep`.
pub fn join(parts: &Vec<String>, sep: &str) -> (r: String)
    ensures
        r@ == spec_join(parts.deep_view(), sep@),
{
    let mut out = String::new();
    let mut i: usize = 0;
    let ghost all = parts.deep_view();
    assert(all.take(0) =~= Seq::<Seq<char>>::empty());
    while i < parts.len()
        invariant
            i <= parts@.len(),
            all == parts.deep_view(),
            out@ == spec_join(all.take(i as int), sep@),
        decreases parts@.len() - i,
    {
        assert(all[i as int] == parts@[i as int]@);
        assert(all.take(i + 1).drop_last() =~= all.take(i as int));
        assert(all.take(i + 1).last() == all[i as int]);
        if i == 0 {
            out = parts[0].clone();
        } else {
            out.append(sep);
            out.append(parts[i].as_str());
        }
        i = i + 1;
    }
    assert(all.take(i as int) =~= all);
    out
}

/// Puts a copy of `item` at the end of `list`.
pub fn push_text(list: &mut Vec<String>, item: &str)
    ensures
        final(list).deep_view() == old(list).deep_view().push(item@),
{
    list.push(item.to_owned());
    assert(list.deep_view() =~= old(list).deep_view().push(item@));
}

/// How many bytes `s` takes in UTF-8.
pub open spec fn spec_byte_length(s: Seq<char>) -> nat {
    vstd::utf8::encode_utf8(s).len()
}

/// How many bytes the string takes in UTF-8.
pub fn byte_length(s: &str) -> (r: usize)
    ensures
        r == spec_byte_length(s@),
{
    s.as_bytes().len()
}

// ---------------------------------------------------------------------------------------------
// Numbers
// ---------------------------------------------------------------------------------------------
/// Why a text is not a number.
#[derive(Debug, Clone, Copy, PartialEq, Eq, Structural)]
pub enum NumberError {
    /// There is nothing to read.
    Empty,
    /// A character that is no decimal digit.
    InvalidDigit,
    /// More than the type can hold.
    TooLarge,
}

impl NumberError {
    /// What is wrong, in words.
    pub open spec fn spec_message(self) -> Seq<char> {
        match self {
            NumberError::Empty => "cannot parse integer from empty string"@,
            NumberError::InvalidDigit => "invalid digit found in string"@,
            NumberError::TooLarge => "number too large to fit in target type"@,
        }
    }

    /// What is wrong, in words.
    pub fn message(self) -> (r: String)
        ensures
            r@ == self.spec_message(),
    {
        match self {
            NumberError::Empty => "cannot parse integer from empty string".to_owned(),
            NumberError::InvalidDigit => "invalid digit found in string".to_owned(),
            NumberError::TooLarge => "number too large to fit in target type".to_owned(),
        }
    }
}

/// The character of a decimal digit.
pub open spec fn digit_char(d: nat) -> char {
    (48 + d) as char
}

/// Whether `c` is one of the ten ASCII digits.
pub open spec fn is_digit(c: char) -> bool {
    '0' <= c <= '9'
}

/// The value of an ASCII digit.
pub open spec fn digit_value(c: char) -> nat {
    (c as u32 - 48) as nat
}

/// `n` in decimal notation.
pub open spec fn decimal(n: nat) -> Seq<char>
    decreases n,
{
    if n < 10 {
        seq![digit_char(n)]
    } else {
        decimal(n / 10).push(digit_char(n % 10))
    }
}

/// `n` in decimal notation.
pub fn decimal_text(n: u64) -> (r: String)
    ensures
        r@ == decimal(n as nat),
    decreases n,
{
    let mut out = if n < 10 {
        String::new()
    } else {
        decimal_text(n / 10)
    };
    let digit: u8 = (n % 10) as u8;
    out.push((48 + digit) as char);
    assert(out@ =~= decimal(n as nat));
    out
}

/// Reads decimal digits from the left, `value` being what the digits before `s` amount to.
pub open spec fn read_digits(s: Seq<char>, value: nat, max: nat) -> Result<nat, NumberError>
    decreases s.len(),
{
    if s.len() == 0 {
        Ok(value)
    } else if !is_digit(s[0]) {
        Err(NumberError::InvalidDigit)
    } else {
        let next = value * 10 + digit_value(s[0]);
        if next > max {
            Err(NumberError::TooLarge)
        } else {
            read_digits(s.skip(1), next, max)
        }
    }
}

/// The number that `s` denotes: an optional `+`, then decimal digits only, at least one, no more
/// than `max`.
pub open spec fn spec_parse(s: Seq<char>, max: nat) -> Result<nat, NumberError> {
    if s.len() == 0 {
        Err(NumberError::Empty)
    } else if s.len() == 1 && s[0] == '+' {
        Err(NumberError::InvalidDigit)
    } else if s[0] == '+' {
        read_digits(s.skip(1), 0, max)
    } else {
        read_digits(s, 0, max)
    }
}

fn parse_up_to(s: &str, max: u64) -> (r: Result<u64, NumberError>)
    ensures
        match r {
            Ok(n) => spec_parse(s@, max as nat) == Ok::<nat, NumberError>(n as nat),
            Err(e) => spec_parse(s@, max as nat) == Err::<nat, NumberError>(e),
        },
{
    let v = chars_of(s);
    if v.len() == 0 {
        return Err(NumberError::Empty);
    }
    if v.len() == 1 && v[0] == '+' {
        return Err(NumberError::InvalidDigit);
    }
    let mut i: usize = if v[0] == '+' {
        1
    } else {
        0
    };
    let mut value: u64 = 0;
    assert(s@.skip(0) =~= s@);
    while i < v.len()
        invariant
            i <= v@.len(),
            v@ == s@,
            value <= max,
            spec_parse(s@, max as nat) == read_digits(s@.skip(i as int), value as nat, max as nat),
        decreases v@.len() - i,
    {
        let c = v[i];
        let ghost rest = s@.skip(i as int);
        assert(rest[0] == c);
        if !('0' <= c && c <= '9') {
            return Err(NumberError::InvalidDigit);
        }
        let digit: u64 = c as u64 - 48;
        assert(digit == digit_value(c));
        if value > (max / 10) {
            assert(value * 10 + digit > max) by {
                assert(value >= max / 10 + 1);
                assert(max < 10 * (max / 10) + 10);
            }
            return Err(NumberError::TooLarge);
        }
        if digit > max || value * 10 > max - digit {
            return Err(NumberError::TooLarge);
        }
        value = value * 10 + digit;
        i = i + 1;
        assert(rest.skip(1) =~= s@.skip(i as int));
    }
    Ok(value)
}

/// The `u64` that a string denotes.
pub fn parse_u64(s: &str) -> (r: Result<u64, NumberError>)
    ensures
        match r {
            Ok(n) => spec_parse(s@, u64::MAX as nat) == Ok::<nat, NumberError>(n as nat),
            Err(e) => spec_parse(s@, u64::MAX as nat) == Err::<nat, NumberError>(e),
        },
{
    parse_up_to(s, u64::MAX)
}

/// The `u32` that a string denotes.
pub fn parse_u32(s: &str) -> (r: Result<u32, NumberError>)
    ensures
        match r {
            Ok(n) => spec_parse(s@, u32::MAX as nat) == Ok::<nat, NumberError>(n as nat),
            Err(e) => spec_parse(s@, u32::MAX as nat) == Err::<nat, NumberError>(e),
        },
{
    match parse_up_to(s, u32::MAX as u64) {
        Ok(n) => {
            proof {
                lemma_parse_bound(s@, u32::MAX as nat);
            }
            Ok(n as u32)
        },
        Err(e) => Err(e),
    }
}

proof fn lemma_read_bound(s: Seq<char>, value: nat, max: nat)
    requires
        value <= max,
    ensures
        read_digits(s, value, max) matches Ok(n) ==> n <= max,
    decreases s.len(),
{
    if s.len() > 0 && is_digit(s[0]) && value * 10 + digit_value(s[0]) <= max {
        lemma_read_bound(s.skip(1), value * 10 + digit_value(s[0]), max);
    }
}

/// A number that is read is at most the greatest one.
pub proof fn lemma_parse_bound(s: Seq<char>, max: nat)
    ensures
        spec_parse(s, max) matches Ok(n) ==> n <= max,
{
    if s.len() > 0 {
        lemma_read_bound(s.skip(1), 0, max);
        lemma_read_bound(s, 0, max);
    }
}

proof fn lemma_read_concat(a: Seq<char>, b: Seq<char>, value: nat, max: nat)
    ensures
        read_digits(a + b, value, max) == match read_digits(a, value, max) {
            Ok(n) => read_digits(b, n, max),
            Err(e) => Err(e),
        },
    decreases a.len(),
{
    if a.len() == 0 {
        assert(a + b =~= b);
    } else {
        assert((a + b)[0] == a[0]);
        assert((a + b).skip(1) =~= a.skip(1) + b);
        if is_digit(a[0]) && value * 10 + digit_value(a[0]) <= max {
            lemma_read_concat(a.skip(1), b, value * 10 + digit_value(a[0]), max);
        }
    }
}

proof fn lemma_digit_char(d: nat)
    requires
        d < 10,
    ensures
        is_digit(digit_char(d)),
        digit_value(digit_char(d)) == d,
{
}

/// Decimal notation is a string of digits and never empty.
pub proof fn lemma_decimal_digits(n: nat)
    ensures
        decimal(n).len() > 0,
        forall|i: int| 0 <= i < decimal(n).len() ==> is_digit(#[trigger] decimal(n)[i]),
    decreases n,
{
    if n < 10 {
        lemma_digit_char(n);
    } else {
        lemma_decimal_digits(n / 10);
        lemma_digit_char(n % 10);
    }
}

/// A number written in decimal notation is read back as itself.
pub proof fn law_decimal_round_trip(n: nat, max: nat)
    requires
        n <= max,
    ensures
        spec_parse(decimal(n), max) == Ok::<nat, NumberError>(n),
{
    lemma_decimal_digits(n);
    lemma_read_decimal(n, max);
    assert(is_digit(decimal(n)[0]));
}

proof fn lemma_read_decimal(n: nat, max: nat)
    requires
        n <= max,
    ensures
        read_digits(decimal(n), 0, max) == Ok::<nat, NumberError>(n),
    decreases n,
{
    lemma_digit_char(n % 10);
    let last = seq![digit_char(n % 10)];
    assert(last.skip(1) =~= Seq::<char>::empty());
    if n < 10 {
        assert(read_digits(last, 0, max) == read_digits(last.skip(1), n, max));
    } else {
        lemma_read_decimal(n / 10, max);
        assert(decimal(n) =~= decimal(n / 10) + last);
        lemma_read_concat(decimal(n / 10), last, 0, max);
        assert(read_digits(last, n / 10, max) == read_digits(
            last.skip(1),
            (n / 10) * 10 + n % 10,
            max,
        ));
    }
}

// ---------------------------------------------------------------------------------------------
// Order
// ---------------------------------------------------------------------------------------------
/// Whether `a` comes before `b` in the order of their characters, first difference first.
pub open spec fn comes_before(a: Seq<char>, b: Seq<char>) -> bool
    decreases a.len(),
{
    if b.len() == 0 {
        false
    } else if a.len() == 0 {
        true
    } else if a[0] != b[0] {
        a[0] < b[0]
    } else {
        comes_before(a.skip(1), b.skip(1))
    }
}

/// Whether `a` comes before `b`.
pub fn before(a: &str, b: &str) -> (r: bool)
    ensures
        r == comes_before(a@, b@),
{
    let x = chars_of(a);
    let y = chars_of(b);
    let mut i: usize = 0;
    assert(a@.skip(0) =~= a@);
    assert(b@.skip(0) =~= b@);
    while i < x.len() && i < y.len()
        invariant
            i <= x@.len(),
            i <= y@.len(),
            x@ == a@,
            y@ == b@,
            comes_before(a@, b@) == comes_before(a@.skip(i as int), b@.skip(i as int)),
        decreases x@.len() - i,
    {
        if x[i] != y[i] {
            return x[i] < y[i];
        }
        assert(a@.skip(i as int).skip(1) =~= a@.skip(i + 1));
        assert(b@.skip(i as int).skip(1) =~= b@.skip(i + 1));
        i = i + 1;
    }
    i < y.len()
}

/// No text comes before itself.
pub proof fn lemma_before_irreflexive(a: Seq<char>)
    ensures
        !comes_before(a, a),
    decreases a.len(),
{
    if a.len() > 0 {
        lemma_before_irreflexive(a.skip(1));
    }
}

/// What comes before a text comes before all that the text comes before.
pub proof fn lemma_before_transitive(a: Seq<char>, b: Seq<char>, c: Seq<char>)
    requires
        comes_before(a, b),
        comes_before(b, c),
    ensures
        comes_before(a, c),
    decreases a.len(),
{
    if a.len() > 0 && b.len() > 0 && c.len() > 0 && a[0] == b[0] && b[0] == c[0] {
        lemma_before_transitive(a.skip(1), b.skip(1), c.skip(1));
    }
}

/// Of two different texts, one comes before the other.
pub proof fn lemma_before_total(a: Seq<char>, b: Seq<char>)
    ensures
        comes_before(a, b) || comes_before(b, a) || a == b,
    decreases a.len(),
{
    if a.len() > 0 && b.len() > 0 && a[0] == b[0] {
        lemma_before_total(a.skip(1), b.skip(1));
        if a.skip(1) == b.skip(1) {
            assert(a =~= seq![a[0]] + a.skip(1));
            assert(b =~= seq![b[0]] + b.skip(1));
        }
    } else if a.len() == 0 && b.len() == 0 {
        assert(a =~= b);
    }
}

// ---------------------------------------------------------------------------------------------
// Printed lines
// ---------------------------------------------------------------------------------------------
/// The lines, each with a line feed behind it.
pub open spec fn printed(lines: Seq<Seq<char>>) -> Seq<char>
    decreases lines.len(),
{
    if lines.len() == 0 {
        Seq::empty()
    } else {
        lines[0] + seq!['\n'] + printed(lines.skip(1))
    }
}

proof fn lemma_line_end_is(s: Seq<char>, e: int)
    requires
        0 <= e < s.len(),
        s[e] == '\n',
        forall|i: int| 0 <= i < e ==> s[i] != '\n',
    ensures
        line_end(s) == e,
{
    lemma_line_end(s);
    if line_end(s) < e {
        assert(s[line_end(s)] != '\n');
    }
    if e < line_end(s) {
        assert(s[e] == '\n');
    }
}

/// Lines printed with a line feed behind each are read back as the same lines.
pub proof fn law_printed_lines(lines: Seq<Seq<char>>)
    requires
        forall|i: int|
            0 <= i < lines.len() ==> !(#[trigger] lines[i]).contains('\n') && !(lines[i].len() > 0
                && lines[i].last() == '\r'),
    ensures
        spec_lines(printed(lines)) == lines,
    decreases lines.len(),
{
    if lines.len() > 0 {
        let s = printed(lines);
        let rest = lines.skip(1);
        let e = lines[0].len() as int;
        assert forall|i: int| 0 <= i < e implies s[i] != '\n' by {
            assert(s[i] == lines[0][i]);
            assert(lines[0].contains(lines[0][i]));
        }
        lemma_line_end_is(s, e);
        assert(s.take(e) =~= lines[0]);
        assert(s.skip(e + 1) =~= printed(rest));
        assert forall|i: int| 0 <= i < rest.len() implies !(#[trigger] rest[i]).contains('\n')
            && !(rest[i].len() > 0 && rest[i].last() == '\r') by {
            assert(rest[i] == lines[i + 1]);
        }
        law_printed_lines(rest);
        assert(seq![lines[0]] + rest =~= lines);
    } else {
        assert(spec_lines(printed(lines)) =~= lines);
    }
}

/// A list joined with a separator: one more item comes behind what was there, with one separator
/// between the two, whatever the item is.
pub proof fn law_join_adds_item(parts: Seq<Seq<char>>, part: Seq<char>, sep: Seq<char>)
    ensures
        spec_join(Seq::empty(), sep) == Seq::<char>::empty(),
        spec_join(parts.push(part), sep) == if parts.len() == 0 {
            part
        } else {
            spec_join(parts, sep) + sep + part
        },
{
    assert(parts.push(part).drop_last() =~= parts);
}

proof fn lemma_trim_start_parts(s: Seq<char>) -> (front: Seq<char>)
    ensures
        s == front + spec_trim_start(s),
        forall|i: int| 0 <= i < front.len() ==> is_space(#[trigger] front[i]),
        spec_trim_start(s).len() > 0 ==> !is_space(spec_trim_start(s)[0]),
    decreases s.len(),
{
    if s.len() > 0 && is_space(s[0]) {
        let rest = lemma_trim_start_parts(s.skip(1));
        let front = seq![s[0]] + rest;
        assert(s =~= seq![s[0]] + s.skip(1));
        assert(s =~= front + spec_trim_start(s));
        front
    } else {
        assert(s =~= Seq::<char>::empty() + spec_trim_start(s));
        Seq::empty()
    }
}

proof fn lemma_trim_end_parts(s: Seq<char>) -> (back: Seq<char>)
    ensures
        s == spec_trim_end(s) + back,
        forall|i: int| 0 <= i < back.len() ==> is_space(#[trigger] back[i]),
        spec_trim_end(s).len() > 0 ==> !is_space(spec_trim_end(s).last()),
    decreases s.len(),
{
    if s.len() > 0 && is_space(s.last()) {
        let rest = lemma_trim_end_parts(s.drop_last());
        let back = rest.push(s.last());
        assert(s =~= s.drop_last().push(s.last()));
        assert(s =~= spec_trim_end(s) + back);
        back
    } else {
        assert(s =~= spec_trim_end(s) + Seq::<char>::empty());
        Seq::empty()
    }
}

/// Trimming takes white space off both ends and nothing else: what is left neither begins nor ends
/// with white space, and with what was taken off, which is all white space, it makes up the text.
pub proof fn law_trim_takes_outer_space(s: Seq<char>) -> (r: (Seq<char>, Seq<char>))
    ensures
        s == r.0 + spec_trim(s) + r.1,
        forall|i: int| 0 <= i < r.0.len() ==> is_space(#[trigger] r.0[i]),
        forall|i: int| 0 <= i < r.1.len() ==> is_space(#[trigger] r.1[i]),
        spec_trim(s).len() > 0 ==> !is_space(spec_trim(s)[0]) && !is_space(spec_trim(s).last()),
{
    let front = lemma_trim_start_parts(s);
    let inner = spec_trim_start(s);
    let back = lemma_trim_end_parts(inner);
    assert(s =~= front + spec_trim(s) + back);
    if spec_trim(s).len() > 0 {
        assert(spec_trim(s)[0] == inner[0]);
    }
    (front, back)
}

/// Text that is taken out or replaced: the first place at which `needle` stands is replaced, what
/// comes before stays, and what comes behind is treated alike.
pub proof fn law_replace_at_first_place(
    before: Seq<char>,
    needle: Seq<char>,
    after: Seq<char>,
    with: Seq<char>,
)
    requires
        needle.len() > 0,
        forall|i: int|
            0 <= i < before.len() ==> !occurs_at(before + needle + after, needle, i),
    ensures
        spec_replace(before + needle + after, needle, with) == before + with + spec_replace(
            after,
            needle,
            with,
        ),
    decreases before.len(),
{
    let s = before + needle + after;
    if before.len() == 0 {
        assert(s.subrange(0, needle.len() as int) =~= needle);
        assert(occurs_at(s, needle, 0));
        assert(s.skip(needle.len() as int) =~= after);
        assert(spec_replace(s, needle, with) =~= before + with + spec_replace(after, needle, with));
    } else {
        let rest = before.skip(1);
        let t = rest + needle + after;
        assert(s.skip(1) =~= t);
        assert(!occurs_at(s, needle, 0));
        assert forall|i: int| 0 <= i < rest.len() implies !occurs_at(t, needle, i) by {
            assert(!occurs_at(s, needle, i + 1));
            if occurs_at(t, needle, i) {
                assert(s.subrange(i + 1, i + 1 + needle.len()) =~= t.subrange(
                    i,
                    i + needle.len(),
                ));
            }
        }
        law_replace_at_first_place(rest, needle, after, with);
        assert(s[0] == before[0]);
        assert(spec_replace(s, needle, with) =~= before + with + spec_replace(after, needle, with));
    }
}

/// A text in which `needle` stands nowhere is kept as it is.
pub proof fn law_nothing_to_replace(s: Seq<char>, needle: Seq<char>, with: Seq<char>)
    requires
        needle.len() > 0,
        !spec_contains(s, needle),
    ensures
        spec_replace(s, needle, with) == s,
    decreases s.len(),
{
    if s.len() > 0 {
        let rest = s.skip(1);
        assert(!occurs_at(s, needle, 0));
        assert forall|i: int| !occurs_at(rest, needle, i) by {
            assert(!occurs_at(s, needle, i + 1));
            if occurs_at(rest, needle, i) {
                assert(s.subrange(i + 1, i + 1 + needle.len()) =~= rest.subrange(
                    i,
                    i + needle.len(),
                ));
            }
        }
        law_nothing_to_replace(rest, needle, with);
        assert(spec_replace(s, needle, with) =~= s);
    } else {
        assert(s =~= Seq::empty());
    }
}

/// One text stands in another at a place exactly if the other is made up of what comes before that
/// place, the one, and what comes behind; it is contained where there is such a place, begins the
/// other at its front, and ends it where nothing comes behind.
pub proof fn law_where_text_stands(s: Seq<char>, needle: Seq<char>, i: int)
    ensures
        occurs_at(s, needle, i) <==> {
            &&& 0 <= i <= s.len() - needle.len()
            &&& s == s.take(i) + needle + s.skip(i + needle.len())
        },
        occurs_at(s, needle, i) ==> spec_contains(s, needle),
        spec_contains(s, needle) ==> exists|k: int| #[trigger] occurs_at(s, needle, k),
        spec_starts_with(s, needle) <==> exists|after: Seq<char>| s == #[trigger] (needle + after),
        spec_ends_with(s, needle) <==> exists|before: Seq<char>| s == #[trigger] (before + needle),
{
    if 0 <= i <= s.len() - needle.len() {
        let there = s.subrange(i, i + needle.len());
        if there == needle {
            assert(s =~= s.take(i) + needle + s.skip(i + needle.len()));
        }
        if s == s.take(i) + needle + s.skip(i + needle.len()) {
            assert(there =~= needle);
        }
    }
    if spec_starts_with(s, needle) {
        assert(s =~= needle + s.skip(needle.len() as int));
    }
    if exists|after: Seq<char>| s == #[trigger] (needle + after) {
        assert(s.subrange(0, needle.len() as int) =~= needle);
    }
    if spec_ends_with(s, needle) {
        assert(s =~= s.take(s.len() - needle.len()) + needle);
    }
    if exists|before: Seq<char>| s == #[trigger] (before + needle) {
        assert(s.subrange(s.len() - needle.len(), s.len() as int) =~= needle);
    }
}

/// Of two texts with a common beginning, the next character decides which comes first, and one
/// that ends there comes first.
pub proof fn law_first_difference_decides(
    common: Seq<char>,
    a: char,
    b: char,
    x: Seq<char>,
    y: Seq<char>,
)
    requires
        a != b,
    ensures
        comes_before(common + seq![a] + x, common + seq![b] + y) <==> (a as u32) < (b as u32),
        comes_before(common, common + seq![b] + y),
        !comes_before(common + seq![b] + y, common),
    decreases common.len(),
{
    let s = common + seq![a] + x;
    let t = common + seq![b] + y;
    if common.len() > 0 {
        let rest = common.skip(1);
        law_first_difference_decides(rest, a, b, x, y);
        assert(s.skip(1) =~= rest + seq![a] + x);
        assert(t.skip(1) =~= rest + seq![b] + y);
    }
}

/// Lower case changes the letters A to Z and nothing else, one for one.
pub proof fn law_lowercase_changes_letters(s: Seq<char>, i: int)
    requires
        0 <= i < s.len(),
    ensures
        spec_lowercase(s).len() == s.len(),
        'A' <= s[i] <= 'Z' ==> spec_lowercase(s)[i] as u32 == s[i] as u32 + 32,
        !('A' <= s[i] <= 'Z') ==> spec_lowercase(s)[i] == s[i],
{
}

/// A text is read line by line: what stands before a line feed is a line, without the carriage
/// return at its end if there is one, and what comes behind the line feed is read alike. What has no
/// line feed behind it is a line too, as it is, unless it is empty.
pub proof fn law_read_line_by_line(line: Seq<char>, rest: Seq<char>)
    requires
        !line.contains('\n'),
    ensures
        !(line.len() > 0 && line.last() == '\r') ==> spec_lines(line + seq!['\n'] + rest) == seq![
            line,
        ] + spec_lines(rest),
        spec_lines(line + seq!['\r', '\n'] + rest) == seq![line] + spec_lines(rest),
        line.len() > 0 ==> spec_lines(line) == seq![line],
        spec_lines(Seq::empty()) == Seq::<Seq<char>>::empty(),
{
    let e = line.len() as int;
    assert forall|i: int| 0 <= i < e implies line[i] != '\n' by {
        assert(line.contains(line[i]));
    }
    let plain = line + seq!['\n'] + rest;
    lemma_line_end_is(plain, e);
    assert(plain.take(e) =~= line);
    assert(plain.skip(e + 1) =~= rest);
    let returned = line + seq!['\r', '\n'] + rest;
    lemma_line_end_is(returned, e + 1);
    assert(returned.take(e + 1) =~= line.push('\r'));
    assert(returned.take(e + 1).drop_last() =~= line);
    assert(returned.skip(e + 2) =~= rest);
    lemma_line_end(line);
}

/// The first line of a text is what stands before its first line feed, without the carriage return
/// at its end if there is one.
pub proof fn law_first_line_ends_at_line_feed(line: Seq<char>, rest: Seq<char>)
    requires
        !line.contains('\n'),
        !(line.len() > 0 && line.last() == '\r'),
    ensures
        spec_first_line(line + seq!['\n'] + rest) == line,
        spec_first_line(line + seq!['\r', '\n'] + rest) == line,
        spec_first_line(line) == line,
{
    law_read_line_by_line(line, rest);
    if line.len() == 0 {
        assert(line =~= Seq::empty());
    }
}

proof fn lemma_read_digit(d: char, value: nat, max: nat)
    requires
        is_digit(d),
    ensures
        read_digits(seq![d], value, max) == if value * 10 + digit_value(d) > max {
            Err::<nat, NumberError>(NumberError::TooLarge)
        } else {
            Ok::<nat, NumberError>(value * 10 + digit_value(d))
        },
{
    assert(seq![d].skip(1) =~= Seq::<char>::empty());
    let next = value * 10 + digit_value(d);
    assert(read_digits(seq![d].skip(1), next, max) == Ok::<nat, NumberError>(next));
}

/// A number is read digit by digit: one more digit behind it makes it ten times as large and adds
/// the digit, as long as it does not get too large; a leading `+` makes no difference.
pub proof fn law_digits_are_read_in_order(s: Seq<char>, d: char, max: nat)
    requires
        '0' <= d <= '9',
    ensures
        spec_parse(seq![d], max) == if d as u32 - 48 > max {
            Err::<nat, NumberError>(NumberError::TooLarge)
        } else {
            Ok::<nat, NumberError>((d as u32 - 48) as nat)
        },
        spec_parse(s, max) matches Ok(n) ==> spec_parse(s.push(d), max) == if n * 10 + (d as u32
            - 48) > max {
            Err::<nat, NumberError>(NumberError::TooLarge)
        } else {
            Ok::<nat, NumberError>((n * 10 + (d as u32 - 48)) as nat)
        },
        s.len() > 0 && s[0] != '+' ==> spec_parse(seq!['+'] + s, max) == spec_parse(s, max),
{
    lemma_read_digit(d, 0, max);
    if spec_parse(s, max) is Ok {
        let n = spec_parse(s, max)->Ok_0;
        lemma_read_digit(d, n, max);
        let t = s.push(d);
        assert(t[0] == s[0]);
        assert(t =~= s + seq![d]);
        assert(t.skip(1) =~= s.skip(1) + seq![d]);
        lemma_read_concat(s, seq![d], 0, max);
        lemma_read_concat(s.skip(1), seq![d], 0, max);
    }
    assert((seq!['+'] + s).skip(1) =~= s);
}

proof fn lemma_read_is_digits(s: Seq<char>, value: nat, max: nat, i: int)
    requires
        read_digits(s, value, max) is Ok,
        0 <= i < s.len(),
    ensures
        is_digit(s[i]),
    decreases s.len(),
{
    if i > 0 {
        lemma_read_is_digits(s.skip(1), value * 10 + digit_value(s[0]), max, i - 1);
    }
}

/// Only digits are read, behind an optional `+`: nothing at all, a sign alone and any other character
/// are refused.
pub proof fn law_only_digits_are_read(s: Seq<char>, max: nat, i: int)
    ensures
        spec_parse(Seq::empty(), max) == Err::<nat, NumberError>(NumberError::Empty),
        spec_parse(seq!['+'], max) == Err::<nat, NumberError>(NumberError::InvalidDigit),
        spec_parse(s, max) is Ok && 0 <= i < s.len() ==> '0' <= s[i] <= '9' || (i == 0 && s[0]
            == '+' && s.len() > 1),
        spec_parse(s, max) matches Ok(n) ==> n <= max,
{
    lemma_parse_bound(s, max);
    if spec_parse(s, max) is Ok && 0 <= i < s.len() {
        if s[0] == '+' {
            if i > 0 {
                lemma_read_is_digits(s.skip(1), 0, max, i - 1);
            }
        } else {
            lemma_read_is_digits(s, 0, max, i);
        }
    }
}

/// In decimal notation the last digit is what is left of a number modulo ten, and what stands before
/// it is the notation of a tenth of the number; a single digit stands for itself.
pub proof fn law_decimal_goes_digit_by_digit(n: nat)
    ensures
        decimal(n).last() as u32 == 48 + n % 10,
        n < 10 ==> decimal(n).len() == 1,
        n >= 10 ==> decimal(n).drop_last() == decimal(n / 10),
{
    if n >= 10 {
        assert(decimal(n).drop_last() =~= decimal(n / 10));
    }
}

/// White space among the ASCII characters is the space and the five characters from tab to carriage
/// return; no letter, digit or punctuation mark of ASCII is.
pub proof fn law_ascii_white_space(c: char)
    ensures
        c as u32 <= 0x7f ==> (is_space(c) <==> c == ' ' || (9 <= c as u32 && c as u32 <= 13)),
{
}

/// Why a text is no number, in words.
pub proof fn law_number_errors_are_told()
    ensures
        NumberError::Empty.spec_message() == "cannot parse integer from empty string"@,
        NumberError::InvalidDigit.spec_message() == "invalid digit found in string"@,
        NumberError::TooLarge.spec_message() == "number too large to fit in target type"@,
{
}

/// A list joined with a separator begins with its first item, and goes on, behind a separator, with
/// the rest joined alike.
pub proof fn law_join_begins_with_first(parts: Seq<Seq<char>>, sep: Seq<char>)
    requires
        parts.len() >= 2,
    ensures
        spec_join(parts, sep) == parts[0] + sep + spec_join(parts.skip(1), sep),
    decreases parts.len(),
{
    let rest = parts.skip(1);
    if parts.len() == 2 {
        assert(parts.drop_last().len() == 1);
        assert(spec_join(parts.drop_last(), sep) == parts[0]);
        assert(spec_join(rest, sep) == rest[0]);
    } else {
        let shorter = parts.drop_last();
        law_join_begins_with_first(shorter, sep);
        assert(shorter.skip(1) =~= rest.drop_last());
        assert(rest.last() == parts.last());
        assert(spec_join(parts, sep) =~= parts[0] + sep + spec_join(rest, sep));
    }
}

} // verus!
