//! Paths as text: joining, taking apart and comparing slash-separated paths.
//!
//! A path is read as its components. Empty components and `.` do not count, except for a `.` at the
//! very beginning; a slash at the beginning is a component of its own.
use crate::encoding;
use crate::text;
use vstd::prelude::*;

verus! {

// ---------------------------------------------------------------------------------------------
// Components
// ---------------------------------------------------------------------------------------------
/// How much of `p` its beginning takes: the slash of an absolute path, or a leading `.`.
pub open spec fn head_len(p: Seq<char>) -> int {
    if p.len() > 0 && p[0] == '/' {
        1
    } else if p.len() > 0 && p[0] == '.' && (p.len() == 1 || p[1] == '/') {
        1
    } else {
        0
    }
}

/// Where the last component of `p` begins, the components beginning at `from`.
pub open spec fn last_start(p: Seq<char>, from: int) -> int
    decreases p.len(),
{
    if p.len() == 0 || p.len() <= from || p.last() == '/' {
        p.len() as int
    } else {
        last_start(p.drop_last(), from)
    }
}

pub proof fn lemma_last_start(p: Seq<char>, from: int)
    requires
        0 <= from <= p.len(),
    ensures
        from <= last_start(p, from) <= p.len(),
        forall|i: int| last_start(p, from) <= i < p.len() ==> p[i] != '/',
        last_start(p, from) > from ==> p[last_start(p, from) - 1] == '/',
    decreases p.len(),
{
    if p.len() > from && p.last() != '/' {
        lemma_last_start(p.drop_last(), from);
        assert forall|i: int| last_start(p, from) <= i < p.len() implies p[i] != '/' by {
            if i < p.len() - 1 {
                assert(p.drop_last()[i] == p[i]);
            }
        }
    }
}

/// What is left of `p` without its last component and the slash before it.
pub open spec fn cut_last(p: Seq<char>, from: int) -> Seq<char> {
    let s = last_start(p, from);
    p.take(if s > from {
        s - 1
    } else {
        from
    })
}

/// Whether a component does not count.
pub open spec fn is_void(component: Seq<char>) -> bool {
    component.len() == 0 || (component.len() == 1 && component[0] == '.')
}

/// Where the last component that counts ends.
pub open spec fn body_end(p: Seq<char>, from: int) -> int
    decreases p.len(),
    when 0 <= from
{
    if p.len() <= from {
        p.len() as int
    } else {
        proof {
            lemma_last_start(p, from);
        }
        if is_void(p.skip(last_start(p, from))) {
            body_end(cut_last(p, from), from)
        } else {
            p.len() as int
        }
    }
}

pub proof fn lemma_body_end(p: Seq<char>, from: int)
    requires
        0 <= from <= p.len(),
    ensures
        from <= body_end(p, from) <= p.len(),
        body_end(p, from) > from ==> !is_void(
            p.take(body_end(p, from)).skip(last_start(p.take(body_end(p, from)), from)),
        ),
    decreases p.len(),
{
    if p.len() > from {
        lemma_last_start(p, from);
        if is_void(p.skip(last_start(p, from))) {
            lemma_body_end(cut_last(p, from), from);
            assert(p.take(body_end(p, from)) =~= cut_last(p, from).take(body_end(p, from)));
        } else {
            assert(p.take(p.len() as int) =~= p);
        }
    }
}

/// The components of `p` from `from` on that count.
pub open spec fn body_components(p: Seq<char>, from: int) -> Seq<Seq<char>>
    decreases p.len(),
    when 0 <= from
{
    if p.len() <= from {
        Seq::empty()
    } else {
        proof {
            lemma_last_start(p, from);
        }
        let component = p.skip(last_start(p, from));
        if is_void(component) {
            body_components(cut_last(p, from), from)
        } else {
            body_components(cut_last(p, from), from).push(component)
        }
    }
}

/// The components of `p`.
pub open spec fn components(p: Seq<char>) -> Seq<Seq<char>> {
    if head_len(p) == 1 {
        seq![p.take(1)] + body_components(p, 1)
    } else {
        body_components(p, 0)
    }
}

// ---------------------------------------------------------------------------------------------
// Parts of a path
// ---------------------------------------------------------------------------------------------
/// `rest` under `base`. An absolute `rest` stands for itself.
pub open spec fn spec_join(base: Seq<char>, rest: Seq<char>) -> Seq<char> {
    if rest.len() > 0 && rest[0] == '/' {
        rest
    } else if base.len() == 0 || base.last() == '/' {
        base + rest
    } else {
        base + "/"@ + rest
    }
}

/// `p` up to the end of its last component that counts.
pub open spec fn stripped(p: Seq<char>) -> Seq<char> {
    p.take(body_end(p, head_len(p)))
}

/// The last component behind the beginning of the path, if there is one.
pub open spec fn last_component(p: Seq<char>) -> Option<Seq<char>> {
    let q = stripped(p);
    if q.len() > head_len(p) {
        Some(q.skip(last_start(q, head_len(p))))
    } else {
        None
    }
}

/// The last component, unless it is `..`.
pub open spec fn spec_file_name(p: Seq<char>) -> Option<Seq<char>> {
    match last_component(p) {
        Some(name) => if name.len() == 2 && name[0] == '.' && name[1] == '.' {
            None
        } else {
            Some(name)
        },
        None => None,
    }
}

/// The file name, if it is all Unicode.
pub open spec fn spec_unicode_name(p: Seq<char>) -> Option<Seq<char>> {
    match spec_file_name(p) {
        Some(name) => if encoding::is_unicode(name) {
            Some(name)
        } else {
            None
        },
        None => None,
    }
}

/// The path without its last component. There is none for a path that has no component, nor for
/// the slash alone.
pub open spec fn spec_parent(p: Seq<char>) -> Option<Seq<char>> {
    let h = head_len(p);
    let q = stripped(p);
    if q.len() > h {
        let cut = cut_last(q, h);
        Some(cut.take(body_end(cut, h)))
    } else if h == 1 && p[0] == '.' {
        Some(Seq::empty())
    } else {
        None
    }
}

/// The path itself and the paths above it, nearest first, no more than `count`.
pub open spec fn spec_ancestors(p: Seq<char>, count: nat) -> Seq<Seq<char>>
    decreases count,
{
    if count == 0 {
        Seq::empty()
    } else {
        seq![p] + match spec_parent(p) {
            Some(above) => spec_ancestors(above, (count - 1) as nat),
            None => Seq::empty(),
        }
    }
}

spec fn ancestors_from(next: Option<Seq<char>>, count: nat) -> Seq<Seq<char>> {
    match next {
        Some(p) => spec_ancestors(p, count),
        None => Seq::empty(),
    }
}

/// Where the last point of `name` stands, or -1.
pub open spec fn last_point(name: Seq<char>) -> int
    decreases name.len(),
{
    if name.len() == 0 {
        -1
    } else if name.last() == '.' {
        name.len() - 1
    } else {
        last_point(name.drop_last())
    }
}

/// A file name without its extension: all before its last point, unless that point is its first
/// character.
pub open spec fn stem_of(name: Seq<char>) -> Seq<char> {
    if last_point(name) > 0 {
        name.take(last_point(name))
    } else {
        name
    }
}

/// The file name without its extension.
pub open spec fn spec_file_stem(p: Seq<char>) -> Option<Seq<char>> {
    match spec_file_name(p) {
        Some(name) => Some(stem_of(name)),
        None => None,
    }
}

/// The path with its file name replaced, or, where it has none, with `name` under it.
pub open spec fn spec_with_file_name(p: Seq<char>, name: Seq<char>) -> Seq<char> {
    match (spec_file_name(p), spec_parent(p)) {
        (Some(_), Some(above)) => spec_join(above, name),
        _ => spec_join(p, name),
    }
}

/// The path with `extension` in place of its file name's own, if it has a file name.
pub open spec fn spec_with_extension(p: Seq<char>, extension: Seq<char>) -> Seq<char> {
    match spec_file_name(p) {
        Some(name) => stripped(p).take(stripped(p).len() - name.len()) + stem_of(name) + "."@
            + extension,
        None => p,
    }
}

/// Whether the components of `p` begin with those of `base`.
pub open spec fn spec_starts_with(p: Seq<char>, base: Seq<char>) -> bool {
    components(base).is_prefix_of(components(p))
}

/// The components with each `..` followed: it takes back the component before it. What is above the
/// root is the root, and a `..` that has nothing to take back stays.
pub open spec fn followed(components: Seq<Seq<char>>) -> Seq<Seq<char>>
    decreases components.len(),
{
    if components.len() == 0 {
        Seq::empty()
    } else {
        let before = followed(components.drop_last());
        let component = components.last();
        if component == "."@ {
            before
        } else if component != ".."@ {
            before.push(component)
        } else if before.len() == 0 || before.last() == ".."@ {
            before.push(component)
        } else if before.last() == "/"@ {
            before
        } else {
            before.drop_last()
        }
    }
}

/// Whether `p` lies within `base`: its components begin with those of `base`, and still do once each
/// `..` is followed, with none left behind them.
pub open spec fn spec_lies_within(p: Seq<char>, base: Seq<char>) -> bool {
    let above = followed(components(base));
    let all = followed(components(p));
    &&& spec_starts_with(p, base)
    &&& above.is_prefix_of(all)
    &&& forall|i: int| above.len() <= i < all.len() ==> #[trigger] all[i] != ".."@
}

/// Whether two paths have the same components.
pub open spec fn spec_same(a: Seq<char>, b: Seq<char>) -> bool {
    components(a) == components(b)
}

fn head_length(v: &Vec<char>) -> (r: usize)
    ensures
        r == head_len(v@),
        r <= v@.len(),
{
    if v.len() > 0 && v[0] == '/' {
        1
    } else if v.len() > 0 && v[0] == '.' && (v.len() == 1 || v[1] == '/') {
        1
    } else {
        0
    }
}

fn find_last_start(v: &Vec<char>, len: usize, from: usize) -> (r: usize)
    requires
        from <= len <= v@.len(),
    ensures
        r == last_start(v@.take(len as int), from as int),
        from <= r <= len,
{
    let mut i: usize = len;
    while i > from && v[i - 1] != '/'
        invariant
            from <= i <= len <= v@.len(),
            last_start(v@.take(len as int), from as int) == last_start(
                v@.take(i as int),
                from as int,
            ),
        decreases i,
    {
        assert(v@.take(i as int).drop_last() =~= v@.take(i - 1));
        i = i - 1;
    }
    i
}

fn cut_length(v: &Vec<char>, len: usize, from: usize) -> (r: usize)
    requires
        from <= len <= v@.len(),
    ensures
        v@.take(r as int) == cut_last(v@.take(len as int), from as int),
        from <= r <= len,
        from < len && is_void(v@.take(len as int).skip(last_start(v@.take(len as int), from as int)))
            ==> r < len,
{
    let s = find_last_start(v, len, from);
    let cut: usize = if s > from {
        s - 1
    } else {
        from
    };
    assert(v@.take(cut as int) =~= v@.take(len as int).take(cut as int));
    cut
}

fn find_body_end(v: &Vec<char>, len: usize, from: usize) -> (r: usize)
    requires
        from <= len <= v@.len(),
    ensures
        r == body_end(v@.take(len as int), from as int),
        from <= r <= len,
{
    let mut end: usize = len;
    while end > from
        invariant
            from <= end <= len <= v@.len(),
            body_end(v@.take(len as int), from as int) == body_end(
                v@.take(end as int),
                from as int,
            ),
        ensures
            from <= end <= len,
            end == body_end(v@.take(len as int), from as int),
        decreases end,
    {
        let s = find_last_start(v, end, from);
        assert(v@.take(end as int).skip(s as int) =~= v@.subrange(s as int, end as int));
        let void = s == end || (s + 1 == end && v[s] == '.');
        if !void {
            break;
        }
        end = cut_length(v, end, from);
    }
    end
}

/// `rest` under `base`.
pub fn join(base: &str, rest: &str) -> (r: String)
    ensures
        r@ == spec_join(base@, rest@),
{
    let b = text::chars_of(base);
    let t = text::chars_of(rest);
    if t.len() > 0 && t[0] == '/' {
        rest.to_owned()
    } else if b.len() == 0 || b[b.len() - 1] == '/' {
        text::cat2(base, rest)
    } else {
        text::cat3(base, "/", rest)
    }
}

/// The last component of a path, unless it is `..`.
pub fn file_name(p: &str) -> (r: Option<String>)
    ensures
        r.deep_view() == spec_file_name(p@),
{
    let v = text::chars_of(p);
    let h = head_length(&v);
    assert(v@.take(v@.len() as int) =~= v@);
    let end = find_body_end(&v, v.len(), h);
    if end <= h {
        return None;
    }
    let s = find_last_start(&v, end, h);
    assert(v@.subrange(s as int, end as int) =~= v@.take(end as int).skip(s as int));
    if end - s == 2 && v[s] == '.' && v[s + 1] == '.' {
        return None;
    }
    Some(text::string_of(&v, s, end))
}

/// The file name, if it is all Unicode.
pub fn unicode_name(p: &str) -> (r: Option<String>)
    ensures
        r.deep_view() == spec_unicode_name(p@),
{
    match file_name(p) {
        Some(name) => if encoding::holds_unicode(name.as_str()) {
            Some(name)
        } else {
            None
        },
        None => None,
    }
}

/// The path without its last component.
pub fn parent(p: &str) -> (r: Option<String>)
    ensures
        r.deep_view() == spec_parent(p@),
{
    let v = text::chars_of(p);
    let h = head_length(&v);
    assert(v@.take(v@.len() as int) =~= v@);
    let end = find_body_end(&v, v.len(), h);
    if end > h {
        let cut = cut_length(&v, end, h);
        let above = find_body_end(&v, cut, h);
        assert(v@.subrange(0, above as int) =~= v@.take(cut as int).take(above as int));
        Some(text::string_of(&v, 0, above))
    } else if h == 1 && v[0] == '.' {
        Some(String::new())
    } else {
        None
    }
}

/// The path itself and the paths above it, nearest first, no more than `count`.
pub fn ancestors(p: &str, count: usize) -> (r: Vec<String>)
    ensures
        r.deep_view() == spec_ancestors(p@, count as nat),
{
    let mut out: Vec<String> = Vec::new();
    let mut next: Option<String> = Some(p.to_owned());
    let mut left: usize = count;
    assert(out.deep_view() + spec_ancestors(p@, count as nat) =~= spec_ancestors(p@, count as nat));
    while left > 0 && next.is_some()
        invariant
            left <= count,
            spec_ancestors(p@, count as nat) == out.deep_view() + ancestors_from(
                next.deep_view(),
                left as nat,
            ),
        decreases left,
    {
        if let Some(q) = next {
            let ghost before = out.deep_view();
            next = parent(q.as_str());
            left = left - 1;
            let ghost more = ancestors_from(next.deep_view(), left as nat);
            assert(spec_ancestors(q@, (left + 1) as nat) == seq![q@] + more);
            assert(before + (seq![q@] + more) =~= before.push(q@) + more);
            let ghost shown = q@;
            out.push(q);
            assert(out.deep_view() =~= before.push(shown));
        } else {
            return out;
        }
    }
    assert(out.deep_view() + Seq::<Seq<char>>::empty() =~= out.deep_view());
    out
}

fn stem_length(v: &Vec<char>, from: usize, to: usize) -> (r: usize)
    requires
        from <= to <= v@.len(),
    ensures
        r <= to - from,
        v@.subrange(from as int, from + r) == stem_of(v@.subrange(from as int, to as int)),
{
    let ghost name = v@.subrange(from as int, to as int);
    let mut i: usize = to;
    assert(name.take(to - from) =~= name);
    while i > from && v[i - 1] != '.'
        invariant
            from <= i <= to <= v@.len(),
            name == v@.subrange(from as int, to as int),
            last_point(name) == last_point(name.take(i - from)),
        decreases i,
    {
        assert(name.take(i - from).drop_last() =~= name.take(i - from - 1));
        i = i - 1;
    }
    if i > from && i - from > 1 {
        assert(last_point(name) == i - 1 - from);
        assert(v@.subrange(from as int, i - 1) =~= name.take(i - 1 - from));
        i - 1 - from
    } else {
        to - from
    }
}

/// The file name of a path without its extension.
pub fn file_stem(p: &str) -> (r: Option<String>)
    ensures
        r.deep_view() == spec_file_stem(p@),
{
    match file_name(p) {
        Some(name) => {
            let v = text::chars_of(name.as_str());
            assert(v@.subrange(0, v@.len() as int) =~= v@);
            let keep = stem_length(&v, 0, v.len());
            Some(text::string_of(&v, 0, keep))
        },
        None => None,
    }
}

/// The path with its file name replaced.
pub fn with_file_name(p: &str, name: &str) -> (r: String)
    ensures
        r@ == spec_with_file_name(p@, name@),
{
    let own = file_name(p);
    let above = parent(p);
    match (own, above) {
        (Some(_), Some(above)) => join(above.as_str(), name),
        _ => join(p, name),
    }
}

/// The path with `extension` in place of its file name's own.
pub fn with_extension(p: &str, extension: &str) -> (r: String)
    ensures
        r@ == spec_with_extension(p@, extension@),
{
    let own = file_name(p);
    match own {
        Some(name) => {
            let v = text::chars_of(p);
            let h = head_length(&v);
            assert(v@.take(v@.len() as int) =~= v@);
            let end = find_body_end(&v, v.len(), h);
            let s = find_last_start(&v, end, h);
            let ghost q = v@.take(end as int);
            assert(q.skip(s as int) =~= v@.subrange(s as int, end as int));
            assert(name@ == v@.subrange(s as int, end as int));
            let keep = stem_length(&v, s, end);
            let front = text::string_of(&v, 0, s);
            let stem = text::string_of(&v, s, s + keep);
            assert(front@ =~= q.take(q.len() - name@.len()));
            text::cat4(front.as_str(), stem.as_str(), ".", extension)
        },
        None => p.to_owned(),
    }
}

/// The components of a path.
pub fn components_of(p: &str) -> (r: Vec<String>)
    ensures
        r.deep_view() == components(p@),
{
    let v = text::chars_of(p);
    let h = head_length(&v);
    assert(v@.take(v@.len() as int) =~= v@);
    let mut reversed: Vec<String> = Vec::new();
    let mut len: usize = v.len();
    assert(body_components(v@, h as int) + reversed.deep_view().reverse() =~= body_components(
        v@,
        h as int,
    ));
    while len > h
        invariant
            h <= len <= v@.len(),
            body_components(v@, h as int) == body_components(v@.take(len as int), h as int)
                + reversed.deep_view().reverse(),
        decreases len,
    {
        let s = find_last_start(&v, len, h);
        assert(v@.take(len as int).skip(s as int) =~= v@.subrange(s as int, len as int));
        let void = s == len || (s + 1 == len && v[s] == '.');
        let cut = cut_length(&v, len, h);
        let ghost before = reversed.deep_view();
        if !void {
            let component = text::string_of(&v, s, len);
            let ghost shown = component@;
            reversed.push(component);
            assert(reversed.deep_view() =~= before.push(shown));
            assert(before.push(shown).reverse() =~= seq![shown] + before.reverse());
            assert(body_components(v@.take(cut as int), h as int).push(shown) + before.reverse()
                =~= body_components(v@.take(cut as int), h as int) + reversed.deep_view().reverse());
        }
        assert(cut < len) by {
            lemma_last_start(v@.take(len as int), h as int);
        }
        len = cut;
    }
    let ghost body = reversed.deep_view().reverse();
    assert(body_components(v@.take(len as int), h as int) + body =~= body);
    let mut out: Vec<String> = Vec::new();
    if h == 1 {
        let head = text::string_of(&v, 0, 1);
        assert(head@ =~= v@.take(1));
        out.push(head);
    }
    let ghost start = out.deep_view();
    let mut i: usize = reversed.len();
    while i > 0
        invariant
            i <= reversed@.len(),
            body == reversed.deep_view().reverse(),
            out.deep_view() =~= start + body.take(reversed@.len() - i),
        decreases i,
    {
        i = i - 1;
        let ghost before = out.deep_view();
        assert(body[reversed@.len() - 1 - i] == reversed@[i as int]@);
        out.push(reversed[i].clone());
        assert(out.deep_view() =~= before.push(reversed@[i as int]@));
    }
    assert(body.take(reversed@.len() as int) =~= body);
    assert(start + body =~= components(p@));
    out
}

fn same_front(a: &Vec<String>, b: &Vec<String>) -> (r: bool)
    ensures
        r == a.deep_view().is_prefix_of(b.deep_view()),
{
    if a.len() > b.len() {
        return false;
    }
    let mut i: usize = 0;
    while i < a.len()
        invariant
            i <= a@.len() <= b@.len(),
            forall|k: int| 0 <= k < i ==> a.deep_view()[k] == b.deep_view()[k],
        decreases a@.len() - i,
    {
        assert(a.deep_view()[i as int] == a@[i as int]@);
        assert(b.deep_view()[i as int] == b@[i as int]@);
        if !text::same(a[i].as_str(), b[i].as_str()) {
            assert(b.deep_view().subrange(0, a@.len() as int)[i as int] != a.deep_view()[i as int]);
            return false;
        }
        i = i + 1;
    }
    assert(b.deep_view().subrange(0, a@.len() as int) =~= a.deep_view());
    true
}

/// Whether the components of `p` begin with those of `base`.
pub fn starts_with(p: &str, base: &str) -> (r: bool)
    ensures
        r == spec_starts_with(p@, base@),
{
    let a = components_of(base);
    let b = components_of(p);
    same_front(&a, &b)
}

/// The components with each `..` followed.
pub fn follow(components: &Vec<String>) -> (r: Vec<String>)
    ensures
        r.deep_view() == followed(components.deep_view()),
{
    let ghost all = components.deep_view();
    let mut out: Vec<String> = Vec::new();
    let mut i: usize = 0;
    assert(all.take(0) =~= Seq::<Seq<char>>::empty());
    assert(out.deep_view() =~= followed(all.take(0)));
    while i < components.len()
        invariant
            i <= components@.len(),
            all == components.deep_view(),
            out.deep_view() == followed(all.take(i as int)),
        decreases components@.len() - i,
    {
        assert(all.take(i + 1).drop_last() =~= all.take(i as int));
        assert(all.take(i + 1).last() == components@[i as int]@);
        let component = components[i].as_str();
        let count = out.len();
        let ghost before = out.deep_view();
        assert(count > 0 ==> before.last() == out@[count - 1]@);
        if text::same(component, ".") {
        } else if !text::same(component, "..") || count == 0 || text::same(
            out[count - 1].as_str(),
            "..",
        ) {
            text::push_text(&mut out, component);
        } else if !text::same(out[count - 1].as_str(), "/") {
            out.pop();
            assert(out.deep_view() =~= before.drop_last());
        }
        i = i + 1;
    }
    assert(all.take(i as int) =~= all);
    out
}

/// Whether `p` lies within `base`.
pub fn lies_within(p: &str, base: &str) -> (r: bool)
    ensures
        r == spec_lies_within(p@, base@),
{
    let above = follow(&components_of(base));
    let all = follow(&components_of(p));
    if !starts_with(p, base) || !same_front(&above, &all) {
        return false;
    }
    let mut i: usize = above.len();
    while i < all.len()
        invariant
            all.deep_view() == followed(components(p@)),
            above.deep_view() == followed(components(base@)),
            above@.len() <= i <= all@.len(),
            forall|k: int|
                above@.len() <= k < i ==> #[trigger] followed(components(p@))[k] != ".."@,
        decreases all@.len() - i,
    {
        assert(all.deep_view()[i as int] == all@[i as int]@);
        if text::same(all[i].as_str(), "..") {
            return false;
        }
        i = i + 1;
    }
    true
}

/// Whether two paths have the same components.
pub fn same(a: &str, b: &str) -> (r: bool)
    ensures
        r == spec_same(a@, b@),
{
    let x = components_of(a);
    let y = components_of(b);
    if x.len() != y.len() {
        return false;
    }
    let r = same_front(&x, &y);
    assert(r ==> y.deep_view().subrange(0, x@.len() as int) =~= y.deep_view());
    r
}

// ---------------------------------------------------------------------------------------------
// Laws
// ---------------------------------------------------------------------------------------------
/// Whether `name` is a single ordinary component.
pub open spec fn is_single_name(name: Seq<char>) -> bool {
    &&& !is_void(name)
    &&& !name.contains('/')
    &&& !(name.len() == 2 && name[0] == '.' && name[1] == '.')
}

/// Whether `name` is a single ordinary component, and all Unicode.
pub open spec fn is_plain_name(name: Seq<char>) -> bool {
    is_single_name(name) && encoding::is_unicode(name)
}

proof fn lemma_last_start_is(p: Seq<char>, from: int, s: int)
    requires
        0 <= from <= s <= p.len(),
        forall|i: int| s <= i < p.len() ==> p[i] != '/',
        s > from ==> p[s - 1] == '/',
    ensures
        last_start(p, from) == s,
{
    lemma_last_start(p, from);
    let t = last_start(p, from);
    if t < s {
        assert(p[s - 1] != '/');
    }
    if s < t {
        assert(p[t - 1] == '/');
    }
}

proof fn lemma_join_shape(base: Seq<char>, name: Seq<char>)
    requires
        is_single_name(name),
    ensures
        ({
            let p = spec_join(base, name);
            &&& head_len(p) == head_len(base)
            &&& p.skip(last_start(p, head_len(p))) == name
            &&& body_components(cut_last(p, head_len(p)), head_len(p)) == body_components(
                base,
                head_len(base),
            )
        }),
{
    reveal_strlit("/");
    let p = spec_join(base, name);
    let h = head_len(p);
    let s = p.len() - name.len();
    assert(name[0] != '/') by {
        assert(name.contains(name[0]));
    }
    assert forall|i: int| s <= i < p.len() implies p[i] != '/' by {
        assert(p[i] == name[i - s]);
        assert(name.contains(name[i - s]));
    }
    if base.len() == 0 {
        assert(p =~= name);
        if name.len() > 1 {
            assert(name.contains(name[1]));
        }
        lemma_last_start_is(p, h, 0);
        assert(cut_last(p, h) =~= base);
    } else if base.last() == '/' {
        assert(p =~= base + name);
        assert(p[0] == base[0]);
        assert(base.len() > 1 ==> p[1] == base[1]);
        assert(p[s - 1] == base.last());
        lemma_last_start_is(p, h, s);
        if s > h {
            lemma_last_start_is(base, h, s);
            assert(is_void(base.skip(s)));
            assert(cut_last(p, h) =~= cut_last(base, h));
        } else {
            assert(cut_last(p, h) =~= base);
        }
    } else {
        assert(p =~= base + "/"@ + name);
        assert(p[0] == base[0]);
        assert(base.len() > 1 ==> p[1] == base[1]);
        assert(p[s - 1] == '/');
        lemma_last_start_is(p, h, s);
        assert(cut_last(p, h) =~= base);
    }
    assert(p.skip(s) =~= name);
}

/// No point stands behind the last one.
pub proof fn lemma_last_point(name: Seq<char>)
    ensures
        -1 <= last_point(name) < name.len(),
        forall|i: int| 0 <= i < name.len() && name[i] == '.' ==> i <= last_point(name),
    decreases name.len(),
{
    if name.len() > 0 && name.last() != '.' {
        let rest = name.drop_last();
        lemma_last_point(rest);
        assert forall|i: int| 0 <= i < name.len() && name[i] == '.' implies i <= last_point(
            name,
        ) by {
            assert(rest[i] == name[i]);
        }
    }
}

/// A file name without its extension is the beginning of that name.
pub proof fn lemma_stem_is_prefix(name: Seq<char>)
    ensures
        stem_of(name).len() <= name.len(),
        forall|i: int| 0 <= i < stem_of(name).len() ==> stem_of(name)[i] == name[i],
{
    lemma_last_point(name);
}

/// A file name is a single ordinary component.
pub proof fn lemma_file_name_is_plain(p: Seq<char>)
    ensures
        spec_file_name(p) matches Some(name) ==> is_single_name(name),
        spec_unicode_name(p) matches Some(name) ==> is_plain_name(name),
{
    let h = head_len(p);
    lemma_body_end(p, h);
    let q = stripped(p);
    if q.len() > h {
        lemma_last_start(q, h);
        let name = q.skip(last_start(q, h));
        assert forall|i: int| 0 <= i < name.len() implies name[i] != '/' by {
            assert(name[i] == q[last_start(q, h) + i]);
        }
    }
}

/// A plain name under a path is one more component behind the path's own, and so lies within it.
pub proof fn law_join_adds_component(base: Seq<char>, name: Seq<char>)
    requires
        is_single_name(name),
    ensures
        components(spec_join(base, name)) == components(base).push(name),
        spec_lies_within(spec_join(base, name), base),
{
    reveal_strlit("..");
    let p = spec_join(base, name);
    lemma_join_shape(base, name);
    lemma_last_start(p, head_len(p));
    assert(p.len() > head_len(p)) by {
        if p.len() == head_len(p) {
            assert(p.skip(last_start(p, head_len(p))).len() == 0);
        }
    }
    if head_len(p) == 1 {
        assert(base.len() > 0);
        assert(p[0] == base[0]);
        assert(p.take(1) =~= base.take(1));
    }
    assert(components(p) =~= components(base).push(name));
    assert(components(p).subrange(0, components(base).len() as int) =~= components(base));
    reveal_strlit(".");
    assert(components(p).drop_last() =~= components(base));
    let above = followed(components(base));
    assert(followed(components(p)) =~= above.push(name));
    assert(followed(components(p)).subrange(0, above.len() as int) =~= above);
}

/// The file name of a plain name under a path is that name.
pub proof fn law_join_file_name(base: Seq<char>, name: Seq<char>)
    requires
        is_single_name(name),
    ensures
        spec_file_name(spec_join(base, name)) == Some(name),
        encoding::is_unicode(name) ==> spec_unicode_name(spec_join(base, name)) == Some(name),
{
    let p = spec_join(base, name);
    lemma_join_shape(base, name);
    lemma_last_start(p, head_len(p));
    assert(p.len() > head_len(p)) by {
        if p.len() == head_len(p) {
            assert(p.skip(last_start(p, head_len(p))).len() == 0);
        }
    }
    assert(stripped(p) =~= p);
}

/// Two plain names under one path are two paths, with different components.
pub proof fn law_names_are_told_apart(base: Seq<char>, a: Seq<char>, b: Seq<char>)
    requires
        is_single_name(a),
        is_single_name(b),
        a != b,
    ensures
        spec_join(base, a) != spec_join(base, b),
        !spec_same(spec_join(base, a), spec_join(base, b)),
{
    law_join_file_name(base, a);
    law_join_file_name(base, b);
    law_join_adds_component(base, a);
    law_join_adds_component(base, b);
    assert(components(base).push(a).last() == a);
    assert(components(base).push(b).last() == b);
}

/// What a path under another is: an absolute one stands for itself; any other comes behind the base,
/// with one slash between the two, unless the base is empty or ends with a slash already.
pub proof fn law_join_puts_one_behind_the_other(base: Seq<char>, rest: Seq<char>)
    ensures
        rest.len() > 0 && rest[0] == '/' ==> spec_join(base, rest) == rest,
        !(rest.len() > 0 && rest[0] == '/') ==> {
            &&& base.len() == 0 ==> spec_join(base, rest) == rest
            &&& base.len() > 0 && base.last() == '/' ==> spec_join(base, rest) == base + rest
            &&& base.len() > 0 && base.last() != '/' ==> spec_join(base, rest) == base + seq!['/']
                + rest
        },
{
    reveal_strlit("/");
    assert("/"@ =~= seq!['/']);
    assert(base.len() == 0 ==> base + rest =~= rest);
}

/// A slash behind a path, or a slash and a point, makes no difference to its components.
pub proof fn law_trailing_slash_does_not_count(p: Seq<char>)
    requires
        p.len() > 0,
    ensures
        components(p + seq!['/']) == components(p),
        components(p + seq!['/', '.']) == components(p),
{
    let h = head_len(p);
    let n = p.len() as int;
    let a = p + seq!['/'];
    let b = p + seq!['/', '.'];
    assert(a[0] == p[0] && b[0] == p[0]);
    assert(n > 1 ==> a[1] == p[1] && b[1] == p[1]);
    assert(head_len(a) == h || p =~= seq!['.']);
    assert(head_len(a) == h && head_len(b) == h);
    assert(a.take(1) =~= p.take(1));
    assert(b.take(1) =~= p.take(1));
    lemma_last_start_is(a, h, n + 1);
    lemma_last_start_is(b, h, n + 1);
    assert(cut_last(a, h) =~= p);
    assert(cut_last(b, h) =~= p);
    assert(a.skip(n + 1).len() == 0);
    assert(b.skip(n + 1) =~= seq!['.']);
}

/// Whether `q` is `p` cut at its end, or before a slash, or at the end of its beginning.
spec fn is_cut(p: Seq<char>, q: Seq<char>, from: int) -> bool {
    &&& from <= q.len() <= p.len()
    &&& q == p.take(q.len() as int)
    &&& q.len() == p.len() || q.len() == from || p[q.len() as int] == '/'
}

proof fn lemma_cut_again(p: Seq<char>, q: Seq<char>, r: Seq<char>, from: int)
    requires
        0 <= from,
        is_cut(p, q, from),
        is_cut(q, r, from),
    ensures
        is_cut(p, r, from),
{
    assert(r =~= p.take(r.len() as int));
    if r.len() < q.len() {
        assert(q[r.len() as int] == p[r.len() as int]);
    }
}

proof fn lemma_cut_last(p: Seq<char>, from: int)
    requires
        0 <= from < p.len(),
    ensures
        is_cut(p, cut_last(p, from), from),
        cut_last(p, from).len() < p.len(),
{
    lemma_last_start(p, from);
}

proof fn lemma_body_is_stripped(p: Seq<char>, from: int)
    requires
        0 <= from <= p.len(),
    ensures
        is_cut(p, p.take(body_end(p, from)), from),
        body_components(p.take(body_end(p, from)), from) == body_components(p, from),
    decreases p.len(),
{
    lemma_body_end(p, from);
    let q = p.take(body_end(p, from));
    if p.len() <= from {
        assert(q =~= p);
    } else {
        lemma_last_start(p, from);
        if is_void(p.skip(last_start(p, from))) {
            let cut = cut_last(p, from);
            lemma_cut_last(p, from);
            lemma_body_is_stripped(cut, from);
            lemma_body_end(cut, from);
            assert(q =~= cut.take(body_end(cut, from)));
            lemma_cut_again(p, cut, q, from);
        } else {
            assert(q =~= p);
        }
    }
}

proof fn lemma_cut_keeps_head(p: Seq<char>, q: Seq<char>)
    requires
        is_cut(p, q, head_len(p)),
    ensures
        head_len(q) == head_len(p),
        head_len(p) == 1 ==> q.take(1) == p.take(1),
{
    if q.len() > 0 {
        assert(q[0] == p[0]);
        if q.len() > 1 {
            assert(q[1] == p[1]);
        }
    }
    if head_len(p) == 1 {
        assert(q.take(1) =~= p.take(1));
    }
}

proof fn lemma_stripped_is_cut(p: Seq<char>)
    ensures
        is_cut(p, stripped(p), head_len(p)),
        head_len(stripped(p)) == head_len(p),
        components(stripped(p)) == components(p),
{
    lemma_body_is_stripped(p, head_len(p));
    lemma_cut_keeps_head(p, stripped(p));
}

/// A path with a last component is made up of its parent and that component; every path but the
/// empty one, the root and the leading point has a last component.
pub proof fn law_parent_and_last_component(p: Seq<char>)
    ensures
        last_component(p) matches Some(name) ==> (spec_parent(p) matches Some(above)
            && components(p) == components(above).push(name)),
        last_component(p) is None <==> components(p).len() == 0 || (components(p).len() == 1
            && head_len(p) == 1),
        spec_file_name(p) matches Some(name) ==> last_component(p) == Some(name),
{
    let h = head_len(p);
    let q = stripped(p);
    lemma_stripped_is_cut(p);
    lemma_body_end(p, h);
    if q.len() > h {
        let s = last_start(q, h);
        let name = q.skip(s);
        lemma_last_start(q, h);
        let cut = cut_last(q, h);
        lemma_cut_last(q, h);
        lemma_body_is_stripped(cut, h);
        let above = cut.take(body_end(cut, h));
        lemma_body_end(cut, h);
        lemma_cut_again(p, q, cut, h);
        lemma_cut_again(p, cut, above, h);
        lemma_cut_keeps_head(p, above);
        assert(!is_void(name));
        assert(body_components(q, h) == body_components(above, h).push(name));
        assert(components(p) =~= components(above).push(name));
    } else {
        assert(body_components(q, h) =~= Seq::empty());
    }
}

/// A name up to its last point is its stem, unless that point is its first character; a name without
/// another point is its own stem.
pub proof fn law_stem_ends_at_last_point(stem: Seq<char>, extension: Seq<char>)
    requires
        !extension.contains('.'),
    ensures
        stem.len() > 0 ==> stem_of(stem + seq!['.'] + extension) == stem,
        stem_of(extension) == extension,
        stem_of(seq!['.'] + extension) == seq!['.'] + extension,
{
    let name = stem + seq!['.'] + extension;
    lemma_last_point_is(name, stem.len() as int);
    assert(stem.len() > 0 ==> name.take(stem.len() as int) =~= stem);
    lemma_last_point(extension);
    if last_point(extension) >= 0 {
        lemma_last_point_is_point(extension);
        assert(extension.contains(extension[last_point(extension)]));
    }
    let hidden = seq!['.'] + extension;
    lemma_last_point_is(hidden, 0);
}

proof fn lemma_last_point_is_point(name: Seq<char>)
    ensures
        last_point(name) >= 0 ==> name[last_point(name)] == '.',
    decreases name.len(),
{
    if name.len() > 0 && name.last() != '.' {
        lemma_last_point_is_point(name.drop_last());
        lemma_last_point(name.drop_last());
    }
}

proof fn lemma_last_point_is(name: Seq<char>, at: int)
    requires
        0 <= at < name.len(),
        name[at] == '.',
        !name.skip(at + 1).contains('.'),
    ensures
        last_point(name) == at,
{
    lemma_last_point(name);
    lemma_last_point_is_point(name);
    let found = last_point(name);
    if at < found {
        assert(name.skip(at + 1)[found - at - 1] == '.');
    }
}

/// Another file name in place of a path's own keeps all that comes before it.
pub proof fn law_other_name_keeps_directory(p: Seq<char>, name: Seq<char>)
    requires
        spec_file_name(p) is Some,
        is_single_name(name),
    ensures
        components(spec_with_file_name(p, name)) == components(p).drop_last().push(name),
        spec_file_name(spec_with_file_name(p, name)) == Some(name),
{
    law_parent_and_last_component(p);
    let above = spec_parent(p)->0;
    law_join_adds_component(above, name);
    law_join_file_name(above, name);
    assert(components(p).drop_last() =~= components(above));
}

/// Another extension in place of a path's own keeps all that comes before it: the directory, and the
/// name up to its own extension.
pub proof fn law_other_extension_keeps_stem(p: Seq<char>, name: Seq<char>, extension: Seq<char>)
    requires
        spec_file_name(p) == Some(name),
        !extension.contains('/'),
        extension.len() > 0,
        extension[0] != '.',
    ensures
        components(spec_with_extension(p, extension)) == components(p).drop_last().push(
            stem_of(name) + seq!['.'] + extension,
        ),
        spec_file_name(spec_with_extension(p, extension)) == Some(
            stem_of(name) + seq!['.'] + extension,
        ),
{
    reveal_strlit(".");
    assert("."@ =~= seq!['.']);
    let h = head_len(p);
    let q = stripped(p);
    let s = last_start(q, h);
    lemma_stripped_is_cut(p);
    lemma_body_end(p, h);
    lemma_last_start(q, h);
    let dir = q.take(s);
    let new = stem_of(name) + seq!['.'] + extension;
    assert(name =~= q.skip(s));
    assert(q.take(q.len() - name.len()) =~= dir);
    assert(spec_with_extension(p, extension) =~= dir + new);
    lemma_file_name_is_plain(p);
    lemma_stem_is_prefix(name);
    lemma_last_point(name);
    assert(stem_of(name).len() > 0);
    assert forall|i: int| 0 <= i < new.len() implies new[i] != '/' by {
        if i < stem_of(name).len() {
            assert(new[i] == name[i]);
            assert(name.contains(name[i]));
        } else if i > stem_of(name).len() {
            assert(new[i] == extension[i - stem_of(name).len() - 1]);
            assert(extension.contains(new[i]));
        }
    }
    assert(new[new.len() - extension.len()] == extension[0]);
    assert(is_single_name(new));
    if s > h {
        assert(dir.last() == q[s - 1]);
    } else if h == 1 {
        if p[0] == '.' {
            assert(q[0] == p[0] && q[1] == p[1]);
        }
        assert(dir.last() == q[0]);
    }
    assert(dir.len() == 0 || dir.last() == '/');
    assert(new[0] != '/');
    assert(spec_join(dir, new) =~= dir + new);
    law_join_adds_component(dir, new);
    law_join_file_name(dir, new);
    lemma_cut_before_slash(q, s);
    law_parent_and_last_component(p);
    lemma_components_of_cut(q);
    assert(components(p).drop_last() =~= components(dir));
}

/// The components of what stands before the last one, with or without the slash between them.
proof fn lemma_cut_before_slash(q: Seq<char>, s: int)
    requires
        head_len(q) < q.len(),
        s == last_start(q, head_len(q)),
    ensures
        components(q.take(s)) == components(cut_last(q, head_len(q))),
{
    let h = head_len(q);
    lemma_last_start(q, h);
    lemma_cut_last(q, h);
    let dir = q.take(s);
    let cut = cut_last(q, h);
    lemma_cut_keeps_head(q, cut);
    if s > h {
        assert(dir.last() == '/');
        assert(dir.drop_last() =~= cut);
        if cut.len() > 0 {
            assert(dir =~= cut + seq!['/']);
            law_trailing_slash_does_not_count(cut);
        } else {
            assert(q[0] == '/');
        }
    } else {
        assert(dir =~= cut);
    }
}

proof fn lemma_components_of_cut(q: Seq<char>)
    requires
        head_len(q) < q.len(),
        !is_void(q.skip(last_start(q, head_len(q)))),
    ensures
        components(q) == components(cut_last(q, head_len(q))).push(
            q.skip(last_start(q, head_len(q))),
        ),
{
    let h = head_len(q);
    lemma_last_start(q, h);
    lemma_cut_last(q, h);
    lemma_cut_keeps_head(q, cut_last(q, h));
    assert(components(q) =~= components(cut_last(q, h)).push(q.skip(last_start(q, h))));
}

/// The paths above a path: first the path itself, then its parent, then the parent of that, up to
/// the number that is asked for, and as long as there is one.
pub proof fn law_ancestors_go_up(p: Seq<char>, count: nat, i: int)
    ensures
        count > 0 ==> spec_ancestors(p, count).len() > 0 && spec_ancestors(p, count)[0] == p,
        spec_ancestors(p, count).len() <= count,
        0 <= i && i + 1 < spec_ancestors(p, count).len() ==> spec_parent(
            spec_ancestors(p, count)[i],
        ) == Some(spec_ancestors(p, count)[i + 1]),
        0 < spec_ancestors(p, count).len() < count ==> spec_parent(
            spec_ancestors(p, count).last(),
        ) is None,
    decreases count,
{
    if count > 0 && spec_parent(p) is Some {
        let above = spec_parent(p)->0;
        law_ancestors_go_up(above, (count - 1) as nat, i - 1);
        law_ancestors_go_up(above, (count - 1) as nat, 0);
        let rest = spec_ancestors(above, (count - 1) as nat);
        let all = spec_ancestors(p, count);
        assert(all =~= seq![p] + rest);
        if rest.len() > 0 {
            assert(all.last() == rest.last());
        }
    }
}

/// The root is the first component of a path or none.
proof fn lemma_root_comes_first(parts: Seq<Seq<char>>, i: int)
    requires
        forall|k: int| 0 < k < parts.len() ==> #[trigger] parts[k] != "/"@,
        0 <= i < followed(parts).len(),
        followed(parts)[i] == "/"@,
    ensures
        i == 0,
    decreases parts.len(),
{
    if parts.len() > 0 {
        let rest = parts.drop_last();
        let before = followed(rest);
        assert forall|k: int| 0 < k < rest.len() implies #[trigger] rest[k] != "/"@ by {
            assert(rest[k] == parts[k]);
        }
        if i < before.len() {
            lemma_root_comes_first(rest, i);
        } else {
            reveal_strlit("..");
            reveal_strlit("/");
            assert("/"@.len() == 1 && ".."@.len() == 2);
            assert(parts.last() == "/"@);
            assert(parts[parts.len() - 1] == "/"@);
            assert(parts.len() == 1);
            assert(rest =~= Seq::empty());
        }
    }
}

proof fn lemma_body_has_no_slash(p: Seq<char>, from: int, k: int)
    requires
        0 <= from <= p.len(),
        0 <= k < body_components(p, from).len(),
    ensures
        !body_components(p, from)[k].contains('/'),
    decreases p.len(),
{
    if p.len() > from {
        lemma_last_start(p, from);
        lemma_cut_last(p, from);
        let s = last_start(p, from);
        let rest = body_components(cut_last(p, from), from);
        if k < rest.len() {
            lemma_body_has_no_slash(cut_last(p, from), from, k);
        } else {
            assert(body_components(p, from)[k] == p.skip(s));
            assert forall|i: int| 0 <= i < p.skip(s).len() implies p.skip(s)[i] != '/' by {
                assert(p.skip(s)[i] == p[s + i]);
            }
        }
    }
}

/// No component holds a slash, but for the root, which comes first.
pub proof fn law_components_hold_no_slash(p: Seq<char>, k: int)
    requires
        0 <= k < components(p).len(),
    ensures
        components(p)[k].contains('/') ==> k == 0 && components(p)[k] == seq!['/'] && p[0] == '/',
{
    let h = head_len(p);
    if h == 1 {
        if k > 0 {
            lemma_body_has_no_slash(p, 1, k - 1);
        } else {
            assert(components(p)[0] =~= seq![p[0]]);
            if p[0] != '/' {
                assert(!seq![p[0]].contains('/'));
            }
        }
    } else {
        lemma_body_has_no_slash(p, 0, k);
    }
}

/// A `..` behind a path leads out of it, unless the path is the root, above which there is nothing.
pub proof fn law_dots_lead_out(base: Seq<char>, p: Seq<char>)
    requires
        components(p) == components(base).push(seq!['.', '.']),
        followed(components(base)) != seq![seq!['/']],
    ensures
        !spec_lies_within(p, base),
{
    reveal_strlit("..");
    reveal_strlit(".");
    reveal_strlit("/");
    assert(".."@ =~= seq!['.', '.']);
    assert("/"@ =~= seq!['/']);
    assert("."@.len() == 1);
    let above = followed(components(base));
    let all = followed(components(p));
    assert(components(p).drop_last() =~= components(base));
    if above.len() > 0 && above.last() == "/"@ {
        assert forall|k: int| 0 < k < components(base).len() implies #[trigger] components(base)[k]
            != "/"@ by {
            law_components_hold_no_slash(base, k);
            assert("/"@.contains("/"@[0]));
        }
        lemma_root_comes_first(components(base), above.len() - 1);
        assert(above =~= seq![seq!['/']]);
    }
    if above.len() == 0 || above.last() == ".."@ {
        assert(all[above.len() as int] == ".."@);
    } else {
        assert(all.len() < above.len());
    }
}

/// A path begins with another exactly if its components are those of the other and then some, or no
/// more.
pub proof fn law_begins_with_components(p: Seq<char>, base: Seq<char>)
    ensures
        spec_starts_with(p, base) <==> exists|rest: Seq<Seq<char>>|
            components(p) == #[trigger] (components(base) + rest),
        spec_starts_with(p, p),
        spec_same(p, base) <==> components(p) == components(base),
{
    if spec_starts_with(p, base) {
        let n = components(base).len() as int;
        assert(components(p) =~= components(base) + components(p).skip(n));
    }
    if exists|rest: Seq<Seq<char>>| components(p) == #[trigger] (components(base) + rest) {
        let n = components(base).len() as int;
        assert(components(p).subrange(0, n) =~= components(base));
    }
    assert(components(p).subrange(0, components(p).len() as int) =~= components(p));
}

/// The stem of a path is that of its file name.
pub proof fn law_stem_is_that_of_the_name(p: Seq<char>)
    ensures
        spec_file_name(p) matches Some(name) ==> spec_file_stem(p) == Some(stem_of(name)),
        spec_file_name(p) is None ==> spec_file_stem(p) is None,
{
}

/// Whether `part` is a component that neither leads up nor stands for the root or for nothing.
pub open spec fn leads_down(part: Seq<char>) -> bool {
    part != "."@ && part != ".."@ && part != "/"@
}

proof fn lemma_followed_down(parts: Seq<Seq<char>>, rest: Seq<Seq<char>>)
    requires
        forall|i: int| 0 <= i < rest.len() ==> leads_down(#[trigger] rest[i]),
    ensures
        followed(parts + rest) == followed(parts) + rest,
    decreases rest.len(),
{
    if rest.len() == 0 {
        assert(parts + rest =~= parts);
        assert(followed(parts) + rest =~= followed(parts));
    } else {
        let shorter = rest.drop_last();
        assert forall|i: int| 0 <= i < shorter.len() implies leads_down(#[trigger] shorter[i]) by {
            assert(shorter[i] == rest[i]);
        }
        lemma_followed_down(parts, shorter);
        assert((parts + rest).drop_last() =~= parts + shorter);
        assert(leads_down(rest[rest.len() - 1]));
        assert(followed(parts + rest) =~= followed(parts) + rest);
    }
}

/// What goes on behind a path with components that only lead down lies within it.
pub proof fn law_what_leads_down_lies_within(base: Seq<char>, p: Seq<char>, rest: Seq<Seq<char>>)
    requires
        components(p) == components(base) + rest,
        forall|i: int| 0 <= i < rest.len() ==> leads_down(#[trigger] rest[i]),
    ensures
        spec_lies_within(p, base),
{
    lemma_followed_down(components(base), rest);
    let above = followed(components(base));
    let all = followed(components(p));
    assert(components(p).subrange(0, components(base).len() as int) =~= components(base));
    assert(all.subrange(0, above.len() as int) =~= above);
    assert forall|i: int| above.len() <= i < all.len() implies #[trigger] all[i] != ".."@ by {
        assert(all[i] == rest[i - above.len()]);
        assert(leads_down(rest[i - above.len()]));
    }
}

/// A `..` behind a path, and then another name than the path's own, leads to what lies beside it, and
/// that does not lie within it.
pub proof fn law_way_around_lies_outside(
    base: Seq<char>,
    own: Seq<char>,
    p: Seq<char>,
    other: Seq<char>,
    rest: Seq<Seq<char>>,
)
    requires
        components(base).len() > 0,
        components(base).last() == own,
        leads_down(own),
        leads_down(other),
        other != own,
        forall|i: int| 0 <= i < rest.len() ==> leads_down(#[trigger] rest[i]),
        components(p) == components(base).push(seq!['.', '.']).push(other) + rest,
    ensures
        !spec_lies_within(p, base),
{
    reveal_strlit("..");
    reveal_strlit(".");
    assert(".."@ =~= seq!['.', '.']);
    assert("."@.len() == 1);
    let parts = components(base);
    let front = parts.drop_last();
    let above = followed(parts);
    assert(parts =~= front + seq![own]);
    assert forall|i: int| 0 <= i < seq![own].len() implies leads_down(#[trigger] seq![own][i]) by {}
    lemma_followed_down(front, seq![own]);
    assert(above =~= followed(front).push(own));
    let up = parts.push(".."@);
    assert(up.drop_last() =~= parts);
    assert(followed(up) =~= followed(front));
    let tail = seq![other] + rest;
    assert forall|i: int| 0 <= i < tail.len() implies leads_down(#[trigger] tail[i]) by {
        if i > 0 {
            assert(tail[i] == rest[i - 1]);
        }
    }
    assert(components(p) =~= up + tail);
    lemma_followed_down(up, tail);
    let all = followed(components(p));
    let n = followed(front).len() as int;
    assert(all[n] == other);
    assert(above[n] == own);
    if above.is_prefix_of(all) {
        assert(all.subrange(0, above.len() as int)[n] == all[n]);
    }
}

/// What is nothing but its beginning has no component to take away: there is nothing above the root
/// or above the empty path, and above a leading point there is the empty path.
pub proof fn law_nothing_above_the_beginning(p: Seq<char>)
    requires
        last_component(p) is None,
    ensures
        p.len() == 0 ==> spec_parent(p) is None,
        p.len() > 0 && p[0] == '/' ==> spec_parent(p) is None,
        p.len() > 0 && p[0] == '.' ==> spec_parent(p) == Some(Seq::<char>::empty()),
{
    lemma_stripped_is_cut(p);
    law_parent_and_last_component(p);
    let h = head_len(p);
    let q = stripped(p);
    assert(q.len() == h);
    if p.len() > 0 && p[0] == '.' && h == 0 {
        lemma_last_start(p, 0);
        lemma_body_end(p, 0);
        assert(body_components(p, 0).len() == 0);
        lemma_begins_with_name(p);
    }
}

/// A path that begins with neither a slash nor a leading point has a component.
proof fn lemma_begins_with_name(p: Seq<char>)
    requires
        p.len() > 0,
        p[0] != '/',
        p.len() == 1 ==> p[0] != '.',
        p.len() > 1 && p[0] == '.' ==> p[1] != '/',
    ensures
        body_components(p, 0).len() > 0,
    decreases p.len(),
{
    lemma_last_start(p, 0);
    lemma_cut_last(p, 0);
    let s = last_start(p, 0);
    let cut = cut_last(p, 0);
    if is_void(p.skip(s)) {
        if s > 0 {
            assert(p[s - 1] == '/');
            assert(s >= 2);
            assert(cut[0] == p[0]);
            if cut.len() > 1 {
                assert(cut[1] == p[1]);
            } else {
                assert(p[1] == '/');
            }
            lemma_begins_with_name(cut);
        } else {
            assert(p.skip(0) =~= p);
        }
    }
}

/// What lies within a path begins with it, and has no `..` left in it that leads out.
pub proof fn law_what_lies_within_begins_with_it(p: Seq<char>, base: Seq<char>, i: int)
    requires
        spec_lies_within(p, base),
    ensures
        components(base).is_prefix_of(components(p)),
        followed(components(base)).is_prefix_of(followed(components(p))),
        followed(components(base)).len() <= i < followed(components(p)).len() ==> followed(
            components(p),
        )[i] != ".."@,
{
}

} // verus!
