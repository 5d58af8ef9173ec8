//! The plain values that reports and event records carry.
use crate::text;
use vstd::prelude::*;

verus! {

/// A plain value.
#[derive(Debug)]
pub enum Json {
    Null,
    Bool(bool),
    Number(u64),
    Text(String),
}

/// What a [`Json`] holds.
pub enum JsonView {
    Null,
    Bool(bool),
    Number(u64),
    Text(Seq<char>),
}

impl DeepView for Json {
    type V = JsonView;

    open spec fn deep_view(&self) -> JsonView {
        match self {
            Json::Null => JsonView::Null,
            Json::Bool(b) => JsonView::Bool(*b),
            Json::Number(n) => JsonView::Number(*n),
            Json::Text(s) => JsonView::Text(s@),
        }
    }
}

/// A text that may be missing.
pub open spec fn optional_text(value: Option<Seq<char>>) -> JsonView {
    match value {
        Some(s) => JsonView::Text(s),
        None => JsonView::Null,
    }
}

/// A number that may be missing.
pub open spec fn optional_number(value: Option<u32>) -> JsonView {
    match value {
        Some(n) => JsonView::Number(n as u64),
        None => JsonView::Null,
    }
}

impl Json {
    /// The text as it is.
    pub fn text(value: &str) -> (r: Json)
        ensures
            r.deep_view() == JsonView::Text(value@),
    {
        Json::Text(value.to_owned())
    }

    /// A text that may be missing.
    pub fn from_text(value: &Option<String>) -> (r: Json)
        ensures
            r.deep_view() == optional_text(value.deep_view()),
    {
        match value {
            Some(s) => Json::Text(s.clone()),
            None => Json::Null,
        }
    }

    /// A number that may be missing.
    pub fn from_number(value: Option<u32>) -> (r: Json)
        ensures
            r.deep_view() == optional_number(value),
    {
        match value {
            Some(n) => Json::Number(n as u64),
            None => Json::Null,
        }
    }
}

/// A value with its name.
#[derive(Debug)]
pub struct Field {
    pub name: String,
    pub value: Json,
}

/// What a [`Field`] holds.
pub struct FieldView {
    pub name: Seq<char>,
    pub value: JsonView,
}

impl DeepView for Field {
    type V = FieldView;

    open spec fn deep_view(&self) -> FieldView {
        FieldView { name: self.name@, value: self.value.deep_view() }
    }
}

/// Puts a value and its name at the end of `fields`.
pub fn push_field(fields: &mut Vec<Field>, name: &str, value: Json)
    ensures
        final(fields).deep_view() == old(fields).deep_view().push(
            (FieldView { name: name@, value: value.deep_view() }),
        ),
{
    let ghost shown = FieldView { name: name@, value: value.deep_view() };
    fields.push(Field { name: name.to_owned(), value });
    assert(fields.deep_view() =~= old(fields).deep_view().push(shown));
}

/// The value of the last of `fields` that has this name; nothing, where none has.
pub open spec fn value_named(fields: Seq<FieldView>, name: Seq<char>) -> JsonView
    decreases fields.len(),
{
    if fields.len() == 0 {
        JsonView::Null
    } else if fields.last().name == name {
        fields.last().value
    } else {
        value_named(fields.drop_last(), name)
    }
}

/// The value of the last of `fields` that has this name, if one has.
pub fn find_value<'a>(fields: &'a Vec<Field>, name: &str) -> (r: Option<&'a Json>)
    ensures
        match r {
            Some(value) => value.deep_view() == value_named(fields.deep_view(), name@),
            None => value_named(fields.deep_view(), name@) == JsonView::Null,
        },
{
    let ghost all = fields.deep_view();
    let mut i: usize = fields.len();
    assert(all.take(i as int) =~= all);
    while i > 0
        invariant
            i <= fields@.len(),
            all == fields.deep_view(),
            value_named(all, name@) == value_named(all.take(i as int), name@),
        decreases i,
    {
        assert(all.take(i as int).last() == fields@[i - 1].deep_view());
        assert(all.take(i as int).drop_last() =~= all.take(i - 1));
        if text::same(fields[i - 1].name.as_str(), name) {
            return Some(&fields[i - 1].value);
        }
        i = i - 1;
    }
    None
}

impl JsonView {
    /// The text, if it is one.
    pub open spec fn as_text(self) -> Option<Seq<char>> {
        match self {
            JsonView::Text(s) => Some(s),
            _ => None,
        }
    }

    /// The number, if it is one.
    pub open spec fn as_number(self) -> Option<u64> {
        match self {
            JsonView::Number(n) => Some(n),
            _ => None,
        }
    }
}

/// The text of the last of `fields` that has this name, if it is one.
pub fn find_text(fields: &Vec<Field>, name: &str) -> (r: Option<String>)
    ensures
        r.deep_view() == value_named(fields.deep_view(), name@).as_text(),
{
    match find_value(fields, name) {
        Some(Json::Text(s)) => Some(s.clone()),
        _ => None,
    }
}

/// The number of the last of `fields` that has this name, if it is one.
pub fn find_number(fields: &Vec<Field>, name: &str) -> (r: Option<u64>)
    ensures
        r == value_named(fields.deep_view(), name@).as_number(),
{
    match find_value(fields, name) {
        Some(Json::Number(n)) => Some(*n),
        _ => None,
    }
}

/// Whether `fields` hold `value` under `name`, and nothing else under that name.
pub open spec fn says(fields: Option<Seq<FieldView>>, name: Seq<char>, value: JsonView) -> bool {
    match fields {
        Some(fields) => {
            &&& fields.contains(FieldView { name, value })
            &&& forall|i: int|
                0 <= i < fields.len() && (#[trigger] fields[i]).name == name ==> fields[i].value
                    == value
        },
        None => false,
    }
}

/// Of fields with one name the last decides, and a name under which there is none has no value.
pub proof fn law_last_field_decides(fields: Seq<FieldView>, field: FieldView, name: Seq<char>)
    ensures
        value_named(Seq::empty(), name) == JsonView::Null,
        field.name == name ==> value_named(fields.push(field), name) == field.value,
        field.name != name ==> value_named(fields.push(field), name) == value_named(fields, name),
{
    assert(fields.push(field).drop_last() =~= fields);
}

/// What may be missing is told as it is where it is there, and as nothing where it is not.
pub proof fn law_missing_values_are_null(s: Seq<char>, n: u32)
    ensures
        optional_text(Some(s)) == JsonView::Text(s),
        optional_text(None) == JsonView::Null,
        optional_number(Some(n)) == JsonView::Number(n as u64),
        optional_number(None) == JsonView::Null,
{
}

} // verus!
