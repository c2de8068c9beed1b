//! Flat JSON objects, as they are printed and sent.

use vstd::prelude::*;
use vstd::string::*;

use crate::text::{opt_view, views};

verus! {

/// The value of a member of a JSON object.
#[derive(Debug, Clone)]
pub enum JsonValue {
    Null,
    Flag(bool),
    Number(u64),
    Text(String),
    Texts(Vec<String>),
}

/// A [`JsonValue`] over texts.
pub enum JsonView {
    Null,
    Flag(bool),
    Number(u64),
    Text(Seq<char>),
    Texts(Seq<Seq<char>>),
}

impl View for JsonValue {
    type V = JsonView;

    open spec fn view(&self) -> JsonView {
        match *self {
            JsonValue::Null => JsonView::Null,
            JsonValue::Flag(b) => JsonView::Flag(b),
            JsonValue::Number(n) => JsonView::Number(n),
            JsonValue::Text(t) => JsonView::Text(t@),
            JsonValue::Texts(list) => JsonView::Texts(views(list@)),
        }
    }
}

/// A text, or `null` where there is none.
pub open spec fn text_or_null(text: Option<Seq<char>>) -> JsonView {
    match text {
        Some(t) => JsonView::Text(t),
        None => JsonView::Null,
    }
}

/// `true` or `false`, or `null` where neither is known.
pub open spec fn flag_or_null(flag: Option<bool>) -> JsonView {
    match flag {
        Some(b) => JsonView::Flag(b),
        None => JsonView::Null,
    }
}

impl JsonValue {
    /// A text.
    pub fn text(text: &str) -> (value: Self)
        ensures
            value@ == JsonView::Text(text@),
    {
        JsonValue::Text(text.to_owned())
    }

    /// A text, or `null` where there is none.
    pub fn optional_text(text: &Option<String>) -> (value: Self)
        ensures
            value@ == text_or_null(opt_view(*text)),
    {
        match text {
            Some(t) => JsonValue::text(t.as_str()),
            None => JsonValue::Null,
        }
    }

    /// `true` or `false`, or `null` where neither is known.
    pub fn optional_flag(flag: Option<bool>) -> (value: Self)
        ensures
            value@ == flag_or_null(flag),
    {
        match flag {
            Some(b) => JsonValue::Flag(b),
            None => JsonValue::Null,
        }
    }

    /// A list of texts.
    pub fn texts(list: &Vec<String>) -> (value: Self)
        ensures
            value@ == JsonView::Texts(views(list@)),
    {
        let mut copy: Vec<String> = Vec::new();
        let mut i: usize = 0;
        while i < list.len()
            invariant
                i <= list.len(),
                views(copy@) == views(list@).take(i as int),
            decreases list.len() - i,
        {
            let ghost before = copy@;
            copy.push(list[i].as_str().to_owned());
            assert(views(copy@) =~= views(before).push(views(list@)[i as int]));
            i = i + 1;
        }
        assert(views(list@).take(list@.len() as int) =~= views(list@));
        JsonValue::Texts(copy)
    }
}

/// A member of a JSON object: its name and its value.
pub type Field = (&'static str, JsonValue);

/// The names and the values of members.
pub open spec fn field_views(fields: Seq<Field>) -> Seq<(Seq<char>, JsonView)> {
    fields.map_values(|f: Field| (f.0@, f.1@))
}

/// The text of the JSON object with the given members, as `serde_json::Value` displays it.
pub uninterp spec fn json_text(fields: Seq<(Seq<char>, JsonView)>) -> Seq<char>;

/// `Display` of a `serde_json::Value` that is an object with the given members. The text is named,
/// not described.
#[verifier::external_body]
pub(crate) fn json_object_text(fields: &Vec<Field>) -> (text: String)
    ensures
        text@ == json_text(field_views(fields@)),
{
    let value = |v: &JsonValue| match v {
        JsonValue::Null => serde_json::Value::Null,
        JsonValue::Flag(b) => serde_json::Value::from(*b),
        JsonValue::Number(n) => serde_json::Value::from(*n),
        JsonValue::Text(t) => serde_json::Value::from(t.as_str()),
        JsonValue::Texts(list) => serde_json::Value::from(list.as_slice()),
    };
    let members = fields.iter().map(|(name, v)| (name.to_string(), value(v)));
    serde_json::Value::Object(members.collect()).to_string()
}

/// A value is what it was made from: a text or a list whole, and `null` where there is none.
pub proof fn law_values_are_what_they_were_made_from(
    text: &str,
    optional: &Option<String>,
    flag: Option<bool>,
    list: &Vec<String>,
    of_text: JsonValue,
    of_optional: JsonValue,
    of_flag: JsonValue,
    of_list: JsonValue,
)
    requires
        call_ensures(JsonValue::text, (text,), of_text),
        call_ensures(JsonValue::optional_text, (optional,), of_optional),
        call_ensures(JsonValue::optional_flag, (flag,), of_flag),
        call_ensures(JsonValue::texts, (list,), of_list),
    ensures
        of_text@ == JsonView::Text(text@),
        *optional matches Some(t) ==> of_optional@ == JsonView::Text(t@),
        *optional is None ==> of_optional@ == JsonView::Null,
        flag matches Some(b) ==> of_flag@ == JsonView::Flag(b),
        flag is None ==> of_flag@ == JsonView::Null,
        of_list@ matches JsonView::Texts(told) && told.len() == list@.len() && forall|i: int|
            0 <= i < list@.len() ==> #[trigger] told[i] == list@[i]@,
{
}

} // verus!
