//! The arguments of a tool call, which travel as JSON text.
use vstd::prelude::*;
use crate::text::{opt_str, opt_view, owned, str_eq};

verus! {

/// A value in the arguments of a tool call. The tools read texts and flags only.
#[derive(Debug)]
pub enum JsonField {
    Text(String),
    Flag(bool),
    Other,
}

/// What a [`JsonField`] holds.
pub enum JsonFieldView {
    Text(Seq<char>),
    Flag(bool),
    Other,
}

impl View for JsonField {
    type V = JsonFieldView;

    open spec fn view(&self) -> JsonFieldView {
        match self {
            JsonField::Text(s) => JsonFieldView::Text(s@),
            JsonField::Flag(b) => JsonFieldView::Flag(*b),
            JsonField::Other => JsonFieldView::Other,
        }
    }
}

/// The named values of a JSON object.
pub type FieldsView = Seq<(Seq<char>, JsonFieldView)>;

/// The views of a list of named values.
pub open spec fn fields_view(fields: Seq<(String, JsonField)>) -> FieldsView {
    fields.map_values(|f: (String, JsonField)| (f.0@, f.1@))
}

/// The first value with the name `key`.
pub open spec fn field_of(fields: FieldsView, key: Seq<char>) -> Option<JsonFieldView>
    decreases fields.len(),
{
    if fields.len() == 0 {
        None
    } else if fields[0].0 == key {
        Some(fields[0].1)
    } else {
        field_of(fields.drop_first(), key)
    }
}

/// The text with the name `key`, where there is one.
pub open spec fn text_field(fields: FieldsView, key: Seq<char>) -> Option<Seq<char>> {
    match field_of(fields, key) {
        Some(JsonFieldView::Text(s)) => Some(s),
        _ => None,
    }
}

/// The flag with the name `key`, where there is one.
pub open spec fn flag_field(fields: FieldsView, key: Seq<char>) -> Option<bool> {
    match field_of(fields, key) {
        Some(JsonFieldView::Flag(b)) => Some(b),
        _ => None,
    }
}

/// The first value with the name `key`.
fn find_field<'a>(fields: &'a Vec<(String, JsonField)>, key: &str) -> (r: Option<&'a JsonField>)
    ensures
        r is Some <==> field_of(fields_view(fields@), key@) is Some,
        r matches Some(f) ==> field_of(fields_view(fields@), key@) == Some(f@),
{
    let ghost all = fields_view(fields@);
    let mut i: usize = 0;
    assert(all.skip(0) =~= all);
    while i < fields.len()
        invariant
            i <= fields.len(),
            all == fields_view(fields@),
            field_of(all, key@) == field_of(all.skip(i as int), key@),
        decreases fields.len() - i,
    {
        let f = &fields[i];
        let ghost rest = all.skip(i as int);
        assert(rest[0] == (f.0@, f.1@));
        if str_eq(f.0.as_str(), key) {
            return Some(&f.1);
        }
        assert(rest.drop_first() =~= all.skip(i + 1));
        i = i + 1;
    }
    None
}

/// The text with the name `key`, where there is one.
pub fn get_text<'a>(fields: &'a Vec<(String, JsonField)>, key: &str) -> (r: Option<&'a str>)
    ensures
        opt_str(r) == text_field(fields_view(fields@), key@),
{
    match find_field(fields, key) {
        Some(JsonField::Text(s)) => Some(s.as_str()),
        _ => None,
    }
}

/// The flag with the name `key`, where there is one.
pub fn get_flag(fields: &Vec<(String, JsonField)>, key: &str) -> (r: Option<bool>)
    ensures
        r == flag_field(fields_view(fields@), key@),
{
    match find_field(fields, key) {
        Some(JsonField::Flag(b)) => Some(*b),
        _ => None,
    }
}

// ── Outside calls ─────────────────────────────────────────────────────────────

/// The named values of the JSON object that `raw` holds: empty where it holds another JSON value,
/// `None` where it holds no JSON.
pub uninterp spec fn json_object(raw: Seq<char>) -> Option<FieldsView>;

/// Reads `raw` with `serde_json::from_str`. The values of an object come out under their names;
/// of each, its text or its flag is kept. What the parser accepts is left to it.
#[verifier::external_body]
pub(crate) fn read_object(raw: &str) -> (r: Option<Vec<(String, JsonField)>>)
    ensures
        r is Some <==> json_object(raw@) is Some,
        r matches Some(fields) ==> json_object(raw@) == Some(fields_view(fields@)),
{
    match serde_json::from_str::<serde_json::Value>(raw) {
        Ok(serde_json::Value::Object(map)) => Some(map.into_iter().map(|(k, v)| (k, match v {
            serde_json::Value::String(s) => JsonField::Text(s),
            serde_json::Value::Bool(b) => JsonField::Flag(b),
            _ => JsonField::Other,
        })).collect()),
        Ok(_) => Some(Vec::new()),
        Err(_) => None,
    }
}

/// `raw` laid out over several lines, where it holds JSON.
pub uninterp spec fn json_pretty(raw: Seq<char>) -> Option<Seq<char>>;

/// Reads `raw` with `serde_json::from_str` and writes the value with
/// `serde_json::to_string_pretty`; `None` where either fails. How the value is laid out is left
/// to the writer.
#[verifier::external_body]
pub(crate) fn lay_out(raw: &str) -> (r: Option<String>)
    ensures
        opt_view(r) == json_pretty(raw@),
{
    let value = serde_json::from_str::<serde_json::Value>(raw).ok()?;
    serde_json::to_string_pretty(&value).ok()
}

// ── For display ───────────────────────────────────────────────────────────────

/// The arguments of a call for display: laid out where they are JSON, else as they came.
pub open spec fn shown_args(raw: Seq<char>, pretty: Option<Seq<char>>) -> Seq<char> {
    match pretty {
        Some(p) => p,
        None => raw,
    }
}

/// The arguments `raw` for display, where laying them out gave `pretty`.
pub fn pretty_or_raw(raw: &str, pretty: Option<String>) -> (r: String)
    ensures
        r@ == shown_args(raw@, opt_view(pretty)),
{
    match pretty {
        Some(p) => p,
        None => owned(raw),
    }
}

/// The arguments `raw` for display.
pub fn pretty_args(raw: &str) -> (r: String)
    ensures
        r@ == shown_args(raw@, json_pretty(raw@)),
{
    pretty_or_raw(raw, lay_out(raw))
}

} // verus!
