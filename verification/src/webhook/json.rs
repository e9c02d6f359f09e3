//! The JSON objects that carry webhook payloads, built with `serde_json`.

use vstd::prelude::*;

verus! {

/// A JSON value held by a payload field: a string or an integer.
#[derive(Debug, Clone, PartialEq, Eq)]
pub enum JsonScalar {
    Str(String),
    Int(i64),
}

/// The view of a [`JsonScalar`].
pub enum JsonScalarView {
    Str(Seq<char>),
    Int(i64),
}

impl View for JsonScalar {
    type V = JsonScalarView;

    open spec fn view(&self) -> JsonScalarView {
        match self {
            JsonScalar::Str(s) => JsonScalarView::Str(s@),
            JsonScalar::Int(n) => JsonScalarView::Int(*n),
        }
    }
}

/// The view of a list of payload fields.
pub open spec fn fields_view(fields: Seq<(String, JsonScalar)>) -> Seq<(Seq<char>, JsonScalarView)> {
    fields.map_values(|f: (String, JsonScalar)| (f.0@, f.1@))
}

/// Declares `serde_json::Value` to the verifier; its values are carried, never inspected.
#[verifier::external_type_specification]
#[verifier::external_body]
pub struct ExJsonValue(serde_json::Value);

/// The JSON object that `serde_json` builds from a list of fields.
pub uninterp spec fn serde_json_object(fields: Seq<(Seq<char>, JsonScalarView)>) -> serde_json::Value;

/// The text `serde_json` writes for the JSON object built from a list of fields.
pub uninterp spec fn serde_json_object_text(fields: Seq<(Seq<char>, JsonScalarView)>) -> Seq<char>;

/// Builds a `serde_json::Value::Object` from the fields, each string becoming
/// a JSON string and each integer a JSON number. The contract says only that
/// the object depends on the fields alone.
#[verifier::external_body]
pub(crate) fn json_object(fields: &Vec<(String, JsonScalar)>) -> (res: serde_json::Value)
    ensures
        res == serde_json_object(fields_view(fields@)),
{
    serde_json::Value::Object(fields.iter().map(|(k, v)| (k.clone(), match v {
        JsonScalar::Str(s) => serde_json::Value::String(s.clone()),
        JsonScalar::Int(n) => serde_json::Value::from(*n),
    })).collect())
}

/// Writes the JSON object built from the fields as text with
/// `serde_json::Value::to_string`. The contract says only that the text
/// depends on the fields alone.
#[verifier::external_body]
pub(crate) fn json_object_text(fields: &Vec<(String, JsonScalar)>) -> (res: String)
    ensures
        res@ == serde_json_object_text(fields_view(fields@)),
{
    serde_json::Value::Object(fields.iter().map(|(k, v)| (k.clone(), match v {
        JsonScalar::Str(s) => serde_json::Value::String(s.clone()),
        JsonScalar::Int(n) => serde_json::Value::from(*n),
    })).collect()).to_string()
}

} // verus!
