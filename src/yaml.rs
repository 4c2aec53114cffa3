//! Reading business fields out of a YAML configuration: serde_yaml looks the
//! keys up, the rules on which kinds of value a field accepts are here.
use vstd::prelude::*;

verus! {

#[verifier::external_type_specification]
#[verifier::external_body]
pub struct ExYamlMapping(serde_yaml::Mapping);

#[verifier::external_type_specification]
#[verifier::external_body]
pub struct ExYamlValue(serde_yaml::Value);

/// What a configuration holds under a key, as far as the fields care.
pub enum YamlField {
    /// The key is absent.
    Missing,
    /// A string.
    Text(String),
    /// A number, in the text serde_yaml displays for it.
    Number(String),
    /// A sequence of values.
    List(Vec<serde_yaml::Value>),
    /// Anything else: null, a boolean, a mapping, a tagged value.
    Other,
}

/// Relies on `serde_yaml::Mapping::get` with a string key, and on the
/// `Display` of `serde_yaml::Number` for numbers.
#[verifier::external_body]
pub(crate) fn yaml_get(map: &serde_yaml::Mapping, key: &str) -> (r: YamlField) {
    match map.get(key) {
        None => YamlField::Missing,
        Some(serde_yaml::Value::String(s)) => YamlField::Text(s.clone()),
        Some(serde_yaml::Value::Number(n)) => YamlField::Number(format!("{}", n)),
        Some(serde_yaml::Value::Sequence(items)) => YamlField::List(items.clone()),
        Some(_) => YamlField::Other,
    }
}

/// Relies on the variants of `serde_yaml::Value`: the mapping inside a
/// mapping value.
#[verifier::external_body]
pub(crate) fn yaml_as_mapping(v: serde_yaml::Value) -> (r: Option<serde_yaml::Mapping>) {
    match v {
        serde_yaml::Value::Mapping(m) => Some(m),
        _ => None,
    }
}

/// The text of a field that takes a string or a number.
pub open spec fn text_value(f: YamlField) -> Option<Seq<char>> {
    match f {
        YamlField::Text(s) => Some(s@),
        YamlField::Number(s) => Some(s@),
        _ => None,
    }
}

/// The text of a field that takes a string only.
pub open spec fn string_value(f: YamlField) -> Option<Seq<char>> {
    match f {
        YamlField::Text(s) => Some(s@),
        _ => None,
    }
}

/// An optional field is absent, a string or a number.
pub open spec fn optional_accepts(f: YamlField) -> bool {
    f is Missing || f is Text || f is Number
}

/// The message for a field that is missing or of the wrong kind.
pub open spec fn bad_field_message(key: Seq<char>) -> Seq<char> {
    "bad yaml input: "@ + key
}

pub fn bad_field(key: &str) -> (r: String)
    ensures
        r@ == bad_field_message(key@),
{
    let mut r = String::from_str("bad yaml input: ");
    r.append(key);
    r
}

/// A required field that may be a string or a number.
pub fn text_field(field: YamlField, key: &str) -> (r: Result<String, String>)
    ensures
        field matches YamlField::Text(s) ==> r == Ok::<String, String>(s),
        field matches YamlField::Number(s) ==> r == Ok::<String, String>(s),
        !(field is Text || field is Number) ==> (r matches Err(e) && e@ == bad_field_message(key@)),
{
    match field {
        YamlField::Text(s) => Ok(s),
        YamlField::Number(s) => Ok(s),
        _ => Err(bad_field(key)),
    }
}

/// A required field that must be a string.
pub fn string_field(field: YamlField, key: &str) -> (r: Result<String, String>)
    ensures
        field matches YamlField::Text(s) ==> r == Ok::<String, String>(s),
        !(field is Text) ==> (r matches Err(e) && e@ == bad_field_message(key@)),
{
    match field {
        YamlField::Text(s) => Ok(s),
        _ => Err(bad_field(key)),
    }
}

/// An optional field that may be a string or a number.
pub fn optional_text_field(field: YamlField, key: &str) -> (r: Result<Option<String>, String>)
    ensures
        field is Missing ==> r == Ok::<Option<String>, String>(None),
        field matches YamlField::Text(s) ==> r == Ok::<Option<String>, String>(Some(s)),
        field matches YamlField::Number(s) ==> r == Ok::<Option<String>, String>(Some(s)),
        !(field is Missing || field is Text || field is Number) ==> (r matches Err(e) && e@
            == bad_field_message(key@)),
{
    match field {
        YamlField::Missing => Ok(None),
        YamlField::Text(s) => Ok(Some(s)),
        YamlField::Number(s) => Ok(Some(s)),
        _ => Err(bad_field(key)),
    }
}

/// A required field that must be a sequence.
pub fn list_field(field: YamlField, key: &str) -> (r: Result<Vec<serde_yaml::Value>, String>)
    ensures
        field matches YamlField::List(v) ==> r == Ok::<Vec<serde_yaml::Value>, String>(v),
        !(field is List) ==> (r matches Err(e) && e@ == bad_field_message(key@)),
{
    match field {
        YamlField::List(v) => Ok(v),
        _ => Err(bad_field(key)),
    }
}

} // verus!
