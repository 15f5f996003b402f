//! JSON, as far as this crate reads it. Parsing and printing are serde_json's;
//! a parsed document is carried as serde_json's own value and read through
//! the few questions below. What serde_json answers is given a name each, so
//! that the functions built on the answers can say exactly what they return.

use vstd::prelude::*;
use crate::error::ConfigError;

verus! {

#[verifier::external_type_specification]
#[verifier::external_body]
pub struct ExJsonValue(serde_json::Value);

#[verifier::external_type_specification]
#[verifier::external_body]
pub struct ExJsonError(serde_json::Error);

/// The document that `serde_json::from_str` reads from `text`; `None` where
/// it reports an error.
pub uninterp spec fn json_parse(text: Seq<char>) -> Option<serde_json::Value>;

/// The string that `serde_json::Value::as_str` finds in `value`; `None` where
/// the value is not a JSON string.
pub uninterp spec fn json_text(value: serde_json::Value) -> Option<Seq<char>>;

/// The members of `value`, each a key with its value, in the order in which
/// the map of `serde_json::Value::as_object` hands them out; `None` where the
/// value is not a JSON object.
pub uninterp spec fn json_members(value: serde_json::Value) -> Option<
    Seq<(Seq<char>, serde_json::Value)>,
>;

/// The elements of `value`, in order, as `serde_json::Value::as_array` holds
/// them; `None` where the value is not a JSON array.
pub uninterp spec fn json_elements(value: serde_json::Value) -> Option<Seq<serde_json::Value>>;

/// What `serde_json::to_string_pretty` writes for `value`; `None` where it
/// reports an error.
pub uninterp spec fn json_pretty(value: serde_json::Value) -> Option<Seq<char>>;

/// The members of an object as they reach verified code: the key by its
/// characters, the value as it is.
pub open spec fn member_models(members: Seq<(String, serde_json::Value)>) -> Seq<
    (Seq<char>, serde_json::Value),
> {
    Seq::new(members.len(), |i: int| (members[i].0@, members[i].1))
}

/// Calls `serde_json::from_str` for a `Value`. Trusted: the result is the
/// document named by `json_parse`, and an error exactly where that is `None`.
#[verifier::external_body]
pub(crate) fn parse_value(text: &str) -> (r: Result<serde_json::Value, serde_json::Error>)
    ensures
        r is Ok <==> json_parse(text@) is Some,
        r matches Ok(v) ==> json_parse(text@) == Some(v),
{
    serde_json::from_str::<serde_json::Value>(text)
}

/// Calls `serde_json::Value::as_str` and copies the string. Trusted: the
/// result is the string named by `json_text`.
#[verifier::external_body]
pub(crate) fn value_text(value: &serde_json::Value) -> (r: Option<String>)
    ensures
        r is Some <==> json_text(*value) is Some,
        r matches Some(s) ==> json_text(*value) == Some(s@),
{
    value.as_str().map(String::from)
}

/// Calls `serde_json::Value::as_object` and copies the members out of the
/// map in its iteration order. Trusted: the result is the sequence named by
/// `json_members`.
#[verifier::external_body]
pub(crate) fn value_members(value: &serde_json::Value) -> (r: Option<
    Vec<(String, serde_json::Value)>,
>)
    ensures
        r is Some <==> json_members(*value) is Some,
        r matches Some(m) ==> json_members(*value) == Some(member_models(m@)),
{
    value.as_object().map(|m| m.iter().map(|(k, v)| (k.clone(), v.clone())).collect())
}

/// Calls `serde_json::Value::as_array` and copies the elements. Trusted: the
/// result is the sequence named by `json_elements`.
#[verifier::external_body]
pub(crate) fn value_elements(value: &serde_json::Value) -> (r: Option<Vec<serde_json::Value>>)
    ensures
        r is Some <==> json_elements(*value) is Some,
        r matches Some(items) ==> json_elements(*value) == Some(items@),
{
    value.as_array().cloned()
}

/// Calls `serde_json::to_string_pretty`. Trusted: the result is the text
/// named by `json_pretty`, and an error exactly where that is `None`.
#[verifier::external_body]
pub(crate) fn value_pretty(value: &serde_json::Value) -> (r: Result<String, serde_json::Error>)
    ensures
        r is Ok <==> json_pretty(*value) is Some,
        r matches Ok(s) ==> json_pretty(*value) == Some(s@),
{
    serde_json::to_string_pretty(value)
}

/// The pretty-printed form of `text`, where `text` is a JSON document.
pub open spec fn pretty_of(text: Seq<char>) -> Option<Seq<char>> {
    match json_parse(text) {
        Some(v) => json_pretty(v),
        None => None,
    }
}

/// A member of an object with the string it holds, if it holds one.
pub type TextMember = (String, Option<String>);

/// The members of a document with, for each, the string that its value is.
pub open spec fn text_members_of(value: serde_json::Value) -> Option<
    Seq<(Seq<char>, Option<Seq<char>>)>,
> {
    match json_members(value) {
        Some(m) => Some(Seq::new(m.len(), |i: int| (m[i].0, json_text(m[i].1)))),
        None => None,
    }
}

/// What `object_members` returns for `text`: an error where `text` is no
/// JSON, `None` where it is JSON but no object, else the object's members.
pub open spec fn object_members_of(text: Seq<char>) -> Result<
    Option<Seq<(Seq<char>, Option<Seq<char>>)>>,
    ConfigError,
> {
    match json_parse(text) {
        Some(v) => Ok(text_members_of(v)),
        None => Err(ConfigError::MalformedJson),
    }
}

/// The model of a list of members.
pub open spec fn text_member_models(members: Seq<TextMember>) -> Seq<
    (Seq<char>, Option<Seq<char>>),
> {
    Seq::new(
        members.len(),
        |i: int|
            (
                members[i].0@,
                match members[i].1 {
                    Some(s) => Some(s@),
                    None => None,
                },
            ),
    )
}

/// The model of what `object_members` returns.
pub open spec fn object_members_model(r: Result<Option<Vec<TextMember>>, ConfigError>) -> Result<
    Option<Seq<(Seq<char>, Option<Seq<char>>)>>,
    ConfigError,
> {
    match r {
        Ok(Some(m)) => Ok(Some(text_member_models(m@))),
        Ok(None) => Ok(None),
        Err(e) => Err(e),
    }
}

/// Pretty-prints `text` if it is a JSON document.
pub fn pretty_json(text: &str) -> (r: Option<String>)
    ensures
        r is Some <==> pretty_of(text@) is Some,
        r matches Some(s) ==> pretty_of(text@) == Some(s@),
{
    match parse_value(text) {
        Ok(v) => match value_pretty(&v) {
            Ok(s) => Some(s),
            Err(_) => None,
        },
        Err(_) => None,
    }
}

/// The members of a parsed document with the strings they hold.
pub(crate) fn members_with_text(value: &serde_json::Value) -> (r: Option<Vec<TextMember>>)
    ensures
        r is Some <==> text_members_of(*value) is Some,
        r matches Some(m) ==> text_members_of(*value) == Some(text_member_models(m@)),
{
    match value_members(value) {
        None => None,
        Some(members) => {
            let ghost named = json_members(*value)->0;
            let mut out: Vec<TextMember> = Vec::new();
            let mut i: usize = 0;
            while i < members.len()
                invariant
                    i <= members.len(),
                    named == member_models(members@),
                    out.len() == i,
                    forall|j: int|
                        0 <= j < i ==> #[trigger] text_member_models(out@)[j] == (
                            named[j].0,
                            json_text(named[j].1),
                        ),
                decreases members.len() - i,
            {
                let key = members[i].0.clone();
                let text = value_text(&members[i].1);
                let ghost before = out@;
                out.push((key, text));
                proof {
                    assert forall|j: int| 0 <= j < i + 1 implies #[trigger] text_member_models(
                        out@,
                    )[j] == (named[j].0, json_text(named[j].1)) by {
                        if j < i {
                            assert(text_member_models(before)[j] == (
                                named[j].0,
                                json_text(named[j].1),
                            ));
                            assert(out@[j] == before[j]);
                        } else {
                            assert(named[j] == (members@[j].0@, members@[j].1));
                        }
                    }
                }
                i += 1;
            }
            assert(text_members_of(*value)->0 =~= text_member_models(out@));
            Some(out)
        },
    }
}

/// Reads `text` as JSON and, where it is an object, lists its members with
/// the strings they hold. A member whose value is no string keeps its key
/// and has `None` for its text.
pub fn object_members(text: &str) -> (r: Result<Option<Vec<TextMember>>, ConfigError>)
    ensures
        object_members_model(r) == object_members_of(text@),
{
    match parse_value(text) {
        Ok(v) => Ok(members_with_text(&v)),
        Err(_) => Err(ConfigError::MalformedJson),
    }
}

} // verus!
