//! Cookies: a list loaded from a JSON array of `{"name": .., "value": ..}`
//! objects, sent as one `Cookie` header.

use vstd::prelude::*;
use crate::error::ConfigError;
use crate::json::{
    json_elements, json_parse, members_with_text, parse_value, text_member_models,
    text_members_of, value_elements, TextMember,
};
use crate::text::{join, join_text, same_text, texts};

verus! {

/// One cookie.
#[derive(Clone, Debug, PartialEq, Eq)]
pub struct Cookie {
    pub name: String,
    pub value: String,
}

impl View for Cookie {
    type V = (Seq<char>, Seq<char>);

    open spec fn view(&self) -> (Seq<char>, Seq<char>) {
        (self.name@, self.value@)
    }
}

/// A list of cookies, each by its name and value.
pub open spec fn cookie_models(cookies: Seq<Cookie>) -> Seq<(Seq<char>, Seq<char>)> {
    Seq::new(cookies.len(), |i: int| cookies[i]@)
}

/// One cookie as it stands in the header: `name=value`.
pub open spec fn cookie_pair(cookie: (Seq<char>, Seq<char>)) -> Seq<char> {
    cookie.0 + "="@ + cookie.1
}

/// The value of the `Cookie` header: the cookies as `name=value`, in the
/// order of the list, joined by `"; "`.
pub open spec fn cookie_line(cookies: Seq<(Seq<char>, Seq<char>)>) -> Seq<char> {
    join(Seq::new(cookies.len(), |i: int| cookie_pair(cookies[i])), "; "@)
}

/// The text that the last member named `key` holds; `None` where there is
/// no such member or it holds no string.
pub open spec fn member_text(members: Seq<(Seq<char>, Option<Seq<char>>)>, key: Seq<char>) -> Option<
    Seq<char>,
>
    decreases members.len(),
{
    if members.len() == 0 {
        None
    } else if members.last().0 == key {
        members.last().1
    } else {
        member_text(members.drop_last(), key)
    }
}

/// The cookie that a JSON value describes: an object with a string under
/// `name` and a string under `value`. Other members are ignored.
pub open spec fn cookie_of(item: serde_json::Value) -> Option<(Seq<char>, Seq<char>)> {
    match text_members_of(item) {
        Some(members) => match (member_text(members, "name"@), member_text(members, "value"@)) {
            (Some(name), Some(value)) => Some((name, value)),
            _ => None,
        },
        None => None,
    }
}

/// Whether every element describes a cookie.
pub open spec fn all_cookies(items: Seq<serde_json::Value>) -> bool {
    forall|i: int| 0 <= i < items.len() ==> cookie_of(#[trigger] items[i]) is Some
}

/// The cookies that a cookie document holds. A text that is no JSON is
/// malformed; a document that is no array, or has an element that
/// describes no cookie, is an invalid cookie document.
pub open spec fn cookies_of(text: Seq<char>) -> Result<Seq<(Seq<char>, Seq<char>)>, ConfigError> {
    match json_parse(text) {
        None => Err(ConfigError::MalformedJson),
        Some(document) => match json_elements(document) {
            None => Err(ConfigError::InvalidCookie),
            Some(items) => if all_cookies(items) {
                Ok(Seq::new(items.len(), |i: int| cookie_of(items[i])->0))
            } else {
                Err(ConfigError::InvalidCookie)
            },
        },
    }
}

/// The model of what `parse_cookies` returns.
pub open spec fn cookies_model(r: Result<Vec<Cookie>, ConfigError>) -> Result<
    Seq<(Seq<char>, Seq<char>)>,
    ConfigError,
> {
    match r {
        Ok(cookies) => Ok(cookie_models(cookies@)),
        Err(e) => Err(e),
    }
}

/// The text of the last member named `key`.
fn find_text(members: &Vec<TextMember>, key: &str) -> (found: Option<String>)
    ensures
        found is Some <==> member_text(text_member_models(members@), key@) is Some,
        found matches Some(s) ==> member_text(text_member_models(members@), key@) == Some(s@),
{
    let ghost all = text_member_models(members@);
    let mut found: Option<String> = None;
    let mut i: usize = 0;
    while i < members.len()
        invariant
            i <= members.len(),
            all == text_member_models(members@),
            found is Some <==> member_text(all.take(i as int), key@) is Some,
            found matches Some(s) ==> member_text(all.take(i as int), key@) == Some(s@),
        decreases members.len() - i,
    {
        proof {
            assert(all.take(i + 1).drop_last() =~= all.take(i as int));
            assert(all.take(i + 1).last() == all[i as int]);
        }
        if same_text(members[i].0.as_str(), key) {
            found = match &members[i].1 {
                Some(s) => Some(s.clone()),
                None => None,
            };
        }
        i += 1;
    }
    assert(all.take(members.len() as int) =~= all);
    found
}

/// The cookie that `item` describes.
fn cookie_from(item: &serde_json::Value) -> (cookie: Option<Cookie>)
    ensures
        cookie is Some <==> cookie_of(*item) is Some,
        cookie matches Some(c) ==> cookie_of(*item) == Some(c@),
{
    match members_with_text(item) {
        None => None,
        Some(members) => {
            let name = find_text(&members, "name");
            let value = find_text(&members, "value");
            match (name, value) {
                (Some(name), Some(value)) => Some(Cookie { name, value }),
                _ => None,
            }
        },
    }
}

/// Reads a cookie document: a JSON array of objects that each hold a
/// string `name` and a string `value`. The cookies keep the order of the
/// array.
pub fn parse_cookies(text: &str) -> (r: Result<Vec<Cookie>, ConfigError>)
    ensures
        cookies_model(r) == cookies_of(text@),
{
    let document = match parse_value(text) {
        Ok(d) => d,
        Err(_) => {
            return Err(ConfigError::MalformedJson);
        },
    };
    let items = match value_elements(&document) {
        Some(items) => items,
        None => {
            return Err(ConfigError::InvalidCookie);
        },
    };
    let mut cookies: Vec<Cookie> = Vec::new();
    let mut i: usize = 0;
    while i < items.len()
        invariant
            i <= items.len(),
            cookies.len() == i,
            json_parse(text@) == Some(document),
            json_elements(document) == Some(items@),
            forall|j: int| 0 <= j < i ==> cookie_of(#[trigger] items@[j]) == Some(cookies@[j]@),
        decreases items.len() - i,
    {
        match cookie_from(&items[i]) {
            Some(c) => {
                cookies.push(c);
            },
            None => {
                assert(!all_cookies(items@));
                return Err(ConfigError::InvalidCookie);
            },
        }
        i += 1;
    }
    assert(all_cookies(items@));
    assert(cookie_models(cookies@) =~= cookies_of(text@)->Ok_0);
    Ok(cookies)
}

/// What loading a cookie file gives: an error where the file could not be
/// read, else what its content holds.
pub open spec fn cookies_loaded(content: Option<&str>) -> Result<
    Seq<(Seq<char>, Seq<char>)>,
    ConfigError,
> {
    match content {
        Some(text) => cookies_of(text@),
        None => Err(ConfigError::UnreadableFile),
    }
}

/// Loads the cookies of a cookie file from what reading the file gave:
/// its content, or `None` where it could not be read.
pub fn load_cookies(content: Option<&str>) -> (r: Result<Vec<Cookie>, ConfigError>)
    ensures
        cookies_model(r) == cookies_loaded(content),
{
    match content {
        Some(text) => parse_cookies(text),
        None => Err(ConfigError::UnreadableFile),
    }
}

/// The value of the `Cookie` header for `cookies`.
pub fn cookie_header(cookies: &Vec<Cookie>) -> (line: String)
    ensures
        line@ == cookie_line(cookie_models(cookies@)),
{
    let mut pairs: Vec<String> = Vec::new();
    let mut i: usize = 0;
    while i < cookies.len()
        invariant
            i <= cookies.len(),
            pairs.len() == i,
            forall|j: int| 0 <= j < i ==> (#[trigger] pairs@[j])@ == cookie_pair(cookies@[j]@),
        decreases cookies.len() - i,
    {
        let mut pair = cookies[i].name.clone();
        pair.append("=");
        pair.append(cookies[i].value.as_str());
        pairs.push(pair);
        i += 1;
    }
    assert(texts(pairs@) =~= Seq::new(
        cookies@.len(),
        |i: int| cookie_pair(cookie_models(cookies@)[i]),
    ));
    join_text(&pairs, "; ")
}

} // verus!
