//! Form fields and the parts of a multipart body. A field is given as a
//! JSON member; whether its value is a file on disk is for the caller to
//! find out, and decides how the field is encoded.

use vstd::prelude::*;
use crate::error::ConfigError;
use crate::json::{object_members, object_members_of, text_member_models, TextMember};
use crate::text::{chars_of, pair_texts, text_between};

verus! {

/// One form field. `is_file` says that `value` is the path of an existing
/// file.
#[derive(Clone, Debug, PartialEq, Eq)]
pub struct FormField {
    pub name: String,
    pub value: String,
    pub is_file: bool,
}

pub struct FormFieldModel {
    pub name: Seq<char>,
    pub value: Seq<char>,
    pub is_file: bool,
}

impl View for FormField {
    type V = FormFieldModel;

    open spec fn view(&self) -> FormFieldModel {
        FormFieldModel { name: self.name@, value: self.value@, is_file: self.is_file }
    }
}

/// One part of a multipart body.
#[derive(Clone, Debug, PartialEq, Eq)]
pub enum FormPart {
    /// A text part.
    Text { name: String, value: String },
    /// A file part: the content is read from `path` when the request is
    /// sent, and goes out under `filename`.
    File { name: String, path: String, filename: String },
}

pub enum FormPartModel {
    Text { name: Seq<char>, value: Seq<char> },
    File { name: Seq<char>, path: Seq<char>, filename: Seq<char> },
}

impl View for FormPart {
    type V = FormPartModel;

    open spec fn view(&self) -> FormPartModel {
        match self {
            FormPart::Text { name, value } => FormPartModel::Text { name: name@, value: value@ },
            FormPart::File { name, path, filename } => FormPartModel::File {
                name: name@,
                path: path@,
                filename: filename@,
            },
        }
    }
}

/// A list of fields, each by its model.
pub open spec fn field_models(fields: Seq<FormField>) -> Seq<FormFieldModel> {
    Seq::new(fields.len(), |i: int| fields[i]@)
}

/// A list of parts, each by its model.
pub open spec fn part_models(parts: Seq<FormPart>) -> Seq<FormPartModel> {
    Seq::new(parts.len(), |i: int| parts[i]@)
}

/// Where the last component of `path` starts: behind the last `/`, or at
/// the start where there is none.
pub open spec fn name_start(path: Seq<char>) -> int
    decreases path.len(),
{
    if path.len() == 0 {
        0
    } else if path.last() == '/' {
        path.len() as int
    } else {
        name_start(path.drop_last())
    }
}

/// The last component of `path`: what follows its last `/`.
pub open spec fn basename(path: Seq<char>) -> Seq<char> {
    path.skip(name_start(path))
}

/// The basename holds no `/`, and what stands before it in the path is
/// empty or ends in `/`.
pub proof fn lemma_basename(path: Seq<char>)
    ensures
        0 <= name_start(path) <= path.len(),
        name_start(path) > 0 ==> path[name_start(path) - 1] == '/',
        forall|i: int| name_start(path) <= i < path.len() ==> path[i] != '/',
        forall|i: int| 0 <= i < basename(path).len() ==> basename(path)[i] != '/',
        path.take(name_start(path)) + basename(path) == path,
    decreases path.len(),
{
    if path.len() > 0 && path.last() != '/' {
        let front = path.drop_last();
        lemma_basename(front);
        assert forall|i: int| name_start(path) <= i < path.len() implies path[i] != '/' by {
            if i < front.len() {
                assert(front[i] != '/');
            }
        }
    }
    assert forall|i: int| 0 <= i < basename(path).len() implies basename(path)[i] != '/' by {
        assert(basename(path)[i] == path[name_start(path) + i]);
    }
    assert(path.take(name_start(path)) + basename(path) =~= path);
}

/// The last component of `path`.
pub fn basename_of(path: &str) -> (name: String)
    ensures
        name@ == basename(path@),
{
    let chars = chars_of(path);
    let mut start: usize = chars.len();
    assert(chars@.take(start as int) =~= chars@);
    while start > 0 && chars[start - 1] != '/'
        invariant
            start <= chars.len(),
            name_start(chars@) == name_start(chars@.take(start as int)),
        decreases start,
    {
        proof {
            assert(chars@.take(start as int).drop_last() =~= chars@.take(start - 1));
        }
        start -= 1;
    }
    proof {
        if start == 0 {
            assert(chars@.take(0).len() == 0);
        } else {
            assert(chars@.take(start as int).last() == '/');
        }
        assert(chars@.subrange(start as int, chars.len() as int) =~= chars@.skip(start as int));
    }
    text_between(&chars, start, chars.len())
}

/// How a field is encoded: as a file part under the basename of its path
/// where its value is an existing file, as a text part otherwise.
pub open spec fn part_of(field: FormFieldModel) -> FormPartModel {
    if field.is_file {
        FormPartModel::File {
            name: field.name,
            path: field.value,
            filename: basename(field.value),
        }
    } else {
        FormPartModel::Text { name: field.name, value: field.value }
    }
}

/// The parts of a multipart body for `fields`, in the order of the fields.
pub open spec fn parts_of(fields: Seq<FormFieldModel>) -> Seq<FormPartModel> {
    Seq::new(fields.len(), |i: int| part_of(fields[i]))
}

/// Encodes one field.
pub fn form_part(field: &FormField) -> (part: FormPart)
    ensures
        part@ == part_of(field@),
{
    if field.is_file {
        FormPart::File {
            name: field.name.clone(),
            path: field.value.clone(),
            filename: basename_of(field.value.as_str()),
        }
    } else {
        FormPart::Text { name: field.name.clone(), value: field.value.clone() }
    }
}

/// Encodes the fields of a form, in order.
pub fn form_parts(fields: &Vec<FormField>) -> (parts: Vec<FormPart>)
    ensures
        part_models(parts@) == parts_of(field_models(fields@)),
{
    let mut parts: Vec<FormPart> = Vec::new();
    let mut i: usize = 0;
    while i < fields.len()
        invariant
            i <= fields.len(),
            parts.len() == i,
            forall|j: int| 0 <= j < i ==> (#[trigger] parts@[j])@ == part_of(fields@[j]@),
        decreases fields.len() - i,
    {
        parts.push(form_part(&fields[i]));
        i += 1;
    }
    assert(part_models(parts@) =~= parts_of(field_models(fields@)));
    parts
}

/// The members that hold a string, with that string, in order.
pub open spec fn string_members(members: Seq<(Seq<char>, Option<Seq<char>>)>) -> Seq<
    (Seq<char>, Seq<char>),
>
    decreases members.len(),
{
    if members.len() == 0 {
        Seq::<(Seq<char>, Seq<char>)>::empty()
    } else {
        match members.last().1 {
            Some(text) => string_members(members.drop_last()).push((members.last().0, text)),
            None => string_members(members.drop_last()),
        }
    }
}

/// The fields that a form document gives: the members of the JSON object
/// whose values are strings, in the object's order. Members with other
/// values are left out, and a document that is no object gives no field.
pub open spec fn form_entries_of(text: Seq<char>) -> Result<Seq<(Seq<char>, Seq<char>)>, ConfigError> {
    match object_members_of(text) {
        Err(e) => Err(e),
        Ok(None) => Ok(Seq::<(Seq<char>, Seq<char>)>::empty()),
        Ok(Some(members)) => Ok(string_members(members)),
    }
}

/// The model of a list of pairs, or of the error in its place.
pub open spec fn pairs_model(r: Result<Vec<(String, String)>, ConfigError>) -> Result<
    Seq<(Seq<char>, Seq<char>)>,
    ConfigError,
> {
    match r {
        Ok(pairs) => Ok(pair_texts(pairs@)),
        Err(e) => Err(e),
    }
}

/// Reads a form document: name and value of every string member of the
/// JSON object.
pub fn form_entries(text: &str) -> (r: Result<Vec<(String, String)>, ConfigError>)
    ensures
        pairs_model(r) == form_entries_of(text@),
{
    let members: Vec<TextMember> = match object_members(text) {
        Err(e) => {
            return Err(e);
        },
        Ok(None) => {
            let none: Vec<(String, String)> = Vec::new();
            assert(pair_texts(none@) =~= Seq::<(Seq<char>, Seq<char>)>::empty());
            return Ok(none);
        },
        Ok(Some(members)) => members,
    };
    let ghost all = text_member_models(members@);
    let mut entries: Vec<(String, String)> = Vec::new();
    let mut i: usize = 0;
    assert(pair_texts(entries@) =~= string_members(all.take(0)));
    while i < members.len()
        invariant
            i <= members.len(),
            all == text_member_models(members@),
            pair_texts(entries@) == string_members(all.take(i as int)),
        decreases members.len() - i,
    {
        proof {
            assert(all.take(i + 1).drop_last() =~= all.take(i as int));
            assert(all.take(i + 1).last() == all[i as int]);
        }
        match &members[i].1 {
            Some(text) => {
                let ghost before = entries@;
                entries.push((members[i].0.clone(), text.clone()));
                assert(pair_texts(entries@) =~= pair_texts(before).push((members@[i as int].0@, text@)));
            },
            None => {},
        }
        i += 1;
    }
    assert(all.take(members.len() as int) =~= all);
    Ok(entries)
}

} // verus!
