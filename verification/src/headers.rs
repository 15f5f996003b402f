//! The header set of a request: names with their values, in order, no name
//! twice. Names are kept as written and compared letter for letter. Whether
//! a name or a value is syntactically valid is decided by the HTTP library.

use vstd::prelude::*;
use std::str::FromStr;
use crate::error::ConfigError;
use crate::text::{copy_pairs, pair_texts, same_text};

verus! {

/// A character that a header name may hold: a letter, a digit, or one of
/// the marks ``!#$%&'*+-.^_`|~``.
pub open spec fn is_token_char(c: char) -> bool {
    ||| 'a' <= c <= 'z'
    ||| 'A' <= c <= 'Z'
    ||| '0' <= c <= '9'
    ||| c == '!'
    ||| c == '#'
    ||| c == '$'
    ||| c == '%'
    ||| c == '&'
    ||| c == '\''
    ||| c == '*'
    ||| c == '+'
    ||| c == '-'
    ||| c == '.'
    ||| c == '^'
    ||| c == '_'
    ||| c == '`'
    ||| c == '|'
    ||| c == '~'
}

/// A valid header name: between 1 and 65535 characters, all of them token
/// characters.
pub open spec fn valid_header_name(name: Seq<char>) -> bool {
    &&& 1 <= name.len() <= 65535
    &&& forall|i: int| 0 <= i < name.len() ==> is_token_char(#[trigger] name[i])
}

/// A character that a header value may hold: the tab, or anything that is
/// neither a control character nor the delete character.
pub open spec fn is_value_char(c: char) -> bool {
    c == '\t' || (' ' <= c && c != '\x7f')
}

/// A valid header value: every character is one that a value may hold.
pub open spec fn valid_header_value(value: Seq<char>) -> bool {
    forall|i: int| 0 <= i < value.len() ==> is_value_char(#[trigger] value[i])
}

/// Asks `HeaderName::from_str` of the `http` crate, as `reqwest::header`
/// hands it on, whether it accepts `name`. Trusted: it accepts a name of 1 to
/// 65535 bytes each of which its table of header characters maps to a
/// non-zero byte, and those are the token characters.
#[verifier::external_body]
pub(crate) fn header_name_accepted(name: &str) -> (ok: bool)
    ensures
        ok == valid_header_name(name@),
{
    reqwest::header::HeaderName::from_str(name).is_ok()
}

/// Asks `HeaderValue::from_str` of the `http` crate, as `reqwest::header`
/// hands it on, whether it accepts `value`. Trusted: it rejects a text
/// exactly if one of its bytes is below 32 and not the tab, or is 127; the
/// bytes of a character beyond ASCII are all above 127.
#[verifier::external_body]
pub(crate) fn header_value_accepted(value: &str) -> (ok: bool)
    ensures
        ok == valid_header_value(value@),
{
    reqwest::header::HeaderValue::from_str(value).is_ok()
}

/// Whether some entry of `list` has the name `name`.
pub open spec fn has_name(list: Seq<(Seq<char>, Seq<char>)>, name: Seq<char>) -> bool {
    exists|i: int| 0 <= i < list.len() && (#[trigger] list[i]).0 == name
}

/// The value of the last entry of `list` named `name`.
pub open spec fn lookup(list: Seq<(Seq<char>, Seq<char>)>, name: Seq<char>) -> Option<Seq<char>>
    decreases list.len(),
{
    if list.len() == 0 {
        None
    } else if list.last().0 == name {
        Some(list.last().1)
    } else {
        lookup(list.drop_last(), name)
    }
}

/// No name occurs twice.
pub open spec fn distinct_names(list: Seq<(Seq<char>, Seq<char>)>) -> bool {
    forall|i: int, j: int|
        0 <= i < j < list.len() ==> (#[trigger] list[i]).0 != (#[trigger] list[j]).0
}

/// Every name and every value is valid.
pub open spec fn all_valid(list: Seq<(Seq<char>, Seq<char>)>) -> bool {
    forall|i: int|
        0 <= i < list.len() ==> valid_header_name((#[trigger] list[i]).0) && valid_header_value(
            list[i].1,
        )
}

/// What a header set is: valid names and values, no name twice.
pub open spec fn well_formed(list: Seq<(Seq<char>, Seq<char>)>) -> bool {
    distinct_names(list) && all_valid(list)
}

/// `list` with `name` set to `value`: in place of the old value where the
/// name is present, at the end where it is not.
pub open spec fn put(list: Seq<(Seq<char>, Seq<char>)>, name: Seq<char>, value: Seq<char>) -> Seq<
    (Seq<char>, Seq<char>),
> {
    if has_name(list, name) {
        Seq::new(
            list.len(),
            |i: int|
                if list[i].0 == name {
                    (name, value)
                } else {
                    list[i]
                },
        )
    } else {
        list.push((name, value))
    }
}

/// `list` with every pair of `pairs` put into it, first to last.
pub open spec fn put_all(list: Seq<(Seq<char>, Seq<char>)>, pairs: Seq<(Seq<char>, Seq<char>)>) -> Seq<
    (Seq<char>, Seq<char>),
>
    decreases pairs.len(),
{
    if pairs.len() == 0 {
        list
    } else {
        put(put_all(list, pairs.drop_last()), pairs.last().0, pairs.last().1)
    }
}

/// `list` without the entries named `name`.
pub open spec fn without(list: Seq<(Seq<char>, Seq<char>)>, name: Seq<char>) -> Seq<
    (Seq<char>, Seq<char>),
>
    decreases list.len(),
{
    if list.len() == 0 {
        list
    } else if list.last().0 == name {
        without(list.drop_last(), name)
    } else {
        without(list.drop_last(), name).push(list.last())
    }
}

/// A name is present exactly if it has a value.
pub proof fn lemma_lookup_some_iff_has_name(list: Seq<(Seq<char>, Seq<char>)>, name: Seq<char>)
    ensures
        lookup(list, name) is Some <==> has_name(list, name),
    decreases list.len(),
{
    if list.len() > 0 {
        let front = list.drop_last();
        lemma_lookup_some_iff_has_name(front, name);
        if list.last().0 == name {
            assert(list[list.len() - 1].0 == name);
        } else {
            if has_name(front, name) {
                let i = choose|i: int| 0 <= i < front.len() && (#[trigger] front[i]).0 == name;
                assert(list[i].0 == name);
            }
            if has_name(list, name) {
                let i = choose|i: int| 0 <= i < list.len() && (#[trigger] list[i]).0 == name;
                assert(front[i].0 == name);
            }
        }
    }
}

/// Where no name occurs twice, an entry is in the list exactly if looking
/// its name up gives its value.
pub proof fn lemma_lookup_finds_entry(
    list: Seq<(Seq<char>, Seq<char>)>,
    name: Seq<char>,
    value: Seq<char>,
)
    requires
        distinct_names(list),
    ensures
        lookup(list, name) == Some(value) <==> list.contains((name, value)),
    decreases list.len(),
{
    if list.len() > 0 {
        let front = list.drop_last();
        let n = list.len() - 1;
        assert forall|i: int, j: int| 0 <= i < j < front.len() implies (#[trigger] front[i]).0 != (
        #[trigger] front[j]).0 by {
            assert(list[i].0 != list[j].0);
        }
        lemma_lookup_finds_entry(front, name, value);
        if list.contains((name, value)) {
            let i = choose|i: int| 0 <= i < list.len() && list[i] == (name, value);
            if i < n {
                assert(front[i] == (name, value));
                assert(list[i].0 != list[n].0);
            }
        }
        if lookup(list, name) == Some(value) {
            if list.last().0 == name {
                assert(list[n] == (name, value));
            } else {
                let i = choose|i: int| 0 <= i < front.len() && front[i] == (name, value);
                assert(list[i] == (name, value));
            }
        }
    }
}

/// Putting keeps a header set a header set, sets the name put, and leaves
/// every other name as it was.
pub proof fn lemma_put(list: Seq<(Seq<char>, Seq<char>)>, name: Seq<char>, value: Seq<char>)
    requires
        distinct_names(list),
    ensures
        distinct_names(put(list, name, value)),
        lookup(put(list, name, value), name) == Some(value),
        forall|other: Seq<char>|
            other != name ==> lookup(put(list, name, value), other) == lookup(list, other),
        all_valid(list) && valid_header_name(name) && valid_header_value(value) ==> all_valid(
            put(list, name, value),
        ),
{
    let after = put(list, name, value);
    if has_name(list, name) {
        let k = choose|i: int| 0 <= i < list.len() && (#[trigger] list[i]).0 == name;
        assert forall|i: int| 0 <= i < after.len() implies (#[trigger] after[i]).0 == list[i].0 by {}
        assert forall|i: int, j: int| 0 <= i < j < after.len() implies (#[trigger] after[i]).0 != (
        #[trigger] after[j]).0 by {
            assert(list[i].0 != list[j].0);
        }
        assert(after[k] == (name, value));
        assert(after.contains((name, value)));
        lemma_lookup_finds_entry(after, name, value);
        assert forall|other: Seq<char>| other != name implies lookup(after, other) == lookup(
            list,
            other,
        ) by {
            lemma_same_lookup_elsewhere(list, after, name, other);
        }
        if all_valid(list) && valid_header_name(name) && valid_header_value(value) {
            assert forall|i: int| 0 <= i < after.len() implies valid_header_name(
                (#[trigger] after[i]).0,
            ) && valid_header_value(after[i].1) by {
                assert(valid_header_name(list[i].0) && valid_header_value(list[i].1));
            }
        }
    } else {
        assert forall|i: int, j: int| 0 <= i < j < after.len() implies (#[trigger] after[i]).0 != (
        #[trigger] after[j]).0 by {
            if j < list.len() {
                assert(list[i].0 != list[j].0);
            } else {
                assert(list[i].0 != name);
            }
        }
        assert(after.drop_last() =~= list);
        if all_valid(list) && valid_header_name(name) && valid_header_value(value) {
            assert forall|i: int| 0 <= i < after.len() implies valid_header_name(
                (#[trigger] after[i]).0,
            ) && valid_header_value(after[i].1) by {
                if i < list.len() {
                    assert(valid_header_name(list[i].0) && valid_header_value(list[i].1));
                }
            }
        }
    }
}

/// Two lists of one length that differ only in entries named `name` give
/// every other name the same value.
proof fn lemma_same_lookup_elsewhere(
    a: Seq<(Seq<char>, Seq<char>)>,
    b: Seq<(Seq<char>, Seq<char>)>,
    name: Seq<char>,
    other: Seq<char>,
)
    requires
        a.len() == b.len(),
        other != name,
        forall|i: int| 0 <= i < a.len() ==> (#[trigger] a[i]).0 == b[i].0,
        forall|i: int| 0 <= i < a.len() && (#[trigger] a[i]).0 != name ==> a[i] == b[i],
    ensures
        lookup(a, other) == lookup(b, other),
    decreases a.len(),
{
    if a.len() > 0 {
        let n = a.len() - 1;
        assert(a[n].0 == b[n].0);
        assert forall|i: int| 0 <= i < a.drop_last().len() implies (#[trigger] a.drop_last()[i]).0
            == b.drop_last()[i].0 by {
            assert(a[i].0 == b[i].0);
        }
        assert forall|i: int| 0 <= i < a.drop_last().len() && (#[trigger] a.drop_last()[i]).0
            != name implies a.drop_last()[i] == b.drop_last()[i] by {
            assert(a[i].0 != name ==> a[i] == b[i]);
        }
        lemma_same_lookup_elsewhere(a.drop_last(), b.drop_last(), name, other);
        if a[n].0 == other {
            assert(a[n].0 != name ==> a[n] == b[n]);
        }
    }
}

/// Putting a list of pairs into a header set keeps it a header set; each
/// name of the pairs then has the value of its last pair, and every other
/// name the value it had.
pub proof fn lemma_put_all(list: Seq<(Seq<char>, Seq<char>)>, pairs: Seq<(Seq<char>, Seq<char>)>)
    requires
        distinct_names(list),
    ensures
        distinct_names(put_all(list, pairs)),
        forall|name: Seq<char>| #[trigger]
            lookup(put_all(list, pairs), name) == match lookup(pairs, name) {
                Some(v) => Some(v),
                None => lookup(list, name),
            },
        all_valid(list) && all_valid(pairs) ==> all_valid(put_all(list, pairs)),
    decreases pairs.len(),
{
    if pairs.len() > 0 {
        let front = pairs.drop_last();
        let last = pairs.last();
        lemma_put_all(list, front);
        lemma_put(put_all(list, front), last.0, last.1);
        assert forall|name: Seq<char>| #[trigger]
            lookup(put_all(list, pairs), name) == match lookup(pairs, name) {
                Some(v) => Some(v),
                None => lookup(list, name),
            } by {
            if name != last.0 {
                assert(lookup(put_all(list, pairs), name) == lookup(put_all(list, front), name));
                assert(lookup(pairs, name) == lookup(front, name));
            }
        }
        if all_valid(list) && all_valid(pairs) {
            assert forall|i: int| 0 <= i < front.len() implies valid_header_name(
                (#[trigger] front[i]).0,
            ) && valid_header_value(front[i].1) by {
                assert(valid_header_name(pairs[i].0) && valid_header_value(pairs[i].1));
            }
            assert(valid_header_name(pairs[pairs.len() - 1].0) && valid_header_value(
                pairs[pairs.len() - 1].1,
            ));
        }
    }
}

/// Removing a name keeps a header set a header set, leaves the name
/// without a value and every other name as it was.
pub proof fn lemma_without(list: Seq<(Seq<char>, Seq<char>)>, name: Seq<char>)
    ensures
        lookup(without(list, name), name) is None,
        forall|other: Seq<char>|
            other != name ==> lookup(without(list, name), other) == lookup(list, other),
        forall|i: int|
            0 <= i < without(list, name).len() ==> list.contains(#[trigger] without(list, name)[i]),
        distinct_names(list) ==> distinct_names(without(list, name)),
        all_valid(list) ==> all_valid(without(list, name)),
        !has_name(list, name) ==> without(list, name) == list,
    decreases list.len(),
{
    if list.len() > 0 {
        let front = list.drop_last();
        let n = list.len() - 1;
        lemma_without(front, name);
        let rest = without(front, name);
        let after = without(list, name);
        assert forall|i: int| 0 <= i < after.len() implies list.contains(#[trigger] after[i]) by {
            if i < rest.len() {
                assert(front.contains(rest[i]));
                let k = choose|k: int| 0 <= k < front.len() && front[k] == rest[i];
                assert(list[k] == after[i]);
            } else {
                assert(after[i] == list[n]);
            }
        }
        if list.last().0 != name {
            assert(after.drop_last() =~= rest);
        }
        assert forall|other: Seq<char>| other != name implies lookup(after, other) == lookup(
            list,
            other,
        ) by {
            assert(lookup(rest, other) == lookup(front, other));
        }
        if distinct_names(list) {
            assert forall|i: int, j: int| 0 <= i < j < front.len() implies (#[trigger] front[i]).0
                != (#[trigger] front[j]).0 by {
                assert(list[i].0 != list[j].0);
            }
            assert forall|i: int, j: int| 0 <= i < j < after.len() implies (#[trigger] after[i]).0
                != (#[trigger] after[j]).0 by {
                if j < rest.len() {
                } else {
                    assert(front.contains(rest[i]));
                    let k = choose|k: int| 0 <= k < front.len() && front[k] == rest[i];
                    assert(list[k].0 != list[n].0);
                }
            }
        }
        if all_valid(list) {
            assert forall|i: int| 0 <= i < front.len() implies valid_header_name(
                (#[trigger] front[i]).0,
            ) && valid_header_value(front[i].1) by {
                assert(valid_header_name(list[i].0));
            }
            assert(valid_header_name(list[n].0) && valid_header_value(list[n].1));
        }
        if !has_name(list, name) {
            assert(list[n].0 != name);
            if has_name(front, name) {
                let k = choose|k: int| 0 <= k < front.len() && (#[trigger] front[k]).0 == name;
                assert(list[k].0 == name);
            }
            assert(after =~= list);
        }
    }
}

/// A header set: names with their values, in the order in which the names
/// were first put, no name twice, every name and value valid.
#[derive(Debug, PartialEq, Eq)]
pub struct HeaderSet {
    entries: Vec<(String, String)>,
}

impl View for HeaderSet {
    type V = Seq<(Seq<char>, Seq<char>)>;

    closed spec fn view(&self) -> Seq<(Seq<char>, Seq<char>)> {
        pair_texts(self.entries@)
    }
}

impl Clone for HeaderSet {
    fn clone(&self) -> (copy: HeaderSet)
        ensures
            copy@ == self@,
    {
        self.duplicate()
    }
}

impl HeaderSet {
    #[verifier::type_invariant]
    spec fn is_set(self) -> bool {
        well_formed(pair_texts(self.entries@))
    }

    /// The empty header set.
    pub fn new() -> (set: HeaderSet)
        ensures
            set@ == Seq::<(Seq<char>, Seq<char>)>::empty(),
    {
        let set = HeaderSet { entries: Vec::new() };
        assert(set@ =~= Seq::<(Seq<char>, Seq<char>)>::empty());
        set
    }

    /// The number of headers.
    pub fn len(&self) -> (n: usize)
        ensures
            n == self@.len(),
    {
        self.entries.len()
    }

    /// The headers as pairs of name and value, in order.
    pub fn to_pairs(&self) -> (pairs: Vec<(String, String)>)
        ensures
            pair_texts(pairs@) == self@,
            well_formed(self@),
    {
        proof {
            use_type_invariant(self);
        }
        copy_pairs(&self.entries)
    }

    /// A copy of this set.
    pub fn duplicate(&self) -> (copy: HeaderSet)
        ensures
            copy@ == self@,
    {
        proof {
            use_type_invariant(self);
        }
        HeaderSet { entries: copy_pairs(&self.entries) }
    }

    /// The position of the header named `name`, if there is one.
    fn position(&self, name: &str) -> (at: Option<usize>)
        ensures
            at is Some <==> has_name(self@, name@),
            at matches Some(i) ==> i < self@.len() && self@[i as int].0 == name@,
    {
        let mut i: usize = 0;
        while i < self.entries.len()
            invariant
                i <= self.entries.len(),
                forall|j: int| 0 <= j < i ==> (#[trigger] self@[j]).0 != name@,
            decreases self.entries.len() - i,
        {
            if same_text(self.entries[i].0.as_str(), name) {
                assert(self@[i as int].0 == name@);
                return Some(i);
            }
            i += 1;
        }
        None
    }

    /// The value of the header named `name`.
    pub fn get(&self, name: &str) -> (value: Option<String>)
        ensures
            value is Some <==> lookup(self@, name@) is Some,
            value matches Some(v) ==> lookup(self@, name@) == Some(v@),
    {
        proof {
            use_type_invariant(self);
            lemma_lookup_some_iff_has_name(self@, name@);
        }
        match self.position(name) {
            Some(i) => {
                let v = self.entries[i].1.clone();
                proof {
                    assert(self@[i as int] == (name@, v@));
                    assert(self@.contains((name@, v@)));
                    lemma_lookup_finds_entry(self@, name@, v@);
                }
                Some(v)
            },
            None => None,
        }
    }

    /// Sets the header `name` to `value`: in place of its old value where the
    /// name is present, at the end where it is not. A name or a value that
    /// is not valid is refused, and the set stays as it was.
    pub fn put(&mut self, name: &str, value: &str) -> (r: Result<(), ConfigError>)
        ensures
            well_formed(old(self)@),
            well_formed(final(self)@),
            valid_header_name(name@) && valid_header_value(value@) ==> r is Ok && final(self)@
                == put(old(self)@, name@, value@),
            !(valid_header_name(name@) && valid_header_value(value@)) ==> r == Err::<
                (),
                ConfigError,
            >(ConfigError::InvalidHeader) && final(self)@ == old(self)@,
    {
        proof {
            use_type_invariant(&*self);
        }
        if !header_name_accepted(name) || !header_value_accepted(value) {
            return Err(ConfigError::InvalidHeader);
        }
        proof {
            lemma_put(self@, name@, value@);
        }
        match self.position(name) {
            Some(i) => {
                let ghost before = self@;
                let mut entries = copy_pairs(&self.entries);
                entries.set(i, (name.to_owned(), value.to_owned()));
                assert(pair_texts(entries@) =~= before.update(i as int, (name@, value@)));
                self.entries = entries;
                proof {
                    assert forall|j: int| 0 <= j < before.len() implies #[trigger] self@[j] == put(
                        before,
                        name@,
                        value@,
                    )[j] by {
                        if j != i {
                            assert(before[j].0 != before[i as int].0);
                        }
                    }
                    assert(self@ =~= put(before, name@, value@));
                }
            },
            None => {
                let ghost before = self@;
                let mut entries = copy_pairs(&self.entries);
                entries.push((name.to_owned(), value.to_owned()));
                assert(pair_texts(entries@) =~= put(before, name@, value@));
                self.entries = entries;
            },
        }
        Ok(())
    }

    /// Removes the header named `name`, if there is one.
    pub fn remove(&mut self, name: &str)
        ensures
            well_formed(old(self)@),
            well_formed(final(self)@),
            final(self)@ == without(old(self)@, name@),
    {
        proof {
            use_type_invariant(&*self);
            lemma_without(self@, name@);
        }
        let ghost before = self@;
        let mut kept: Vec<(String, String)> = Vec::new();
        let mut i: usize = 0;
        while i < self.entries.len()
            invariant
                i <= self.entries.len(),
                self@ == before,
                pair_texts(kept@) == without(before.take(i as int), name@),
            decreases self.entries.len() - i,
        {
            proof {
                assert(before.take(i + 1).drop_last() =~= before.take(i as int));
                assert(before.take(i + 1).last() == before[i as int]);
            }
            if !same_text(self.entries[i].0.as_str(), name) {
                let ghost kept_before = kept@;
                kept.push((self.entries[i].0.clone(), self.entries[i].1.clone()));
                assert(pair_texts(kept@) =~= pair_texts(kept_before).push(before[i as int]));
            }
            i += 1;
        }
        assert(before.take(before.len() as int) =~= before);
        self.entries = kept;
    }
}

} // verus!
