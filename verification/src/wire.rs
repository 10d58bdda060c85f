//! The boundary to the `json` crate.
//!
//! A `JsonValue` is opaque to the verifier. What it holds is described by the
//! tree [`Json`], and every contract in this file says, over that tree, what
//! one function of the crate returns or changes. None of these contracts is
//! proved: each restates the behaviour of the function it names. Where a
//! function does not return on some input, its contract leaves that input
//! out, and the callers in this library test for it first.

use crate::text::fractions_within;
use json::JsonValue;
use vstd::prelude::*;

verus! {

/// `json::JsonValue`, a JSON value of any kind. Nothing of its inside is
/// known to the verifier.
#[verifier::external_type_specification]
#[verifier::external_body]
pub struct ExJsonValue(json::JsonValue);

/// `json::Error`, the reason for which a text was not parsed. It is only
/// handed through.
#[verifier::external_type_specification]
#[verifier::external_body]
pub struct ExJsonError(json::Error);

/// The three kinds of number that a JSON value can hold.
pub enum Sign {
    Positive,
    Negative,
    NotANumber,
}

/// A JSON value as a mathematical tree. A number is kept as its sign, its
/// decimal mantissa and its decimal exponent; an object as its entries in
/// the order in which they are printed.
pub enum Json {
    Null,
    Flag(bool),
    Number(Sign, u64, i16),
    Text(Seq<char>),
    List(Seq<Json>),
    Object(Seq<(Seq<char>, Json)>),
}

/// The value of the first entry under `key`, or `Null` where no entry has it.
pub open spec fn lookup(entries: Seq<(Seq<char>, Json)>, key: Seq<char>) -> Json
    decreases entries.len(),
{
    if entries.len() == 0 {
        Json::Null
    } else if entries[0].0 == key {
        entries[0].1
    } else {
        lookup(entries.drop_first(), key)
    }
}

/// Whether some entry stands under `key`.
pub open spec fn has_key(entries: Seq<(Seq<char>, Json)>, key: Seq<char>) -> bool {
    exists|i: int| 0 <= i < entries.len() && (#[trigger] entries[i]).0 == key
}

impl Json {
    /// What indexing by a key reads: the entry's value in an object that has
    /// the key, `Null` in every other case.
    pub open spec fn field(self, key: Seq<char>) -> Json {
        match self {
            Json::Object(entries) => lookup(entries, key),
            _ => Json::Null,
        }
    }

    /// The number of items of a list or of entries of an object; zero for
    /// any other value.
    pub open spec fn count(self) -> nat {
        match self {
            Json::List(items) => items.len(),
            Json::Object(entries) => entries.len(),
            _ => 0,
        }
    }

    /// What indexing by a position reads: the item of a list at a position
    /// within it, `Null` in every other case.
    pub open spec fn item(self, index: int) -> Json {
        match self {
            Json::List(items) => if 0 <= index < items.len() {
                items[index]
            } else {
                Json::Null
            },
            _ => Json::Null,
        }
    }

    /// The characters of a string value.
    pub open spec fn text(self) -> Option<Seq<char>> {
        match self {
            Json::Text(characters) => Some(characters),
            _ => None,
        }
    }

    /// The truth value of a boolean value.
    pub open spec fn flag(self) -> Option<bool> {
        match self {
            Json::Flag(flag) => Some(flag),
            _ => None,
        }
    }

    /// The value of a number that is positive in sign and has exponent zero.
    pub open spec fn natural(self) -> Option<u64> {
        match self {
            Json::Number(Sign::Positive, mantissa, 0) => Some(mantissa),
            _ => None,
        }
    }
}

/// Whether no value of the tree lies inside more than `levels` lists and
/// objects, the value itself counted where it is one.
pub open spec fn nests_within(tree: Json, levels: nat) -> bool
    decreases levels,
{
    match tree {
        Json::List(items) => levels > 0 && forall|i: int|
            0 <= i < items.len() ==> nests_within(#[trigger] items[i], (levels - 1) as nat),
        Json::Object(entries) => levels > 0 && forall|i: int|
            0 <= i < entries.len() ==> nests_within(
                (#[trigger] entries[i]).1,
                (levels - 1) as nat,
            ),
        _ => true,
    }
}

/// The tree that a `JsonValue` holds.
pub uninterp spec fn json_of(value: JsonValue) -> Json;

/// The tree that `json::parse` reads from a text, or `None` where it
/// rejects the text.
pub uninterp spec fn json_parsed(text: Seq<char>) -> Option<Json>;

/// The text that `JsonValue::pretty` prints for a tree at an indentation.
pub uninterp spec fn json_printed(tree: Json, spaces: u16) -> Seq<char>;

/// The most decimal digits that may follow a full stop directly in a text
/// that is handed to the parser.
pub const FRACTION_DIGITS: usize = 32767;

/// `json::parse`: the outcome depends on the text alone. On success the
/// value holds the tree named `json_parsed`; on any error there is none.
/// The parser counts the digits of a number's fraction, which stand directly
/// after its full stop, downwards in 16 bits, so no full stop in the text
/// may be followed by more digits than that count can take.
pub assume_specification[ json::parse ](source: &str) -> (parsed: json::Result<JsonValue>)
    requires
        fractions_within(source@, FRACTION_DIGITS as int),
    ensures
        match parsed {
            Ok(value) => json_parsed(source@) == Some(json_of(value)),
            Err(_) => json_parsed(source@) is None,
        },
;

/// `JsonValue::pretty`: the printed text depends only on the tree and on the
/// indentation. The printer counts the nesting and the width of one line's
/// indentation in 16 bits each, so the tree has to nest within a number of
/// levels that leaves both in range.
pub assume_specification[ JsonValue::pretty ](value: &JsonValue, spaces: u16) -> (printed: String)
    requires
        exists|levels: nat|
            #[trigger] nests_within(json_of(*value), levels) && levels <= u16::MAX && levels
                * spaces <= u16::MAX,
    ensures
        printed@ == json_printed(json_of(*value), spaces),
;

/// `JsonValue::new_object`: an object without entries.
pub assume_specification[ JsonValue::new_object ]() -> (value: JsonValue)
    ensures
        json_of(value) == Json::Object(Seq::empty()),
;

/// `JsonValue::new_array`: a list without items.
pub assume_specification[ JsonValue::new_array ]() -> (value: JsonValue)
    ensures
        json_of(value) == Json::List(Seq::empty()),
;

/// `JsonValue::len`: the length of a list, the number of keys of an object,
/// zero for any other value.
pub assume_specification[ JsonValue::len ](value: &JsonValue) -> (length: usize)
    ensures
        length == json_of(*value).count(),
;

/// `JsonValue::as_str`: the characters of a string value, `None` for any
/// other value.
pub assume_specification<'a>[ JsonValue::as_str ](value: &'a JsonValue) -> (text: Option<&'a str>)
    ensures
        match text {
            Some(characters) => json_of(*value).text() == Some(characters@),
            None => json_of(*value).text() is None,
        },
;

/// `JsonValue::as_bool`: the truth value of a boolean, `None` for any other
/// value.
pub assume_specification[ JsonValue::as_bool ](value: &JsonValue) -> (flag: Option<bool>)
    ensures
        flag == json_of(*value).flag(),
;

/// `JsonValue::as_u64`: the mantissa of a number with positive sign and
/// exponent zero, `None` for any other value.
pub assume_specification[ JsonValue::as_u64 ](value: &JsonValue) -> (number: Option<u64>)
    ensures
        number == json_of(*value).natural(),
;

/// Indexing a `JsonValue` by a key (`Index<&str>`): the value of that entry
/// of an object, a `Null` for a missing key or a value that is no object.
#[verifier::external_body]
pub(crate) fn field<'a>(value: &'a JsonValue, key: &str) -> (found: &'a JsonValue)
    ensures
        json_of(*found) == json_of(*value).field(key@),
{
    &value[key]
}

/// Indexing a `JsonValue` by a position (`Index<usize>`): that item of a
/// list, a `Null` past its end or for a value that is no list.
#[verifier::external_body]
pub(crate) fn item<'a>(value: &'a JsonValue, index: usize) -> (found: &'a JsonValue)
    ensures
        json_of(*found) == json_of(*value).item(index as int),
{
    &value[index]
}

/// `JsonValue::insert` on an object: a new key is appended after the
/// entries that are there, a key that is there keeps its place and gets the
/// new value. The other entries stay as they are.
#[verifier::external_body]
pub(crate) fn set_entry(object: &mut JsonValue, key: &str, value: JsonValue)
    requires
        json_of(*old(object)) is Object,
    ensures
        json_of(*final(object)) is Object,
        !has_key(json_of(*old(object))->Object_0, key@) ==> json_of(*final(object))->Object_0
            == json_of(*old(object))->Object_0.push((key@, json_of(value))),
        forall|i: int|
            0 <= i < json_of(*old(object))->Object_0.len() && json_of(*old(object))->Object_0[i].0
                == key@ && !has_key(json_of(*old(object))->Object_0.take(i), key@)
                ==> json_of(*final(object))->Object_0 == json_of(*old(object))->Object_0.update(
                i,
                (key@, json_of(value)),
            ),
{
    let _ = object.insert(key, value);
}

/// `JsonValue::push` on a list: the value becomes the last item.
#[verifier::external_body]
pub(crate) fn push_item(list: &mut JsonValue, value: JsonValue)
    requires
        json_of(*old(list)) is List,
    ensures
        json_of(*final(list)) == Json::List(json_of(*old(list))->List_0.push(json_of(value))),
{
    let _ = list.push(value);
}

/// `JsonValue::from` a string slice: a string value of the same characters.
#[verifier::external_body]
pub(crate) fn text_value(text: &str) -> (value: JsonValue)
    ensures
        json_of(value) == Json::Text(text@),
{
    JsonValue::from(text)
}

/// `JsonValue::from` a `bool`: a boolean value.
#[verifier::external_body]
pub(crate) fn flag_value(flag: bool) -> (value: JsonValue)
    ensures
        json_of(value) == Json::Flag(flag),
{
    JsonValue::from(flag)
}

/// `JsonValue::from` a `u64`: a positive number with that mantissa and
/// exponent zero.
#[verifier::external_body]
pub(crate) fn natural_value(number: u64) -> (value: JsonValue)
    ensures
        json_of(value) == Json::Number(Sign::Positive, number, 0),
{
    JsonValue::from(number)
}

} // verus!
