//! JSON values: what a `serde_json::Value` holds, how it is read and how one is built.
use vstd::prelude::*;

#[allow(unused_imports)]
use crate::text::decimal;

verus! {

/// What a JSON value holds. A number is known by its JSON text, and by its value where it is a
/// whole number from zero to `u64::MAX`.
pub enum JsonView {
    Null,
    Bool(bool),
    Number { whole: Option<u64>, text: Seq<char> },
    Text(Seq<char>),
    Array(Seq<JsonView>),
    Object(Map<Seq<char>, JsonView>),
}

/// The value type of `serde_json`, carried through as it is.
#[verifier::external_type_specification]
#[verifier::external_body]
pub struct ExJsonValue(serde_json::Value);

/// What a `serde_json::Value` holds.
pub uninterp spec fn json_view(value: serde_json::Value) -> JsonView;

/// The member of an object under a key: none where there is no such member or no object.
pub open spec fn member(value: JsonView, key: Seq<char>) -> Option<JsonView> {
    match value {
        JsonView::Object(members) => if members.contains_key(key) {
            Some(members[key])
        } else {
            None
        },
        _ => None,
    }
}

/// `serde_json::Value::get` with a string: the member of an object under that key, and nothing for
/// a missing key or a value that is no object.
#[verifier::external_body]
pub(crate) fn json_member<'a>(value: &'a serde_json::Value, key: &str) -> (r: Option<
    &'a serde_json::Value,
>)
    ensures
        r is Some <==> member(json_view(*value), key@) is Some,
        r matches Some(found) ==> Some(json_view(*found)) == member(json_view(*value), key@),
{
    value.get(key)
}

/// `serde_json::Value::as_bool`: the boolean that the value is, and nothing for any other value.
pub assume_specification[ serde_json::Value::as_bool ](value: &serde_json::Value) -> (r: Option<
    bool,
>)
    ensures
        r == (match json_view(*value) {
            JsonView::Bool(b) => Some(b),
            _ => None,
        }),
;

/// `serde_json::Value::as_u64`: the whole number from zero to `u64::MAX` that the value is, and
/// nothing for any other number or value.
pub assume_specification[ serde_json::Value::as_u64 ](value: &serde_json::Value) -> (r: Option<u64>)
    ensures
        r == (match json_view(*value) {
            JsonView::Number { whole, .. } => whole,
            _ => None,
        }),
;

/// `serde_json::Value::as_str`: the characters of a string, and nothing for any other value.
pub assume_specification[ serde_json::Value::as_str ](value: &serde_json::Value) -> (r: Option<&str>)
    ensures
        r is Some <==> json_view(*value) is Text,
        r matches Some(s) ==> json_view(*value) == JsonView::Text(s@),
;

/// `serde_json::Value::from` of a `String`: the string as a JSON value.
#[verifier::external_body]
pub(crate) fn json_text(s: String) -> (r: serde_json::Value)
    ensures
        json_view(r) == JsonView::Text(s@),
{
    serde_json::Value::from(s)
}

/// `serde_json::Value::from` of a `bool`: the boolean as a JSON value.
#[verifier::external_body]
pub(crate) fn json_bool(b: bool) -> (r: serde_json::Value)
    ensures
        json_view(r) == JsonView::Bool(b),
{
    serde_json::Value::from(b)
}

/// `serde_json::Value::from` of a `u16`: the number as a JSON value, its text in decimal digits.
#[verifier::external_body]
pub(crate) fn json_number(n: u16) -> (r: serde_json::Value)
    ensures
        json_view(r) == (JsonView::Number { whole: Some(n as u64), text: decimal(n as nat) }),
{
    serde_json::Value::from(n)
}

/// The members that a list of keys and values names, where no key occurs twice.
pub open spec fn members(list: Seq<(String, serde_json::Value)>) -> Map<Seq<char>, JsonView>
    decreases list.len(),
{
    if list.len() == 0 {
        Map::empty()
    } else {
        members(list.drop_last()).insert(list.last().0@, json_view(list.last().1))
    }
}

/// Whether no key occurs twice.
pub open spec fn distinct_keys(list: Seq<(String, serde_json::Value)>) -> bool {
    forall|i: int, j: int| 0 <= i < j < list.len() ==> (#[trigger] list[i]).0@ != (#[trigger] list[j]).0@
}

/// `serde_json::Map::from_iter` on keys that all differ: the object with exactly these members.
#[verifier::external_body]
pub(crate) fn json_object(list: Vec<(String, serde_json::Value)>) -> (r: serde_json::Value)
    requires
        distinct_keys(list@),
    ensures
        json_view(r) == JsonView::Object(members(list@)),
{
    serde_json::Value::Object(serde_json::Map::from_iter(list))
}

/// The object with one member.
pub open spec fn single(key: Seq<char>, value: JsonView) -> JsonView {
    JsonView::Object(Map::empty().insert(key, value))
}

/// The object with one member.
pub fn json_single(key: &str, value: serde_json::Value) -> (r: serde_json::Value)
    ensures
        json_view(r) == single(key@, json_view(value)),
{
    let mut list: Vec<(String, serde_json::Value)> = Vec::new();
    list.push((key.to_owned(), value));
    assert(list@.drop_last() =~= Seq::empty());
    proof {
        reveal_with_fuel(members, 2);
    }
    json_object(list)
}

/// An object with one member has that member and no other.
pub proof fn law_single(key: Seq<char>, value: JsonView, other: Seq<char>)
    ensures
        member(single(key, value), key) == Some(value),
        other != key ==> member(single(key, value), other) is None,
{
}

} // verus!
