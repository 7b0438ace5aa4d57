//! The list of entries as a JSON object.
//!
//! The object is built and written by `serde_json`. What this module says of
//! that crate is stated with the items that call it and is taken on trust.

use crate::helpers::distinct_keys;
use serde_json::Value;
use vstd::prelude::*;

verus! {

/// A JSON value of `serde_json`. Nothing of its inside is visible here.
#[verifier::external_type_specification]
#[verifier::external_body]
pub struct ExValue(serde_json::Value);

/// Whether a JSON value is an object whose members are all strings.
pub uninterp spec fn is_text_object(value: serde_json::Value) -> bool;

/// The members of such an object, key and string, in the order in which the
/// object keeps them.
pub uninterp spec fn members(value: serde_json::Value) -> Seq<(Seq<char>, Seq<char>)>;

/// What `serde_json` writes for an object with these members, on one line.
pub uninterp spec fn compact_json(members: Seq<(Seq<char>, Seq<char>)>) -> Seq<char>;

/// What `serde_json` writes for an object with these members, one member a line.
pub uninterp spec fn pretty_json(members: Seq<(Seq<char>, Seq<char>)>) -> Seq<char>;

/// Whether one of `members` goes by `key`.
pub open spec fn has_key(members: Seq<(Seq<char>, Seq<char>)>, key: Seq<char>) -> bool {
    exists|i: int| 0 <= i < members.len() && #[trigger] members[i].0 == key
}

/// A place in `members` at which `key` stands.
pub open spec fn place_of(members: Seq<(Seq<char>, Seq<char>)>, key: Seq<char>) -> int {
    choose|i: int| 0 <= i < members.len() && #[trigger] members[i].0 == key
}

/// The members of an object after `key` is set to `value`: a key that the
/// object has keeps its place and takes the new value, a new key goes last.
pub open spec fn with_member(
    members: Seq<(Seq<char>, Seq<char>)>,
    key: Seq<char>,
    value: Seq<char>,
) -> Seq<(Seq<char>, Seq<char>)> {
    if has_key(members, key) {
        members.update(place_of(members, key), (key, value))
    } else {
        members.push((key, value))
    }
}

/// The members of the object that a list of entries makes: each entry is set
/// in turn, first to last.
pub open spec fn object_of(list: Seq<(Seq<char>, Seq<char>)>) -> Seq<(Seq<char>, Seq<char>)>
    decreases list.len(),
{
    if list.len() == 0 {
        Seq::empty()
    } else {
        with_member(object_of(list.drop_last()), list.last().0, list.last().1)
    }
}

/// Makes `serde_json`'s empty object, `Value::Object` of `Map::new()`: an
/// object without members.
#[verifier::external_body]
fn empty_object() -> (body: Value)
    ensures
        is_text_object(body),
        members(body) == Seq::<(Seq<char>, Seq<char>)>::empty(),
{
    Value::Object(serde_json::Map::new())
}

/// Sets a member through `serde_json`'s `IndexMut` of `Value` by a `String` key.
///
/// On an object it looks the key up, adds it last with a null where the object
/// lacks it, and hands out the place of its value, which is then overwritten;
/// the object keeps its members in the order in which their keys came (feature
/// `preserve_order`). On a value that is neither object nor null it panics,
/// which `requires` excludes.
#[verifier::external_body]
fn set_member(body: &mut Value, key: String, value: String)
    requires
        is_text_object(*old(body)),
    ensures
        is_text_object(*final(body)),
        members(*final(body)) == with_member(members(*old(body)), key@, value@),
{
    body[key] = Value::String(value);
}

/// Writes an object on one line through `Value`'s `Display`, the way
/// `to_string` does. The text depends on the members alone.
#[verifier::external_body]
fn compact_text(body: &Value) -> (text: String)
    requires
        is_text_object(*body),
    ensures
        text@ == compact_json(members(*body)),
{
    body.to_string()
}

/// Writes an object through the alternate form of `Value`'s `Display`, which
/// is `serde_json`'s pretty printer: one member a line, two spaces deep. The
/// text depends on the members alone.
#[verifier::external_body]
fn pretty_text(body: &Value) -> (text: String)
    requires
        is_text_object(*body),
    ensures
        text@ == pretty_json(members(*body)),
{
    format!("{:#}", body)
}

/// The JSON object of a list of entries: the keys as they are, the values as
/// strings, in the order of the list. Of two entries with one key the object
/// keeps the place of the first and the value of the second.
pub fn json(list: &Vec<(String, String)>) -> (body: Value)
    ensures
        is_text_object(body),
        members(body) == object_of(list.deep_view()),
{
    let mut body = empty_object();
    let n = list.len();
    let mut i: usize = 0;
    while i < n
        invariant
            n == list@.len(),
            i <= n,
            is_text_object(body),
            members(body) == object_of(list.deep_view().take(i as int)),
        decreases n - i,
    {
        proof {
            assert(list.deep_view().take(i + 1).drop_last() =~= list.deep_view().take(i as int));
        }
        set_member(&mut body, list[i].0.clone(), list[i].1.clone());
        i += 1;
    }
    proof {
        assert(list.deep_view().take(n as int) =~= list.deep_view());
    }
    body
}

/// The list as one JSON object on one line.
pub fn json_text(list: &Vec<(String, String)>) -> (text: String)
    ensures
        text@ == compact_json(object_of(list.deep_view())),
{
    let body = json(list);
    compact_text(&body)
}

/// The list as one JSON object, laid out to be read.
pub fn json_pretty(list: &Vec<(String, String)>) -> (text: String)
    ensures
        text@ == pretty_json(object_of(list.deep_view())),
{
    let body = json(list);
    pretty_text(&body)
}

/// A list in which no key stands twice makes an object with the entries of
/// the list as its members, each in its place.
pub proof fn lemma_object_of_distinct(list: Seq<(Seq<char>, Seq<char>)>)
    requires
        distinct_keys(list),
    ensures
        object_of(list) == list,
    decreases list.len(),
{
    if list.len() > 0 {
        lemma_object_of_distinct(list.drop_last());
    }
}

} // verus!
