//! JSON values and their byte form.

use crate::inventory::keys_ascend;
use vstd::prelude::*;
use vstd::utf8::encode_utf8;

verus! {

/// `serde_json::Number`, carried through unread.
#[verifier::external_type_specification]
#[verifier::external_body]
pub struct ExNumber(serde_json::Number);

/// `serde_json::Value`, the form in which `serde_json` reads and writes.
#[verifier::external_type_specification]
#[verifier::external_body]
pub struct ExValue(serde_json::Value);

/// A JSON value. Integers of sixty-four bits stand for themselves, the negative
/// ones apart from the others; any other number is kept as `serde_json` holds it.
#[derive(Debug, PartialEq, Eq)]
pub enum Json {
    Null,
    Bool(bool),
    Integer(u64),
    Negative(i64),
    Number(serde_json::Number),
    Text(String),
    Array(Vec<Json>),
    Object(Vec<(String, Json)>),
}

/// The mathematical form of a JSON value.
pub enum JsonView {
    Null,
    Bool(bool),
    Integer(u64),
    Negative(i64),
    Number(serde_json::Number),
    Text(Seq<char>),
    Array(Seq<JsonView>),
    Object(Seq<(Seq<char>, JsonView)>),
}

/// The mathematical form of `value`.
pub open spec fn json_view(value: Json) -> JsonView
    decreases value,
{
    match value {
        Json::Null => JsonView::Null,
        Json::Bool(b) => JsonView::Bool(b),
        Json::Integer(n) => JsonView::Integer(n),
        Json::Negative(n) => JsonView::Negative(n),
        Json::Number(n) => JsonView::Number(n),
        Json::Text(s) => JsonView::Text(s@),
        Json::Array(a) => JsonView::Array(
            Seq::new(
                a@.len(),
                |i: int|
                    if 0 <= i < a@.len() {
                        json_view(a@[i])
                    } else {
                        JsonView::Null
                    },
            ),
        ),
        Json::Object(o) => JsonView::Object(
            Seq::new(
                o@.len(),
                |i: int|
                    if 0 <= i < o@.len() {
                        (o@[i].0@, json_view(o@[i].1))
                    } else {
                        (Seq::empty(), JsonView::Null)
                    },
            ),
        ),
    }
}

impl View for Json {
    type V = JsonView;

    open spec fn view(&self) -> JsonView {
        json_view(*self)
    }
}

/// The items of an array.
pub open spec fn items_view(items: Seq<Json>) -> Seq<JsonView> {
    Seq::new(items.len(), |i: int| items[i]@)
}

/// The members of an object.
pub open spec fn members_view(members: Seq<(String, Json)>) -> Seq<(Seq<char>, JsonView)> {
    Seq::new(members.len(), |i: int| (members[i].0@, members[i].1@))
}

/// The view of an object lists its members.
pub proof fn lemma_object_view(value: Json)
    requires
        value is Object,
    ensures
        value@ == JsonView::Object(members_view(value->Object_0@)),
{
    let o = value->Object_0;
    let shown = value@->Object_0;
    assert forall|i: int| 0 <= i < o@.len() implies shown[i] == (o@[i].0@, o@[i].1@) by {}
    assert(shown =~= members_view(o@));
}

/// The view of an array lists its items.
pub proof fn lemma_array_view(value: Json)
    requires
        value is Array,
    ensures
        value@ == JsonView::Array(items_view(value->Array_0@)),
{
    let a = value->Array_0;
    let shown = value@->Array_0;
    assert forall|i: int| 0 <= i < a@.len() implies shown[i] == a@[i]@ by {}
    assert(shown =~= items_view(a@));
}

/// The JSON value of an optional text: `null` where there is none.
pub open spec fn optional_text_json(t: Option<Seq<char>>) -> JsonView {
    match t {
        Some(s) => JsonView::Text(s),
        None => JsonView::Null,
    }
}

/// The value under a key: that of the first member with the key.
pub open spec fn member(members: Seq<(Seq<char>, JsonView)>, key: Seq<char>) -> Option<JsonView>
    decreases members.len(),
{
    if members.len() == 0 {
        None
    } else if members[0].0 == key {
        Some(members[0].1)
    } else {
        member(members.drop_first(), key)
    }
}

/// The value under a key of an object; none for a value of another kind.
pub open spec fn field(value: JsonView, key: Seq<char>) -> Option<JsonView> {
    match value {
        JsonView::Object(members) => member(members, key),
        _ => None,
    }
}

/// Whether a value has the form in which values are read: nested no deeper than
/// given, with objects whose keys ascend, and with integers that are negative
/// where they are held as such.
pub open spec fn is_regular(value: JsonView, depth: nat) -> bool
    decreases depth,
{
    match value {
        JsonView::Negative(n) => n < 0,
        JsonView::Array(items) => depth > 0 && forall|i: int|
            0 <= i < items.len() ==> is_regular(#[trigger] items[i], (depth - 1) as nat),
        JsonView::Object(members) => depth > 0 && keys_ascend(members) && forall|i: int|
            0 <= i < members.len() ==> is_regular((#[trigger] members[i]).1, (depth - 1) as nat),
        _ => true,
    }
}

/// Whether every number in a value, down to a depth, is an integer of sixty-four
/// bits.
pub open spec fn numbers_are_integers(value: JsonView, depth: nat) -> bool
    decreases depth,
{
    match value {
        JsonView::Number(_) => false,
        JsonView::Array(items) => depth > 0 ==> forall|i: int|
            0 <= i < items.len() ==> numbers_are_integers(#[trigger] items[i], (depth - 1) as nat),
        JsonView::Object(members) => depth > 0 ==> forall|i: int|
            0 <= i < members.len() ==> numbers_are_integers(
                (#[trigger] members[i]).1,
                (depth - 1) as nat,
            ),
        _ => true,
    }
}

/// Whether a value holds nothing but integers, texts, booleans and nulls, in
/// arrays and in objects whose keys ascend, nested no deeper than given.
pub open spec fn is_plain(value: JsonView, depth: nat) -> bool
    decreases depth,
{
    match value {
        JsonView::Number(_) => false,
        JsonView::Negative(n) => n < 0,
        JsonView::Array(items) => depth > 0 && forall|i: int|
            0 <= i < items.len() ==> is_plain(#[trigger] items[i], (depth - 1) as nat),
        JsonView::Object(members) => depth > 0 && keys_ascend(members) && forall|i: int|
            0 <= i < members.len() ==> is_plain((#[trigger] members[i]).1, (depth - 1) as nat),
        _ => true,
    }
}

/// A value in the form in which values are read is plain where its numbers are
/// integers.
pub proof fn lemma_regular_is_plain(value: JsonView, depth: nat)
    requires
        is_regular(value, depth),
        numbers_are_integers(value, depth),
    ensures
        is_plain(value, depth),
    decreases depth,
{
    match value {
        JsonView::Array(items) => {
            assert forall|i: int| 0 <= i < items.len() implies is_plain(
                #[trigger] items[i],
                (depth - 1) as nat,
            ) by {
                lemma_regular_is_plain(items[i], (depth - 1) as nat);
            }
        },
        JsonView::Object(members) => {
            assert forall|i: int| 0 <= i < members.len() implies is_plain(
                (#[trigger] members[i]).1,
                (depth - 1) as nat,
            ) by {
                lemma_regular_is_plain(members[i].1, (depth - 1) as nat);
            }
        },
        _ => {},
    }
}

/// The value that `serde_json` reads from a document, or none where the bytes
/// are not one.
pub uninterp spec fn json_document(bytes: Seq<u8>) -> Option<JsonView>;

/// The compact text that `serde_json` writes for a value.
pub uninterp spec fn json_text(value: JsonView) -> Seq<char>;

/// The bytes of the compact text of a value.
pub open spec fn json_encoding(value: JsonView) -> Seq<u8> {
    encode_utf8(json_text(value))
}

/// Whether `serde_json` reads a value back from its compact text.
pub open spec fn reads_back(value: JsonView) -> bool {
    json_document(json_encoding(value)) == Some(value)
}

/// The indented document that `serde_json` writes for a value.
pub uninterp spec fn json_pretty_encoding(value: JsonView) -> Seq<u8>;

/// The `serde_json::Value` with the same content. Nothing is stated of it: it
/// is read only by the writers below.
#[verifier::external_body]
fn to_value(json: &Json) -> (r: serde_json::Value) {
    match json {
        Json::Null => serde_json::Value::Null,
        Json::Bool(b) => serde_json::Value::Bool(*b),
        Json::Integer(n) => serde_json::Value::from(*n),
        Json::Negative(n) => serde_json::Value::from(*n),
        Json::Number(n) => serde_json::Value::Number(n.clone()),
        Json::Text(s) => serde_json::Value::String(s.clone()),
        Json::Array(a) => serde_json::Value::Array(a.iter().map(to_value).collect()),
        Json::Object(o) => o.iter().map(|(k, v)| (k.clone(), to_value(v))).collect(),
    }
}

/// The value with the content of a `serde_json::Value`. Nothing is stated of
/// it: it is made only by the reader below.
#[verifier::external_body]
fn from_value(value: serde_json::Value) -> (r: Json) {
    match value {
        serde_json::Value::Null => Json::Null,
        serde_json::Value::Bool(b) => Json::Bool(b),
        serde_json::Value::Number(n) => match (n.as_u64(), n.as_i64()) {
            (Some(n), _) => Json::Integer(n),
            (_, Some(n)) => Json::Negative(n),
            _ => Json::Number(n),
        },
        serde_json::Value::String(s) => Json::Text(s),
        serde_json::Value::Array(a) => Json::Array(a.into_iter().map(from_value).collect()),
        serde_json::Value::Object(o) => {
            Json::Object(o.into_iter().map(|(k, v)| (k, from_value(v))).collect())
        },
    }
}

/// `serde_json::from_slice`: the value read depends on the bytes alone. It is
/// nested no deeper than the reader goes, and its objects list their keys in
/// ascending order, as the map of `serde_json` holds them.
#[verifier::external_body]
pub(crate) fn parse(bytes: &[u8]) -> (r: Option<Json>)
    ensures
        match r {
            Some(value) => json_document(bytes@) == Some(value@) && is_regular(value@, 127),
            None => json_document(bytes@) is None,
        },
{
    serde_json::from_slice(bytes).ok().map(from_value)
}

/// `serde_json::to_string`: the text written depends on the value alone, and
/// `serde_json` reads a plain value back from it, where that is nested no deeper
/// than its reader goes. Of other values it is left open: the reader does not
/// promise to give back every fraction exactly.
#[verifier::external_body]
pub(crate) fn encode(value: &Json) -> (r: String)
    ensures
        r@ == json_text(value@),
        is_plain(value@, 127) ==> json_document(encode_utf8(r@)) == Some(value@),
{
    serde_json::to_string(&to_value(value)).expect("a JSON value can be written")
}

/// `serde_json::to_vec_pretty`: the document written depends on the value alone,
/// and `serde_json` reads a plain value back from it, where that is nested no
/// deeper than its reader goes. Of other values it is left open: the reader does
/// not promise to give back every fraction exactly.
#[verifier::external_body]
pub(crate) fn encode_pretty(value: &Json) -> (r: Vec<u8>)
    ensures
        r@ == json_pretty_encoding(value@),
        is_plain(value@, 127) ==> json_document(r@) == Some(value@),
{
    serde_json::to_vec_pretty(&to_value(value)).expect("a JSON value can be written")
}

/// The text as a JSON value.
pub fn text_value(s: &str) -> (r: Json)
    ensures
        r@ == JsonView::Text(s@),
{
    Json::Text(s.to_owned())
}

/// The optional text as a JSON value.
pub fn optional_text_value(s: &Option<String>) -> (r: Json)
    ensures
        r@ == optional_text_json(crate::text::option_text(*s)),
{
    match s {
        Some(t) => Json::Text(t.clone()),
        None => Json::Null,
    }
}

/// Appends a member to the members of an object.
pub fn push_member(members: &mut Vec<(String, Json)>, key: &str, value: Json)
    ensures
        members_view(final(members)@) == members_view(old(members)@).push((key@, value@)),
{
    let ghost before = members@;
    members.push((key.to_owned(), value));
    proof {
        assert(members_view(members@) =~= members_view(before).push((key@, value@)));
    }
}

/// An object with the given members.
pub fn object_of(members: Vec<(String, Json)>) -> (r: Json)
    ensures
        r@ == JsonView::Object(members_view(members@)),
{
    let r: Json = Json::Object(members);
    proof {
        lemma_object_view(r);
    }
    r
}

/// An array with the given items.
pub fn array_of(items: Vec<Json>) -> (r: Json)
    ensures
        r@ == JsonView::Array(items_view(items@)),
{
    let r: Json = Json::Array(items);
    proof {
        lemma_array_view(r);
    }
    r
}

/// The value under a key of an object; none for a value of another kind.
pub fn get<'a>(value: &'a Json, key: &str) -> (r: Option<&'a Json>)
    ensures
        match r {
            Some(v) => field(value@, key@) == Some(v@),
            None => field(value@, key@) is None,
        },
{
    match value {
        Json::Object(members) => {
            proof {
                lemma_object_view(*value);
                assert(members_view(members@).skip(0) =~= members_view(members@));
            }
            let mut i: usize = 0;
            while i < members.len()
                invariant
                    i <= members@.len(),
                    value@ == JsonView::Object(members_view(members@)),
                    field(value@, key@) == member(members_view(members@).skip(i as int), key@),
                decreases members@.len() - i,
            {
                proof {
                    assert(members_view(members@).skip(i as int)[0] == (
                        members@[i as int].0@,
                        members@[i as int].1@,
                    ));
                    assert(members_view(members@).skip(i as int).drop_first() =~= members_view(
                        members@,
                    ).skip(i as int + 1));
                }
                if crate::text::same_text(members[i].0.as_str(), key) {
                    return Some(&members[i].1);
                }
                i = i + 1;
            }
            None
        },
        _ => None,
    }
}

} // verus!
