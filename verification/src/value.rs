//! The bridge to `serde_json`: its values, numbers and errors.
use vstd::prelude::*;
use crate::json::array_view;
use crate::json::entries_view;
use crate::json::lemma_array_push;
use crate::json::Json;
use crate::json::JsonObject;
use crate::json::JsonView;

verus! {

/// `serde_json::Number`, carried through as it is.
#[verifier::external_type_specification]
#[verifier::external_body]
pub struct ExNumber(serde_json::Number);

/// `serde_json::Value`; what it holds is [`value_view`].
#[verifier::external_type_specification]
#[verifier::external_body]
pub struct ExValue(serde_json::Value);

/// The JSON value that a `serde_json::Value` holds.
pub uninterp spec fn value_view(value: serde_json::Value) -> JsonView;

/// `serde_json::Error`; what it prints is [`json_error_text`].
#[verifier::external_type_specification]
#[verifier::external_body]
pub struct ExError(serde_json::Error);

/// What `serde_json::Number::as_u64` gives.
pub uninterp spec fn number_as_u64(number: serde_json::Number) -> Option<u64>;

/// What `serde_json::Number` prints.
pub uninterp spec fn number_text(number: serde_json::Number) -> Seq<char>;

/// What `serde_json::Number::from` makes of an unsigned integer.
pub uninterp spec fn integer_number(value: u64) -> serde_json::Number;

/// What `serde_json::Error` prints.
pub uninterp spec fn json_error_text(error: serde_json::Error) -> Seq<char>;

/// What `serde_json::from_slice` reads: the value, or the text of the error.
pub uninterp spec fn slice_json(bytes: Seq<u8>) -> Result<JsonView, Seq<char>>;

/// What `serde_json::from_str` reads: the value, or the text of the error.
pub uninterp spec fn str_json(text: Seq<char>) -> Result<JsonView, Seq<char>>;

/// What `serde_json::to_vec` writes for a value: the bytes, or the text of the error.
pub uninterp spec fn json_bytes(value: JsonView) -> Result<Seq<u8>, Seq<char>>;

/// What `serde_json::to_string` writes for a value: the text, or the text of the error.
pub uninterp spec fn json_string(value: JsonView) -> Result<Seq<char>, Seq<char>>;

/// `serde_json::Number::as_u64`: the number as an unsigned integer, if it is one.
#[verifier::external_body]
pub(crate) fn as_u64(number: &serde_json::Number) -> (value: Option<u64>)
    ensures
        value == number_as_u64(*number),
{
    number.as_u64()
}

/// `serde_json::Number` as it prints.
#[verifier::external_body]
pub(crate) fn print_number(number: &serde_json::Number) -> (text: String)
    ensures
        text@ == number_text(*number),
{
    number.to_string()
}

/// `serde_json::Number::from` on an unsigned integer, which `as_u64` gives back.
#[verifier::external_body]
pub(crate) fn make_number(value: u64) -> (number: serde_json::Number)
    ensures
        number == integer_number(value),
        number_as_u64(number) == Some(value),
{
    serde_json::Number::from(value)
}

/// `serde_json::Error` as it prints.
#[verifier::external_body]
pub(crate) fn print_json_error(error: &serde_json::Error) -> (text: String)
    ensures
        text@ == json_error_text(*error),
{
    error.to_string()
}

/// `serde_json::from_slice` for a `serde_json::Value`.
#[verifier::external_body]
fn value_from_slice(bytes: &[u8]) -> (read: Result<serde_json::Value, serde_json::Error>)
    ensures
        match read {
            Ok(value) => slice_json(bytes@) == Ok::<JsonView, Seq<char>>(value_view(value)),
            Err(error) => slice_json(bytes@) == Err::<JsonView, Seq<char>>(json_error_text(error)),
        },
{
    serde_json::from_slice(bytes)
}

/// `serde_json::from_str` for a `serde_json::Value`.
#[verifier::external_body]
fn value_from_str(text: &str) -> (read: Result<serde_json::Value, serde_json::Error>)
    ensures
        match read {
            Ok(value) => str_json(text@) == Ok::<JsonView, Seq<char>>(value_view(value)),
            Err(error) => str_json(text@) == Err::<JsonView, Seq<char>>(json_error_text(error)),
        },
{
    serde_json::from_str(text)
}

/// `serde_json::to_vec` on a `serde_json::Value`.
#[verifier::external_body]
fn value_to_vec(value: &serde_json::Value) -> (written: Result<Vec<u8>, serde_json::Error>)
    ensures
        match written {
            Ok(bytes) => json_bytes(value_view(*value)) == Ok::<Seq<u8>, Seq<char>>(bytes@),
            Err(error) => json_bytes(value_view(*value)) == Err::<Seq<u8>, Seq<char>>(
                json_error_text(error),
            ),
        },
{
    serde_json::to_vec(value)
}

/// `serde_json::to_string` on a `serde_json::Value`.
#[verifier::external_body]
fn value_to_string(value: &serde_json::Value) -> (written: Result<String, serde_json::Error>)
    ensures
        match written {
            Ok(text) => json_string(value_view(*value)) == Ok::<Seq<char>, Seq<char>>(text@),
            Err(error) => json_string(value_view(*value)) == Err::<Seq<char>, Seq<char>>(
                json_error_text(error),
            ),
        },
{
    serde_json::to_string(value)
}

/// Reads a JSON document from bytes; the error is its text.
pub fn read_slice(bytes: &[u8]) -> (read: Result<Json, String>)
    ensures
        match read {
            Ok(json) => slice_json(bytes@) == Ok::<JsonView, Seq<char>>(json@),
            Err(text) => slice_json(bytes@) == Err::<JsonView, Seq<char>>(text@),
        },
{
    match value_from_slice(bytes) {
        Ok(value) => Ok(Json::from_value(value)),
        Err(error) => Err(print_json_error(&error)),
    }
}

/// Reads a JSON document from a text; the error is its text.
pub fn read_str(text: &str) -> (read: Result<Json, String>)
    ensures
        match read {
            Ok(json) => str_json(text@) == Ok::<JsonView, Seq<char>>(json@),
            Err(message) => str_json(text@) == Err::<JsonView, Seq<char>>(message@),
        },
{
    match value_from_str(text) {
        Ok(value) => Ok(Json::from_value(value)),
        Err(error) => Err(print_json_error(&error)),
    }
}

/// Writes a JSON document as bytes; the error is its text.
pub fn write_vec(json: Json) -> (written: Result<Vec<u8>, String>)
    ensures
        match written {
            Ok(bytes) => json_bytes(json@) == Ok::<Seq<u8>, Seq<char>>(bytes@),
            Err(text) => json_bytes(json@) == Err::<Seq<u8>, Seq<char>>(text@),
        },
{
    let value = json.into_value();
    match value_to_vec(&value) {
        Ok(bytes) => Ok(bytes),
        Err(error) => Err(print_json_error(&error)),
    }
}

/// Writes a JSON document as text; the error is its text.
pub fn write_string(json: Json) -> (written: Result<String, String>)
    ensures
        match written {
            Ok(text) => json_string(json@) == Ok::<Seq<char>, Seq<char>>(text@),
            Err(message) => json_string(json@) == Err::<Seq<char>, Seq<char>>(message@),
        },
{
    let value = json.into_value();
    match value_to_string(&value) {
        Ok(text) => Ok(text),
        Err(error) => Err(print_json_error(&error)),
    }
}

/// A `serde_json::Value` taken apart by one level.
enum ValueNode {
    Null,
    Bool(bool),
    Number(serde_json::Number),
    Text(String),
    Array(Vec<serde_json::Value>),
    Object(Vec<(String, serde_json::Value)>),
}

/// The map that a list of members stands for: a later member replaces an earlier one.
pub open spec fn members_view(members: Seq<(String, serde_json::Value)>) -> Map<
    Seq<char>,
    JsonView,
>
    decreases members.len(),
{
    if members.len() == 0 {
        Map::empty()
    } else {
        members_view(members.drop_last()).insert(
            members.last().0@,
            value_view(members.last().1),
        )
    }
}

/// No two members have the same key.
pub open spec fn distinct_keys(members: Seq<(String, serde_json::Value)>) -> bool {
    forall|i: int, j: int| 0 <= i < j < members.len() ==> members[i].0@ != members[j].0@
}

spec fn node_view(node: ValueNode) -> JsonView {
    match node {
        ValueNode::Null => JsonView::Null,
        ValueNode::Bool(b) => JsonView::Bool(b),
        ValueNode::Number(n) => JsonView::Number(n),
        ValueNode::Text(s) => JsonView::Text(s@),
        ValueNode::Array(items) => JsonView::Array(
            items@.map_values(|item: serde_json::Value| value_view(item)),
        ),
        ValueNode::Object(members) => JsonView::Object(members_view(members@)),
    }
}

/// Matches on the variants of `serde_json::Value`: the node holds what the value holds, an
/// object handing its members out as a list in which no key occurs twice.
#[verifier::external_body]
fn open_value(value: serde_json::Value) -> (node: ValueNode)
    ensures
        node_view(node) == value_view(value),
        node matches ValueNode::Object(members) ==> distinct_keys(members@),
{
    match value {
        serde_json::Value::Null => ValueNode::Null,
        serde_json::Value::Bool(b) => ValueNode::Bool(b),
        serde_json::Value::Number(n) => ValueNode::Number(n),
        serde_json::Value::String(s) => ValueNode::Text(s),
        serde_json::Value::Array(items) => ValueNode::Array(items),
        serde_json::Value::Object(members) => ValueNode::Object(members.into_iter().collect()),
    }
}

/// Builds a `serde_json::Value` variant by variant; an object is a new `serde_json::Map`
/// extended by the members in their order, so that the last one under a key counts.
#[verifier::external_body]
fn close_value(node: ValueNode) -> (value: serde_json::Value)
    ensures
        value_view(value) == node_view(node),
{
    match node {
        ValueNode::Null => serde_json::Value::Null,
        ValueNode::Bool(b) => serde_json::Value::Bool(b),
        ValueNode::Number(n) => serde_json::Value::Number(n),
        ValueNode::Text(s) => serde_json::Value::String(s),
        ValueNode::Array(items) => serde_json::Value::Array(items),
        ValueNode::Object(members) => {
            let mut map = serde_json::Map::new();
            map.extend(members);
            serde_json::Value::Object(map)
        },
    }
}

/// In a list without repeated keys each member is in the map, and the map is finite.
proof fn lemma_members(members: Seq<(String, serde_json::Value)>)
    requires
        distinct_keys(members),
    ensures
        members_view(members).dom().finite(),
        forall|i: int|
            #![trigger members[i]]
            0 <= i < members.len() ==> members_view(members).dom().contains(members[i].0@)
                && members_view(members)[members[i].0@] == value_view(members[i].1),
        forall|key: Seq<char>| #[trigger]
            members_view(members).dom().contains(key) ==> exists|i: int|
                0 <= i < members.len() && #[trigger] members[i].0@ == key,
    decreases members.len(),
{
    if members.len() > 0 {
        let rest = members.drop_last();
        lemma_members(rest);
        assert forall|i: int| #![trigger members[i]] 0 <= i < members.len() implies members_view(
            members,
        ).dom().contains(members[i].0@) && members_view(members)[members[i].0@] == value_view(
            members[i].1,
        ) by {
            if i < rest.len() {
                assert(rest[i] == members[i]);
            }
        }
        assert forall|key: Seq<char>| #[trigger]
            members_view(members).dom().contains(key) implies exists|i: int|
            0 <= i < members.len() && #[trigger] members[i].0@ == key by {
            if key == members.last().0@ {
                assert(members[members.len() - 1].0@ == key);
            } else {
                let i = choose|i: int| 0 <= i < rest.len() && #[trigger] rest[i].0@ == key;
                assert(members[i].0@ == key);
            }
        }
    }
}

impl Json {
    /// The library's form of a `serde_json::Value`.
    pub fn from_value(value: serde_json::Value) -> (json: Json)
        ensures
            json@ == value_view(value),
        decreases value_view(value),
    {
        let ghost whole = value_view(value);
        match open_value(value) {
            ValueNode::Null => Json::Null,
            ValueNode::Bool(b) => Json::Bool(b),
            ValueNode::Number(n) => Json::Number(n),
            ValueNode::Text(s) => Json::Text(s),
            ValueNode::Array(items) => {
                let mut out: Vec<Json> = Vec::new();
                let ghost all = items@;
                let ghost views = all.map_values(|item: serde_json::Value| value_view(item));
                for item in iter: items
                    invariant
                        iter.seq() == all,
                        whole == value_view(value),
                        whole == JsonView::Array(views),
                        views == all.map_values(|item: serde_json::Value| value_view(item)),
                        array_view(out@) == views.take(iter.index() as int),
                {
                    let ghost i = iter.index() as int;
                    assert(views[i] == value_view(item));
                    assert(decreases_to!(whole => whole->Array_0));
                    assert(decreases_to!(views => views[i]));
                    let json = Json::from_value(item);
                    proof {
                        lemma_array_push(out@, json);
                        assert(views.take(i).push(views[i]) =~= views.take(i + 1));
                    }
                    out.push(json);
                }
                assert(views.take(views.len() as int) =~= views);
                Json::Array(out)
            },
            ValueNode::Object(members) => {
                let mut object = JsonObject::new();
                let ghost all = members@;
                for member in iter: members
                    invariant
                        iter.seq() == all,
                        distinct_keys(all),
                        whole == value_view(value),
                        whole == JsonView::Object(members_view(all)),
                        object@ == members_view(all.take(iter.index() as int)),
                {
                    let ghost i = iter.index() as int;
                    proof {
                        lemma_members(all);
                        assert(all[i] == member);
                        assert(all.take(i + 1).drop_last() =~= all.take(i));
                    }
                    let (key, inner) = member;
                    assert(decreases_to!(whole => whole->Object_0));
                    assert(decreases_to!(whole->Object_0 => whole->Object_0[key@]));
                    let json = Json::from_value(inner);
                    object.insert(key, json);
                }
                assert(all.take(all.len() as int) =~= all);
                Json::Object(object)
            },
        }
    }

    /// The `serde_json::Value` that holds this value.
    pub fn into_value(self) -> (value: serde_json::Value)
        ensures
            value_view(value) == self@,
        decreases self,
    {
        match self {
            Json::Null => close_value(ValueNode::Null),
            Json::Bool(b) => close_value(ValueNode::Bool(b)),
            Json::Number(n) => close_value(ValueNode::Number(n)),
            Json::Text(s) => close_value(ValueNode::Text(s)),
            Json::Array(items) => {
                let mut out: Vec<serde_json::Value> = Vec::new();
                let ghost all = items@;
                for item in iter: items
                    invariant
                        iter.seq() == all,
                        self matches Json::Array(v) && v@ == all,
                        out@.map_values(|v: serde_json::Value| value_view(v)) == array_view(
                            all.take(iter.index() as int),
                        ),
                {
                    let ghost i = iter.index() as int;
                    assert(all[i] == item);
                    assert(all.take(i + 1).drop_last() =~= all.take(i));
                    let ghost before = out@;
                    let value = item.into_value();
                    out.push(value);
                    assert(out@.map_values(|v: serde_json::Value| value_view(v))
                        =~= before.map_values(|v: serde_json::Value| value_view(v)).push(
                        value_view(value),
                    ));
                }
                assert(all.take(all.len() as int) =~= all);
                close_value(ValueNode::Array(out))
            },
            Json::Object(object) => {
                let mut out: Vec<(String, serde_json::Value)> = Vec::new();
                let ghost all = object.entries@;
                for entry in iter: object.entries
                    invariant
                        iter.seq() == all,
                        self matches Json::Object(o) && o.entries@ == all,
                        members_view(out@) == entries_view(all.take(iter.index() as int)),
                {
                    let ghost i = iter.index() as int;
                    assert(all[i] == entry);
                    assert(all.take(i + 1).drop_last() =~= all.take(i));
                    let ghost before = out@;
                    let (key, json) = entry;
                    let value = json.into_value();
                    out.push((key, value));
                    assert(out@.drop_last() =~= before);
                }
                assert(all.take(all.len() as int) =~= all);
                close_value(ValueNode::Object(out))
            },
        }
    }
}

} // verus!
