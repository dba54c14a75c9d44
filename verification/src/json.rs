//! JSON values held as plain data, and their mathematical model.
use vstd::prelude::*;
use crate::text::same_text;

verus! {

/// A JSON value.
pub enum Json {
    Null,
    Bool(bool),
    Number(serde_json::Number),
    Text(String),
    Array(Vec<Json>),
    Object(JsonObject),
}

/// The members of a JSON object. Of several entries under one key the last one counts.
pub struct JsonObject {
    pub entries: Vec<(String, Json)>,
}

/// What a [`Json`] value is: text as characters, objects as finite maps.
pub enum JsonView {
    Null,
    Bool(bool),
    Number(serde_json::Number),
    Text(Seq<char>),
    Array(Seq<JsonView>),
    Object(Map<Seq<char>, JsonView>),
}

/// The model of a JSON value.
pub open spec fn json_view(value: Json) -> JsonView
    decreases value,
{
    match value {
        Json::Null => JsonView::Null,
        Json::Bool(b) => JsonView::Bool(b),
        Json::Number(n) => JsonView::Number(n),
        Json::Text(s) => JsonView::Text(s@),
        Json::Array(items) => JsonView::Array(array_view(items@)),
        Json::Object(object) => JsonView::Object(entries_view(object.entries@)),
    }
}

/// The models of the items of an array.
pub open spec fn array_view(items: Seq<Json>) -> Seq<JsonView>
    decreases items,
{
    if items.len() == 0 {
        Seq::empty()
    } else {
        array_view(items.drop_last()).push(json_view(items.last()))
    }
}

/// The map that a list of members stands for: a later entry replaces an earlier one.
pub open spec fn entries_view(entries: Seq<(String, Json)>) -> Map<Seq<char>, JsonView>
    decreases entries,
{
    if entries.len() == 0 {
        Map::empty()
    } else {
        entries_view(entries.drop_last()).insert(entries.last().0@, json_view(entries.last().1))
    }
}

impl View for Json {
    type V = JsonView;

    open spec fn view(&self) -> JsonView {
        json_view(*self)
    }
}

/// The member `key` of a value: `None` where the value is no object or has no such member.
pub open spec fn member(value: JsonView, key: Seq<char>) -> Option<JsonView> {
    match value {
        JsonView::Object(members) if members.dom().contains(key) => Some(members[key]),
        _ => None,
    }
}

/// The text under `key`: `None` where there is no such member or it is no text.
pub open spec fn text_member(value: JsonView, key: Seq<char>) -> Option<Seq<char>> {
    match member(value, key) {
        Some(JsonView::Text(text)) => Some(text),
        _ => None,
    }
}

impl View for JsonObject {
    type V = Map<Seq<char>, JsonView>;

    open spec fn view(&self) -> Map<Seq<char>, JsonView> {
        entries_view(self.entries@)
    }
}

/// The model of an array with one more item.
pub(crate) proof fn lemma_array_push(items: Seq<Json>, item: Json)
    ensures
        array_view(items.push(item)) == array_view(items).push(json_view(item)),
{
    assert(items.push(item).drop_last() =~= items);
}

/// The models of an array's items stand where the items stand.
pub(crate) proof fn lemma_array_index(items: Seq<Json>)
    ensures
        array_view(items).len() == items.len(),
        forall|i: int|
            0 <= i < items.len() ==> #[trigger] array_view(items)[i] == json_view(items[i]),
    decreases items.len(),
{
    if items.len() > 0 {
        lemma_array_index(items.drop_last());
    }
}

/// The model of an object with one more entry.
pub(crate) proof fn lemma_entries_push(entries: Seq<(String, Json)>, entry: (String, Json))
    ensures
        entries_view(entries.push(entry)) == entries_view(entries).insert(
            entry.0@,
            json_view(entry.1),
        ),
{
    assert(entries.push(entry).drop_last() =~= entries);
}

/// Taking out an entry under `key` changes nothing under the other keys.
proof fn lemma_entries_remove(entries: Seq<(String, Json)>, i: int)
    requires
        0 <= i < entries.len(),
    ensures
        entries_view(entries.remove(i)).remove(entries[i].0@) == entries_view(entries).remove(
            entries[i].0@,
        ),
    decreases entries.len(),
{
    let key = entries[i].0@;
    let rest = entries.drop_last();
    if i == entries.len() - 1 {
        assert(entries.remove(i) =~= rest);
        assert(entries_view(rest).remove(key) =~= entries_view(entries).remove(key));
    } else {
        lemma_entries_remove(rest, i);
        assert(rest[i] == entries[i]);
        assert(entries.remove(i).drop_last() =~= rest.remove(i));
        assert(entries.remove(i).last() == entries.last());
        let last = entries.last();
        let short = entries_view(rest.remove(i));
        let long = entries_view(rest);
        assert(short.remove(key) == long.remove(key));
        if last.0@ == key {
            assert(short.insert(key, json_view(last.1)).remove(key) =~= short.remove(key));
            assert(long.insert(key, json_view(last.1)).remove(key) =~= long.remove(key));
        } else {
            assert(short.insert(last.0@, json_view(last.1)).remove(key) =~= short.remove(
                key,
            ).insert(last.0@, json_view(last.1)));
            assert(long.insert(last.0@, json_view(last.1)).remove(key) =~= long.remove(key).insert(
                last.0@,
                json_view(last.1),
            ));
        }
    }
}

/// A key is in the map exactly where some entry holds it, and the last such entry counts.
pub(crate) proof fn lemma_entries_lookup(entries: Seq<(String, Json)>, key: Seq<char>, i: int)
    requires
        0 <= i < entries.len(),
        entries[i].0@ == key,
        forall|j: int| i < j < entries.len() ==> entries[j].0@ != key,
    ensures
        entries_view(entries).dom().contains(key),
        entries_view(entries)[key] == json_view(entries[i].1),
    decreases entries.len(),
{
    if i < entries.len() - 1 {
        lemma_entries_lookup(entries.drop_last(), key, i);
    }
}

/// A key that no entry holds is not in the map.
pub(crate) proof fn lemma_entries_absent(entries: Seq<(String, Json)>, key: Seq<char>)
    requires
        forall|j: int| 0 <= j < entries.len() ==> entries[j].0@ != key,
    ensures
        !entries_view(entries).dom().contains(key),
    decreases entries.len(),
{
    if entries.len() > 0 {
        lemma_entries_absent(entries.drop_last(), key);
    }
}

impl JsonObject {
    /// An object without members.
    pub fn new() -> (object: JsonObject)
        ensures
            object@ == Map::<Seq<char>, JsonView>::empty(),
    {
        JsonObject { entries: Vec::new() }
    }

    /// The member under `key`.
    pub fn get(&self, key: &str) -> (found: Option<&Json>)
        ensures
            match found {
                Some(value) => self@.dom().contains(key@) && value@ == self@[key@],
                None => !self@.dom().contains(key@),
            },
    {
        let mut i: usize = self.entries.len();
        while i > 0
            invariant
                i <= self.entries@.len(),
                forall|j: int| i <= j < self.entries@.len() ==> self.entries@[j].0@ != key@,
            decreases i,
        {
            i -= 1;
            if same_text(self.entries[i].0.as_str(), key) {
                proof {
                    lemma_entries_lookup(self.entries@, key@, i as int);
                }
                return Some(&self.entries[i].1);
            }
        }
        proof {
            lemma_entries_absent(self.entries@, key@);
        }
        None
    }

    /// Takes the member under `key` out; nothing happens where there is none.
    pub fn remove(&mut self, key: &str)
        ensures
            final(self)@ == old(self)@.remove(key@),
    {
        let mut i: usize = 0;
        while i < self.entries.len()
            invariant
                i <= self.entries@.len(),
                forall|j: int| 0 <= j < i ==> self.entries@[j].0@ != key@,
                entries_view(self.entries@).remove(key@) == entries_view(
                    old(self).entries@,
                ).remove(key@),
            decreases self.entries@.len() - i,
        {
            if same_text(self.entries[i].0.as_str(), key) {
                proof {
                    lemma_entries_remove(self.entries@, i as int);
                }
                let _ = self.entries.remove(i);
            } else {
                i += 1;
            }
        }
        proof {
            lemma_entries_absent(self.entries@, key@);
            assert(entries_view(self.entries@).remove(key@) =~= entries_view(self.entries@));
        }
    }

    /// Puts `value` under `key`, in place of what was there.
    pub fn insert(&mut self, key: String, value: Json)
        ensures
            final(self)@ == old(self)@.insert(key@, value@),
    {
        self.remove(key.as_str());
        proof {
            lemma_entries_push(self.entries@, (key, value));
            assert(old(self)@.remove(key@).insert(key@, value@) =~= old(self)@.insert(
                key@,
                value@,
            ));
        }
        self.entries.push((key, value));
    }
}

impl Json {
    /// The member under `key`: `None` where the value is no object or has no such member.
    pub fn get(&self, key: &str) -> (found: Option<&Json>)
        ensures
            match found {
                Some(value) => member(self@, key@) == Some(value@),
                None => member(self@, key@) is None,
            },
    {
        match self {
            Json::Object(object) => object.get(key),
            _ => None,
        }
    }

    /// The text that the value is, if it is a text.
    pub fn as_text(&self) -> (text: Option<&str>)
        ensures
            match text {
                Some(text) => self@ == JsonView::Text(text@),
                None => !(self@ is Text),
            },
    {
        match self {
            Json::Text(text) => Some(text.as_str()),
            _ => None,
        }
    }
}

} // verus!
