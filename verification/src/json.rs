//! JSON documents: read with `serde_json`, then kept as a plain tree that
//! holds what this library looks at: strings, arrays and objects.

use vstd::prelude::*;
use crate::text::same_text;

verus! {

/// Makes `serde_json::Value` known by name; what a value holds is told by
/// `json_contents`.
#[verifier::external_type_specification]
#[verifier::external_body]
pub struct ExJsonSource(serde_json::Value);

/// Makes `serde_json::Error` known by name; nothing is said of what an
/// error holds.
#[verifier::external_type_specification]
#[verifier::external_body]
pub struct ExJsonFault(serde_json::Error);

/// A JSON document as plain data.
pub enum JsonValue {
    /// A string.
    Text(String),
    /// An array, element by element.
    Array(Vec<JsonValue>),
    /// An object, entry by entry.
    Object(Vec<(String, JsonValue)>),
    /// Anything else: null, a boolean or a number.
    Other,
}

/// `JsonValue` as a mathematical value.
pub enum JsonModel {
    Text(Seq<char>),
    Array(Seq<JsonModel>),
    Object(Seq<(Seq<char>, JsonModel)>),
    Other,
}

/// The mathematical value of a tree.
pub open spec fn model_of(value: JsonValue) -> JsonModel
    decreases value,
{
    match value {
        JsonValue::Text(s) => JsonModel::Text(s@),
        JsonValue::Array(items) => JsonModel::Array(models_of(items@)),
        JsonValue::Object(entries) => JsonModel::Object(entry_models_of(entries@)),
        JsonValue::Other => JsonModel::Other,
    }
}

/// The mathematical values of the elements of an array.
pub open spec fn models_of(items: Seq<JsonValue>) -> Seq<JsonModel>
    decreases items,
{
    if items.len() == 0 {
        Seq::empty()
    } else {
        models_of(items.drop_last()).push(model_of(items.last()))
    }
}

/// The keys and mathematical values of the entries of an object.
pub open spec fn entry_models_of(entries: Seq<(String, JsonValue)>) -> Seq<(Seq<char>, JsonModel)>
    decreases entries,
{
    if entries.len() == 0 {
        Seq::empty()
    } else {
        entry_models_of(entries.drop_last()).push((entries.last().0@, model_of(entries.last().1)))
    }
}

impl View for JsonValue {
    type V = JsonModel;

    open spec fn view(&self) -> JsonModel {
        model_of(*self)
    }
}

/// `models_of` goes element by element.
pub proof fn lemma_models_of(items: Seq<JsonValue>)
    ensures
        models_of(items).len() == items.len(),
        forall|i: int|
            0 <= i < items.len() ==> (#[trigger] models_of(items)[i]) == model_of(items[i]),
    decreases items.len(),
{
    if items.len() > 0 {
        lemma_models_of(items.drop_last());
        assert forall|i: int| 0 <= i < items.len() implies (#[trigger] models_of(items)[i])
            == model_of(items[i]) by {
            if i < items.len() - 1 {
                assert(models_of(items)[i] == models_of(items.drop_last())[i]);
                assert(items.drop_last()[i] == items[i]);
            }
        }
    }
}

/// `entry_models_of` goes entry by entry.
pub proof fn lemma_entry_models_of(entries: Seq<(String, JsonValue)>)
    ensures
        entry_models_of(entries).len() == entries.len(),
        forall|i: int|
            0 <= i < entries.len() ==> (#[trigger] entry_models_of(entries)[i]) == (
                entries[i].0@,
                model_of(entries[i].1),
            ),
    decreases entries.len(),
{
    if entries.len() > 0 {
        lemma_entry_models_of(entries.drop_last());
        assert forall|i: int| 0 <= i < entries.len() implies (#[trigger] entry_models_of(
            entries,
        )[i]) == (entries[i].0@, model_of(entries[i].1)) by {
            if i < entries.len() - 1 {
                assert(entry_models_of(entries)[i] == entry_models_of(entries.drop_last())[i]);
                assert(entries.drop_last()[i] == entries[i]);
            }
        }
    }
}

/// The document that `serde_json` reads from `text`, or `None` where it
/// rejects the text.
pub uninterp spec fn json_reading(text: Seq<char>) -> Option<JsonModel>;

/// What a `serde_json::Value` holds: its string, its elements or its
/// entries, each element and entry value in turn by what it holds.
pub uninterp spec fn json_contents(value: serde_json::Value) -> JsonModel;

/// What each of a list of `serde_json::Value`s holds.
pub open spec fn contents_of_all(items: Seq<serde_json::Value>) -> Seq<JsonModel> {
    Seq::new(items.len(), |i: int| json_contents(items[i]))
}

/// The key of each entry with what its value holds.
pub open spec fn contents_of_entries(entries: Seq<(&String, &serde_json::Value)>) -> Seq<
    (Seq<char>, JsonModel),
> {
    Seq::new(entries.len(), |i: int| (entries[i].0@, json_contents(*entries[i].1)))
}

/// Calls `serde_json::from_str` for a `serde_json::Value`. Whether the text
/// is accepted and what the value then holds depend on the text alone.
#[verifier::external_body]
fn parse(text: &str) -> (r: Result<serde_json::Value, serde_json::Error>)
    ensures
        r is Ok <==> json_reading(text@) is Some,
        r matches Ok(value) ==> json_reading(text@) == Some(json_contents(value)),
{
    serde_json::from_str(text)
}

/// Calls `serde_json::Value::as_str`: the string of a string value, and
/// `None` for every other value.
#[verifier::external_body]
fn text_of(value: &serde_json::Value) -> (r: Option<&str>)
    ensures
        match r {
            Some(s) => json_contents(*value) == JsonModel::Text(s@),
            None => !(json_contents(*value) is Text),
        },
{
    value.as_str()
}

/// Calls `serde_json::Value::as_array`: the elements of an array value, and
/// `None` for every other value.
#[verifier::external_body]
fn items_of(value: &serde_json::Value) -> (r: Option<&Vec<serde_json::Value>>)
    ensures
        match r {
            Some(items) => json_contents(*value) == JsonModel::Array(contents_of_all(items@)),
            None => !(json_contents(*value) is Array),
        },
{
    value.as_array()
}

/// Calls `serde_json::Value::as_object` and lists what `serde_json::Map::iter`
/// walks: the entries of an object value, and `None` for every other value.
#[verifier::external_body]
fn entries_of(value: &serde_json::Value) -> (r: Option<Vec<(&String, &serde_json::Value)>>)
    ensures
        match r {
            Some(entries) => json_contents(*value) == JsonModel::Object(
                contents_of_entries(entries@),
            ),
            None => !(json_contents(*value) is Object),
        },
{
    match value.as_object() {
        Some(entries) => Some(entries.iter().collect()),
        None => None,
    }
}

/// Copies what a `serde_json::Value` holds into a tree.
fn tree_of(value: &serde_json::Value) -> (r: JsonValue)
    ensures
        r@ == json_contents(*value),
    decreases json_contents(*value),
{
    if let Some(s) = text_of(value) {
        return JsonValue::Text(s.to_owned());
    }
    if let Some(items) = items_of(value) {
        let ghost held = contents_of_all(items@);
        let mut trees: Vec<JsonValue> = Vec::new();
        let mut i: usize = 0;
        while i < items.len()
            invariant
                i <= items.len(),
                held == contents_of_all(items@),
                json_contents(*value) == JsonModel::Array(held),
                models_of(trees@) == held.take(i as int),
            decreases items.len() - i,
        {
            proof {
                let whole = json_contents(*value);
                assert(held[i as int] == json_contents(items@[i as int]));
                assert(decreases_to!(whole => whole->Array_0));
                assert(decreases_to!(whole->Array_0 => whole->Array_0[i as int]));
            }
            let tree = tree_of(&items[i]);
            let ghost before = trees@;
            trees.push(tree);
            proof {
                assert(trees@.drop_last() == before);
                assert(held.take(i as int + 1) == held.take(i as int).push(held[i as int]));
            }
            i += 1;
        }
        assert(held.take(held.len() as int) == held);
        return JsonValue::Array(trees);
    }
    if let Some(entries) = entries_of(value) {
        let ghost held = contents_of_entries(entries@);
        let mut trees: Vec<(String, JsonValue)> = Vec::new();
        let mut i: usize = 0;
        while i < entries.len()
            invariant
                i <= entries.len(),
                held == contents_of_entries(entries@),
                json_contents(*value) == JsonModel::Object(held),
                entry_models_of(trees@) == held.take(i as int),
            decreases entries.len() - i,
        {
            proof {
                let whole = json_contents(*value);
                let entry = whole->Object_0[i as int];
                assert(entry == (entries@[i as int].0@, json_contents(*entries@[i as int].1)));
                assert(decreases_to!(whole => whole->Object_0));
                assert(decreases_to!(whole->Object_0 => whole->Object_0[i as int]));
                assert(decreases_to!(entry => entry.1));
            }
            let tree = tree_of(entries[i].1);
            let key = entries[i].0.clone();
            let ghost before = trees@;
            trees.push((key, tree));
            proof {
                assert(trees@.drop_last() == before);
                assert(held.take(i as int + 1) == held.take(i as int).push(held[i as int]));
            }
            i += 1;
        }
        assert(held.take(held.len() as int) == held);
        return JsonValue::Object(trees);
    }
    JsonValue::Other
}

/// Reads a JSON document.
pub(crate) fn read_json(text: &str) -> (r: Result<JsonValue, serde_json::Error>)
    ensures
        r is Ok <==> json_reading(text@) is Some,
        r matches Ok(tree) ==> json_reading(text@) == Some(tree@),
{
    match parse(text) {
        Ok(value) => Ok(tree_of(&value)),
        Err(fault) => Err(fault),
    }
}

/// The value stored under `key` in the first entry that carries it.
pub open spec fn first_under(entries: Seq<(Seq<char>, JsonModel)>, key: Seq<char>) -> Option<
    JsonModel,
>
    decreases entries.len(),
{
    if entries.len() == 0 {
        None
    } else if entries[0].0 == key {
        Some(entries[0].1)
    } else {
        first_under(entries.drop_first(), key)
    }
}

impl JsonModel {
    /// The member `key` of an object; `None` for other values and for
    /// absent keys.
    pub open spec fn member(self, key: Seq<char>) -> Option<JsonModel> {
        match self {
            JsonModel::Object(entries) => first_under(entries, key),
            _ => None,
        }
    }

    /// The characters of a string value.
    pub open spec fn text(self) -> Option<Seq<char>> {
        match self {
            JsonModel::Text(s) => Some(s),
            _ => None,
        }
    }

    /// The elements of an array value.
    pub open spec fn items(self) -> Option<Seq<JsonModel>> {
        match self {
            JsonModel::Array(items) => Some(items),
            _ => None,
        }
    }
}

impl JsonValue {
    /// The member `key` of an object.
    pub fn member(&self, key: &str) -> (r: Option<&JsonValue>)
        ensures
            match r {
                Some(v) => self@.member(key@) == Some(v@),
                None => self@.member(key@) is None,
            },
    {
        match self {
            JsonValue::Object(entries) => {
                let ghost models = entry_models_of(entries@);
                proof {
                    lemma_entry_models_of(entries@);
                    assert(models.skip(0) == models);
                }
                let mut i: usize = 0;
                while i < entries.len()
                    invariant
                        i <= entries.len(),
                        models == entry_models_of(entries@),
                        models.len() == entries.len(),
                        forall|j: int|
                            0 <= j < entries.len() ==> (#[trigger] models[j]) == (
                                entries@[j].0@,
                                model_of(entries@[j].1),
                            ),
                        self@.member(key@) == first_under(models.skip(i as int), key@),
                    decreases entries.len() - i,
                {
                    assert(models.skip(i as int)[0] == models[i as int]);
                    assert(models.skip(i as int).drop_first() == models.skip(i as int + 1));
                    if same_text(entries[i].0.as_str(), key) {
                        return Some(&entries[i].1);
                    }
                    i += 1;
                }
                None
            },
            _ => None,
        }
    }

    /// The characters of a string value.
    pub fn as_text(&self) -> (r: Option<&str>)
        ensures
            match r {
                Some(s) => self@.text() == Some(s@),
                None => self@.text() is None,
            },
    {
        match self {
            JsonValue::Text(s) => Some(s.as_str()),
            _ => None,
        }
    }

    /// The elements of an array value.
    pub fn as_items(&self) -> (r: Option<&Vec<JsonValue>>)
        ensures
            match r {
                Some(items) => self@.items() == Some(models_of(items@)),
                None => self@.items() is None,
            },
    {
        match self {
            JsonValue::Array(items) => Some(items),
            _ => None,
        }
    }
}

} // verus!
