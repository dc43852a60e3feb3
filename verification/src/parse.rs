//! Reading the module configuration from its JSON text.

use crate::json::{ascending, lemma_inserted_at_the_end, lemma_model_of_a_value, models};
use crate::json::{Json, JsonModel, Kind, KindModel, SortedMap};
use crate::text::before;
use serde_json::Value;
use vstd::prelude::*;

verus! {

/// A JSON value of `serde_json`.
#[verifier::external_type_specification]
#[verifier::external_body]
pub struct ExValue(serde_json::Value);

/// What a value of `serde_json` holds, and how it prints.
pub uninterp spec fn value_model(value: serde_json::Value) -> JsonModel;

/// What `serde_json::from_str` makes of a text: the value it reads, or its
/// error message.
pub uninterp spec fn json_of_text(text: Seq<char>) -> Result<JsonModel, Seq<char>>;

/// One level of a value of `serde_json`.
pub enum Level<'a> {
    Null,
    Bool(bool),
    Number(Option<i64>),
    Str(&'a String),
    Array(&'a Vec<Value>),
    Object(Vec<(&'a String, &'a Value)>),
}

/// The models of the items of an array of `serde_json`.
pub open spec fn value_models(items: Seq<Value>) -> Seq<JsonModel> {
    items.map_values(|item: Value| value_model(item))
}

/// The models of the entries of an object of `serde_json`.
pub open spec fn entry_models(entries: Seq<(&String, &Value)>) -> Seq<(Seq<char>, JsonModel)> {
    entries.map_values(|entry: (&String, &Value)| (entry.0@, value_model(*entry.1)))
}

/// The model of one level.
pub open spec fn level_model(level: Level) -> KindModel {
    match level {
        Level::Null => KindModel::Null,
        Level::Bool(b) => KindModel::Bool(b),
        Level::Number(n) => KindModel::Number(n),
        Level::Str(s) => KindModel::Str(s@),
        Level::Array(items) => KindModel::Array(value_models(items@)),
        Level::Object(entries) => KindModel::Object(entry_models(entries@)),
    }
}

/// `serde_json::from_str` for a [`Value`]: it reads the value that
/// [`json_of_text`] names, or fails with the message named there, which is the
/// `Display` of its error.
#[verifier::external_body]
fn value_from_text(text: &str) -> (r: Result<Value, String>)
    ensures
        match r {
            Ok(value) => json_of_text(text@) == Ok::<JsonModel, Seq<char>>(value_model(value)),
            Err(message) => json_of_text(text@) == Err::<JsonModel, Seq<char>>(message@),
        },
{
    match serde_json::from_str::<Value>(text) {
        Ok(value) => Ok(value),
        Err(error) => Err(error.to_string()),
    }
}

/// The `Display` of a [`Value`]: its text as compact JSON.
#[verifier::external_body]
fn value_text(value: &Value) -> (r: String)
    ensures
        r@ == value_model(*value).text,
{
    value.to_string()
}

/// The variants of [`Value`], told apart, with what each holds. A number gives
/// what `Number::as_i64` gives: the number itself where it is an integer that an
/// `i64` holds. The entries of an object come as `Map::iter` gives them, in
/// ascending order of their keys, because the map is a `BTreeMap`.
#[verifier::external_body]
fn value_level<'a>(value: &'a Value) -> (r: Level<'a>)
    ensures
        level_model(r) == value_model(*value).kind,
        r matches Level::Object(entries) ==> ascending(entry_models(entries@)),
{
    match value {
        Value::Null => Level::Null,
        Value::Bool(b) => Level::Bool(*b),
        Value::Number(n) => Level::Number(n.as_i64()),
        Value::String(s) => Level::Str(s),
        Value::Array(items) => Level::Array(items),
        Value::Object(map) => Level::Object(map.iter().collect()),
    }
}

/// Copies a value of `serde_json` into the library's own tree.
fn read_value(value: &Value) -> (r: Json)
    ensures
        r@ == value_model(*value),
    decreases value_model(*value),
{
    broadcast use lemma_model_of_a_value;

    let ghost model = value_model(*value);
    let kind = match value_level(value) {
        Level::Null => Kind::Null,
        Level::Bool(b) => Kind::Bool(b),
        Level::Number(n) => Kind::Number(n),
        Level::Str(s) => Kind::Str(s.clone()),
        Level::Array(items) => {
            let mut list: Vec<Json> = Vec::new();
            let mut i: usize = 0;
            while i < items.len()
                invariant
                    i <= items@.len(),
                    model == value_model(*value),
                    model.kind == KindModel::Array(value_models(items@)),
                    models(list@) == value_models(items@).take(i as int),
                decreases items@.len() - i,
            {
                assert(decreases_to!(model => model.kind->Array_0[i as int]));
                assert(model.kind->Array_0[i as int] == value_model(items@[i as int]));
                let item = read_value(&items[i]);
                let ghost before_push = models(list@);
                list.push(item);
                i = i + 1;
                assert(models(list@) == before_push.push(value_model(items@[i - 1])));
                assert(value_models(items@).take(i as int) == value_models(items@).take(
                    i - 1,
                ).push(value_model(items@[i - 1])));
            }
            assert(value_models(items@).take(i as int) == value_models(items@));
            Kind::Array(list)
        },
        Level::Object(entries) => {
            let mut map: SortedMap<Json> = SortedMap::new();
            let mut i: usize = 0;
            let ghost all = entry_models(entries@);
            assert(all.take(0) == Seq::<(Seq<char>, JsonModel)>::empty());
            while i < entries.len()
                invariant
                    i <= entries@.len(),
                    model == value_model(*value),
                    all == entry_models(entries@),
                    model.kind == KindModel::Object(all),
                    ascending(all),
                    map@ == all.take(i as int),
                decreases entries@.len() - i,
            {
                assert(decreases_to!(model => model.kind->Object_0[i as int].1));
                assert(all[i as int].1 == value_model(*entries@[i as int].1));
                let item = read_value(entries[i].1);
                proof {
                    assert forall|k: int| 0 <= k < map@.len() implies before(
                        #[trigger] map@[k].0,
                        all[i as int].0,
                    ) by {
                        assert(map@[k] == all[k]);
                    }
                    lemma_inserted_at_the_end(map@, all[i as int].0, all[i as int].1);
                }
                map.insert(entries[i].0.clone(), item);
                i = i + 1;
                assert(all.take(i as int) == all.take(i - 1).push(all[i - 1]));
            }
            assert(all.take(i as int) == all);
            Kind::Object(map)
        },
    };
    Json { kind, text: value_text(value) }
}

/// A value that was read or the message of the reader, by their models.
pub open spec fn json_result(r: Result<Json, String>) -> Result<JsonModel, Seq<char>> {
    match r {
        Ok(value) => Ok(value@),
        Err(message) => Err(message@),
    }
}

/// Reads a configuration value from JSON text.
pub fn parse_json(text: &str) -> (r: Result<Json, String>)
    ensures
        json_result(r) == json_of_text(text@),
{
    match value_from_text(text) {
        Ok(value) => Ok(read_value(&value)),
        Err(message) => Err(message),
    }
}

} // verus!
