//! Reading the keys of a configuration block.

use crate::json::{models, Json, JsonModel};
use crate::text::{no_texts, plain_result, push_text, text_result, texts, texts_result};
use vstd::prelude::*;

verus! {

/// Every item's text, where all items are strings.
pub open spec fn strings_of(items: Seq<JsonModel>) -> Option<Seq<Seq<char>>> {
    if forall|i: int| 0 <= i < items.len() ==> (#[trigger] items[i]).as_str() is Some {
        Some(items.map_values(|item: JsonModel| item.as_str()->0))
    } else {
        None
    }
}

/// The texts of the items that are strings, in order.
pub open spec fn kept_strings(items: Seq<JsonModel>) -> Seq<Seq<char>>
    decreases items.len(),
{
    if items.len() == 0 {
        seq![]
    } else {
        let kept = kept_strings(items.drop_last());
        match items.last().as_str() {
            Some(s) => kept.push(s),
            None => kept,
        }
    }
}

/// The jars of one bucket of a resolved classpath; a missing bucket is empty,
/// and entries that are not strings are passed over.
pub open spec fn bucket_of(classpath: JsonModel, bucket: Seq<char>) -> Seq<Seq<char>> {
    match classpath.array_at(bucket) {
        Some(items) => kept_strings(items),
        None => seq![],
    }
}

/// The jars of one bucket of the module's resolved classpath.
pub open spec fn module_classpath(config: JsonModel, bucket: Seq<char>) -> Seq<Seq<char>> {
    match config.get("classpath"@) {
        Some(classpath) => bucket_of(classpath, bucket),
        None => seq![],
    }
}

/// A required list of strings is missing, or is no list.
pub open spec fn missing_list(owner: Seq<char>, key: Seq<char>) -> Seq<char> {
    "the '"@ + owner + "' block is missing a '"@ + key + "' list"@
}

/// A required string is missing, or is no string.
pub open spec fn missing_string(owner: Seq<char>, key: Seq<char>) -> Seq<char> {
    "the '"@ + owner + "' block is missing a '"@ + key + "' string"@
}

/// A required integer is missing, or is no integer.
pub open spec fn missing_number(owner: Seq<char>, key: Seq<char>) -> Seq<char> {
    "the '"@ + owner + "' block is missing a numeric '"@ + key + "'"@
}

/// A list holds something that is no string.
pub open spec fn entry_not_a_string(key: Seq<char>) -> Seq<char> {
    "a '"@ + key + "' entry is not a string"@
}

/// The required list of strings under `key`.
pub open spec fn required_list(block: JsonModel, owner: Seq<char>, key: Seq<char>) -> Result<
    Seq<Seq<char>>,
    Seq<char>,
> {
    match block.array_at(key) {
        None => Err(missing_list(owner, key)),
        Some(items) => match strings_of(items) {
            None => Err(entry_not_a_string(key)),
            Some(list) => Ok(list),
        },
    }
}

/// The required string under `key`.
pub open spec fn required_string(block: JsonModel, owner: Seq<char>, key: Seq<char>) -> Result<
    Seq<char>,
    Seq<char>,
> {
    match block.str_at(key) {
        None => Err(missing_string(owner, key)),
        Some(s) => Ok(s),
    }
}

/// The required integer under `key`.
pub open spec fn required_int(block: JsonModel, owner: Seq<char>, key: Seq<char>) -> Result<
    i64,
    Seq<char>,
> {
    match block.i64_at(key) {
        None => Err(missing_number(owner, key)),
        Some(n) => Ok(n),
    }
}

/// What is wrong with an optional list of strings.
#[derive(Clone, Copy, PartialEq, Eq, Structural, Debug)]
pub enum ListFault {
    NotAList,
    EntryNotAString,
}

/// The optional list of strings under `key`; a missing key is an empty list.
pub open spec fn optional_list(block: JsonModel, key: Seq<char>) -> Result<
    Seq<Seq<char>>,
    ListFault,
> {
    match block.get(key) {
        None => Ok(seq![]),
        Some(value) => match value.as_array() {
            None => Err(ListFault::NotAList),
            Some(items) => match strings_of(items) {
                None => Err(ListFault::EntryNotAString),
                Some(list) => Ok(list),
            },
        },
    }
}

/// Every item's text, where all items are strings.
pub fn read_strings(items: &[Json]) -> (r: Option<Vec<String>>)
    ensures
        match r {
            Some(list) => strings_of(models(items@)) == Some(texts(list@)),
            None => strings_of(models(items@)) is None,
        },
{
    let ghost all = models(items@);
    let mut list = no_texts();
    let mut i: usize = 0;
    while i < items.len()
        invariant
            i <= items@.len(),
            all == models(items@),
            forall|k: int| 0 <= k < i ==> (#[trigger] all[k]).as_str() is Some,
            texts(list@) == all.take(i as int).map_values(|item: JsonModel| item.as_str()->0),
        decreases items@.len() - i,
    {
        assert(all[i as int] == items@[i as int]@);
        match items[i].as_str() {
            Some(s) => {
                push_text(&mut list, s);
            },
            None => {
                return None;
            },
        }
        i = i + 1;
        assert(all.take(i as int) == all.take(i - 1).push(all[i - 1]));
        assert(texts(list@) =~= all.take(i as int).map_values(
            |item: JsonModel| item.as_str()->0,
        ));
    }
    assert(all.take(i as int) == all);
    Some(list)
}

/// The texts of the items that are strings, in order.
pub fn keep_strings(items: &[Json]) -> (r: Vec<String>)
    ensures
        texts(r@) == kept_strings(models(items@)),
{
    let ghost all = models(items@);
    let mut list = no_texts();
    let mut i: usize = 0;
    while i < items.len()
        invariant
            i <= items@.len(),
            all == models(items@),
            texts(list@) == kept_strings(all.take(i as int)),
        decreases items@.len() - i,
    {
        assert(all[i as int] == items@[i as int]@);
        match items[i].as_str() {
            Some(s) => {
                push_text(&mut list, s);
            },
            None => {},
        }
        i = i + 1;
        assert(all.take(i as int).drop_last() == all.take(i - 1));
    }
    assert(all.take(i as int) == all);
    list
}

/// The jars of one bucket of a resolved classpath.
pub fn read_bucket(classpath: &Json, bucket: &str) -> (r: Vec<String>)
    ensures
        texts(r@) == bucket_of(classpath@, bucket@),
{
    match classpath.array_at(bucket) {
        Some(items) => keep_strings(items),
        None => no_texts(),
    }
}

/// The host-resolved jars of one classpath bucket of the module (`compile`,
/// `testCompile`, ...).
pub fn classpath_bucket(config: &Json, bucket: &str) -> (r: Vec<String>)
    ensures
        texts(r@) == module_classpath(config@, bucket@),
{
    match config.get("classpath") {
        Some(classpath) => read_bucket(classpath, bucket),
        None => no_texts(),
    }
}

/// Reads a required list of strings of the block called `owner`.
pub fn read_list(block: &Json, owner: &str, key: &str) -> (r: Result<Vec<String>, String>)
    ensures
        texts_result(r) == required_list(block@, owner@, key@),
{
    match block.array_at(key) {
        None => {
            let mut message = "the '".to_owned();
            message.append(owner);
            message.append("' block is missing a '");
            message.append(key);
            message.append("' list");
            Err(message)
        },
        Some(items) => match read_strings(items) {
            None => {
                let mut message = "a '".to_owned();
                message.append(key);
                message.append("' entry is not a string");
                Err(message)
            },
            Some(list) => Ok(list),
        },
    }
}

/// Reads a required string of the block called `owner`.
pub fn read_string(block: &Json, owner: &str, key: &str) -> (r: Result<String, String>)
    ensures
        text_result(r) == required_string(block@, owner@, key@),
{
    match block.str_at(key) {
        None => {
            let mut message = "the '".to_owned();
            message.append(owner);
            message.append("' block is missing a '");
            message.append(key);
            message.append("' string");
            Err(message)
        },
        Some(s) => Ok(s.to_owned()),
    }
}

/// A required integer is missing, or is no integer.
pub fn missing_number_message(owner: &str, key: &str) -> (r: String)
    ensures
        r@ == missing_number(owner@, key@),
{
    let mut message = "the '".to_owned();
    message.append(owner);
    message.append("' block is missing a numeric '");
    message.append(key);
    message.append("'");
    message
}

/// Reads a required integer of the block called `owner`.
pub fn read_int(block: &Json, owner: &str, key: &str) -> (r: Result<i64, String>)
    ensures
        plain_result(r) == required_int(block@, owner@, key@),
{
    match block.i64_at(key) {
        None => Err(missing_number_message(owner, key)),
        Some(n) => Ok(n),
    }
}

/// Reads an optional list of strings.
pub fn read_optional_list(block: &Json, key: &str) -> (r: Result<Vec<String>, ListFault>)
    ensures
        match r {
            Ok(list) => optional_list(block@, key@) == Ok::<Seq<Seq<char>>, ListFault>(
                texts(list@),
            ),
            Err(fault) => optional_list(block@, key@) == Err::<Seq<Seq<char>>, ListFault>(fault),
        },
{
    match block.get(key) {
        None => Ok(no_texts()),
        Some(value) => match value.as_array() {
            None => Err(ListFault::NotAList),
            Some(items) => match read_strings(items) {
                None => Err(ListFault::EntryNotAString),
                Some(list) => Ok(list),
            },
        },
    }
}

} // verus!
