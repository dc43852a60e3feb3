//! Reading the keys of the `android` block.

use crate::blocks::{read_int, read_list, read_string, required_int, required_list, required_string};
use crate::json::{lemma_model_of_a_value, Json, JsonModel};
use crate::sdk::{choose_sdk_root, sdk_root};
use crate::text::{plain_result, text_result, texts_result};
use vstd::prelude::*;

verus! {

/// A key of the block does not hold what it must.
pub open spec fn key_fault(key: Seq<char>, demand: Seq<char>, found: Seq<char>) -> Seq<char> {
    "the 'android' block key '"@ + key + demand + found
}

/// The optional boolean under `key`; a missing key is false.
pub open spec fn flag(android: JsonModel, key: Seq<char>) -> Result<bool, Seq<char>> {
    match android.get(key) {
        None => Ok(false),
        Some(value) => match value.as_bool() {
            Some(b) => Ok(b),
            None => Err(key_fault(key, "' must be true or false, got "@, value.text)),
        },
    }
}

/// The optional integer under `key`.
pub open spec fn optional_integer(android: JsonModel, key: Seq<char>) -> Result<
    Option<i64>,
    Seq<char>,
> {
    match android.get(key) {
        None => Ok(None),
        Some(value) => match value.as_i64() {
            Some(n) => Ok(Some(n)),
            None => Err(key_fault(key, "' must be an integer, found "@, value.text)),
        },
    }
}

/// A key of the block does not hold what it must.
fn key_message(key: &str, demand: &str, found: &str) -> (r: String)
    ensures
        r@ == key_fault(key@, demand@, found@),
{
    let mut message = "the 'android' block key '".to_owned();
    message.append(key);
    message.append(demand);
    message.append(found);
    message
}

/// Reads a required string-list key of the module block, erroring when the key
/// is absent or holds a non-string entry.
pub fn string_list(android: &Json, key: &str) -> (r: Result<Vec<String>, String>)
    ensures
        texts_result(r) == required_list(android@, "android"@, key@),
{
    read_list(android, "android", key)
}

/// Reads a required string key of the module block, erroring when the key is
/// absent or holds a non-string value.
pub fn string_value(android: &Json, key: &str) -> (r: Result<String, String>)
    ensures
        text_result(r) == required_string(android@, "android"@, key@),
{
    read_string(android, "android", key)
}

/// Reads a required integer key of the module block, erroring when the key is
/// absent or holds a non-number.
pub fn int_value(android: &Json, key: &str) -> (r: Result<i64, String>)
    ensures
        plain_result(r) == required_int(android@, "android"@, key@),
{
    read_int(android, "android", key)
}

/// Reads an optional boolean key, `false` when absent; a value that is no
/// boolean is an error.
pub fn bool_value(android: &Json, key: &str) -> (r: Result<bool, String>)
    ensures
        plain_result(r) == flag(android@, key@),
{
    broadcast use lemma_model_of_a_value;

    match android.get(key) {
        None => Ok(false),
        Some(value) => match value.as_bool() {
            Some(b) => Ok(b),
            None => Err(key_message(key, "' must be true or false, got ", value.text.as_str())),
        },
    }
}

/// Reads an optional integer key: nothing when the key is absent, an error when
/// a supplied value is not an integer.
pub fn optional_int(android: &Json, key: &str) -> (r: Result<Option<i64>, String>)
    ensures
        plain_result(r) == optional_integer(android@, key@),
{
    broadcast use lemma_model_of_a_value;

    match android.get(key) {
        None => Ok(None),
        Some(value) => match value.as_i64() {
            Some(n) => Ok(Some(n)),
            None => Err(key_message(key, "' must be an integer, found ", value.text.as_str())),
        },
    }
}

/// The SDK root the build uses: the block's `sdkDir` when set, resolved against
/// the project directory, otherwise the root the host supplies as
/// `androidSdkDir`. Both missing is an error.
pub fn resolve_sdk_root(config: &Json, android: &Json, project_dir: &str) -> (r: Result<
    String,
    String,
>)
    ensures
        text_result(r) == sdk_root(config@, android@.str_at("sdkDir"@), project_dir@),
{
    choose_sdk_root(config, android.str_at("sdkDir"), project_dir)
}

} // verus!
