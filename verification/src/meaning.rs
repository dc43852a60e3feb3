//! What laws about plans speak of: what a configuration lists, and what a task
//! tells its tool.

use crate::blocks::{bucket_of, kept_strings, module_classpath, strings_of};
use crate::json::JsonModel;
use crate::task::{ActionModel, AllowlistedTool, TaskModel};
use crate::text::{ends_with, joined};
use vstd::prelude::*;

verus! {

/// The value under `key`, where there is a block to look in.
pub open spec fn at(block: Option<JsonModel>, key: Seq<char>) -> Option<JsonModel> {
    match block {
        Some(block) => block.get(key),
        None => None,
    }
}

/// The strings of a list, in order; nothing where there is no list.
pub open spec fn listing(value: Option<JsonModel>) -> Seq<Seq<char>> {
    match value {
        Some(value) => match value.as_array() {
            Some(items) => items.filter(|item: JsonModel| item.as_str() is Some).map_values(
                |item: JsonModel| item.as_str()->0,
            ),
            None => seq![],
        },
        None => seq![],
    }
}

/// The value is there, and is a list of strings alone.
pub open spec fn is_string_list(value: Option<JsonModel>) -> bool {
    &&& value matches Some(value)
    &&& value.as_array() matches Some(items)
    &&& forall|i: int| 0 <= i < items.len() ==> (#[trigger] items[i]).as_str() is Some
}

/// Every path ends in `.java` or in `.kt`.
pub open spec fn are_sources(paths: Seq<Seq<char>>) -> bool {
    forall|i: int|
        0 <= i < paths.len() ==> ends_with(#[trigger] paths[i], ".java"@) || ends_with(
            paths[i],
            ".kt"@,
        )
}

/// The jars that the module's resolved classpath has in a bucket.
pub open spec fn module_jars(config: JsonModel, bucket: Seq<char>) -> Seq<Seq<char>> {
    listing(at(config.get("classpath"@), bucket))
}

/// The jars that a source set's resolved classpath has in a bucket.
pub open spec fn set_jars(config: JsonModel, set: Seq<char>, bucket: Seq<char>) -> Seq<Seq<char>> {
    listing(at(at(config.get("classpathSourceSets"@), "kmp."@ + set), bucket))
}

/// The names of a module's build types: those it declares, or `debug` and
/// `release`.
pub open spec fn type_names(config: JsonModel) -> Seq<Seq<char>> {
    match config.get("buildTypes"@) {
        Some(block) => block.as_object()->0.map_values(|entry: (Seq<char>, JsonModel)| entry.0),
        None => seq!["debug"@, "release"@],
    }
}

/// The flavors that a module declares, each with its block.
pub open spec fn flavor_blocks(config: JsonModel) -> Seq<(Seq<char>, JsonModel)> {
    match config.get("productFlavors"@) {
        Some(block) => block.as_object()->0.filter(
            |entry: (Seq<char>, JsonModel)| entry.0 != "dimension"@,
        ),
        None => seq![],
    }
}

/// What a task hands to its tool; nothing where it runs none.
pub open spec fn arguments(task: TaskModel) -> Seq<Seq<char>> {
    match task.action {
        ActionModel::RunTool { args, .. } => args,
        ActionModel::WriteFile { .. } => seq![],
    }
}

/// The task runs a tool, where the host runs it.
pub open spec fn runs(task: TaskModel, tool: AllowlistedTool) -> bool {
    task.action matches ActionModel::RunTool { tool: own, cwd, .. } && own == tool && cwd == "."@
}

/// The task writes its only output.
pub open spec fn writes(task: TaskModel, contents: Seq<char>) -> bool {
    &&& task.inputs.len() == 0
    &&& task.outputs.len() == 1
    &&& task.action == ActionModel::WriteFile { path: task.outputs[0], contents }
}

/// The paths as one text, with colons between them.
pub open spec fn colon_list(paths: Seq<Seq<char>>) -> Seq<char> {
    joined(paths, ":"@)
}

/// A text is among those listed exactly when an item of the list is that string.
pub proof fn law_listing_holds_what_is_listed(items: Seq<JsonModel>, s: Seq<char>)
    ensures
        items.filter(|item: JsonModel| item.as_str() is Some).map_values(
            |item: JsonModel| item.as_str()->0,
        ).contains(s) <==> exists|k: int|
            0 <= k < items.len() && (#[trigger] items[k]).as_str() == Some(s),
{
    let strings = |item: JsonModel| item.as_str() is Some;
    let kept = items.filter(strings);
    let list = kept.map_values(|item: JsonModel| item.as_str()->0);
    if list.contains(s) {
        let i = list.index_of(s);
        assert(kept.contains(kept[i]));
        items.lemma_filter_contains_rev(strings, kept[i]);
        items.lemma_filter_pred(strings, i);
        let k = items.index_of(kept[i]);
        assert(items[k].as_str() == Some(s));
    }
    if exists|k: int| 0 <= k < items.len() && (#[trigger] items[k]).as_str() == Some(s) {
        let k = choose|k: int| 0 <= k < items.len() && (#[trigger] items[k]).as_str() == Some(s);
        items.lemma_filter_contains(strings, k);
        let i = kept.index_of(items[k]);
        assert(list[i] == s);
    }
}

/// The strings that are kept of a list are those listed.
pub proof fn lemma_kept_strings_are_listed(items: Seq<JsonModel>)
    ensures
        kept_strings(items) == items.filter(|item: JsonModel| item.as_str() is Some).map_values(
            |item: JsonModel| item.as_str()->0,
        ),
    decreases items.len(),
{
    reveal(Seq::filter);
    if items.len() > 0 {
        lemma_kept_strings_are_listed(items.drop_last());
    }
    assert(kept_strings(items) =~= items.filter(
        |item: JsonModel| item.as_str() is Some,
    ).map_values(|item: JsonModel| item.as_str()->0));
}

/// A list of strings alone loses nothing.
proof fn lemma_strings_are_all_kept(items: Seq<JsonModel>)
    requires
        forall|i: int| 0 <= i < items.len() ==> (#[trigger] items[i]).as_str() is Some,
    ensures
        items.filter(|item: JsonModel| item.as_str() is Some) == items,
    decreases items.len(),
{
    reveal(Seq::filter);
    if items.len() > 0 {
        assert forall|i: int| 0 <= i < items.len() - 1 implies (
        #[trigger] items.drop_last()[i]).as_str() is Some by {
            assert(items[i].as_str() is Some);
        }
        lemma_strings_are_all_kept(items.drop_last());
        assert(items[items.len() - 1].as_str() is Some);
        assert(items.drop_last().push(items.last()) =~= items);
    } else {
        assert(items =~= seq![]);
    }
}

/// Where all items are strings, all are listed.
pub proof fn lemma_strings_are_listed(items: Seq<JsonModel>)
    requires
        strings_of(items) is Some,
    ensures
        strings_of(items)->0 == items.filter(|item: JsonModel| item.as_str() is Some).map_values(
            |item: JsonModel| item.as_str()->0,
        ),
{
    lemma_strings_are_all_kept(items);
}

/// A bucket of a classpath is what it lists.
pub proof fn lemma_bucket_is_listed(classpath: JsonModel, bucket: Seq<char>)
    ensures
        bucket_of(classpath, bucket) == listing(classpath.get(bucket)),
{
    if let Some(items) = classpath.array_at(bucket) {
        lemma_kept_strings_are_listed(items);
    }
}

/// The module's classpath is what it lists.
pub proof fn lemma_module_classpath_is_listed(config: JsonModel, bucket: Seq<char>)
    ensures
        module_classpath(config, bucket) == module_jars(config, bucket),
{
    if let Some(classpath) = config.get("classpath"@) {
        lemma_bucket_is_listed(classpath, bucket);
    }
}

} // verus!
