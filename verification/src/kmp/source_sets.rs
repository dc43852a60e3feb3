//! The entries of the `kmp` block: source sets and targets.

use crate::blocks::{optional_list, read_optional_list, ListFault};
use crate::json::{Json, JsonModel, SortedMap};
use crate::kmp::classpath::names_of;
use crate::text::{concat3, extend_texts, no_texts, plain_result, same_text, texts, texts_result};
use vstd::prelude::*;

verus! {

/// The source sets of the JVM target.
pub open spec fn jvm_sets() -> Seq<Seq<char>> {
    seq!["commonMain"@, "jvmMain"@]
}

/// The test source sets of the JVM target.
pub open spec fn jvm_test_sets() -> Seq<Seq<char>> {
    seq!["commonTest"@, "jvmTest"@]
}

/// The source sets of the Android target.
pub open spec fn android_sets() -> Seq<Seq<char>> {
    seq!["commonMain"@, "androidMain"@]
}

/// The name of a source set that some target compiles.
pub open spec fn is_supported_set(name: Seq<char>) -> bool {
    jvm_sets().contains(name) || jvm_test_sets().contains(name) || android_sets().contains(name)
}

/// The name of a target, whether or not it is implemented.
pub open spec fn is_known_target(name: Seq<char>) -> bool {
    name == "jvm"@ || name == "android"@ || name == "ios"@ || name == "desktop"@ || name
        == "native"@ || name == "wasm"@
}

/// A block that declares sources or dependencies is a source set.
pub open spec fn is_source_set(block: JsonModel) -> bool {
    block.get("sources"@) is Some || block.get("deps"@) is Some
}

/// A sentence about one entry of the block.
pub open spec fn about_entry(name: Seq<char>, rest: Seq<char>) -> Seq<char> {
    "the 'kmp."@ + name + rest
}

/// An entry is a supported source set or a known target; anything else is
/// reported, so that a misspelled block is never passed over.
pub open spec fn checked_entry(name: Seq<char>, block: JsonModel) -> Result<(), Seq<char>> {
    if block.as_object() is None {
        Err(about_entry(name, "' entry is not a block"@))
    } else if is_source_set(block) {
        if is_supported_set(name) {
            Ok(())
        } else {
            Err(
                about_entry(
                    name,
                    "' source set is not supported (commonMain, jvmMain, androidMain, commonTest, jvmTest)"@,
                ),
            )
        }
    } else if is_known_target(name) {
        Ok(())
    } else {
        Err(
            about_entry(
                name,
                "' entry is neither a source set (a block with a 'sources' or 'deps' key) nor a known target (jvm, android, ios, desktop, native, wasm)"@,
            ),
        )
    }
}

/// Every entry is a supported source set or a known target; the first that is
/// neither is reported.
pub open spec fn checked_entries(entries: Seq<(Seq<char>, JsonModel)>) -> Result<(), Seq<char>>
    decreases entries.len(),
{
    if entries.len() == 0 {
        Ok(())
    } else {
        match checked_entry(entries[0].0, entries[0].1) {
            Err(e) => Err(e),
            Ok(()) => checked_entries(entries.drop_first()),
        }
    }
}

/// A target other than `jvm` and `android`.
pub open spec fn is_unimplemented(name: Seq<char>, block: JsonModel) -> bool {
    !is_source_set(block) && name != "jvm"@ && name != "android"@
}

/// Every target is implemented; the first that is not is reported.
pub open spec fn checked_targets(entries: Seq<(Seq<char>, JsonModel)>) -> Result<(), Seq<char>>
    decreases entries.len(),
{
    if entries.len() == 0 {
        Ok(())
    } else if is_unimplemented(entries[0].0, entries[0].1) {
        Err(about_entry(entries[0].0, "' target is not implemented"@))
    } else {
        checked_targets(entries.drop_first())
    }
}

/// The optional list of strings under `key` of a block.
pub open spec fn block_list(block: JsonModel, key: Seq<char>) -> Result<
    Seq<Seq<char>>,
    Seq<char>,
> {
    match optional_list(block, key) {
        Ok(list) => Ok(list),
        Err(ListFault::NotAList) => Err("the block's '"@ + key + "' is not a list"@),
        Err(ListFault::EntryNotAString) => Err("a '"@ + key + "' entry is not a string"@),
    }
}

/// The sources of the named source sets, one set after another; the first list
/// that is wrong is reported.
pub open spec fn collected_sources(
    entries: Seq<(Seq<char>, JsonModel)>,
    names: Seq<Seq<char>>,
) -> Result<Seq<Seq<char>>, Seq<char>>
    decreases entries.len(),
{
    if entries.len() == 0 {
        Ok(seq![])
    } else {
        match collected_sources(entries.drop_last(), names) {
            Err(e) => Err(e),
            Ok(sources) => {
                let (name, block) = entries.last();
                if names.contains(name) {
                    match block_list(block, "sources"@) {
                        Err(e) => Err(e),
                        Ok(list) => Ok(sources + list),
                    }
                } else {
                    Ok(sources)
                }
            },
        }
    }
}

/// What is wrong with the sources of the front entries is what is wrong with all.
proof fn lemma_fault_stays(
    entries: Seq<(Seq<char>, JsonModel)>,
    names: Seq<Seq<char>>,
    n: int,
)
    requires
        0 <= n <= entries.len(),
        collected_sources(entries.take(n), names) is Err,
    ensures
        collected_sources(entries, names) == collected_sources(entries.take(n), names),
    decreases entries.len() - n,
{
    if n < entries.len() {
        assert(entries.take(n + 1).drop_last() == entries.take(n));
        lemma_fault_stays(entries, names, n + 1);
    } else {
        assert(entries.take(n) == entries);
    }
}

/// Each entry of a block that passes is a block, and either a supported source
/// set or a target.
pub proof fn law_each_entry_is_recognized(entries: Seq<(Seq<char>, JsonModel)>, i: int)
    requires
        checked_entries(entries) is Ok,
        0 <= i < entries.len(),
    ensures
        entries[i].1.as_object() is Some,
        is_source_set(entries[i].1) ==> is_supported_set(entries[i].0),
        !is_source_set(entries[i].1) ==> is_known_target(entries[i].0),
    decreases entries.len(),
{
    if i > 0 {
        assert(entries.drop_first()[i - 1] == entries[i]);
        law_each_entry_is_recognized(entries.drop_first(), i - 1);
    }
}

/// Two names.
fn pair<'a>(a: &'a str, b: &'a str) -> (r: Vec<&'a str>)
    ensures
        names_of(r@) == seq![a@, b@],
{
    let mut r: Vec<&'a str> = Vec::new();
    r.push(a);
    r.push(b);
    assert(names_of(r@) =~= seq![a@, b@]);
    r
}

/// The source sets of the JVM target.
pub fn jvm_set_names() -> (r: Vec<&'static str>)
    ensures
        names_of(r@) == jvm_sets(),
{
    pair("commonMain", "jvmMain")
}

/// The test source sets of the JVM target.
pub fn jvm_test_set_names() -> (r: Vec<&'static str>)
    ensures
        names_of(r@) == jvm_test_sets(),
{
    pair("commonTest", "jvmTest")
}

/// The source sets of the Android target.
pub fn android_set_names() -> (r: Vec<&'static str>)
    ensures
        names_of(r@) == android_sets(),
{
    pair("commonMain", "androidMain")
}

/// Whether a list of names holds a name.
fn holds_name(names: &[&str], name: &str) -> (r: bool)
    ensures
        r == names_of(names@).contains(name@),
{
    let mut i: usize = 0;
    while i < names.len()
        invariant
            i <= names@.len(),
            forall|k: int| 0 <= k < i ==> names_of(names@)[k] != name@,
        decreases names@.len() - i,
    {
        if same_text(names[i], name) {
            assert(names_of(names@)[i as int] == name@);
            return true;
        }
        i = i + 1;
    }
    false
}

/// Whether some target compiles the source set of this name.
fn supports_set(name: &str) -> (r: bool)
    ensures
        r == is_supported_set(name@),
{
    holds_name(&jvm_set_names(), name) || holds_name(&jvm_test_set_names(), name) || holds_name(
        &android_set_names(),
        name,
    )
}

/// Whether a name is that of a target.
fn knows_target(name: &str) -> (r: bool)
    ensures
        r == is_known_target(name@),
{
    same_text(name, "jvm") || same_text(name, "android") || same_text(name, "ios") || same_text(
        name,
        "desktop",
    ) || same_text(name, "native") || same_text(name, "wasm")
}

/// Whether a block is a source set.
fn declares_source_set(block: &Json) -> (r: bool)
    ensures
        r == is_source_set(block@),
{
    block.get("sources").is_some() || block.get("deps").is_some()
}

/// Checks one entry of the block.
fn check_entry(name: &str, block: &Json) -> (r: Result<(), String>)
    ensures
        plain_result(r) == checked_entry(name@, block@),
{
    match block.as_object() {
        None => return Err(concat3("the 'kmp.", name, "' entry is not a block")),
        Some(_) => {},
    }
    if declares_source_set(block) {
        if supports_set(name) {
            Ok(())
        } else {
            Err(
                concat3(
                    "the 'kmp.",
                    name,
                    "' source set is not supported (commonMain, jvmMain, androidMain, commonTest, jvmTest)",
                ),
            )
        }
    } else if knows_target(name) {
        Ok(())
    } else {
        Err(
            concat3(
                "the 'kmp.",
                name,
                "' entry is neither a source set (a block with a 'sources' or 'deps' key) nor a known target (jvm, android, ios, desktop, native, wasm)",
            ),
        )
    }
}

/// Checks that every entry is a supported source set or a known target.
pub fn check_entries(entries: &SortedMap<Json>) -> (r: Result<(), String>)
    ensures
        plain_result(r) == checked_entries(entries@),
{
    let ghost all = entries@;
    let count: usize = entries.len();
    let mut i: usize = 0;
    assert(all.skip(0) == all);
    while i < count
        invariant
            i <= count,
            all == entries@,
            count == all.len(),
            checked_entries(all) == checked_entries(all.skip(i as int)),
        decreases count - i,
    {
        assert(all.skip(i as int)[0] == all[i as int]);
        match check_entry(entries.key_at(i).as_str(), entries.value_at(i)) {
            Ok(()) => {},
            Err(e) => return Err(e),
        }
        assert(all.skip(i as int).drop_first() == all.skip(i + 1));
        i = i + 1;
    }
    Ok(())
}

/// Checks that every target is implemented.
pub fn check_targets(entries: &SortedMap<Json>) -> (r: Result<(), String>)
    ensures
        plain_result(r) == checked_targets(entries@),
{
    let ghost all = entries@;
    let count: usize = entries.len();
    let mut i: usize = 0;
    assert(all.skip(0) == all);
    while i < count
        invariant
            i <= count,
            all == entries@,
            count == all.len(),
            checked_targets(all) == checked_targets(all.skip(i as int)),
        decreases count - i,
    {
        assert(all.skip(i as int)[0] == all[i as int]);
        let name = entries.key_at(i).as_str();
        if !declares_source_set(entries.value_at(i)) && !same_text(name, "jvm") && !same_text(
            name,
            "android",
        ) {
            return Err(concat3("the 'kmp.", name, "' target is not implemented"));
        }
        assert(all.skip(i as int).drop_first() == all.skip(i + 1));
        i = i + 1;
    }
    Ok(())
}

/// Reads an optional string-list key of a block: a missing key is an empty list,
/// anything but a list of strings is an error.
pub fn optional_string_list(block: &Json, key: &str) -> (r: Result<Vec<String>, String>)
    ensures
        texts_result(r) == block_list(block@, key@),
{
    match read_optional_list(block, key) {
        Ok(list) => Ok(list),
        Err(ListFault::NotAList) => Err(concat3("the block's '", key, "' is not a list")),
        Err(ListFault::EntryNotAString) => Err(concat3("a '", key, "' entry is not a string")),
    }
}

/// Collects the sources of the named source sets.
pub fn collect_sources(entries: &SortedMap<Json>, names: &[&str]) -> (r: Result<
    Vec<String>,
    String,
>)
    ensures
        texts_result(r) == collected_sources(entries@, names_of(names@)),
{
    let ghost all = entries@;
    let ghost wanted = names_of(names@);
    let mut sources = no_texts();
    let count: usize = entries.len();
    let mut i: usize = 0;
    while i < count
        invariant
            i <= count,
            all == entries@,
            count == all.len(),
            wanted == names_of(names@),
            collected_sources(all.take(i as int), wanted) == Ok::<_, Seq<char>>(texts(sources@)),
        decreases count - i,
    {
        assert(all.take(i + 1).drop_last() == all.take(i as int));
        assert(all.take(i + 1).last() == all[i as int]);
        if holds_name(names, entries.key_at(i).as_str()) {
            match optional_string_list(entries.value_at(i), "sources") {
                Ok(list) => extend_texts(&mut sources, &list),
                Err(e) => {
                    proof {
                        lemma_fault_stays(all, wanted, i + 1);
                    }
                    return Err(e);
                },
            }
        }
        i = i + 1;
    }
    assert(all.take(i as int) == all);
    Ok(sources)
}

} // verus!
