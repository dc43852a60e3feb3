//! Which modules the `ulite/kmp` plugin accepts.

use crate::android::commands::{described_sdk, is_nowhere, is_plugin, lemma_first_is_first};
use crate::android::plan::compose_plugin;
use crate::json::{
    ascending, law_each_entry_is_found, law_found_value_is_an_entry, lookup, JsonModel,
};
use crate::jvm_acceptance::lemma_sources_pass_when_they_are_sources;
use crate::jvm_commands::{java_files, lemma_halves};
use crate::kmp::commands::{
    described_build, described_suite, described_target, law_targets_are_planned_one_after_the_other,
    lemma_set_names, lemma_two_sets, lemma_united_jars, set_sources,
};
use crate::kmp::plan::{
    android_target, android_target_plan, jvm_target, jvm_target_plan, jvm_test_tasks, kmp_plan,
    module_signer, parsed_plan, target_compile_tasks, target_packaging, target_tests,
};
use crate::kmp::source_sets::{
    android_sets, block_list, checked_entries, checked_entry, checked_targets, collected_sources,
    is_unimplemented, jvm_sets, jvm_test_sets,
};
use crate::kmp::variants::{flavor_names, module_variants};
use crate::meaning::{are_sources, at, flavor_blocks, is_string_list};
use crate::path::all_joined;
use crate::sdk::{highest_version, SdkModel};
use crate::sources::is_compose_compiler;
use crate::variants::{declared_dimension, flavor_dimension};
use vstd::prelude::*;

verus! {

/// The entry is a source set that some target compiles, or a target that is
/// implemented.
pub open spec fn is_entry(name: Seq<char>, block: JsonModel) -> bool {
    let sets = seq!["commonMain"@, "commonTest"@, "jvmMain"@, "jvmTest"@, "androidMain"@];
    &&& block.as_object() is Some
    &&& if block.get("sources"@) is Some || block.get("deps"@) is Some {
        sets.contains(name)
    } else {
        name == "jvm"@ || name == "android"@
    }
}

/// The source set is not there, lists no sources, or lists strings.
pub open spec fn lists_sources(kmp: JsonModel, set: Seq<char>) -> bool {
    at(kmp.get(set), "sources"@) is Some ==> is_string_list(at(kmp.get(set), "sources"@))
}

/// The configuration describes the main build of the JVM target.
pub open spec fn is_jvm_buildable(
    config: JsonModel,
    kmp: JsonModel,
    jvm: JsonModel,
    project_dir: Seq<char>,
) -> bool {
    let sources = described_build(config, kmp, jvm, project_dir).sources;
    &&& jvm.str_at("classesDir"@) is Some
    &&& jvm.str_at("jarFile"@) is Some
    &&& lists_sources(kmp, "commonMain"@)
    &&& lists_sources(kmp, "jvmMain"@)
    &&& sources.len() > 0
    &&& are_sources(sources)
}

/// The configuration describes no tests, or all of a suite.
pub open spec fn is_jvm_testable(
    config: JsonModel,
    kmp: JsonModel,
    jvm: JsonModel,
    project_dir: Seq<char>,
) -> bool {
    let sources = described_suite(config, kmp, jvm, project_dir).sources;
    jvm.str_at("testClassesDir"@) is Some ==> {
        &&& lists_sources(kmp, "commonTest"@)
        &&& lists_sources(kmp, "jvmTest"@)
        &&& are_sources(sources)
        &&& match (jvm.str_at("testClass"@), jvm.str_at("testRunner"@)) {
            (Some(_), None) => true,
            (None, Some(runner)) => runner == "junit-platform"@,
            _ => false,
        }
    }
}

/// The configuration describes an Android target whose sources the SDK can
/// compile: Kotlin alone, and the Compose compiler plugin where Compose is on.
pub open spec fn is_android_buildable(
    config: JsonModel,
    kmp: JsonModel,
    android: JsonModel,
    project_dir: Seq<char>,
    probe: SdkModel,
) -> bool {
    let target = described_target(config, kmp, android, project_dir);
    &&& android.i64_at("compileSdk"@) is Some
    &&& android.str_at("sdkDir"@) is Some || config.str_at("androidSdkDir"@) is Some
    &&& probe.platform_jar
    &&& lists_sources(kmp, "commonMain"@)
    &&& lists_sources(kmp, "androidMain"@)
    &&& target.sources.len() > 0
    &&& are_sources(target.sources)
    &&& java_files(target.sources).len() == 0
    &&& target.compose ==> !is_nowhere(target.jars, |jar: Seq<char>| is_plugin(jar))
}

/// The configuration describes variants: a level, build types, and flavors that
/// each have a dimension, their own or the common one.
pub open spec fn has_variants(config: JsonModel, android: JsonModel) -> bool {
    &&& android.i64_at("minSdk"@) is Some
    &&& config.get("buildTypes"@) matches Some(block) ==> block.as_object() is Some
    &&& config.get("productFlavors"@) matches Some(block) ==> block.as_object() is Some
    &&& forall|j: int|
        0 <= j < flavor_blocks(config).len() ==> {
            let block = (#[trigger] flavor_blocks(config)[j]).1;
            &&& block.as_object() is Some
            &&& block.str_at("dimension"@) is Some || (at(
                config.get("productFlavors"@),
                "dimension"@,
            ) matches Some(value) && value.as_str() is Some)
        }
}

/// The configuration describes how the APKs are packaged, and signed if at all.
pub open spec fn is_packageable(
    config: JsonModel,
    android: JsonModel,
    project_dir: Seq<char>,
    probe: SdkModel,
) -> bool {
    &&& has_variants(config, android)
    &&& highest_version(described_sdk(config, android, project_dir), probe.build_tools) is Ok
    &&& config.get("signing"@) matches Some(block) ==> block.str_at("storeFile"@) is Some
        && block.str_at("keyAlias"@) is Some
}

/// Entries pass exactly where each is a source set or an implemented target.
pub proof fn law_entries_pass_where_each_does(entries: Seq<(Seq<char>, JsonModel)>)
    ensures
        checked_entries(entries) is Ok && checked_targets(entries) is Ok <==> forall|i: int|
            0 <= i < entries.len() ==> is_entry((#[trigger] entries[i]).0, entries[i].1),
    decreases entries.len(),
{
    if entries.len() > 0 {
        let rest = entries.drop_first();
        let (name, block) = entries[0];
        law_entries_pass_where_each_does(rest);
        lemma_entry_passes(name, block);
        if forall|i: int|
            0 <= i < entries.len() ==> is_entry((#[trigger] entries[i]).0, entries[i].1) {
            assert forall|i: int| 0 <= i < rest.len() implies is_entry(
                (#[trigger] rest[i]).0,
                rest[i].1,
            ) by {
                assert(rest[i] == entries[i + 1]);
            }
        } else if is_entry(name, block) {
            let i = choose|i: int|
                0 <= i < entries.len() && !is_entry((#[trigger] entries[i]).0, entries[i].1);
            assert(rest[i - 1] == entries[i]);
        }
    }
}

/// An entry passes exactly where it is a source set or an implemented target.
proof fn lemma_entry_passes(name: Seq<char>, block: JsonModel)
    ensures
        checked_entry(name, block) is Ok && !is_unimplemented(name, block) <==> is_entry(
            name,
            block,
        ),
{
    let sets = seq!["commonMain"@, "commonTest"@, "jvmMain"@, "jvmTest"@, "androidMain"@];
    assert(sets[0] == "commonMain"@ && sets[1] == "commonTest"@ && sets[2] == "jvmMain"@);
    assert(sets[3] == "jvmTest"@ && sets[4] == "androidMain"@);
    assert(jvm_sets()[0] == "commonMain"@ && jvm_sets()[1] == "jvmMain"@);
    assert(jvm_test_sets()[0] == "commonTest"@ && jvm_test_sets()[1] == "jvmTest"@);
    assert(android_sets()[0] == "commonMain"@ && android_sets()[1] == "androidMain"@);
    assert(sets.contains(name) <==> jvm_sets().contains(name) || jvm_test_sets().contains(name)
        || android_sets().contains(name));
}

/// The first entry that is no block, no supported source set and no known target
/// is reported, whatever follows it.
pub proof fn law_first_wrong_entry_is_reported(entries: Seq<(Seq<char>, JsonModel)>, k: int)
    requires
        0 <= k < entries.len(),
        checked_entry(entries[k].0, entries[k].1) is Err,
        forall|i: int|
            0 <= i < k ==> checked_entry((#[trigger] entries[i]).0, entries[i].1) is Ok,
    ensures
        checked_entries(entries) == checked_entry(entries[k].0, entries[k].1),
    decreases k,
{
    if k > 0 {
        let rest = entries.drop_first();
        assert forall|i: int| 0 <= i < k - 1 implies checked_entry(
            (#[trigger] rest[i]).0,
            rest[i].1,
        ) is Ok by {
            assert(rest[i] == entries[i + 1]);
        }
        assert(checked_entry(entries[0].0, entries[0].1) is Ok);
        law_first_wrong_entry_is_reported(rest, k - 1);
    }
}

/// Sources are collected exactly where each named source set lists them.
proof fn lemma_sources_are_collected(
    entries: Seq<(Seq<char>, JsonModel)>,
    names: Seq<Seq<char>>,
)
    ensures
        collected_sources(entries, names) is Ok <==> forall|i: int|
            0 <= i < entries.len() && names.contains((#[trigger] entries[i]).0) ==> block_list(
                entries[i].1,
                "sources"@,
            ) is Ok,
    decreases entries.len(),
{
    if entries.len() > 0 {
        let front = entries.drop_last();
        lemma_sources_are_collected(front, names);
        if collected_sources(entries, names) is Ok {
            assert forall|i: int|
                0 <= i < entries.len() && names.contains((#[trigger] entries[i]).0) implies
                block_list(entries[i].1, "sources"@) is Ok by {
                if i < front.len() {
                    assert(front[i] == entries[i]);
                }
            }
        } else if collected_sources(front, names) is Err {
            let i = choose|i: int|
                0 <= i < front.len() && names.contains((#[trigger] front[i]).0) && block_list(
                    front[i].1,
                    "sources"@,
                ) is Err;
            assert(entries[i] == front[i]);
        } else {
            assert(names.contains(entries[entries.len() - 1].0));
        }
    }
}

/// The sources of two sets are collected exactly where both list them.
proof fn lemma_two_sets_are_collected(kmp: JsonModel, first: Seq<char>, second: Seq<char>)
    requires
        kmp.as_object() is Some,
        ascending(kmp.as_object()->0),
    ensures
        collected_sources(kmp.as_object()->0, seq![first, second]) is Ok <==> lists_sources(
            kmp,
            first,
        ) && lists_sources(kmp, second),
{
    let entries = kmp.as_object()->0;
    let names = seq![first, second];
    assert(names[0] == first && names[1] == second);
    lemma_sources_are_collected(entries, names);
    assert forall|set: Seq<char>| names.contains(set) && collected_sources(entries, names) is Ok
        implies lists_sources(kmp, set) by {
        law_found_value_is_an_entry(entries, set);
        if let Some(block) = lookup(entries, set) {
            let i = choose|i: int| 0 <= i < entries.len() && #[trigger] entries[i] == (set, block);
            assert(names.contains(entries[i].0));
        }
    }
    if collected_sources(entries, names) is Ok {
        assert(names.contains(first) && names.contains(second));
    } else {
        let i = choose|i: int|
            0 <= i < entries.len() && names.contains((#[trigger] entries[i]).0) && block_list(
                entries[i].1,
                "sources"@,
            ) is Err;
        law_each_entry_is_found(entries, i);
        assert(kmp.get(entries[i].0) == Some(entries[i].1));
        assert(!lists_sources(kmp, entries[i].0));
    }
}

/// The main build of the JVM target is read exactly where it is described.
proof fn lemma_jvm_target_is_read(
    config: JsonModel,
    kmp: JsonModel,
    jvm: JsonModel,
    project_dir: Seq<char>,
)
    requires
        kmp.as_object() is Some,
        ascending(kmp.as_object()->0),
    ensures
        jvm_target(config, kmp.as_object()->0, jvm, project_dir) is Ok <==> is_jvm_buildable(
            config,
            kmp,
            jvm,
            project_dir,
        ),
{
    let entries = kmp.as_object()->0;
    let list = set_sources(kmp, "commonMain"@) + set_sources(kmp, "jvmMain"@);
    lemma_two_sets_are_collected(kmp, "commonMain"@, "jvmMain"@);
    if collected_sources(entries, jvm_sets()) is Ok {
        lemma_set_names();
        lemma_two_sets(kmp, "commonMain"@, "jvmMain"@, jvm_sets());
        assert(all_joined(project_dir, list).len() == list.len());
        lemma_sources_pass_when_they_are_sources(all_joined(project_dir, list));
    }
}

/// The tests of the JVM target are planned exactly where they are described.
proof fn lemma_jvm_tests_are_planned(
    config: JsonModel,
    kmp: JsonModel,
    jvm: JsonModel,
    project_dir: Seq<char>,
)
    requires
        kmp.as_object() is Some,
        ascending(kmp.as_object()->0),
        jvm_target(config, kmp.as_object()->0, jvm, project_dir) is Ok,
    ensures
        jvm_test_tasks(
            config,
            kmp.as_object()->0,
            jvm,
            jvm_target(config, kmp.as_object()->0, jvm, project_dir)->Ok_0,
        ) is Ok <==> is_jvm_testable(config, kmp, jvm, project_dir),
{
    let entries = kmp.as_object()->0;
    let list = set_sources(kmp, "commonTest"@) + set_sources(kmp, "jvmTest"@);
    lemma_two_sets_are_collected(kmp, "commonTest"@, "jvmTest"@);
    if collected_sources(entries, jvm_test_sets()) is Ok {
        lemma_set_names();
        lemma_two_sets(kmp, "commonTest"@, "jvmTest"@, jvm_test_sets());
        lemma_sources_pass_when_they_are_sources(all_joined(project_dir, list));
    }
    assert(target_tests(entries, project_dir) is Ok <==> lists_sources(kmp, "commonTest"@)
        && lists_sources(kmp, "jvmTest"@) && are_sources(all_joined(project_dir, list)));
}

/// The Android target is read exactly where it is described.
proof fn lemma_android_target_is_read(
    config: JsonModel,
    kmp: JsonModel,
    android: JsonModel,
    project_dir: Seq<char>,
    probe: SdkModel,
)
    requires
        kmp.as_object() is Some,
        ascending(kmp.as_object()->0),
        config.get("android"@) == Some(android),
    ensures
        android_target(config, kmp.as_object()->0, project_dir, probe) is Ok
            <==> is_android_buildable(config, kmp, android, project_dir, probe),
{
    let entries = kmp.as_object()->0;
    let target = described_target(config, kmp, android, project_dir);
    let list = set_sources(kmp, "androidMain"@) + set_sources(kmp, "commonMain"@);
    lemma_two_sets_are_collected(kmp, "commonMain"@, "androidMain"@);
    lemma_united_jars(config, "commonMain"@, "androidMain"@, "compile"@);
    if collected_sources(entries, android_sets()) is Ok {
        lemma_set_names();
        lemma_two_sets(kmp, "androidMain"@, "commonMain"@, android_sets());
        assert(all_joined(project_dir, list).len() == list.len());
        lemma_sources_pass_when_they_are_sources(all_joined(project_dir, list));
        lemma_halves(target.sources);
    }
    assert((|jar: Seq<char>| is_compose_compiler(jar)) =~= (|jar: Seq<char>| is_plugin(jar)));
    lemma_first_is_first(target.jars, |jar: Seq<char>| is_plugin(jar));
    let plugin = compose_plugin(target.compose, target.jars);
    if target.compose && plugin is Ok {
        let test = |jar: Seq<char>| is_plugin(jar);
        assert(test(plugin->Ok_0->0));
        assert(!is_nowhere(target.jars, test));
    }
}

/// The names of flavors are read exactly where each has a dimension.
proof fn lemma_flavor_names_are_read(
    entries: Seq<(Seq<char>, JsonModel)>,
    declared: Option<Seq<char>>,
)
    ensures
        ({
            let blocks = entries.filter(
                |entry: (Seq<char>, JsonModel)| entry.0 != "dimension"@,
            );
            flavor_names(entries, declared) is Ok <==> forall|j: int|
                0 <= j < blocks.len() ==> flavor_dimension(
                    (#[trigger] blocks[j]).0,
                    blocks[j].1,
                    declared,
                ) is Ok
        }),
    decreases entries.len(),
{
    reveal(Seq::filter);
    if entries.len() > 0 {
        let keep = |entry: (Seq<char>, JsonModel)| entry.0 != "dimension"@;
        let front = entries.drop_last();
        let earlier = front.filter(keep);
        let blocks = entries.filter(keep);
        lemma_flavor_names_are_read(front, declared);
        let (name, block) = entries.last();
        if name != "dimension"@ {
            assert(blocks == earlier.push((name, block)));
            assert(blocks[earlier.len() as int] == (name, block));
            if flavor_names(entries, declared) is Ok {
                assert forall|j: int| 0 <= j < blocks.len() implies flavor_dimension(
                    (#[trigger] blocks[j]).0,
                    blocks[j].1,
                    declared,
                ) is Ok by {
                    if j < earlier.len() {
                        assert(blocks[j] == earlier[j]);
                    }
                }
            } else if flavor_names(front, declared) is Err {
                let j = choose|j: int|
                    0 <= j < earlier.len() && flavor_dimension(
                        (#[trigger] earlier[j]).0,
                        earlier[j].1,
                        declared,
                    ) is Err;
                assert(blocks[j] == earlier[j]);
            }
        } else {
            assert(blocks == earlier);
        }
    }
}

/// The variants of a module are computed exactly where the configuration
/// describes them.
pub proof fn law_variants_are_computed_where_they_are_described(
    config: JsonModel,
    android: JsonModel,
)
    requires
        config.get("android"@) == Some(android),
    ensures
        module_variants(config) is Ok <==> has_variants(config, android),
{
    if let Some(block) = config.get("productFlavors"@) {
        if let Some(entries) = block.as_object() {
            let declared = declared_dimension(entries);
            let blocks = flavor_blocks(config);
            lemma_flavor_names_are_read(entries, declared);
            assert(block.get("dimension"@) == lookup(entries, "dimension"@));
            if flavor_names(entries, declared) is Ok {
                assert forall|j: int| 0 <= j < blocks.len() implies (
                #[trigger] blocks[j]).1.as_object() is Some && (blocks[j].1.str_at("dimension"@)
                    is Some || declared is Some) by {
                    assert(flavor_dimension(blocks[j].0, blocks[j].1, declared) is Ok);
                }
            } else {
                let j = choose|j: int|
                    0 <= j < blocks.len() && flavor_dimension(
                        (#[trigger] blocks[j]).0,
                        blocks[j].1,
                        declared,
                    ) is Err;
                assert(blocks[j].1.as_object() is None || blocks[j].1.str_at("dimension"@) is None
                    && declared is None);
            }
        }
    }
}

/// The plan of the JVM target has tasks exactly where its main build is
/// described, and succeeds exactly where its tests are too.
pub proof fn law_jvm_plan_succeeds_for_what_is_described(
    config: JsonModel,
    kmp: JsonModel,
    jvm: JsonModel,
    project_dir: Seq<char>,
)
    requires
        kmp.as_object() is Some,
        ascending(kmp.as_object()->0),
    ensures
        ({
            let plan = jvm_target_plan(config, kmp.as_object()->0, jvm, project_dir);
            &&& plan.tasks.len() > 0 <==> is_jvm_buildable(config, kmp, jvm, project_dir)
            &&& plan.outcome is Ok <==> is_jvm_buildable(config, kmp, jvm, project_dir)
                && is_jvm_testable(config, kmp, jvm, project_dir)
        }),
{
    reveal(jvm_target_plan);
    lemma_jvm_target_is_read(config, kmp, jvm, project_dir);
    if let Ok(module) = jvm_target(config, kmp.as_object()->0, jvm, project_dir) {
        lemma_jvm_tests_are_planned(config, kmp, jvm, project_dir);
        assert(module.main_tasks().len() > 0);
    }
}

/// The plan of the Android target has tasks exactly where its sources can be
/// compiled, and succeeds exactly where the APKs can be packaged too.
pub proof fn law_android_plan_succeeds_for_what_is_described(
    config: JsonModel,
    kmp: JsonModel,
    android: JsonModel,
    project_dir: Seq<char>,
    probe: SdkModel,
)
    requires
        kmp.as_object() is Some,
        ascending(kmp.as_object()->0),
        config.get("android"@) == Some(android),
    ensures
        ({
            let plan = android_target_plan(config, kmp.as_object()->0, project_dir, probe);
            &&& plan.tasks.len() > 0 <==> is_android_buildable(
                config,
                kmp,
                android,
                project_dir,
                probe,
            )
            &&& plan.outcome is Ok <==> is_android_buildable(
                config,
                kmp,
                android,
                project_dir,
                probe,
            ) && is_packageable(config, android, project_dir, probe)
        }),
{
    reveal(android_target_plan);
    lemma_android_target_is_read(config, kmp, android, project_dir, probe);
    law_variants_are_computed_where_they_are_described(config, android);
    if let Ok(own) = android_target(config, kmp.as_object()->0, project_dir, probe) {
        assert(target_compile_tasks(own).len() == 2);
        assert(own.sdk == described_sdk(config, android, project_dir));
        assert(module_signer(config, project_dir) is Ok <==> (config.get("signing"@) matches Some(
            block,
        ) ==> block.str_at("storeFile"@) is Some && block.str_at("keyAlias"@) is Some));
        assert(target_packaging(config, own, probe) is Ok <==> is_packageable(
            config,
            android,
            project_dir,
            probe,
        ));
    }
}

/// A plan succeeds exactly where every entry is a source set or an implemented
/// target, there is a target, and each target succeeds.
pub proof fn law_plan_succeeds_for_what_is_described(
    config: JsonModel,
    kmp: JsonModel,
    project_dir: Seq<char>,
    probe: SdkModel,
)
    requires
        config.str_at("projectDir"@) == Some(project_dir),
        config.get("kmp"@) == Some(kmp),
        kmp.as_object() is Some,
    ensures
        kmp_plan(config, probe).outcome is Ok <==> {
            let entries = kmp.as_object()->0;
            &&& forall|i: int|
                0 <= i < entries.len() ==> is_entry((#[trigger] entries[i]).0, entries[i].1)
            &&& kmp.get("jvm"@) is Some || kmp.get("android"@) is Some
            &&& kmp.get("jvm"@) matches Some(jvm) ==> jvm_target_plan(
                config,
                entries,
                jvm,
                project_dir,
            ).outcome is Ok
            &&& kmp.get("android"@) is Some ==> android_target_plan(
                config,
                entries,
                project_dir,
                probe,
            ).outcome is Ok
        },
{
    let entries = kmp.as_object()->0;
    law_entries_pass_where_each_does(entries);
    if checked_entries(entries) is Ok && checked_targets(entries) is Ok {
        law_targets_are_planned_one_after_the_other(config, kmp, project_dir, probe);
    }
}

/// A configuration without a project directory, or without a block of entries,
/// is refused, and nothing is planned. So is one with an entry that is neither a
/// source set nor an implemented target.
pub proof fn law_incomplete_configuration_is_refused(config: JsonModel, probe: SdkModel)
    requires
        config.str_at("projectDir"@) is None || config.get("kmp"@) is None || (config.get("kmp"@)
            matches Some(kmp) && (kmp.as_object() is None || exists|i: int|
            0 <= i < kmp.as_object()->0.len() && !is_entry(
                (#[trigger] kmp.as_object()->0[i]).0,
                kmp.as_object()->0[i].1,
            ))),
    ensures
        kmp_plan(config, probe).outcome is Err,
        kmp_plan(config, probe).tasks.len() == 0,
{
    if let Some(kmp) = config.get("kmp"@) {
        if let Some(entries) = kmp.as_object() {
            law_entries_pass_where_each_does(entries);
        }
    }
}

/// A text that is no JSON is refused with the reader's message, and nothing is
/// planned; any other is planned as the configuration it spells.
pub proof fn law_unreadable_configuration_is_refused(
    parsed: Result<JsonModel, Seq<char>>,
    probe: SdkModel,
)
    ensures
        match parsed {
            Ok(config) => parsed_plan(parsed, probe) == kmp_plan(config, probe),
            Err(e) => {
                &&& parsed_plan(parsed, probe).tasks.len() == 0
                &&& parsed_plan(parsed, probe).outcome == Err::<(), _>(
                    "invalid module config JSON: "@ + e,
                )
            },
        },
{
}

} // verus!
