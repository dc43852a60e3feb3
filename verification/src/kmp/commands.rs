//! What the tasks of the `ulite/kmp` plugin tell their tools, in terms of the
//! configuration.

use crate::android::commands::{described_sdk, is_first, is_plugin, lemma_first_is_first};
use crate::android::plan::compose_plugin;
use crate::json::{ascending, law_found_value_is_an_entry, lookup, JsonModel};
use crate::jvm_commands::{
    build_of, is_of_build, is_of_suite, java_files, kotlin_files,
    lemma_class_tests_are_of_the_suite, lemma_halves, lemma_main_tasks_are_of_the_build,
    lemma_names_of_both, lemma_names_tell_tasks_apart, lemma_runner_tests_are_of_the_suite, tests,
    Build, Suite,
};
use crate::kmp::classpath::{d8_merge, gathered_bucket, kotlinc_run, merged_bucket, set_bucket};
use crate::kmp::laws::{lemma_two_sets_in_order, sources_of};
use crate::kmp::plan::{
    android_target, android_target_plan, class_args, jvm_target, jvm_target_plan, jvm_test_tasks,
    kmp_plan, merge_dex_task, module_signer, target_compile_tasks, target_packaging, target_tests,
    target_variant_tasks, target_variants_tasks, SignerModel, TEST_RUNNER_SOURCE, TargetModel,
};
use crate::kmp::source_sets::{
    android_sets, block_list, checked_entries, checked_targets, collected_sources, jvm_sets,
    jvm_test_sets,
};
use crate::kmp::variants::{
    flavor_names, flavored_variant, matrix_cells, module_flavors, module_variants, plain_variant,
    VariantModel,
};
use crate::letter_case::{lowercase, pascal_case};
use crate::meaning::{
    arguments, at, colon_list, flavor_blocks, lemma_bucket_is_listed, lemma_strings_are_listed,
    listing, runs, set_jars, type_names,
};
use crate::number::decimal;
use crate::path::{all_joined, path_join};
use crate::sdk::{highest_version, ListingModel, SdkModel};
use crate::sources::{is_compose_compiler, java_sources, other_sources};
use crate::task::{all_tasks_pass, is_named, lemma_both_pass, AllowlistedTool, TaskModel};
use crate::text::{
    contains_text, distinct, diverges_at, law_distinct_keeps_each_text_once,
    law_distinct_keeps_the_front,
};
use crate::variants::{declared_dimension, law_table_has_every_cell, law_table_size};
use vstd::prelude::*;

verus! {

/// The sources that a source set of the `kmp` block lists.
pub open spec fn set_sources(kmp: JsonModel, set: Seq<char>) -> Seq<Seq<char>> {
    listing(at(kmp.get(set), "sources"@))
}

/// The jars of two source sets in a bucket: those of the first and then those of
/// the second, each once.
pub open spec fn united_jars(
    config: JsonModel,
    first: Seq<char>,
    second: Seq<char>,
    bucket: Seq<char>,
) -> Seq<Seq<char>> {
    distinct(set_jars(config, first, bucket) + set_jars(config, second, bucket))
}

/// The main build of the JVM target that a configuration describes.
pub open spec fn described_build(
    config: JsonModel,
    kmp: JsonModel,
    jvm: JsonModel,
    project_dir: Seq<char>,
) -> Build {
    Build {
        project_dir,
        sources: all_joined(
            project_dir,
            set_sources(kmp, "commonMain"@) + set_sources(kmp, "jvmMain"@),
        ),
        classes_dir: path_join(project_dir, jvm.str_at("classesDir"@)->0),
        jar_file: path_join(project_dir, jvm.str_at("jarFile"@)->0),
        jars: united_jars(config, "commonMain"@, "jvmMain"@, "compile"@),
        processors: seq![],
    }
}

/// The extra arguments of the test class: those listed, where the list holds
/// strings alone.
pub open spec fn described_args(jvm: JsonModel) -> Seq<Seq<char>> {
    match jvm.get("testArgs"@) {
        Some(value) => match value.as_array() {
            Some(items) => if forall|i: int|
                0 <= i < items.len() ==> (#[trigger] items[i]).as_str() is Some {
                listing(Some(value))
            } else {
                seq![]
            },
            None => seq![],
        },
        None => seq![],
    }
}

/// The tests of the JVM target that a configuration describes.
pub open spec fn described_suite(
    config: JsonModel,
    kmp: JsonModel,
    jvm: JsonModel,
    project_dir: Seq<char>,
) -> Suite {
    Suite {
        classes_dir: path_join(project_dir, jvm.str_at("testClassesDir"@)->0),
        sources: all_joined(
            project_dir,
            set_sources(kmp, "commonTest"@) + set_sources(kmp, "jvmTest"@),
        ),
        jars: united_jars(config, "commonTest"@, "jvmTest"@, "testCompile"@),
        runtime_jars: united_jars(config, "commonTest"@, "jvmTest"@, "testRuntime"@),
        class: jvm.str_at("testClass"@),
        args: described_args(jvm),
    }
}

/// What the Android target is built of.
pub struct Target {
    pub project_dir: Seq<char>,
    pub sdk: Seq<char>,
    pub platform_jar: Seq<char>,
    pub sources: Seq<Seq<char>>,
    pub jars: Seq<Seq<char>>,
    pub compose: bool,
}

/// The Android target that a configuration describes.
pub open spec fn described_target(
    config: JsonModel,
    kmp: JsonModel,
    android: JsonModel,
    project_dir: Seq<char>,
) -> Target {
    let sdk = described_sdk(config, android, project_dir);
    Target {
        project_dir,
        sdk,
        platform_jar: path_join(
            path_join(
                path_join(sdk, "platforms"@),
                "android-"@ + decimal(android.i64_at("compileSdk"@)->0 as int),
            ),
            "android.jar"@,
        ),
        sources: all_joined(
            project_dir,
            set_sources(kmp, "androidMain"@) + set_sources(kmp, "commonMain"@),
        ),
        jars: united_jars(config, "commonMain"@, "androidMain"@, "compile"@),
        compose: android.get("compose"@) matches Some(value) && value.as_bool() == Some(true),
    }
}

/// The directory of the Android target's own products.
pub open spec fn target_home(target: Target) -> Seq<char> {
    path_join(target.project_dir, "build/kmp/android"@)
}

/// The task compiles the Kotlin of the shared and the Android source sets against
/// the platform jar and the jars of both, with the Compose compiler plugin where
/// Compose is on.
pub open spec fn compiles_android(task: TaskModel, target: Target) -> bool {
    let classes = path_join(target_home(target), "classes"@);
    let front = seq![
        "-d"@,
        classes,
        "-cp"@,
        colon_list(seq![target.platform_jar] + target.jars),
        "-jvm-target"@,
        "17"@,
    ];
    &&& task.name == "compileAndroid"@
    &&& runs(task, AllowlistedTool::Kotlinc)
    &&& task.inputs == kotlin_files(target.sources)
    &&& java_files(target.sources).len() == 0
    &&& task.outputs == seq![classes]
    &&& task.depends_on == seq!["ulite/android:prepareBuildDir"@]
    &&& if target.compose {
        exists|jar: Seq<char>|
            #![trigger is_plugin(jar)]
            is_first(target.jars, |jar: Seq<char>| is_plugin(jar), jar) && arguments(task)
                == front.push("-Xplugin="@ + jar) + task.inputs
    } else {
        arguments(task) == front + task.inputs
    }
}

/// The task packs the target's classes.
pub open spec fn packs(task: TaskModel, target: Target) -> bool {
    &&& task.name == "jarKmpAndroid"@
    &&& runs(task, AllowlistedTool::Jar)
    &&& task.inputs == seq![path_join(target_home(target), "classes"@)]
    &&& task.outputs == seq![path_join(target_home(target), "classes.jar"@)]
    &&& task.depends_on == seq!["compileAndroid"@]
    &&& arguments(task) == seq!["cf"@, task.outputs[0], "-C"@, task.inputs[0], "."@]
}

/// The directory of a variant's products, which the Android plugin fills.
pub open spec fn variant_home(target: Target, variant: VariantModel) -> Seq<char> {
    path_join(path_join(target.project_dir, "build"@), variant.variant_dir)
}

/// The task merges the Android plugin's classes, the target's own and every
/// Kotlin standard library on the classpath, all its inputs, into one dex, for
/// the variant's lowest API level.
pub open spec fn merges(
    task: TaskModel,
    target: Target,
    release: Seq<char>,
    variant: VariantModel,
) -> bool {
    let dir = path_join(target_home(target), "dex-"@ + variant.variant_dir);
    &&& task.name == "mergeDex"@ + variant.name
    &&& runs(task, AllowlistedTool::Java)
    &&& task.inputs == seq![
        path_join(variant_home(target, variant), "classes.jar"@),
        path_join(target_home(target), "classes.jar"@),
    ] + target.jars.filter(|jar: Seq<char>| contains_text(jar, "kotlin-stdlib"@))
    &&& task.outputs == seq![path_join(dir, "classes.dex"@)]
    &&& task.depends_on == seq!["jarKmpAndroid"@, "ulite/android:jarClasses"@ + variant.name]
    &&& arguments(task) == seq![
        "-cp"@,
        path_join(path_join(release, "lib"@), "d8.jar"@),
        "com.android.tools.r8.D8"@,
        "--min-api="@ + decimal(variant.min_sdk as int),
        "--lib"@,
        target.platform_jar,
        "--output="@ + dir,
    ] + task.inputs
}

/// The task puts the merged dex into the APK that the Android plugin packaged.
pub open spec fn grafts(task: TaskModel, target: Target, variant: VariantModel) -> bool {
    let dir = path_join(target_home(target), "dex-"@ + variant.variant_dir);
    &&& task.name == "assembleAndroid"@ + variant.name
    &&& runs(task, AllowlistedTool::Jar)
    &&& task.inputs == seq![
        path_join(dir, "classes.dex"@),
        path_join(variant_home(target, variant), variant.apk_filename),
    ]
    &&& task.outputs == seq![task.inputs[1]]
    &&& task.depends_on == seq![
        "mergeDex"@ + variant.name,
        "ulite/android:packageApk"@ + variant.name,
    ]
    &&& arguments(task) == seq!["uf"@, task.outputs[0], "-C"@, dir, "classes.dex"@]
}

/// The task signs the completed APK with the module's key; the passwords come
/// from the files that the Android plugin writes.
pub open spec fn signs(
    task: TaskModel,
    target: Target,
    release: Seq<char>,
    signing: JsonModel,
    variant: VariantModel,
) -> bool {
    let shared = path_join(target.project_dir, "build/android"@);
    &&& task.name == "signKmpAndroid"@ + variant.name
    &&& runs(task, AllowlistedTool::Apksigner)
    &&& task.inputs == seq![
        path_join(variant_home(target, variant), variant.apk_filename),
        path_join(target.project_dir, signing.str_at("storeFile"@)->0),
        path_join(shared, "ks-password.txt"@),
        path_join(shared, "key-password.txt"@),
    ]
    &&& task.outputs == seq![task.inputs[0]]
    &&& task.depends_on == seq![
        "assembleAndroid"@ + variant.name,
        "ulite/android:writeSigningPasswords"@,
        "ulite/android:writeSigningKeyPassword"@,
    ]
    &&& arguments(task) == seq![
        release,
        "sign"@,
        "--ks"@,
        task.inputs[1],
        "--ks-key-alias"@,
        signing.str_at("keyAlias"@)->0,
        "--ks-pass"@,
        "file:"@ + task.inputs[2],
        "--key-pass"@,
        "file:"@ + task.inputs[3],
        task.inputs[0],
    ]
}

/// The task is one of a variant of the Android target.
pub open spec fn is_of_variant(
    task: TaskModel,
    target: Target,
    release: Seq<char>,
    signing: Option<JsonModel>,
    variant: VariantModel,
) -> bool {
    ||| merges(task, target, release, variant)
    ||| grafts(task, target, variant)
    ||| signing matches Some(block) && signs(task, target, release, block, variant)
}

/// The directory of the build-tools release that is used.
pub open spec fn described_release(sdk: Seq<char>, probe: SdkModel) -> Seq<char> {
    path_join(path_join(sdk, "build-tools"@), highest_version(sdk, probe.build_tools)->Ok_0)
}

/// The task is one of the Android target.
pub open spec fn is_of_target(
    task: TaskModel,
    target: Target,
    config: JsonModel,
    probe: SdkModel,
) -> bool {
    ||| compiles_android(task, target)
    ||| packs(task, target)
    ||| module_variants(config) matches Ok(variants) && exists|k: int|
        0 <= k < variants.len() && is_of_variant(
            task,
            target,
            described_release(target.sdk, probe),
            config.get("signing"@),
            #[trigger] variants[k],
        )
}

/// The jars of two source sets are gathered one after the other.
pub proof fn lemma_united_jars(
    config: JsonModel,
    first: Seq<char>,
    second: Seq<char>,
    bucket: Seq<char>,
)
    ensures
        merged_bucket(config, seq![first, second], bucket) == united_jars(
            config,
            first,
            second,
            bucket,
        ),
{
    reveal_with_fuel(gathered_bucket, 3);
    let names = seq![first, second];
    let none: Seq<Seq<char>> = seq![];
    assert(names.drop_last() =~= seq![first]);
    assert(names.drop_last().drop_last() =~= none);
    assert(names.last() == second && names.drop_last().last() == first);
    law_set_bucket_is_what_it_lists(config, first, bucket);
    law_set_bucket_is_what_it_lists(config, second, bucket);
    assert(gathered_bucket(config, names, bucket) =~= set_jars(config, first, bucket) + set_jars(
        config,
        second,
        bucket,
    ));
}

/// The jars of a bucket of a source set's classpath are those that the bucket
/// lists.
pub proof fn law_set_bucket_is_what_it_lists(config: JsonModel, set: Seq<char>, bucket: Seq<char>)
    ensures
        set_bucket(config, "kmp."@ + set, bucket) == set_jars(config, set, bucket),
{
    if let Some(sets) = config.get("classpathSourceSets"@) {
        if let Some(classpath) = sets.get("kmp."@ + set) {
            lemma_bucket_is_listed(classpath, bucket);
        }
    }
}

/// Each of the named source sets lists its sources where all are collected.
proof fn lemma_collected_lists(
    entries: Seq<(Seq<char>, JsonModel)>,
    names: Seq<Seq<char>>,
    i: int,
)
    requires
        collected_sources(entries, names) is Ok,
        0 <= i < entries.len(),
        names.contains(entries[i].0),
    ensures
        block_list(entries[i].1, "sources"@) is Ok,
    decreases entries.len(),
{
    if i < entries.len() - 1 {
        assert(entries.drop_last()[i] == entries[i]);
        lemma_collected_lists(entries.drop_last(), names, i);
    }
}

/// The sources of a source set are those it lists.
proof fn lemma_set_sources(kmp: JsonModel, names: Seq<Seq<char>>, set: Seq<char>)
    requires
        kmp.as_object() is Some,
        collected_sources(kmp.as_object()->0, names) is Ok,
        names.contains(set),
    ensures
        sources_of(kmp.as_object()->0, set) == set_sources(kmp, set),
{
    let entries = kmp.as_object()->0;
    law_found_value_is_an_entry(entries, set);
    if let Some(block) = lookup(entries, set) {
        let i = choose|i: int| 0 <= i < entries.len() && #[trigger] entries[i] == (set, block);
        lemma_collected_lists(entries, names, i);
        if let Some(value) = block.get("sources"@) {
            lemma_strings_are_listed(value.as_array()->0);
        }
    }
}

/// Which names are looked for matters, not their order.
proof fn lemma_names_in_any_order(
    entries: Seq<(Seq<char>, JsonModel)>,
    one: Seq<Seq<char>>,
    other: Seq<Seq<char>>,
)
    requires
        forall|name: Seq<char>| one.contains(name) <==> other.contains(name),
    ensures
        collected_sources(entries, one) == collected_sources(entries, other),
    decreases entries.len(),
{
    if entries.len() > 0 {
        lemma_names_in_any_order(entries.drop_last(), one, other);
    }
}

/// The sources of two source sets, in the order of the sets' names.
pub proof fn lemma_two_sets(
    kmp: JsonModel,
    first: Seq<char>,
    second: Seq<char>,
    names: Seq<Seq<char>>,
)
    requires
        kmp.as_object() is Some,
        ascending(kmp.as_object()->0),
        diverges_at(first, second, 0),
        names == seq![first, second] || names == seq![second, first],
        collected_sources(kmp.as_object()->0, names) is Ok,
    ensures
        collected_sources(kmp.as_object()->0, names)->Ok_0 == set_sources(kmp, first)
            + set_sources(kmp, second),
{
    let entries = kmp.as_object()->0;
    let sorted = seq![first, second];
    assert(sorted[0] == first && sorted[1] == second);
    assert forall|name: Seq<char>| names.contains(name) <==> sorted.contains(name) by {
        if names != sorted {
            assert(names[0] == second && names[1] == first);
        }
    }
    lemma_names_in_any_order(entries, names, sorted);
    lemma_two_sets_in_order(entries, first, second);
    lemma_set_sources(kmp, sorted, first);
    lemma_set_sources(kmp, sorted, second);
}

/// The first letters of the source sets' names.
pub proof fn lemma_set_names()
    ensures
        diverges_at("commonMain"@, "jvmMain"@, 0),
        diverges_at("commonTest"@, "jvmTest"@, 0),
        diverges_at("androidMain"@, "commonMain"@, 0),
{
    reveal_strlit("commonMain");
    reveal_strlit("jvmMain");
    reveal_strlit("commonTest");
    reveal_strlit("jvmTest");
    reveal_strlit("androidMain");
}

/// The JVM target is that of the build it describes.
proof fn lemma_jvm_target_is_described(
    config: JsonModel,
    kmp: JsonModel,
    jvm: JsonModel,
    project_dir: Seq<char>,
)
    requires
        kmp.as_object() is Some,
        ascending(kmp.as_object()->0),
        jvm_target(config, kmp.as_object()->0, jvm, project_dir) is Ok,
    ensures
        ({
            let module = jvm_target(config, kmp.as_object()->0, jvm, project_dir)->Ok_0;
            let build = described_build(config, kmp, jvm, project_dir);
            &&& module.java_sources == java_sources(build.sources)
            &&& module.kotlin_sources == other_sources(build.sources)
            &&& build_of(module, build.sources) == build
        }),
{
    lemma_set_names();
    lemma_two_sets(kmp, "commonMain"@, "jvmMain"@, jvm_sets());
    lemma_united_jars(config, "commonMain"@, "jvmMain"@, "compile"@);
}

/// The test tasks of the JVM target are those of the suite it describes.
proof fn lemma_jvm_tests_are_described(
    config: JsonModel,
    kmp: JsonModel,
    jvm: JsonModel,
    project_dir: Seq<char>,
)
    requires
        kmp.as_object() is Some,
        ascending(kmp.as_object()->0),
        jvm_target(config, kmp.as_object()->0, jvm, project_dir) is Ok,
        jvm_test_tasks(
            config,
            kmp.as_object()->0,
            jvm,
            jvm_target(config, kmp.as_object()->0, jvm, project_dir)->Ok_0,
        ) is Ok,
    ensures
        ({
            let module = jvm_target(config, kmp.as_object()->0, jvm, project_dir)->Ok_0;
            let tasks = jvm_test_tasks(config, kmp.as_object()->0, jvm, module)->Ok_0;
            let build = described_build(config, kmp, jvm, project_dir);
            let suite = described_suite(config, kmp, jvm, project_dir);
            &&& all_tasks_pass(
                tasks,
                |task: TaskModel| is_of_suite(task, build, suite, TEST_RUNNER_SOURCE@),
            )
            &&& is_named(tasks, "test"@) <==> jvm.str_at("testClassesDir"@) is Some && (
            suite.sources.len() > 0 || suite.class is None)
        }),
{
    let entries = kmp.as_object()->0;
    let module = jvm_target(config, entries, jvm, project_dir)->Ok_0;
    let build = described_build(config, kmp, jvm, project_dir);
    let suite = described_suite(config, kmp, jvm, project_dir);
    let runner = TEST_RUNNER_SOURCE@;
    lemma_jvm_target_is_described(config, kmp, jvm, project_dir);
    if jvm.str_at("testClassesDir"@) is Some {
        let tasks = jvm_test_tasks(config, entries, jvm, module)->Ok_0;
        lemma_set_names();
        lemma_two_sets(kmp, "commonTest"@, "jvmTest"@, jvm_test_sets());
        lemma_united_jars(config, "commonTest"@, "jvmTest"@, "testCompile"@);
        lemma_united_jars(config, "commonTest"@, "jvmTest"@, "testRuntime"@);
        assert(target_tests(entries, project_dir) == Ok::<_, Seq<char>>(suite.sources));
        if suite.class is None {
            lemma_runner_tests_are_of_the_suite(module, build.sources, suite, runner);
            assert(tasks[2].name == "test"@);
        } else {
            lemma_class_args(jvm);
            if suite.sources.len() > 0 {
                lemma_class_tests_are_of_the_suite(module, build.sources, suite, runner);
                assert(tasks[1].name == "test"@);
            }
        }
    }
}

/// The extra arguments of the test class are those described.
proof fn lemma_class_args(jvm: JsonModel)
    ensures
        class_args(jvm) == described_args(jvm),
{
    if let Some(value) = jvm.get("testArgs"@) {
        if let Some(items) = value.as_array() {
            if forall|i: int| 0 <= i < items.len() ==> (#[trigger] items[i]).as_str() is Some {
                lemma_strings_are_listed(items);
            }
        }
    }
}

/// Every task of the JVM target does its part of the build, or of the tests, that
/// the configuration describes: the shared source set and that of the JVM are
/// compiled against the jars of both, and their tests run with the jars of both
/// test sets, the test classes and the main classes.
pub proof fn law_jvm_tasks_do_what_the_configuration_describes(
    config: JsonModel,
    kmp: JsonModel,
    jvm: JsonModel,
    project_dir: Seq<char>,
)
    requires
        kmp.as_object() is Some,
        ascending(kmp.as_object()->0),
        jvm_target_plan(config, kmp.as_object()->0, jvm, project_dir).tasks.len() > 0,
    ensures
        ({
            let build = described_build(config, kmp, jvm, project_dir);
            let suite = described_suite(config, kmp, jvm, project_dir);
            let plan = jvm_target_plan(config, kmp.as_object()->0, jvm, project_dir);
            &&& forall|i: int|
                0 <= i < plan.tasks.len() ==> is_of_build(#[trigger] plan.tasks[i], build)
                    || is_of_suite(plan.tasks[i], build, suite, TEST_RUNNER_SOURCE@)
            &&& is_named(plan.tasks, "compile"@) <==> java_files(build.sources).len() > 0
            &&& is_named(plan.tasks, "compile-kotlin"@) <==> kotlin_files(build.sources).len() > 0
            &&& is_named(plan.tasks, "assemble"@)
            &&& plan.outcome is Ok ==> (is_named(plan.tasks, "test"@) <==> jvm.str_at(
                "testClassesDir"@,
            ) is Some && (suite.sources.len() > 0 || suite.class is None))
        }),
{
    reveal(jvm_target_plan);
    let entries = kmp.as_object()->0;
    let module = jvm_target(config, entries, jvm, project_dir)->Ok_0;
    let build = described_build(config, kmp, jvm, project_dir);
    let suite = described_suite(config, kmp, jvm, project_dir);
    let plan = jvm_target_plan(config, entries, jvm, project_dir);
    let runner = TEST_RUNNER_SOURCE@;
    let main = module.main_tasks();
    lemma_jvm_target_is_described(config, kmp, jvm, project_dir);
    lemma_main_tasks_are_of_the_build(module, build.sources);
    let test = |task: TaskModel|
        is_of_build(task, build) || is_of_suite(task, build, suite, runner);
    assert(all_tasks_pass(main, test));
    let outcome = jvm_test_tasks(config, entries, jvm, module);
    if outcome is Ok {
        let more = outcome->Ok_0;
        lemma_jvm_tests_are_described(config, kmp, jvm, project_dir);
        assert forall|i: int| 0 <= i < more.len() implies test(#[trigger] more[i]) by {
            let own = |task: TaskModel| is_of_suite(task, build, suite, runner);
            assert(own(more[i]));
        }
        lemma_both_pass(main, more, test);
        assert(plan.tasks == main + more);
        lemma_names_of_both(main, more, build, suite, runner);
    } else {
        assert(plan.tasks =~= main);
        lemma_names_of_both(main, seq![], build, suite, runner);
        assert(main + Seq::<TaskModel>::empty() =~= main);
    }
    assert forall|i: int| 0 <= i < plan.tasks.len() implies is_of_build(
        #[trigger] plan.tasks[i],
        build,
    ) || is_of_suite(plan.tasks[i], build, suite, runner) by {
        assert(test(plan.tasks[i]));
    }
}

/// The Android target is the one described.
proof fn lemma_android_target_is_described(
    config: JsonModel,
    kmp: JsonModel,
    android: JsonModel,
    project_dir: Seq<char>,
    probe: SdkModel,
)
    requires
        kmp.as_object() is Some,
        ascending(kmp.as_object()->0),
        config.get("android"@) == Some(android),
        android_target(config, kmp.as_object()->0, project_dir, probe) is Ok,
    ensures
        ({
            let own = android_target(config, kmp.as_object()->0, project_dir, probe)->Ok_0;
            let target = described_target(config, kmp, android, project_dir);
            &&& own.project_dir == target.project_dir
            &&& own.sdk == target.sdk
            &&& own.platform_jar == target.platform_jar
            &&& own.kotlin_sources == other_sources(target.sources)
            &&& java_sources(target.sources).len() == 0
            &&& own.classpath == target.jars
            &&& compose_plugin(target.compose, target.jars) == Ok::<_, Seq<char>>(
                own.compose_plugin,
            )
        }),
{
    lemma_set_names();
    lemma_two_sets(kmp, "androidMain"@, "commonMain"@, android_sets());
    lemma_united_jars(config, "commonMain"@, "androidMain"@, "compile"@);
}

/// The compiler's arguments with the Compose compiler plugin, where Compose is
/// on.
proof fn lemma_compiler_gets_the_plugin(own: TargetModel, target: Target)
    requires
        own.classpath == target.jars,
        own.platform_jar == target.platform_jar,
        compose_plugin(target.compose, target.jars) == Ok::<_, Seq<char>>(own.compose_plugin),
    ensures
        ({
            let classes = path_join(target_home(target), "classes"@);
            let args = kotlinc_run(
                classes,
                own.platform_jar,
                own.classpath,
                own.kotlin_sources,
                own.compose_plugin,
            );
            let front = seq![
                "-d"@,
                classes,
                "-cp"@,
                colon_list(seq![target.platform_jar] + target.jars),
                "-jvm-target"@,
                "17"@,
            ];
            if target.compose {
                &&& own.compose_plugin is Some
                &&& is_first(
                    target.jars,
                    |jar: Seq<char>| is_plugin(jar),
                    own.compose_plugin->0,
                )
                &&& is_plugin(own.compose_plugin->0)
                &&& args == front.push("-Xplugin="@ + own.compose_plugin->0) + own.kotlin_sources
            } else {
                args == front + own.kotlin_sources
            }
        }),
{
    if target.compose {
        assert((|jar: Seq<char>| is_compose_compiler(jar)) =~= (|jar: Seq<char>| is_plugin(jar)));
        lemma_first_is_first(target.jars, |jar: Seq<char>| is_plugin(jar));
    }
}

/// The compile tasks of the Android target do their part.
proof fn lemma_target_compile_tasks(own: TargetModel, target: Target)
    requires
        own.project_dir == target.project_dir,
        own.platform_jar == target.platform_jar,
        own.kotlin_sources == other_sources(target.sources),
        java_sources(target.sources).len() == 0,
        own.classpath == target.jars,
        compose_plugin(target.compose, target.jars) == Ok::<_, Seq<char>>(own.compose_plugin),
    ensures
        target_compile_tasks(own).len() == 2,
        compiles_android(target_compile_tasks(own)[0], target),
        packs(target_compile_tasks(own)[1], target),
{
    let task = target_compile_tasks(own)[0];
    lemma_halves(target.sources);
    lemma_compiler_gets_the_plugin(own, target);
    assert(task.inputs == own.kotlin_sources);
    if target.compose {
        assert(is_plugin(own.compose_plugin->0));
    }
}

/// The tasks of one variant of the Android target do their part.
proof fn lemma_target_variant(
    own: TargetModel,
    target: Target,
    release: Seq<char>,
    signer: Option<SignerModel>,
    signing: Option<JsonModel>,
    variant: VariantModel,
)
    requires
        own.project_dir == target.project_dir,
        own.platform_jar == target.platform_jar,
        own.classpath == target.jars,
        signer is Some ==> signing is Some && signer->0.keystore == path_join(
            target.project_dir,
            signing->0.str_at("storeFile"@)->0,
        ) && Some(signer->0.key_alias) == signing->0.str_at("keyAlias"@),
    ensures
        all_tasks_pass(
            target_variant_tasks(own, release, signer, variant),
            |task: TaskModel| is_of_variant(task, target, release, signing, variant),
        ),
{
    let tasks = target_variant_tasks(own, release, signer, variant);
    let merge = merge_dex_task(own, release, variant);
    assert(merge.inputs =~= seq![
        path_join(variant_home(target, variant), "classes.jar"@),
        path_join(target_home(target), "classes.jar"@),
    ] + target.jars.filter(|jar: Seq<char>| contains_text(jar, "kotlin-stdlib"@)));
    assert(arguments(merge) =~= seq![
        "-cp"@,
        path_join(path_join(release, "lib"@), "d8.jar"@),
        "com.android.tools.r8.D8"@,
        "--min-api="@ + decimal(variant.min_sdk as int),
        "--lib"@,
        target.platform_jar,
        "--output="@ + path_join(target_home(target), "dex-"@ + variant.variant_dir),
    ] + merge.inputs);
    assert(merges(tasks[0], target, release, variant));
    assert(grafts(tasks[1], target, variant));
    if signer is Some {
        assert(signs(tasks[2], target, release, signing->0, variant));
    }
}

/// The tasks of the variants of the Android target do their part.
proof fn lemma_target_variants(
    own: TargetModel,
    target: Target,
    release: Seq<char>,
    signer: Option<SignerModel>,
    signing: Option<JsonModel>,
    variants: Seq<VariantModel>,
    count: int,
)
    requires
        own.project_dir == target.project_dir,
        own.platform_jar == target.platform_jar,
        own.classpath == target.jars,
        signer is Some ==> signing is Some && signer->0.keystore == path_join(
            target.project_dir,
            signing->0.str_at("storeFile"@)->0,
        ) && Some(signer->0.key_alias) == signing->0.str_at("keyAlias"@),
        0 <= count <= variants.len(),
    ensures
        forall|i: int|
            0 <= i < target_variants_tasks(own, release, signer, variants.take(count)).len()
                ==> exists|k: int|
                0 <= k < variants.len() && is_of_variant(
                    #[trigger] target_variants_tasks(own, release, signer, variants.take(count))[i],
                    target,
                    release,
                    signing,
                    #[trigger] variants[k],
                ),
    decreases count,
{
    let tasks = target_variants_tasks(own, release, signer, variants.take(count));
    if count > 0 {
        let variant = variants[count - 1];
        let earlier = target_variants_tasks(own, release, signer, variants.take(count - 1));
        let last = target_variant_tasks(own, release, signer, variant);
        assert(variants.take(count).drop_last() =~= variants.take(count - 1));
        assert(variants.take(count).last() == variant);
        lemma_target_variants(own, target, release, signer, signing, variants, count - 1);
        lemma_target_variant(own, target, release, signer, signing, variant);
        assert(tasks == earlier + last);
        assert forall|i: int| 0 <= i < tasks.len() implies exists|k: int|
            0 <= k < variants.len() && is_of_variant(
                #[trigger] tasks[i],
                target,
                release,
                signing,
                #[trigger] variants[k],
            ) by {
            if i < earlier.len() {
                assert(tasks[i] == earlier[i]);
            } else {
                let own_test = |task: TaskModel|
                    is_of_variant(task, target, release, signing, variant);
                assert(tasks[i] == last[i - earlier.len()]);
                assert(own_test(last[i - earlier.len()]));
                assert(variants[count - 1] == variant);
            }
        }
    }
}

/// Every task of the Android target does its part: the shared source set and that
/// of Android are compiled against the platform jar and the jars of both; the
/// classes are merged with those of the Android plugin, and with the Kotlin
/// standard libraries, into one dex per variant; and the dex goes into the
/// variant's APK, which is then signed where the module signs.
pub proof fn law_android_tasks_do_what_the_configuration_describes(
    config: JsonModel,
    kmp: JsonModel,
    android: JsonModel,
    project_dir: Seq<char>,
    probe: SdkModel,
)
    requires
        kmp.as_object() is Some,
        ascending(kmp.as_object()->0),
        config.get("android"@) == Some(android),
        android_target_plan(config, kmp.as_object()->0, project_dir, probe).tasks.len() > 0,
    ensures
        ({
            let target = described_target(config, kmp, android, project_dir);
            let tasks = android_target_plan(
                config,
                kmp.as_object()->0,
                project_dir,
                probe,
            ).tasks;
            &&& forall|i: int|
                0 <= i < tasks.len() ==> is_of_target(#[trigger] tasks[i], target, config, probe)
            &&& tasks.len() >= 2
            &&& compiles_android(tasks[0], target)
            &&& packs(tasks[1], target)
        }),
{
    reveal(android_target_plan);
    let entries = kmp.as_object()->0;
    let own = android_target(config, entries, project_dir, probe)->Ok_0;
    let target = described_target(config, kmp, android, project_dir);
    let tasks = android_target_plan(config, entries, project_dir, probe).tasks;
    let compiled = target_compile_tasks(own);
    lemma_android_target_is_described(config, kmp, android, project_dir, probe);
    lemma_target_compile_tasks(own, target);
    let packaging = target_packaging(config, own, probe);
    if packaging is Ok {
        let variants = module_variants(config)->Ok_0;
        let release = described_release(target.sdk, probe);
        let signer = module_signer(config, project_dir)->Ok_0;
        let more = packaging->Ok_0;
        lemma_target_variants(
            own,
            target,
            release,
            signer,
            config.get("signing"@),
            variants,
            variants.len() as int,
        );
        assert(variants.take(variants.len() as int) =~= variants);
        assert(tasks == compiled + more);
        assert forall|i: int| 0 <= i < tasks.len() implies is_of_target(
            #[trigger] tasks[i],
            target,
            config,
            probe,
        ) by {
            if i < compiled.len() {
                assert(tasks[i] == compiled[i]);
            } else {
                assert(tasks[i] == more[i - compiled.len()]);
            }
        }
    } else {
        assert(tasks =~= compiled);
    }
}

/// The plan of a module is the plan of its JVM target, where it has one, and then
/// that of its Android target, where it has one and nothing failed before.
pub proof fn law_targets_are_planned_one_after_the_other(
    config: JsonModel,
    kmp: JsonModel,
    project_dir: Seq<char>,
    probe: SdkModel,
)
    requires
        config.str_at("projectDir"@) == Some(project_dir),
        config.get("kmp"@) == Some(kmp),
        kmp.as_object() matches Some(entries) && checked_entries(entries) is Ok
            && checked_targets(entries) is Ok,
    ensures
        ({
            let entries = kmp.as_object()->0;
            let plan = kmp_plan(config, probe);
            let jvm = jvm_target_plan(config, entries, kmp.get("jvm"@)->0, project_dir);
            let android = android_target_plan(config, entries, project_dir, probe);
            match (kmp.get("jvm"@), kmp.get("android"@)) {
                (None, None) => plan.outcome is Err && plan.tasks.len() == 0,
                (Some(_), None) => plan == jvm,
                (None, Some(_)) => plan == android,
                (Some(_), Some(_)) => if jvm.outcome is Ok {
                    plan.tasks == jvm.tasks + android.tasks && plan.outcome == android.outcome
                } else {
                    plan == jvm
                },
            }
        }),
{
    let entries = kmp.as_object()->0;
    let jvm = jvm_target_plan(config, entries, kmp.get("jvm"@)->0, project_dir);
    let android = android_target_plan(config, entries, project_dir, probe);
    let none: Seq<TaskModel> = seq![];
    assert(jvm.tasks + none =~= jvm.tasks);
    assert(none + android.tasks =~= android.tasks);
    if jvm.outcome is Ok {
        assert(jvm.outcome->Ok_0 == ());
        assert(jvm.outcome == Ok::<(), Seq<char>>(()));
    }
}

/// Every jar that the shared source set or that of Android compiles against is on
/// the classpath of the Android target's compiler, behind the platform jar: each
/// once, and those of the shared source set first.
pub proof fn law_android_sources_see_every_jar(
    config: JsonModel,
    kmp: JsonModel,
    android: JsonModel,
    project_dir: Seq<char>,
    probe: SdkModel,
)
    requires
        kmp.as_object() is Some,
        ascending(kmp.as_object()->0),
        config.get("android"@) == Some(android),
        android_target_plan(config, kmp.as_object()->0, project_dir, probe).tasks.len() > 0,
    ensures
        ({
            let task = android_target_plan(
                config,
                kmp.as_object()->0,
                project_dir,
                probe,
            ).tasks[0];
            let target = described_target(config, kmp, android, project_dir);
            let shared = set_jars(config, "commonMain"@, "compile"@);
            let own = set_jars(config, "androidMain"@, "compile"@);
            &&& task.name == "compileAndroid"@
            &&& exists|jars: Seq<Seq<char>>|
                {
                    &&& arguments(task).len() > 3
                    &&& arguments(task)[2] == "-cp"@
                    &&& arguments(task)[3] == colon_list(
                        seq![target.platform_jar] + jars,
                    )
                    &&& #[trigger] holds_both(jars, shared, own)
                }
        }),
{
    let shared = set_jars(config, "commonMain"@, "compile"@);
    let own = set_jars(config, "androidMain"@, "compile"@);
    law_android_tasks_do_what_the_configuration_describes(
        config,
        kmp,
        android,
        project_dir,
        probe,
    );
    let target = described_target(config, kmp, android, project_dir);
    let task = android_target_plan(config, kmp.as_object()->0, project_dir, probe).tasks[0];
    lemma_distinct_holds_both(shared, own);
    assert(arguments(task)[3] == colon_list(seq![target.platform_jar] + target.jars));
}

/// Every jar that the shared test set or that of the JVM runs with is on the
/// classpath of the JVM target's tests, each once and those of the shared set
/// first; the test classes and the main classes follow.
pub proof fn law_jvm_tests_see_every_jar(
    config: JsonModel,
    kmp: JsonModel,
    jvm: JsonModel,
    project_dir: Seq<char>,
    i: int,
)
    requires
        kmp.as_object() is Some,
        ascending(kmp.as_object()->0),
        0 <= i < jvm_target_plan(config, kmp.as_object()->0, jvm, project_dir).tasks.len(),
        jvm_target_plan(config, kmp.as_object()->0, jvm, project_dir).tasks[i].name == "test"@,
    ensures
        ({
            let task = jvm_target_plan(config, kmp.as_object()->0, jvm, project_dir).tasks[i];
            let shared = set_jars(config, "commonTest"@, "testRuntime"@);
            let own = set_jars(config, "jvmTest"@, "testRuntime"@);
            exists|jars: Seq<Seq<char>>|
                {
                    &&& arguments(task).len() > 1
                    &&& arguments(task)[0] == "-cp"@
                    &&& arguments(task)[1] == colon_list(
                        jars + seq![
                            path_join(project_dir, jvm.str_at("testClassesDir"@)->0),
                            path_join(project_dir, jvm.str_at("classesDir"@)->0),
                        ],
                    )
                    &&& #[trigger] holds_both(jars, shared, own)
                }
        }),
{
    let task = jvm_target_plan(config, kmp.as_object()->0, jvm, project_dir).tasks[i];
    let shared = set_jars(config, "commonTest"@, "testRuntime"@);
    let own = set_jars(config, "jvmTest"@, "testRuntime"@);
    let build = described_build(config, kmp, jvm, project_dir);
    let suite = described_suite(config, kmp, jvm, project_dir);
    law_jvm_tasks_do_what_the_configuration_describes(config, kmp, jvm, project_dir);
    lemma_names_tell_tasks_apart(task, build, suite, TEST_RUNNER_SOURCE@);
    assert(tests(task, build, suite));
    lemma_distinct_holds_both(shared, own);
    let jars = suite.runtime_jars;
    assert(jars + seq![suite.classes_dir, build.classes_dir] =~= jars.push(
        suite.classes_dir,
    ).push(build.classes_dir));
    assert(arguments(task)[1] == colon_list(jars + seq![suite.classes_dir, build.classes_dir]));
}

/// The list holds the texts of two others, each once, and those of the first
/// come first.
pub open spec fn holds_both(
    list: Seq<Seq<char>>,
    first: Seq<Seq<char>>,
    second: Seq<Seq<char>>,
) -> bool {
    &&& list.no_duplicates()
    &&& forall|s: Seq<char>| #[trigger]
        list.contains(s) <==> first.contains(s) || second.contains(s)
    &&& forall|i: int, j: int|
        0 <= i < list.len() && 0 <= j < list.len() && first.contains(#[trigger] list[i])
            && !first.contains(#[trigger] list[j]) ==> i < j
}

/// Two lists without their repetitions hold what both hold.
proof fn lemma_distinct_holds_both(first: Seq<Seq<char>>, second: Seq<Seq<char>>)
    ensures
        holds_both(distinct(first + second), first, second),
{
    let all = first + second;
    let list = distinct(all);
    let front = distinct(first);
    law_distinct_keeps_each_text_once(all);
    law_distinct_keeps_each_text_once(first);
    law_distinct_keeps_the_front(first, second);
    assert forall|s: Seq<char>| #[trigger]
        list.contains(s) <==> first.contains(s) || second.contains(s) by {
        if first.contains(s) {
            assert(all[first.index_of(s)] == s);
        }
        if second.contains(s) {
            assert(all[first.len() + second.index_of(s)] == s);
        }
        if all.contains(s) {
            let k = choose|k: int| 0 <= k < all.len() && all[k] == s;
            if k < first.len() {
                assert(first[k] == s);
            } else {
                assert(second[k - first.len()] == s);
            }
        }
    }
    assert forall|i: int, j: int|
        0 <= i < list.len() && 0 <= j < list.len() && first.contains(#[trigger] list[i])
            && !first.contains(#[trigger] list[j]) implies i < j by {
        assert(front.contains(list[i]));
        let k = choose|k: int| 0 <= k < front.len() && front[k] == list[i];
        assert(list[k] == front[k]);
        assert(i == k);
        if j < front.len() {
            assert(front[j] == list[j]);
            assert(front.contains(list[j]));
        }
    }
}

/// Every variant of the Android target is completed: its APK gets the merged dex,
/// and is signed exactly where the module signs.
pub proof fn law_every_variant_is_completed(
    config: JsonModel,
    kmp: JsonModel,
    android: JsonModel,
    project_dir: Seq<char>,
    probe: SdkModel,
    k: int,
)
    requires
        kmp.as_object() is Some,
        ascending(kmp.as_object()->0),
        config.get("android"@) == Some(android),
        android_target_plan(config, kmp.as_object()->0, project_dir, probe).outcome is Ok,
        module_variants(config) matches Ok(variants) && 0 <= k < variants.len(),
    ensures
        ({
            let tasks = android_target_plan(
                config,
                kmp.as_object()->0,
                project_dir,
                probe,
            ).tasks;
            let name = module_variants(config)->Ok_0[k].name;
            &&& is_named(tasks, "assembleAndroid"@ + name)
            &&& is_named(tasks, "mergeDex"@ + name)
            &&& config.get("signing"@) is Some ==> is_named(tasks, "signKmpAndroid"@ + name)
            &&& config.get("signing"@) is None ==> forall|i: int|
                0 <= i < tasks.len() ==> !runs(#[trigger] tasks[i], AllowlistedTool::Apksigner)
        }),
{
    reveal(android_target_plan);
    let entries = kmp.as_object()->0;
    let plan = android_target_plan(config, entries, project_dir, probe);
    let own = android_target(config, entries, project_dir, probe)->Ok_0;
    let variants = module_variants(config)->Ok_0;
    let release = described_release(own.sdk, probe);
    let signer = module_signer(config, project_dir)->Ok_0;
    let compiled = target_compile_tasks(own);
    let more = target_variants_tasks(own, release, signer, variants);
    assert(plan.tasks == compiled + more);
    let n = lemma_place_of_a_variant(own, release, signer, variants, k);
    let tasks = plan.tasks;
    assert(tasks[compiled.len() + n] == more[n]);
    assert(tasks[compiled.len() + n + 1] == more[n + 1]);
    assert(tasks[compiled.len() + n].name == "mergeDex"@ + variants[k].name);
    assert(tasks[compiled.len() + n + 1].name == "assembleAndroid"@ + variants[k].name);
    if signer is Some {
        assert(tasks[compiled.len() + n + 2] == more[n + 2]);
        assert(tasks[compiled.len() + n + 2].name == "signKmpAndroid"@ + variants[k].name);
    }
    law_android_tasks_do_what_the_configuration_describes(
        config,
        kmp,
        android,
        project_dir,
        probe,
    );
}

/// Where the tasks of a variant stand among those of all.
proof fn lemma_place_of_a_variant(
    own: TargetModel,
    release: Seq<char>,
    signer: Option<SignerModel>,
    variants: Seq<VariantModel>,
    k: int,
) -> (n: int)
    requires
        0 <= k < variants.len(),
    ensures
        ({
            let all = target_variants_tasks(own, release, signer, variants);
            let tasks = target_variant_tasks(own, release, signer, variants[k]);
            &&& 0 <= n
            &&& n + tasks.len() <= all.len()
            &&& forall|i: int| 0 <= i < tasks.len() ==> all[n + i] == #[trigger] tasks[i]
            &&& tasks.len() >= 2
            &&& signer is Some ==> tasks.len() == 3
            &&& all[n] == tasks[0]
            &&& all[n + 1] == tasks[1]
            &&& signer is Some ==> all[n + 2] == tasks[2]
        }),
    decreases variants.len(),
{
    let earlier = target_variants_tasks(own, release, signer, variants.drop_last());
    let tasks = target_variant_tasks(own, release, signer, variants[k]);
    let all = target_variants_tasks(own, release, signer, variants);
    if k < variants.len() - 1 {
        assert(variants.drop_last()[k] == variants[k]);
        let n = lemma_place_of_a_variant(own, release, signer, variants.drop_last(), k);
        assert forall|i: int| 0 <= i < tasks.len() implies all[n + i] == #[trigger] tasks[i] by {
            assert(earlier[n + i] == tasks[i]);
        }
        n
    } else {
        let n = earlier.len() as int;
        assert forall|i: int| 0 <= i < tasks.len() implies all[n + i] == #[trigger] tasks[i] by {}
        n
    }
}

/// A merge on its own runs the `d8` of the highest build-tools version over all
/// jars that it is given, those to merge and those to add, in this order; it
/// fails only where there is no version.
pub proof fn law_merge_gets_every_jar(
    sdk: Seq<char>,
    listing: ListingModel,
    jars: Seq<Seq<char>>,
    dir: Seq<char>,
    min_sdk: i64,
    platform_jar: Seq<char>,
    more: Seq<Seq<char>>,
)
    ensures
        match highest_version(sdk, listing) {
            Err(e) => d8_merge(sdk, listing, jars, dir, min_sdk, platform_jar, more) == Err::<
                Seq<Seq<char>>,
                _,
            >(e),
            Ok(version) => {
                let release = path_join(path_join(sdk, "build-tools"@), version);
                d8_merge(sdk, listing, jars, dir, min_sdk, platform_jar, more) == Ok::<
                    _,
                    Seq<char>,
                >(
                    seq![
                        "-cp"@,
                        path_join(path_join(release, "lib"@), "d8.jar"@),
                        "com.android.tools.r8.D8"@,
                        "--min-api="@ + decimal(min_sdk as int),
                        "--lib"@,
                        platform_jar,
                        "--output="@ + dir,
                    ] + (jars + more),
                )
            },
        },
{
    if let Ok(args) = d8_merge(sdk, listing, jars, dir, min_sdk, platform_jar, more) {
        let version = highest_version(sdk, listing)->Ok_0;
        let release = path_join(path_join(sdk, "build-tools"@), version);
        assert(args =~= seq![
            "-cp"@,
            path_join(path_join(release, "lib"@), "d8.jar"@),
            "com.android.tools.r8.D8"@,
            "--min-api="@ + decimal(min_sdk as int),
            "--lib"@,
            platform_jar,
            "--output="@ + dir,
        ] + (jars + more));
    }
}

/// The Android target needs the module's `android` block.
pub proof fn law_android_target_needs_its_block(
    config: JsonModel,
    kmp: JsonModel,
    project_dir: Seq<char>,
    probe: SdkModel,
)
    requires
        kmp.as_object() is Some,
        config.get("android"@) is None,
    ensures
        android_target_plan(config, kmp.as_object()->0, project_dir, probe).outcome is Err,
        android_target_plan(config, kmp.as_object()->0, project_dir, probe).tasks.len() == 0,
{
    reveal(android_target_plan);
}

/// A variant is that of a build type and, where there is one, a flavor: for the
/// lowest API level that the flavor sets, or else the build type, or else the
/// module.
pub open spec fn is_variant_of(
    variant: VariantModel,
    config: JsonModel,
    android: JsonModel,
    build_type: Seq<char>,
    flavor: Option<(Seq<char>, JsonModel)>,
) -> bool {
    let own = at(at(config.get("buildTypes"@), build_type), "minSdk"@);
    let lowest = if own is Some && own->0.as_i64() is Some {
        own->0.as_i64()->0
    } else {
        android.i64_at("minSdk"@)->0
    };
    &&& variant.apk_filename == "app-"@ + variant.variant_dir + ".apk"@
    &&& match flavor {
        None => {
            &&& variant.name == pascal_case(build_type)
            &&& variant.variant_dir == lowercase(pascal_case(build_type))
            &&& variant.min_sdk == lowest
        },
        Some((name, _)) => {
            let set = at(at(config.get("productFlavors"@), name), "minSdk"@);
            &&& variant.name == pascal_case(build_type) + pascal_case(name)
            &&& variant.variant_dir == lowercase(pascal_case(build_type)) + pascal_case(name)
            &&& variant.min_sdk == (if set is Some && set->0.as_i64() is Some {
                set->0.as_i64()->0
            } else {
                lowest
            })
        },
    }
}

/// The flavor names that are read are those declared, in order.
proof fn lemma_flavor_names_are_read(
    entries: Seq<(Seq<char>, JsonModel)>,
    declared: Option<Seq<char>>,
)
    requires
        flavor_names(entries, declared) is Ok,
    ensures
        ({
            let names = flavor_names(entries, declared)->Ok_0;
            let blocks = entries.filter(
                |entry: (Seq<char>, JsonModel)| entry.0 != "dimension"@,
            );
            &&& names.len() == blocks.len()
            &&& forall|j: int| 0 <= j < names.len() ==> #[trigger] names[j] == blocks[j].0
        }),
    decreases entries.len(),
{
    reveal(Seq::filter);
    if entries.len() > 0 {
        lemma_flavor_names_are_read(entries.drop_last(), declared);
    }
}

/// The flavors of a module are those it declares.
proof fn lemma_flavors_are_those_declared(config: JsonModel)
    requires
        module_flavors(config) is Ok,
    ensures
        module_flavors(config)->Ok_0.len() == flavor_blocks(config).len(),
        forall|j: int|
            0 <= j < flavor_blocks(config).len() ==> #[trigger] module_flavors(config)->Ok_0[j]
                == flavor_blocks(config)[j].0,
{
    if let Some(block) = config.get("productFlavors"@) {
        let entries = block.as_object()->0;
        lemma_flavor_names_are_read(entries, declared_dimension(entries));
    }
}

/// Without flavors a module has one variant per build type, in order.
pub proof fn law_variants_of_build_types(config: JsonModel, android: JsonModel, i: int)
    requires
        config.get("android"@) == Some(android),
        module_variants(config) is Ok,
        flavor_blocks(config).len() == 0,
        0 <= i < type_names(config).len(),
    ensures
        module_variants(config)->Ok_0.len() == type_names(config).len(),
        is_variant_of(
            module_variants(config)->Ok_0[i],
            config,
            android,
            type_names(config)[i],
            None,
        ),
{
    lemma_flavors_are_those_declared(config);
    let name = type_names(config)[i];
    assert(module_variants(config)->Ok_0[i] == plain_variant(
        config,
        name,
        android.i64_at("minSdk"@)->0,
    ));
}

/// With flavors a module has one variant per build type and flavor, build type by
/// build type.
pub proof fn law_variants_of_build_types_and_flavors(
    config: JsonModel,
    android: JsonModel,
    i: int,
    j: int,
)
    requires
        config.get("android"@) == Some(android),
        module_variants(config) is Ok,
        0 <= i < type_names(config).len(),
        0 <= j < flavor_blocks(config).len(),
    ensures
        module_variants(config)->Ok_0.len() == type_names(config).len() * flavor_blocks(
            config,
        ).len(),
        0 <= i * flavor_blocks(config).len() + j < type_names(config).len() * flavor_blocks(
            config,
        ).len(),
        is_variant_of(
            module_variants(config)->Ok_0[i * flavor_blocks(config).len() + j],
            config,
            android,
            type_names(config)[i],
            Some(flavor_blocks(config)[j]),
        ),
{
    lemma_flavors_are_those_declared(config);
    let names = type_names(config);
    let flavors = module_flavors(config)->Ok_0;
    let base = android.i64_at("minSdk"@)->0;
    let cells = matrix_cells(config, names, flavors, base);
    law_table_size(names.len(), flavors.len(), cells);
    law_table_has_every_cell(names.len(), flavors.len(), cells, i, j);
    assert(flavors[j] == flavor_blocks(config)[j].0);
    assert(cells(i, j) == flavored_variant(config, names[i], flavors[j], base));
}

} // verus!
