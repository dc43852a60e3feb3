//! What holds of every plan of the `ulite/kmp` plugin, alone and together with
//! the Android plugin it depends on.

use crate::android::laws::{has_variant_tasks, lemma_plan_offers_tasks};
use crate::android::module::module_signing;
use crate::android::plan::{android_plan, variant_paths};
use crate::android::variants as android_variants;
use crate::json::{ascending, keys_of, lookup, JsonModel};
use crate::jvm::JvmModel;
use crate::jvm_laws::{
    lemma_class_tests_are_in_order, lemma_main_tasks_are_in_order, lemma_main_tasks_build_a_source,
    lemma_runner_tests_are_in_order,
};
use crate::jvm_tasks::TEST_RUNNER_SOURCE_PATH;
use crate::kmp::classpath::{gathered_bucket, merged_bucket, release_path, set_bucket};
use crate::kmp::plan::{
    android_target, android_target_plan, class_args, graft_task, jvm_target, jvm_target_plan,
    jvm_test_tasks, kmp_manifest, kmp_plan, merge_dex_task, merged_dex_dir, module_signer,
    sign_task, target_build, target_compile_tasks, target_packaging, target_tests,
    target_variant_tasks, target_variants_tasks, variant_apk, SignerModel, TEST_RUNNER_SOURCE,
    TargetModel,
};
use crate::kmp::source_sets::{
    android_sets, block_list, checked_entries, checked_targets, collected_sources, jvm_sets,
    jvm_test_sets,
};
use crate::kmp::variants::{
    flavor_names, matrix_cells, module_flavors, module_variants, plain_variant, variant_matrix,
    VariantModel,
};
use crate::path::{all_joined, is_absolute, path_join};
use crate::sdk::{highest_version, SdkModel};
use crate::sources::lemma_source_is_in_a_half;
use crate::task::{
    all_outputs_pass, all_use_declared_tools, in_order, is_built_into, is_named, is_satisfied,
    lemma_add_in_order, lemma_both_outputs_pass, lemma_built_into_a_longer_list, outputs_pass,
    tool_name, AllowlistedTool, TaskModel,
};
use crate::text::{
    before, distinct, diverges_at, law_distinct_keeps_each_text_once, lemma_before_is_strict,
    lemma_before_is_transitive,
};
use crate::variants::{build_types, crossed, declared_dimension, flavor_entries, variant_build};
use vstd::prelude::*;

verus! {

/// The name of a task of the Android plugin, as tasks of this plugin refer to it.
pub open spec fn names_android_task(tasks: Seq<TaskModel>) -> spec_fn(Seq<char>) -> bool {
    |name: Seq<char>|
        exists|task: Seq<char>| name == "ulite/android:"@ + task && #[trigger] is_named(tasks, task)
}

/// A flavor that the Android plugin accepts is one here, under the same name.
proof fn lemma_flavor_names_agree(
    entries: Seq<(Seq<char>, JsonModel)>,
    declared: Option<Seq<char>>,
)
    requires
        android_variants::parsed_flavors(entries, declared) is Ok,
    ensures
        flavor_names(entries, declared) == Ok::<_, Seq<char>>(
            keys_of(android_variants::parsed_flavors(entries, declared)->Ok_0),
        ),
    decreases entries.len(),
{
    let flavors = android_variants::parsed_flavors(entries, declared)->Ok_0;
    if entries.len() > 0 {
        lemma_flavor_names_agree(entries.drop_last(), declared);
        let earlier = android_variants::parsed_flavors(entries.drop_last(), declared)->Ok_0;
        let (name, block) = entries.last();
        if name != "dimension"@ {
            assert(keys_of(flavors) =~= keys_of(earlier).push(name));
        }
    } else {
        assert(keys_of(flavors) =~= seq![]);
    }
}

/// Where the Android plugin accepts a module's variants, this plugin has the
/// same variants: each by the same name, in the same directory, with an APK of
/// the same name.
pub proof fn law_variants_agree(config: JsonModel)
    requires
        android_variants::module_variants(config) is Ok,
    ensures
        module_variants(config) is Ok,
        module_variants(config)->Ok_0.len() == android_variants::module_variants(
            config,
        )->Ok_0.0.len(),
        forall|k: int|
            #![trigger module_variants(config)->Ok_0[k]]
            0 <= k < module_variants(config)->Ok_0.len() ==> {
                let own = module_variants(config)->Ok_0[k];
                let theirs = android_variants::module_variants(config)->Ok_0.0[k];
                &&& own.name == theirs.name
                &&& own.variant_dir == theirs.variant_dir
                &&& own.apk_filename == theirs.apk_filename
            },
{
    let android = config.get("android"@)->0;
    let (min_sdk, target_sdk) = android_variants::sdk_levels(android)->Ok_0;
    let names = build_types(config)->Ok_0;
    let flavors = android_variants::module_flavors(config)->Ok_0;
    match flavor_entries(config)->Ok_0 {
        None => {
            assert(keys_of(flavors) =~= seq![]);
        },
        Some(entries) => {
            lemma_flavor_names_agree(entries, declared_dimension(entries));
        },
    }
    assert(module_flavors(config) == Ok::<_, Seq<char>>(keys_of(flavors)));
    let own = module_variants(config)->Ok_0;
    let theirs = android_variants::module_variants(config)->Ok_0.0;
    if flavors.len() > 0 {
        let own_cells = matrix_cells(config, names, keys_of(flavors), min_sdk);
        let their_cells = android_variants::matrix_cells(names, flavors, min_sdk, target_sdk);
        lemma_tables_agree(names.len(), flavors.len(), own_cells, their_cells);
    }
}

/// Tables whose cells agree in name, directory and APK agree in them
/// everywhere.
proof fn lemma_tables_agree(
    rows: nat,
    columns: nat,
    own: spec_fn(int, int) -> VariantModel,
    theirs: spec_fn(int, int) -> android_variants::VariantModel,
)
    requires
        forall|i: int, j: int|
            0 <= i < rows && 0 <= j < columns ==> {
                &&& (#[trigger] own(i, j)).name == theirs(i, j).name
                &&& own(i, j).variant_dir == theirs(i, j).variant_dir
                &&& own(i, j).apk_filename == theirs(i, j).apk_filename
            },
    ensures
        crossed(rows, columns, own).len() == crossed(rows, columns, theirs).len(),
        forall|k: int|
            #![trigger crossed(rows, columns, own)[k]]
            0 <= k < crossed(rows, columns, own).len() ==> {
                &&& crossed(rows, columns, own)[k].name == crossed(rows, columns, theirs)[k].name
                &&& crossed(rows, columns, own)[k].variant_dir == crossed(
                    rows,
                    columns,
                    theirs,
                )[k].variant_dir
                &&& crossed(rows, columns, own)[k].apk_filename == crossed(
                    rows,
                    columns,
                    theirs,
                )[k].apk_filename
            },
    decreases rows,
{
    if rows > 0 {
        let above = (rows - 1) as nat;
        lemma_tables_agree(above, columns, own, theirs);
        let a = crossed(above, columns, own);
        let b = crossed(above, columns, theirs);
        assert forall|k: int|
            #![trigger crossed(rows, columns, own)[k]]
            0 <= k < crossed(rows, columns, own).len() implies {
            &&& crossed(rows, columns, own)[k].name == crossed(rows, columns, theirs)[k].name
            &&& crossed(rows, columns, own)[k].variant_dir == crossed(
                rows,
                columns,
                theirs,
            )[k].variant_dir
            &&& crossed(rows, columns, own)[k].apk_filename == crossed(
                rows,
                columns,
                theirs,
            )[k].apk_filename
        } by {
            if k < a.len() {
                assert(crossed(rows, columns, own)[k] == a[k]);
                assert(crossed(rows, columns, theirs)[k] == b[k]);
            } else {
                assert(crossed(rows, columns, own)[k] == own(rows - 1, k - a.len()));
                assert(crossed(rows, columns, theirs)[k] == theirs(rows - 1, k - a.len()));
            }
        }
    }
}

/// The APK this plugin completes, and the classes it merges, are those that the
/// Android plugin makes for the same variant.
pub proof fn law_products_are_shared(
    config: JsonModel,
    project_dir: Seq<char>,
    namespace: Seq<char>,
    k: int,
)
    requires
        android_variants::module_variants(config) is Ok,
        0 <= k < module_variants(config)->Ok_0.len(),
    ensures
        ({
            let own = module_variants(config)->Ok_0[k];
            let theirs = variant_paths(
                project_dir,
                namespace,
                android_variants::module_variants(config)->Ok_0.0[k],
            );
            &&& variant_apk(project_dir, own) == theirs.apk
            &&& path_join(variant_build(project_dir, own.variant_dir), "classes.jar"@)
                == theirs.classes_jar
        }),
{
    law_variants_agree(config);
}

/// The tasks of the JVM target are in order.
proof fn lemma_jvm_target_in_order(
    config: JsonModel,
    entries: Seq<(Seq<char>, JsonModel)>,
    jvm: JsonModel,
    project_dir: Seq<char>,
    outside: spec_fn(Seq<char>) -> bool,
)
    ensures
        in_order(jvm_target_plan(config, entries, jvm, project_dir).tasks, outside),
{
    reveal(jvm_target_plan);
    if let Ok(module) = jvm_target(config, entries, jvm, project_dir) {
        let main = module.main_tasks();
        lemma_main_tasks_are_in_order(module, outside);
        let tests = jvm_test_tasks(config, entries, jvm, module);
        assert(main + Seq::<TaskModel>::empty() =~= main);
        if tests is Ok && tests->Ok_0.len() > 0 {
            lemma_jvm_tests_in_order(config, entries, jvm, module, outside);
        } else if tests is Ok {
            assert(main + tests->Ok_0 =~= main);
        }
    }
}

/// The tests of the JVM target behind its main build are in order.
proof fn lemma_jvm_tests_in_order(
    config: JsonModel,
    entries: Seq<(Seq<char>, JsonModel)>,
    jvm: JsonModel,
    module: JvmModel,
    outside: spec_fn(Seq<char>) -> bool,
)
    requires
        jvm_test_tasks(config, entries, jvm, module) is Ok,
        jvm_test_tasks(config, entries, jvm, module)->Ok_0.len() > 0,
    ensures
        in_order(
            module.main_tasks() + jvm_test_tasks(config, entries, jvm, module)->Ok_0,
            outside,
        ),
{
    lemma_main_tasks_are_in_order(module, outside);
    let test_dir = path_join(module.project_dir, jvm.str_at("testClassesDir"@)->0);
    let sources = target_tests(entries, module.project_dir)->Ok_0;
    let compile_classpath = merged_bucket(config, jvm_test_sets(), "testCompile"@).push(
        module.classes_dir,
    );
    let runtime_classpath = merged_bucket(config, jvm_test_sets(), "testRuntime"@).push(
        test_dir,
    ).push(module.classes_dir);
    if jvm.str_at("testRunner"@) is Some {
        lemma_runner_tests_are_in_order(
            module.main_tasks(),
            sources,
            path_join(module.project_dir, TEST_RUNNER_SOURCE_PATH@),
            TEST_RUNNER_SOURCE@,
            test_dir,
            module.classes_dir,
            compile_classpath,
            runtime_classpath,
            module.compile_tasks(),
            outside,
        );
    } else {
        lemma_class_tests_are_in_order(
            module.main_tasks(),
            sources,
            test_dir,
            module.classes_dir,
            compile_classpath,
            runtime_classpath,
            module.compile_tasks(),
            jvm.str_at("testClass"@)->0,
            class_args(jvm),
            outside,
        );
    }
}

/// The tasks of one variant are in order where what they depend on is there.
proof fn lemma_target_variant_in_order(
    tasks: Seq<TaskModel>,
    target: TargetModel,
    release: Seq<char>,
    signer: Option<SignerModel>,
    variant: VariantModel,
    outside: spec_fn(Seq<char>) -> bool,
)
    requires
        in_order(tasks, outside),
        is_named(tasks, "jarKmpAndroid"@),
        outside("ulite/android:jarClasses"@ + variant.name),
        outside("ulite/android:packageApk"@ + variant.name),
        signer is Some ==> outside("ulite/android:writeSigningPasswords"@) && outside(
            "ulite/android:writeSigningKeyPassword"@,
        ),
    ensures
        in_order(tasks + target_variant_tasks(target, release, signer, variant), outside),
        is_named(
            tasks + target_variant_tasks(target, release, signer, variant),
            "jarKmpAndroid"@,
        ),
{
    let merge = merge_dex_task(target, release, variant);
    let graft = graft_task(target, variant);
    let own = target_variant_tasks(target, release, signer, variant);
    assert(merge.depends_on.len() == 2);
    assert(is_satisfied(merge, tasks, outside));
    lemma_add_in_order(tasks, merge, outside);
    assert(graft.depends_on.len() == 2);
    assert(is_satisfied(graft, tasks.push(merge), outside));
    lemma_add_in_order(tasks.push(merge), graft, outside);
    match signer {
        None => {
            assert(tasks + own =~= tasks.push(merge).push(graft));
        },
        Some(signer) => {
            let sign = sign_task(target, release, signer, variant);
            assert(sign.depends_on.len() == 3);
            assert(is_satisfied(sign, tasks.push(merge).push(graft), outside));
            lemma_add_in_order(tasks.push(merge).push(graft), sign, outside);
            assert(tasks + own =~= tasks.push(merge).push(graft).push(sign));
        },
    }
}

/// The tasks of the variants are in order where what they depend on is there.
proof fn lemma_target_variants_in_order(
    tasks: Seq<TaskModel>,
    target: TargetModel,
    release: Seq<char>,
    signer: Option<SignerModel>,
    variants: Seq<VariantModel>,
    outside: spec_fn(Seq<char>) -> bool,
)
    requires
        in_order(tasks, outside),
        is_named(tasks, "jarKmpAndroid"@),
        forall|i: int|
            #![trigger variants[i]]
            0 <= i < variants.len() ==> outside("ulite/android:jarClasses"@ + variants[i].name)
                && outside("ulite/android:packageApk"@ + variants[i].name),
        signer is Some ==> outside("ulite/android:writeSigningPasswords"@) && outside(
            "ulite/android:writeSigningKeyPassword"@,
        ),
    ensures
        in_order(tasks + target_variants_tasks(target, release, signer, variants), outside),
        is_named(
            tasks + target_variants_tasks(target, release, signer, variants),
            "jarKmpAndroid"@,
        ),
    decreases variants.len(),
{
    let all = target_variants_tasks(target, release, signer, variants);
    if variants.len() == 0 {
        assert(tasks + all =~= tasks);
    } else {
        let front = variants.drop_last();
        assert forall|i: int|
            #![trigger front[i]]
            0 <= i < front.len() implies outside("ulite/android:jarClasses"@ + front[i].name)
            && outside("ulite/android:packageApk"@ + front[i].name) by {
            assert(front[i] == variants[i]);
        }
        lemma_target_variants_in_order(tasks, target, release, signer, front, outside);
        let earlier = target_variants_tasks(target, release, signer, front);
        let last = target_variant_tasks(target, release, signer, variants.last());
        assert(variants[variants.len() - 1] == variants.last());
        lemma_target_variant_in_order(
            tasks + earlier,
            target,
            release,
            signer,
            variants.last(),
            outside,
        );
        assert(tasks + all =~= tasks + earlier + last);
    }
}

/// What an Android plan offers can be named from outside.
proof fn lemma_android_tasks_can_be_named(tasks: Seq<TaskModel>, name: Seq<char>)
    ensures
        is_named(tasks, "prepareBuildDir"@) ==> names_android_task(tasks)(
            "ulite/android:prepareBuildDir"@,
        ),
        is_named(tasks, "writeSigningPasswords"@) ==> names_android_task(tasks)(
            "ulite/android:writeSigningPasswords"@,
        ),
        is_named(tasks, "writeSigningKeyPassword"@) ==> names_android_task(tasks)(
            "ulite/android:writeSigningKeyPassword"@,
        ),
        is_named(tasks, "jarClasses"@ + name) ==> names_android_task(tasks)(
            "ulite/android:jarClasses"@ + name,
        ),
        is_named(tasks, "packageApk"@ + name) ==> names_android_task(tasks)(
            "ulite/android:packageApk"@ + name,
        ),
{
    reveal_strlit("ulite/android:");
    reveal_strlit("ulite/android:prepareBuildDir");
    reveal_strlit("prepareBuildDir");
    reveal_strlit("ulite/android:writeSigningPasswords");
    reveal_strlit("writeSigningPasswords");
    reveal_strlit("ulite/android:writeSigningKeyPassword");
    reveal_strlit("writeSigningKeyPassword");
    reveal_strlit("ulite/android:jarClasses");
    reveal_strlit("jarClasses");
    reveal_strlit("ulite/android:packageApk");
    reveal_strlit("packageApk");
    let prefix = "ulite/android:"@;
    assert("ulite/android:prepareBuildDir"@ =~= prefix + "prepareBuildDir"@);
    assert("ulite/android:writeSigningPasswords"@ =~= prefix + "writeSigningPasswords"@);
    assert("ulite/android:writeSigningKeyPassword"@ =~= prefix + "writeSigningKeyPassword"@);
    assert("ulite/android:jarClasses"@ + name =~= prefix + ("jarClasses"@ + name));
    assert("ulite/android:packageApk"@ + name =~= prefix + ("packageApk"@ + name));
}

/// The tasks of the Android target behind other tasks are in order, given the
/// tasks of the Android plugin.
proof fn lemma_android_target_in_order(
    tasks: Seq<TaskModel>,
    config: JsonModel,
    entries: Seq<(Seq<char>, JsonModel)>,
    project_dir: Seq<char>,
    probe: SdkModel,
)
    requires
        android_plan(config, probe).outcome is Ok,
        in_order(tasks, names_android_task(android_plan(config, probe).tasks)),
    ensures
        in_order(
            tasks + android_target_plan(config, entries, project_dir, probe).tasks,
            names_android_task(android_plan(config, probe).tasks),
        ),
{
    reveal(android_target_plan);
    let theirs = android_plan(config, probe).tasks;
    let outside = names_android_task(theirs);
    let none: Seq<TaskModel> = seq![];
    lemma_plan_offers_tasks(config, probe);
    lemma_android_tasks_can_be_named(theirs, seq![]);
    assert(tasks + none =~= tasks);
    if let Ok(target) = android_target(config, entries, project_dir, probe) {
        let compile = target_compile_tasks(target);
        let compiled = tasks.push(compile[0]).push(compile[1]);
        assert(is_satisfied(compile[0], tasks, outside));
        lemma_add_in_order(tasks, compile[0], outside);
        lemma_add_in_order(tasks.push(compile[0]), compile[1], outside);
        assert(tasks + compile =~= compiled);
        assert(compile + none =~= compile);
        if let Ok(packaging) = target_packaging(config, target, probe) {
            let variants = module_variants(config)->Ok_0;
            let signer = module_signer(config, target.project_dir)->Ok_0;
            let release = release_path(
                target.sdk,
                highest_version(target.sdk, probe.build_tools)->Ok_0,
            );
            law_variants_agree(config);
            assert forall|i: int|
                #![trigger variants[i]]
                0 <= i < variants.len() implies outside(
                "ulite/android:jarClasses"@ + variants[i].name,
            ) && outside("ulite/android:packageApk"@ + variants[i].name) by {
                let other = android_variants::module_variants(config)->Ok_0.0[i];
                assert(variants[i].name == other.name);
                assert(has_variant_tasks(theirs, other.name, module_signing(config)->Ok_0));
                lemma_android_tasks_can_be_named(theirs, other.name);
            }
            lemma_target_variants_in_order(compiled, target, release, signer, variants, outside);
            assert(tasks + (compile + packaging) =~= compiled + packaging);
        }
    }
}

/// Where the Android plugin has planned a module, every task of this plugin's
/// plan depends only on tasks that come before it in the plan, or on tasks of
/// the Android plugin's plan.
pub proof fn law_tasks_follow_what_they_depend_on(config: JsonModel, probe: SdkModel)
    requires
        android_plan(config, probe).outcome is Ok,
    ensures
        in_order(
            kmp_plan(config, probe).tasks,
            names_android_task(android_plan(config, probe).tasks),
        ),
{
    let outside = names_android_task(android_plan(config, probe).tasks);
    let none: Seq<TaskModel> = seq![];
    let plan = kmp_plan(config, probe);
    if let Some(project_dir) = config.str_at("projectDir"@) {
        if let Some(kmp) = config.get("kmp"@) {
            if let Some(entries) = kmp.as_object() {
                if checked_entries(entries) is Ok && checked_targets(entries) is Ok {
                    let jvm = lookup(entries, "jvm"@);
                    let first = match jvm {
                        Some(jvm) => jvm_target_plan(config, entries, jvm, project_dir).tasks,
                        None => none,
                    };
                    assert(in_order(none, outside));
                    if let Some(jvm) = jvm {
                        lemma_jvm_target_in_order(config, entries, jvm, project_dir, outside);
                    }
                    assert(first + none =~= first);
                    lemma_android_target_in_order(first, config, entries, project_dir, probe);
                }
            }
        }
    }
}

/// Every tool the tasks run is declared in the manifest.
pub proof fn law_tools_are_declared(
    config: JsonModel,
    probe: SdkModel,
    version: Seq<char>,
    abi_version: Seq<char>,
)
    ensures
        all_use_declared_tools(
            kmp_plan(config, probe).tasks,
            kmp_manifest(version, abi_version).tools,
        ),
{
    let tools = kmp_manifest(version, abi_version).tools;
    assert(tools[0] == tool_name(AllowlistedTool::Javac));
    assert(tools[1] == tool_name(AllowlistedTool::Kotlinc));
    assert(tools[2] == tool_name(AllowlistedTool::Jar));
    assert(tools[3] == tool_name(AllowlistedTool::Java));
    assert(tools[4] == tool_name(AllowlistedTool::Apksigner));
    assert(tools.contains(tool_name(AllowlistedTool::Javac)));
    assert(tools.contains(tool_name(AllowlistedTool::Kotlinc)));
    assert(tools.contains(tool_name(AllowlistedTool::Jar)));
    assert(tools.contains(tool_name(AllowlistedTool::Java)));
    assert(tools.contains(tool_name(AllowlistedTool::Apksigner)));
    if let Some(project_dir) = config.str_at("projectDir"@) {
        if let Some(kmp) = config.get("kmp"@) {
            if let Some(entries) = kmp.as_object() {
                if let Some(jvm) = lookup(entries, "jvm"@) {
                    assert(all_use_declared_tools(
                        jvm_target_plan(config, entries, jvm, project_dir).tasks,
                        tools,
                    )) by {
                        reveal(jvm_target_plan);
                    }
                }
                lemma_android_target_tools(config, entries, project_dir, probe, tools);
            }
        }
    }
}

/// The tools of the Android target.
proof fn lemma_android_target_tools(
    config: JsonModel,
    entries: Seq<(Seq<char>, JsonModel)>,
    project_dir: Seq<char>,
    probe: SdkModel,
    tools: Seq<Seq<char>>,
)
    requires
        tools.contains(tool_name(AllowlistedTool::Kotlinc)),
        tools.contains(tool_name(AllowlistedTool::Jar)),
        tools.contains(tool_name(AllowlistedTool::Java)),
        tools.contains(tool_name(AllowlistedTool::Apksigner)),
    ensures
        all_use_declared_tools(
            android_target_plan(config, entries, project_dir, probe).tasks,
            tools,
        ),
{
    reveal(android_target_plan);
    if let Ok(target) = android_target(config, entries, project_dir, probe) {
        if let Ok(packaging) = target_packaging(config, target, probe) {
            let variants = module_variants(config)->Ok_0;
            let signer = module_signer(config, target.project_dir)->Ok_0;
            let release = release_path(
                target.sdk,
                highest_version(target.sdk, probe.build_tools)->Ok_0,
            );
            lemma_variants_tools(target, release, signer, variants, tools);
        }
    }
}

/// The tools of the variants of the Android target.
proof fn lemma_variants_tools(
    target: TargetModel,
    release: Seq<char>,
    signer: Option<SignerModel>,
    variants: Seq<VariantModel>,
    tools: Seq<Seq<char>>,
)
    requires
        tools.contains(tool_name(AllowlistedTool::Jar)),
        tools.contains(tool_name(AllowlistedTool::Java)),
        tools.contains(tool_name(AllowlistedTool::Apksigner)),
    ensures
        all_use_declared_tools(target_variants_tasks(target, release, signer, variants), tools),
    decreases variants.len(),
{
    if variants.len() > 0 {
        lemma_variants_tools(target, release, signer, variants.drop_last(), tools);
        let own = target_variant_tasks(target, release, signer, variants.last());
        assert(all_use_declared_tools(own, tools));
    }
}

/// The outputs of one variant of the Android target are its dex and its APK.
proof fn lemma_variant_outputs(
    target: TargetModel,
    release: Seq<char>,
    signer: Option<SignerModel>,
    variant: VariantModel,
    test: spec_fn(Seq<char>) -> bool,
)
    requires
        test(path_join(merged_dex_dir(target.project_dir, variant), "classes.dex"@)),
        test(variant_apk(target.project_dir, variant)),
    ensures
        all_outputs_pass(target_variant_tasks(target, release, signer, variant), test),
{
    assert(outputs_pass(merge_dex_task(target, release, variant), test));
    assert(outputs_pass(graft_task(target, variant), test));
    if let Some(signer) = signer {
        assert(outputs_pass(sign_task(target, release, signer, variant), test));
    }
}

/// The paths of a variant's products below an absolute project directory are
/// absolute.
proof fn lemma_variant_paths_are_absolute(project_dir: Seq<char>, variant: VariantModel)
    requires
        is_absolute(project_dir),
    ensures
        is_absolute(path_join(merged_dex_dir(project_dir, variant), "classes.dex"@)),
        is_absolute(variant_apk(project_dir, variant)),
{
    assert(is_absolute(target_build(project_dir)));
    assert(is_absolute(merged_dex_dir(project_dir, variant)));
    assert(is_absolute(variant_build(project_dir, variant.variant_dir)));
}

/// The outputs of the variants of the Android target are absolute.
proof fn lemma_variants_outputs(
    target: TargetModel,
    release: Seq<char>,
    signer: Option<SignerModel>,
    variants: Seq<VariantModel>,
)
    requires
        is_absolute(target.project_dir),
    ensures
        all_outputs_pass(
            target_variants_tasks(target, release, signer, variants),
            |path: Seq<char>| is_absolute(path),
        ),
    decreases variants.len(),
{
    let test = |path: Seq<char>| is_absolute(path);
    if variants.len() > 0 {
        let front = target_variants_tasks(target, release, signer, variants.drop_last());
        let last = target_variant_tasks(target, release, signer, variants.last());
        lemma_variants_outputs(target, release, signer, variants.drop_last());
        lemma_variant_paths_are_absolute(target.project_dir, variants.last());
        lemma_variant_outputs(target, release, signer, variants.last(), test);
        lemma_both_outputs_pass(front, last, test);
    }
}

/// The outputs of the JVM target are absolute.
proof fn lemma_jvm_target_outputs(
    config: JsonModel,
    entries: Seq<(Seq<char>, JsonModel)>,
    jvm: JsonModel,
    project_dir: Seq<char>,
)
    requires
        is_absolute(project_dir),
    ensures
        all_outputs_pass(
            jvm_target_plan(config, entries, jvm, project_dir).tasks,
            |path: Seq<char>| is_absolute(path),
        ),
{
    reveal(jvm_target_plan);
}

/// Below an absolute project directory everything the tasks produce is named by
/// an absolute path.
pub proof fn law_products_are_absolute(config: JsonModel, probe: SdkModel)
    requires
        config.str_at("projectDir"@) matches Some(dir) ==> is_absolute(dir),
    ensures
        all_outputs_pass(kmp_plan(config, probe).tasks, |path: Seq<char>| is_absolute(path)),
{
    let test = |path: Seq<char>| is_absolute(path);
    if let Some(project_dir) = config.str_at("projectDir"@) {
        if let Some(kmp) = config.get("kmp"@) {
            if let Some(entries) = kmp.as_object() {
                if let Some(jvm) = lookup(entries, "jvm"@) {
                    lemma_jvm_target_outputs(config, entries, jvm, project_dir);
                }
                assert(all_outputs_pass(
                    android_target_plan(config, entries, project_dir, probe).tasks,
                    test,
                )) by {
                    reveal(android_target_plan);
                    if let Ok(target) = android_target(config, entries, project_dir, probe) {
                        if let Ok(packaging) = target_packaging(config, target, probe) {
                            lemma_variants_outputs(
                                target,
                                release_path(
                                    target.sdk,
                                    highest_version(target.sdk, probe.build_tools)->Ok_0,
                                ),
                                module_signer(config, target.project_dir)->Ok_0,
                                module_variants(config)->Ok_0,
                            );
                        }
                    }
                }
            }
        }
    }
}

/// A jar that several source sets declare appears once on their merged
/// classpath, and every jar that one of them declares appears.
pub proof fn law_merged_classpath_holds_each_jar_once(
    config: JsonModel,
    names: Seq<Seq<char>>,
    bucket: Seq<char>,
)
    ensures
        merged_bucket(config, names, bucket).no_duplicates(),
        forall|jar: Seq<char>|
            merged_bucket(config, names, bucket).contains(jar) <==> exists|i: int|
                0 <= i < names.len() && #[trigger] set_bucket(
                    config,
                    "kmp."@ + names[i],
                    bucket,
                ).contains(jar),
{
    let gathered = gathered_bucket(config, names, bucket);
    law_distinct_keeps_each_text_once(gathered);
    assert forall|jar: Seq<char>|
        merged_bucket(config, names, bucket).contains(jar) <==> exists|i: int|
            0 <= i < names.len() && #[trigger] set_bucket(
                config,
                "kmp."@ + names[i],
                bucket,
            ).contains(jar) by {
        lemma_gathered_holds(config, names, bucket, jar);
        assert(distinct(gathered).contains(jar) <==> gathered.contains(jar));
    }
}

/// The gathered jars are those of the source sets.
proof fn lemma_gathered_holds(
    config: JsonModel,
    names: Seq<Seq<char>>,
    bucket: Seq<char>,
    jar: Seq<char>,
)
    ensures
        gathered_bucket(config, names, bucket).contains(jar) <==> exists|i: int|
            0 <= i < names.len() && #[trigger] set_bucket(
                config,
                "kmp."@ + names[i],
                bucket,
            ).contains(jar),
    decreases names.len(),
{
    let all = gathered_bucket(config, names, bucket);
    if names.len() > 0 {
        let front = names.drop_last();
        let earlier = gathered_bucket(config, front, bucket);
        let last = set_bucket(config, "kmp."@ + names.last(), bucket);
        lemma_gathered_holds(config, front, bucket, jar);
        if all.contains(jar) {
            let k = choose|k: int| 0 <= k < all.len() && all[k] == jar;
            if k < earlier.len() {
                assert(earlier[k] == jar);
                assert(earlier.contains(jar));
                let i = choose|i: int|
                    0 <= i < front.len() && #[trigger] set_bucket(
                        config,
                        "kmp."@ + front[i],
                        bucket,
                    ).contains(jar);
                assert(front[i] == names[i]);
                assert(set_bucket(config, "kmp."@ + names[i], bucket).contains(jar));
            } else {
                assert(last[k - earlier.len()] == jar);
                assert(set_bucket(
                    config,
                    "kmp."@ + names[names.len() - 1],
                    bucket,
                ).contains(jar));
            }
        }
        if exists|i: int|
            0 <= i < names.len() && #[trigger] set_bucket(
                config,
                "kmp."@ + names[i],
                bucket,
            ).contains(jar) {
            let i = choose|i: int|
                0 <= i < names.len() && #[trigger] set_bucket(
                    config,
                    "kmp."@ + names[i],
                    bucket,
                ).contains(jar);
            if i < front.len() {
                assert(front[i] == names[i]);
                assert(set_bucket(config, "kmp."@ + front[i], bucket).contains(jar));
                let k = choose|k: int| 0 <= k < earlier.len() && earlier[k] == jar;
                assert(all[k] == jar);
            } else {
                let k = choose|k: int| 0 <= k < last.len() && last[k] == jar;
                assert(all[earlier.len() + k] == jar);
            }
        }
    }
}

/// The sources of one source set of a block.
pub open spec fn sources_of(
    entries: Seq<(Seq<char>, JsonModel)>,
    name: Seq<char>,
) -> Seq<Seq<char>> {
    match lookup(entries, name) {
        None => seq![],
        Some(block) => match block_list(block, "sources"@) {
            Ok(list) => list,
            Err(_) => seq![],
        },
    }
}

/// Looking behind one more entry.
proof fn lemma_lookup_in_a_longer_list(entries: Seq<(Seq<char>, JsonModel)>, name: Seq<char>)
    requires
        entries.len() > 0,
    ensures
        lookup(entries, name) == match lookup(entries.drop_last(), name) {
            Some(block) => Some(block),
            None => if entries.last().0 == name {
                Some(entries.last().1)
            } else {
                None
            },
        },
    decreases entries.len(),
{
    if entries.len() > 1 {
        assert(entries.drop_first().drop_last() =~= entries.drop_last().drop_first());
        assert(entries.drop_last()[0] == entries[0]);
        lemma_lookup_in_a_longer_list(entries.drop_first(), name);
    } else {
        assert(entries.drop_last() =~= seq![]);
        assert(entries.drop_first() =~= seq![]);
    }
}

/// A name that comes behind all entries has no entry.
proof fn lemma_no_entry_behind(entries: Seq<(Seq<char>, JsonModel)>, name: Seq<char>)
    requires
        forall|i: int| 0 <= i < entries.len() ==> before(#[trigger] entries[i].0, name),
    ensures
        lookup(entries, name) is None,
    decreases entries.len(),
{
    if entries.len() > 0 {
        lemma_before_is_strict(entries[0].0, name);
        assert forall|i: int| 0 <= i < entries.drop_first().len() implies before(
            #[trigger] entries.drop_first()[i].0,
            name,
        ) by {
            assert(entries.drop_first()[i] == entries[i + 1]);
        }
        lemma_no_entry_behind(entries.drop_first(), name);
    }
}

/// Of two source sets the sources of the one whose name comes first come first.
pub proof fn lemma_two_sets_in_order(
    entries: Seq<(Seq<char>, JsonModel)>,
    first: Seq<char>,
    second: Seq<char>,
)
    requires
        ascending(entries),
        before(first, second),
        collected_sources(entries, seq![first, second]) is Ok,
    ensures
        collected_sources(entries, seq![first, second])->Ok_0 == sources_of(entries, first)
            + sources_of(entries, second),
    decreases entries.len(),
{
    let names = seq![first, second];
    assert(names[0] == first && names[1] == second);
    if entries.len() == 0 {
        assert(sources_of(entries, first) + sources_of(entries, second) =~= seq![]);
    } else {
        let front = entries.drop_last();
        let (name, block) = entries.last();
        lemma_two_sets_in_order(front, first, second);
        lemma_lookup_in_a_longer_list(entries, first);
        lemma_lookup_in_a_longer_list(entries, second);
        lemma_before_is_strict(first, second);
        let earlier = collected_sources(front, names)->Ok_0;
        let none: Seq<Seq<char>> = seq![];
        if name == first {
            assert forall|i: int| 0 <= i < front.len() implies before(
                #[trigger] front[i].0,
                first,
            ) by {
                assert(before(entries[i].0, entries[entries.len() - 1].0));
            }
            lemma_no_entry_behind(front, first);
            assert forall|i: int| 0 <= i < front.len() implies before(
                #[trigger] front[i].0,
                second,
            ) by {
                lemma_before_is_transitive(front[i].0, first, second);
            }
            lemma_no_entry_behind(front, second);
            assert(names.contains(name));
            assert(earlier =~= none);
            assert(none + sources_of(entries, first) =~= sources_of(entries, first) + none);
        } else if name == second {
            assert forall|i: int| 0 <= i < front.len() implies before(
                #[trigger] front[i].0,
                second,
            ) by {
                assert(before(entries[i].0, entries[entries.len() - 1].0));
            }
            lemma_no_entry_behind(front, second);
            assert(names.contains(name));
            assert(earlier =~= sources_of(entries, first));
        } else {
            assert(!names.contains(name));
        }
    }
}

/// The source sets of the JVM target compile in hierarchy order: the shared
/// sources first, then those of the platform.
pub proof fn law_shared_sources_come_first(entries: Seq<(Seq<char>, JsonModel)>)
    requires
        ascending(entries),
        collected_sources(entries, jvm_sets()) is Ok,
    ensures
        collected_sources(entries, jvm_sets())->Ok_0 == sources_of(entries, "commonMain"@)
            + sources_of(entries, "jvmMain"@),
{
    reveal_strlit("commonMain");
    reveal_strlit("jvmMain");
    assert(diverges_at("commonMain"@, "jvmMain"@, 0));
    lemma_two_sets_in_order(entries, "commonMain"@, "jvmMain"@);
}

/// Every source file of the JVM target is compiled, and the jar waits for it: a
/// change of any source reaches the jar.
pub proof fn law_every_source_reaches_the_jar(
    config: JsonModel,
    kmp: JsonModel,
    jvm: JsonModel,
    project_dir: Seq<char>,
    probe: SdkModel,
    source: Seq<char>,
)
    requires
        config.str_at("projectDir"@) == Some(project_dir),
        config.get("kmp"@) == Some(kmp),
        kmp.as_object() matches Some(entries) && {
            &&& checked_entries(entries) is Ok
            &&& checked_targets(entries) is Ok
            &&& lookup(entries, "jvm"@) == Some(jvm)
            &&& jvm_target(config, entries, jvm, project_dir) is Ok
            &&& all_joined(project_dir, collected_sources(entries, jvm_sets())->Ok_0).contains(
                source,
            )
        },
    ensures
        is_built_into(kmp_plan(config, probe).tasks, source, "assemble"@),
{
    let entries = kmp.as_object()->0;
    let module = jvm_target(config, entries, jvm, project_dir)->Ok_0;
    let none: Seq<TaskModel> = seq![];
    let main = module.main_tasks();
    let target = jvm_target_plan(config, entries, jvm, project_dir);
    let whole = kmp_plan(config, probe);
    lemma_source_is_in_a_half(
        all_joined(project_dir, collected_sources(entries, jvm_sets())->Ok_0),
        source,
    );
    lemma_main_tasks_build_a_source(module, source);
    assert(main.is_prefix_of(target.tasks)) by {
        reveal(jvm_target_plan);
    }
    let rest = whole.tasks.skip(main.len() as int);
    lemma_built_into_a_longer_list(none, main, rest, source, "assemble"@);
    assert(none + main + rest =~= whole.tasks);
}

/// Two configurations agree on everything that the plugin looks at.
pub open spec fn agree(one: JsonModel, other: JsonModel) -> bool {
    &&& one.get("projectDir"@) == other.get("projectDir"@)
    &&& one.get("kmp"@) == other.get("kmp"@)
    &&& one.get("classpathSourceSets"@) == other.get("classpathSourceSets"@)
    &&& one.get("android"@) == other.get("android"@)
    &&& one.get("androidSdkDir"@) == other.get("androidSdkDir"@)
    &&& match (one.get("signing"@), other.get("signing"@)) {
        (Some(block), Some(other_block)) => {
            &&& block.str_at("storeFile"@) == other_block.str_at("storeFile"@)
            &&& block.str_at("keyAlias"@) == other_block.str_at("keyAlias"@)
        },
        (None, None) => true,
        _ => false,
    }
    &&& one.get("buildTypes"@) == other.get("buildTypes"@)
    &&& one.get("productFlavors"@) == other.get("productFlavors"@)
}

/// Configurations that agree have the same jars in their source sets.
proof fn lemma_agreeing_buckets(
    one: JsonModel,
    other: JsonModel,
    names: Seq<Seq<char>>,
    bucket: Seq<char>,
)
    requires
        agree(one, other),
    ensures
        gathered_bucket(one, names, bucket) == gathered_bucket(other, names, bucket),
    decreases names.len(),
{
    if names.len() > 0 {
        lemma_agreeing_buckets(one, other, names.drop_last(), bucket);
    }
}

/// Configurations that agree have the same variants.
proof fn lemma_agreeing_variants(one: JsonModel, other: JsonModel)
    requires
        agree(one, other),
    ensures
        module_variants(one) == module_variants(other),
{
    if module_variants(one) is Ok {
        let base = one.get("android"@)->0.i64_at("minSdk"@)->0;
        let names = build_types(one)->Ok_0;
        let flavors = module_flavors(one)->Ok_0;
        assert(variant_matrix(one, names, flavors, base) == variant_matrix(
            other,
            names,
            flavors,
            base,
        )) by {
            assert(matrix_cells(one, names, flavors, base) =~= matrix_cells(
                other,
                names,
                flavors,
                base,
            ));
            assert(names.map_values(|name: Seq<char>| plain_variant(one, name, base))
                =~= names.map_values(|name: Seq<char>| plain_variant(other, name, base)));
        }
    }
}

/// Configurations that agree have the same plan.
proof fn lemma_agreeing_plans(one: JsonModel, other: JsonModel, probe: SdkModel)
    requires
        agree(one, other),
    ensures
        kmp_plan(one, probe) == kmp_plan(other, probe),
{
    reveal(jvm_target_plan);
    reveal(android_target_plan);
    lemma_agreeing_buckets(one, other, jvm_sets(), "compile"@);
    lemma_agreeing_buckets(one, other, jvm_test_sets(), "testCompile"@);
    lemma_agreeing_buckets(one, other, jvm_test_sets(), "testRuntime"@);
    lemma_agreeing_buckets(one, other, android_sets(), "compile"@);
    lemma_agreeing_variants(one, other);
}

/// Dependencies belong to source sets: the module's own `deps` block and the
/// classpath resolved from it are not consulted, so modules that differ only
/// there have the same plan.
pub proof fn law_module_dependencies_are_not_consulted(
    one: JsonModel,
    other: JsonModel,
    probe: SdkModel,
)
    requires
        forall|key: Seq<char>|
            key != "classpath"@ && key != "deps"@ ==> #[trigger] one.get(key) == other.get(key),
    ensures
        kmp_plan(one, probe) == kmp_plan(other, probe),
{
    reveal_strlit("classpath");
    reveal_strlit("projectDir");
    reveal_strlit("kmp");
    reveal_strlit("classpathSourceSets");
    reveal_strlit("android");
    reveal_strlit("androidSdkDir");
    reveal_strlit("signing");
    reveal_strlit("buildTypes");
    reveal_strlit("productFlavors");
    reveal_strlit("deps");
    assert("classpath"@.len() == 9 && "deps"@.len() == 4);
    assert("projectDir"@.len() == 10 && "buildTypes"@.len() == 10);
    assert("kmp"@.len() == 3 && "classpathSourceSets"@.len() == 19);
    assert("android"@.len() == 7 && "signing"@.len() == 7);
    assert("androidSdkDir"@.len() == 13 && "productFlavors"@.len() == 14);
    lemma_agreeing_plans(one, other, probe);
}

/// The passwords are the business of the Android plugin: modules that differ only
/// in what else their signing blocks hold, beside the keystore and the alias, have
/// the same plan.
pub proof fn law_passwords_are_not_read(one: JsonModel, other: JsonModel, probe: SdkModel)
    requires
        forall|key: Seq<char>| key != "signing"@ ==> #[trigger] one.get(key) == other.get(key),
        match (one.get("signing"@), other.get("signing"@)) {
            (Some(block), Some(other_block)) => {
                &&& block.str_at("storeFile"@) == other_block.str_at("storeFile"@)
                &&& block.str_at("keyAlias"@) == other_block.str_at("keyAlias"@)
            },
            (None, None) => true,
            _ => false,
        },
    ensures
        kmp_plan(one, probe) == kmp_plan(other, probe),
{
    reveal_strlit("signing");
    reveal_strlit("projectDir");
    reveal_strlit("kmp");
    reveal_strlit("classpathSourceSets");
    reveal_strlit("android");
    reveal_strlit("androidSdkDir");
    reveal_strlit("buildTypes");
    reveal_strlit("productFlavors");
    assert("signing"@.len() == 7 && "signing"@[0] == 's');
    assert("android"@.len() == 7 && "android"@[0] == 'a');
    assert("projectDir"@.len() == 10 && "buildTypes"@.len() == 10);
    assert("kmp"@.len() == 3 && "classpathSourceSets"@.len() == 19);
    assert("androidSdkDir"@.len() == 13 && "productFlavors"@.len() == 14);
    lemma_agreeing_plans(one, other, probe);
}

} // verus!
