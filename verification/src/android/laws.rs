//! What holds of every plan of the `ulite/android` plugin.

use crate::android::module::{android_module, module_signing, AndroidModel, SigningModel};
use crate::android::plan::{
    android_manifest, android_plan, back_tasks, build_type_of, compose_plugin, front_tasks,
    kotlin_task, module_plan, password_tasks, res_zip_path, shared_tasks, sign_task, signing_tasks,
    variant_paths, variant_plan, variant_plans, without_flavors, PathsModel,
};
use crate::android::variants::{
    flavored_variant, matrix_cells, merged_sources, module_flavors, module_variants, plain_variant,
    sdk_levels, FlavorModel, FlavorModels, VariantModel,
};
use crate::json::JsonModel;
use crate::letter_case::{lowercase, pascal_case};
use crate::path::{is_absolute, law_join_below_an_absolute_base_is_absolute, parent, path_join};
use crate::sdk::SdkModel;
use crate::sources::{java_sources, lemma_source_is_in_a_half, other_sources};
use crate::task::{
    all_outputs_pass, all_tasks_pass, all_use_declared_tools, in_order, is_built_into, is_named,
    is_satisfied, lemma_add_in_order, lemma_both_pass, lemma_built_into_a_longer_list,
    lemma_named_in_a_longer_list, nothing_outside, outputs_pass, tool_name, uses_declared_tool,
    ActionModel, AllowlistedTool, TaskModel,
};
use crate::text::{added_if, dots_to_slashes, is_last_occurrence, lemma_last_occurrence_is_unique};
use crate::variants::{
    apk_name, build_types, key_password_path, ks_password_path, lemma_every_cell_of_a_table,
    shared_build, variant_build,
};
use vstd::prelude::*;

verus! {

/// A variant's build type is recovered from the variant's name: it is the
/// build type the variant was made from, in lower case.
pub proof fn law_build_type_is_recovered(
    build_type: Seq<char>,
    flavor: (Seq<char>, FlavorModel),
    min_sdk: i64,
    target_sdk: i64,
)
    ensures
        build_type_of(plain_variant(build_type, min_sdk, target_sdk)) == lowercase(
            pascal_case(build_type),
        ),
        build_type_of(flavored_variant(build_type, flavor, min_sdk, target_sdk)) == lowercase(
            pascal_case(build_type),
        ),
{
    let base = pascal_case(build_type);
    let suffix = pascal_case(flavor.0);
    let name = base + suffix;
    let flavors = seq![flavor.0];
    assert(name.subrange(base.len() as int, (base.len() + suffix.len()) as int) =~= suffix);
    assert(is_last_occurrence(name, suffix, base.len() as int));
    lemma_last_occurrence_is_unique(name, suffix, base.len() as int);
    assert(flavors.drop_last() =~= seq![]);
    assert(without_flavors(name, flavors.drop_last()) == name);
    assert(name.take(base.len() as int) =~= base);
}

/// The tasks that other tasks of a variant depend on are there.
pub open spec fn has_shared_tasks(tasks: Seq<TaskModel>, signing: Option<SigningModel>) -> bool {
    &&& is_named(tasks, "prepareBuildDir"@)
    &&& is_named(tasks, "mergeResources"@)
    &&& signing is Some ==> is_named(tasks, "writeSigningPasswords"@) && is_named(
        tasks,
        "writeSigningKeyPassword"@,
    )
}

/// The tasks that a variant offers to others are there.
pub open spec fn has_variant_tasks(
    tasks: Seq<TaskModel>,
    name: Seq<char>,
    signing: Option<SigningModel>,
) -> bool {
    &&& is_named(tasks, "jarClasses"@ + name)
    &&& is_named(tasks, "packageApk"@ + name)
    &&& signing is Some ==> is_named(tasks, "signApk"@ + name)
}

/// The front tasks of a variant behind the shared tasks are in order.
proof fn lemma_front_in_order(
    tasks: Seq<TaskModel>,
    module: AndroidModel,
    signing: Option<SigningModel>,
    variant: VariantModel,
    apk_dir: Seq<char>,
    sources: Seq<Seq<char>>,
)
    requires
        in_order(tasks, nothing_outside()),
        has_shared_tasks(tasks, signing),
    ensures
        in_order(tasks + front_tasks(module, variant, apk_dir, sources), nothing_outside()),
        has_shared_tasks(tasks + front_tasks(module, variant, apk_dir, sources), signing),
        is_named(
            tasks + front_tasks(module, variant, apk_dir, sources),
            "prepareDex"@ + variant.name,
        ),
        is_named(
            tasks + front_tasks(module, variant, apk_dir, sources),
            "linkResources"@ + variant.name,
        ),
        is_named(
            tasks + front_tasks(module, variant, apk_dir, sources),
            "seedApk"@ + variant.name,
        ),
        is_named(
            tasks + front_tasks(module, variant, apk_dir, sources),
            "compile"@ + variant.name,
        ),
{
    let outside = nothing_outside();
    reveal(front_tasks);
    let front = front_tasks(module, variant, apk_dir, sources);
    let list0 = tasks.push(front[0]);
    lemma_add_in_order(tasks, front[0], outside);
    let list1 = list0.push(front[1]);
    lemma_add_in_order(list0, front[1], outside);
    let list2 = list1.push(front[2]);
    lemma_add_in_order(list1, front[2], outside);
    let list3 = list2.push(front[3]);
    lemma_add_in_order(list2, front[3], outside);
    let list4 = list3.push(front[4]);
    lemma_add_in_order(list3, front[4], outside);
    let list5 = list4.push(front[5]);
    lemma_add_in_order(list4, front[5], outside);
    assert(tasks + front =~= list5);
}

/// The back tasks of a variant behind its front tasks are in order.
proof fn lemma_back_in_order(
    tasks: Seq<TaskModel>,
    module: AndroidModel,
    signing: Option<SigningModel>,
    variant: VariantModel,
    sources: Seq<Seq<char>>,
    plugin: Option<Seq<char>>,
)
    requires
        in_order(tasks, nothing_outside()),
        has_shared_tasks(tasks, signing),
        is_named(tasks, "prepareDex"@ + variant.name),
        is_named(tasks, "linkResources"@ + variant.name),
        is_named(tasks, "seedApk"@ + variant.name),
        is_named(tasks, "compile"@ + variant.name),
    ensures
        in_order(tasks + back_tasks(module, variant, sources, plugin), nothing_outside()),
        has_shared_tasks(tasks + back_tasks(module, variant, sources, plugin), signing),
        has_variant_tasks(
            tasks + back_tasks(module, variant, sources, plugin),
            variant.name,
            None,
        ),
{
    let outside = nothing_outside();
    reveal(back_tasks);
    let back = back_tasks(module, variant, sources, plugin);
    let kotlin = other_sources(sources);
    let compile_kotlin = kotlin_task(module, variant, kotlin, plugin);
    let n: int = if kotlin.len() > 0 {
        1
    } else {
        0
    };
    let list0 = added_if(tasks, kotlin.len() > 0, compile_kotlin);
    if kotlin.len() > 0 {
        lemma_add_in_order(tasks, compile_kotlin, outside);
    }
    let list1 = list0.push(back[n]);
    lemma_add_in_order(list0, back[n], outside);
    let list2 = list1.push(back[n + 1]);
    lemma_add_in_order(list1, back[n + 1], outside);
    let list3 = list2.push(back[n + 2]);
    lemma_add_in_order(list2, back[n + 2], outside);
    assert(tasks + back =~= list3);
}

/// All tasks of a variant, the signing task among them, behind the shared tasks
/// are in order.
proof fn lemma_built_in_order(
    tasks: Seq<TaskModel>,
    module: AndroidModel,
    signing: Option<SigningModel>,
    variant: VariantModel,
    apk_dir: Seq<char>,
    sources: Seq<Seq<char>>,
    plugin: Option<Seq<char>>,
)
    requires
        in_order(tasks, nothing_outside()),
        has_shared_tasks(tasks, signing),
    ensures
        in_order(
            tasks + (front_tasks(module, variant, apk_dir, sources) + back_tasks(
                module,
                variant,
                sources,
                plugin,
            ) + signing_tasks(module, variant, signing)),
            nothing_outside(),
        ),
        has_shared_tasks(
            tasks + (front_tasks(module, variant, apk_dir, sources) + back_tasks(
                module,
                variant,
                sources,
                plugin,
            ) + signing_tasks(module, variant, signing)),
            signing,
        ),
        has_variant_tasks(
            tasks + (front_tasks(module, variant, apk_dir, sources) + back_tasks(
                module,
                variant,
                sources,
                plugin,
            ) + signing_tasks(module, variant, signing)),
            variant.name,
            signing,
        ),
{
    let front = front_tasks(module, variant, apk_dir, sources);
    let back = back_tasks(module, variant, sources, plugin);
    let built = tasks + front + back;
    lemma_front_in_order(tasks, module, signing, variant, apk_dir, sources);
    lemma_back_in_order(tasks + front, module, signing, variant, sources, plugin);
    match signing {
        None => {
            assert(tasks + (front + back + signing_tasks(module, variant, signing)) =~= built);
        },
        Some(block) => {
            let sign = sign_task(module, variant, block);
            assert(is_satisfied(sign, built, nothing_outside()));
            lemma_add_in_order(built, sign, nothing_outside());
            assert(tasks + (front + back + signing_tasks(module, variant, signing))
                =~= built.push(sign));
        },
    }
}

/// The tasks of a variant behind the shared tasks are in order.
proof fn lemma_variant_in_order(
    tasks: Seq<TaskModel>,
    module: AndroidModel,
    flavors: FlavorModels,
    signing: Option<SigningModel>,
    variant: VariantModel,
)
    requires
        in_order(tasks, nothing_outside()),
        has_shared_tasks(tasks, signing),
    ensures
        in_order(
            tasks + variant_plan(module, flavors, signing, variant).tasks,
            nothing_outside(),
        ),
        has_shared_tasks(tasks + variant_plan(module, flavors, signing, variant).tasks, signing),
        variant_plan(module, flavors, signing, variant).outcome is Ok ==> has_variant_tasks(
            tasks + variant_plan(module, flavors, signing, variant).tasks,
            variant.name,
            signing,
        ),
{
    let plan = variant_plan(module, flavors, signing, variant);
    let none: Seq<TaskModel> = seq![];
    assert(tasks + none =~= tasks);
    let paths = variant_paths(module.project_dir, module.declared.namespace, variant);
    let merged = merged_sources(
        module.declared.sources,
        module.project_dir,
        variant.flavors,
        flavors,
    );
    if merged is Ok && parent(paths.apk) is Some {
        let sources = merged->Ok_0;
        let apk_dir = parent(paths.apk)->0;
        let front = front_tasks(module, variant, apk_dir, sources);
        match compose_plugin(module.declared.compose, module.classpath) {
            Ok(plugin) => {
                assert(plan.tasks == front + back_tasks(module, variant, sources, plugin)
                    + signing_tasks(module, variant, signing)) by {
                    reveal(variant_plan);
                }
                lemma_built_in_order(tasks, module, signing, variant, apk_dir, sources, plugin);
            },
            Err(_) => {
                assert(front + none =~= front);
                assert(plan.tasks == front && plan.outcome is Err) by {
                    reveal(variant_plan);
                }
                lemma_front_in_order(tasks, module, signing, variant, apk_dir, sources);
            },
        }
    } else {
        assert(plan.tasks == none && plan.outcome is Err) by {
            reveal(variant_plan);
        }
    }
}

/// The tasks of the variants behind the shared tasks are in order, and where all
/// plans succeed each variant offers its tasks.
pub proof fn lemma_variants_in_order(
    tasks: Seq<TaskModel>,
    module: AndroidModel,
    flavors: FlavorModels,
    signing: Option<SigningModel>,
    variants: Seq<VariantModel>,
)
    requires
        in_order(tasks, nothing_outside()),
        has_shared_tasks(tasks, signing),
    ensures
        in_order(
            tasks + variant_plans(module, flavors, signing, variants).tasks,
            nothing_outside(),
        ),
        has_shared_tasks(tasks + variant_plans(module, flavors, signing, variants).tasks, signing),
        variant_plans(module, flavors, signing, variants).outcome is Ok ==> forall|i: int|
            0 <= i < variants.len() ==> has_variant_tasks(
                tasks + variant_plans(module, flavors, signing, variants).tasks,
                (#[trigger] variants[i]).name,
                signing,
            ),
    decreases variants.len(),
{
    let whole = variant_plans(module, flavors, signing, variants);
    if variants.len() == 0 {
        assert(tasks + whole.tasks =~= tasks);
    } else {
        let first = variant_plan(module, flavors, signing, variants[0]);
        let rest = variant_plans(module, flavors, signing, variants.drop_first());
        let longer = tasks + first.tasks;
        lemma_variant_in_order(tasks, module, flavors, signing, variants[0]);
        if first.outcome is Ok {
            lemma_variants_in_order(longer, module, flavors, signing, variants.drop_first());
            assert(tasks + (first.tasks + rest.tasks) =~= longer + rest.tasks);
            if whole.outcome is Ok {
                let name = variants[0].name;
                lemma_named_in_a_longer_list(longer, rest.tasks, "jarClasses"@ + name);
                lemma_named_in_a_longer_list(longer, rest.tasks, "packageApk"@ + name);
                if signing is Some {
                    lemma_named_in_a_longer_list(longer, rest.tasks, "signApk"@ + name);
                }
                assert forall|i: int| 0 <= i < variants.len() implies has_variant_tasks(
                    tasks + whole.tasks,
                    (#[trigger] variants[i]).name,
                    signing,
                ) by {
                    if i > 0 {
                        assert(variants.drop_first()[i - 1] == variants[i]);
                    }
                }
            }
        }
    }
}

/// The shared tasks and the password tasks are in order.
proof fn lemma_shared_in_order(module: AndroidModel, signing: Option<SigningModel>)
    ensures
        in_order(shared_tasks(module), nothing_outside()),
        in_order(
            shared_tasks(module) + password_tasks(module.project_dir, signing),
            nothing_outside(),
        ),
        has_shared_tasks(
            shared_tasks(module) + password_tasks(module.project_dir, signing),
            signing,
        ),
{
    let outside = nothing_outside();
    let none: Seq<TaskModel> = seq![];
    let shared = shared_tasks(module);
    let passwords = password_tasks(module.project_dir, signing);
    lemma_add_in_order(none, shared[0], outside);
    lemma_add_in_order(none.push(shared[0]), shared[1], outside);
    assert(shared =~= none.push(shared[0]).push(shared[1]));
    match signing {
        None => {
            assert(shared + passwords =~= shared);
        },
        Some(_) => {
            lemma_add_in_order(shared, passwords[0], outside);
            lemma_add_in_order(shared.push(passwords[0]), passwords[1], outside);
            assert(shared + passwords =~= shared.push(passwords[0]).push(passwords[1]));
        },
    }
}

/// Every task of a plan depends only on tasks that come before it.
pub proof fn law_tasks_follow_what_they_depend_on(config: JsonModel, probe: SdkModel)
    ensures
        in_order(android_plan(config, probe).tasks, nothing_outside()),
{
    lemma_plan_offers_tasks(config, probe);
}

/// The tasks of a plan are in order, and where planning succeeds the tasks that
/// others depend on are there.
pub proof fn lemma_plan_offers_tasks(config: JsonModel, probe: SdkModel)
    ensures
        in_order(android_plan(config, probe).tasks, nothing_outside()),
        android_plan(config, probe).outcome is Ok ==> {
            &&& module_variants(config) is Ok
            &&& module_signing(config) is Ok
            &&& has_shared_tasks(android_plan(config, probe).tasks, module_signing(config)->Ok_0)
            &&& forall|i: int|
                0 <= i < module_variants(config)->Ok_0.0.len() ==> has_variant_tasks(
                    android_plan(config, probe).tasks,
                    (#[trigger] module_variants(config)->Ok_0.0[i]).name,
                    module_signing(config)->Ok_0,
                )
        },
{
    let none: Seq<TaskModel> = seq![];
    if let Some(project_dir) = config.str_at("projectDir"@) {
        if let Some(android) = config.get("android"@) {
            if let Ok(module) = android_module(config, android, project_dir, probe) {
                let shared = shared_tasks(module);
                assert(shared + none =~= shared);
                lemma_shared_in_order(module, None);
                if module_variants(config) is Ok {
                    let (variants, flavors) = module_variants(config)->Ok_0;
                    if let Ok(signing) = module_signing(config) {
                        let passwords = password_tasks(project_dir, signing);
                        let plans = variant_plans(module, flavors, signing, variants);
                        lemma_shared_in_order(module, signing);
                        lemma_variants_in_order(
                            shared + passwords,
                            module,
                            flavors,
                            signing,
                            variants,
                        );
                        assert(shared + (passwords + plans.tasks) =~= shared + passwords
                            + plans.tasks);
                    }
                }
            }
        }
    }
}

/// With a signing block the APK of every variant is signed.
pub proof fn law_signed_module_signs_every_variant(config: JsonModel, probe: SdkModel)
    requires
        config.get("signing"@) is Some,
        android_plan(config, probe).outcome is Ok,
    ensures
        module_variants(config) is Ok,
        forall|i: int|
            0 <= i < module_variants(config)->Ok_0.0.len() ==> is_named(
                android_plan(config, probe).tasks,
                "signApk"@ + (#[trigger] module_variants(config)->Ok_0.0[i]).name,
            ),
{
    lemma_plan_offers_tasks(config, probe);
    let variants = module_variants(config)->Ok_0.0;
    assert forall|i: int| 0 <= i < variants.len() implies is_named(
        android_plan(config, probe).tasks,
        "signApk"@ + (#[trigger] variants[i]).name,
    ) by {
        assert(has_variant_tasks(
            android_plan(config, probe).tasks,
            variants[i].name,
            module_signing(config)->Ok_0,
        ));
    }
}

/// The platform jar heads the compile classpath, so that the module's sources
/// can refer to the SDK.
pub proof fn law_platform_jar_heads_the_classpath(
    config: JsonModel,
    android: JsonModel,
    project_dir: Seq<char>,
    probe: SdkModel,
)
    requires
        android_module(config, android, project_dir, probe) is Ok,
    ensures
        android_module(config, android, project_dir, probe)->Ok_0.classpath.len() > 0,
        android_module(config, android, project_dir, probe)->Ok_0.classpath[0] == android_module(
            config,
            android,
            project_dir,
            probe,
        )->Ok_0.tools.platform_jar,
{
}

/// A module that cannot be built, because its block or its SDK is broken,
/// registers no task at all.
pub proof fn law_broken_module_registers_nothing(config: JsonModel, probe: SdkModel)
    requires
        config.str_at("projectDir"@) is Some,
        config.get("android"@) is Some,
        android_module(
            config,
            config.get("android"@)->0,
            config.str_at("projectDir"@)->0,
            probe,
        ) is Err,
    ensures
        android_plan(config, probe).tasks.len() == 0,
        android_plan(config, probe).outcome is Err,
{
}

/// Every task that a variant can have passes a test.
pub open spec fn variant_passes(
    module: AndroidModel,
    signing: Option<SigningModel>,
    variant: VariantModel,
    test: spec_fn(TaskModel) -> bool,
) -> bool {
    &&& forall|apk_dir: Seq<char>, sources: Seq<Seq<char>>|
        all_tasks_pass(#[trigger] front_tasks(module, variant, apk_dir, sources), test)
    &&& forall|sources: Seq<Seq<char>>, plugin: Option<Seq<char>>|
        all_tasks_pass(#[trigger] back_tasks(module, variant, sources, plugin), test)
    &&& all_tasks_pass(signing_tasks(module, variant, signing), test)
}

/// What every task of a variant passes, the tasks of its plan pass.
proof fn lemma_variant_plan_passes(
    module: AndroidModel,
    flavors: FlavorModels,
    signing: Option<SigningModel>,
    variant: VariantModel,
    test: spec_fn(TaskModel) -> bool,
)
    requires
        variant_passes(module, signing, variant, test),
    ensures
        all_tasks_pass(variant_plan(module, flavors, signing, variant).tasks, test),
{
    reveal(variant_plan);
    let paths = variant_paths(module.project_dir, module.declared.namespace, variant);
    let merged = merged_sources(
        module.declared.sources,
        module.project_dir,
        variant.flavors,
        flavors,
    );
    if merged is Ok && parent(paths.apk) is Some {
        let sources = merged->Ok_0;
        let front = front_tasks(module, variant, parent(paths.apk)->0, sources);
        if let Ok(plugin) = compose_plugin(module.declared.compose, module.classpath) {
            let back = back_tasks(module, variant, sources, plugin);
            lemma_both_pass(front, back, test);
            lemma_both_pass(front + back, signing_tasks(module, variant, signing), test);
        } else {
            assert(front + Seq::<TaskModel>::empty() =~= front);
        }
    }
}

/// What every task of every variant passes, the tasks of their plans pass.
proof fn lemma_variant_plans_pass(
    module: AndroidModel,
    flavors: FlavorModels,
    signing: Option<SigningModel>,
    variants: Seq<VariantModel>,
    test: spec_fn(TaskModel) -> bool,
)
    requires
        forall|i: int|
            0 <= i < variants.len() ==> variant_passes(
                module,
                signing,
                #[trigger] variants[i],
                test,
            ),
    ensures
        all_tasks_pass(variant_plans(module, flavors, signing, variants).tasks, test),
    decreases variants.len(),
{
    if variants.len() > 0 {
        let rest = variants.drop_first();
        assert forall|i: int| 0 <= i < rest.len() implies variant_passes(
            module,
            signing,
            #[trigger] rest[i],
            test,
        ) by {
            assert(rest[i] == variants[i + 1]);
        }
        lemma_variant_plan_passes(module, flavors, signing, variants[0], test);
        lemma_variant_plans_pass(module, flavors, signing, rest, test);
        lemma_both_pass(
            variant_plan(module, flavors, signing, variants[0]).tasks,
            variant_plans(module, flavors, signing, rest).tasks,
            test,
        );
    }
}

/// What every task that a module can have passes, the tasks of its plan pass.
proof fn lemma_module_plan_passes(
    module: AndroidModel,
    config: JsonModel,
    test: spec_fn(TaskModel) -> bool,
)
    requires
        all_tasks_pass(shared_tasks(module), test),
        module_signing(config) matches Ok(signing) ==> {
            &&& all_tasks_pass(password_tasks(module.project_dir, signing), test)
            &&& module_variants(config) matches Ok((variants, _)) ==> forall|i: int|
                0 <= i < variants.len() ==> variant_passes(
                    module,
                    signing,
                    #[trigger] variants[i],
                    test,
                )
        },
    ensures
        all_tasks_pass(module_plan(module, config).tasks, test),
{
    let shared = shared_tasks(module);
    assert(shared + Seq::<TaskModel>::empty() =~= shared);
    if module_variants(config) is Ok {
        let (variants, flavors) = module_variants(config)->Ok_0;
        if let Ok(signing) = module_signing(config) {
            let passwords = password_tasks(module.project_dir, signing);
            let plans = variant_plans(module, flavors, signing, variants);
            lemma_variant_plans_pass(module, flavors, signing, variants, test);
            lemma_both_pass(passwords, plans.tasks, test);
            lemma_both_pass(shared, passwords + plans.tasks, test);
        }
    }
}

/// Every tool the tasks run is declared in the manifest.
pub proof fn law_tools_are_declared(
    config: JsonModel,
    probe: SdkModel,
    version: Seq<char>,
    abi_version: Seq<char>,
)
    ensures
        all_use_declared_tools(
            android_plan(config, probe).tasks,
            android_manifest(version, abi_version).tools,
        ),
{
    let tools = android_manifest(version, abi_version).tools;
    let test = |task: TaskModel| uses_declared_tool(task, tools);
    assert(tools[0] == tool_name(AllowlistedTool::Javac));
    assert(tools[1] == tool_name(AllowlistedTool::Kotlinc));
    assert(tools[2] == tool_name(AllowlistedTool::Aapt2));
    assert(tools[3] == tool_name(AllowlistedTool::Jar));
    assert(tools[4] == tool_name(AllowlistedTool::Java));
    assert(tools[5] == tool_name(AllowlistedTool::Mkdir));
    assert(tools[6] == tool_name(AllowlistedTool::Cp));
    assert(tools[7] == tool_name(AllowlistedTool::Apksigner));
    assert forall|tool: AllowlistedTool| tools.contains(#[trigger] tool_name(tool)) by {}
    if let Some(project_dir) = config.str_at("projectDir"@) {
        if let Some(android) = config.get("android"@) {
            if let Ok(module) = android_module(config, android, project_dir, probe) {
                assert forall|signing: Option<SigningModel>, variant: VariantModel|
                    #[trigger] variant_passes(module, signing, variant, test) by {
                    reveal(front_tasks);
                    reveal(back_tasks);
                }
                lemma_module_plan_passes(module, config, test);
                let tasks = android_plan(config, probe).tasks;
                assert forall|i: int| 0 <= i < tasks.len() implies uses_declared_tool(
                    #[trigger] tasks[i],
                    tools,
                ) by {
                    assert(test(tasks[i]));
                }
            }
        }
    }
}

/// Without a signing block nothing is signed.
pub proof fn law_unsigned_module_signs_nothing(config: JsonModel, probe: SdkModel)
    requires
        config.get("signing"@) is None,
    ensures
        forall|i: int|
            0 <= i < android_plan(config, probe).tasks.len() ==> match (
            #[trigger] android_plan(config, probe).tasks[i]).action {
                ActionModel::RunTool { tool, .. } => tool != AllowlistedTool::Apksigner,
                ActionModel::WriteFile { .. } => true,
            },
{
    let test = |task: TaskModel|
        match task.action {
            ActionModel::RunTool { tool, .. } => tool != AllowlistedTool::Apksigner,
            ActionModel::WriteFile { .. } => true,
        };
    if let Some(project_dir) = config.str_at("projectDir"@) {
        if let Some(android) = config.get("android"@) {
            if let Ok(module) = android_module(config, android, project_dir, probe) {
                assert forall|variant: VariantModel| #[trigger]
                    variant_passes(module, None, variant, test) by {
                    reveal(front_tasks);
                    reveal(back_tasks);
                }
                lemma_module_plan_passes(module, config, test);
                let tasks = android_plan(config, probe).tasks;
                assert forall|i: int| 0 <= i < tasks.len() implies test(#[trigger] tasks[i]) by {}
            }
        }
    }
}

/// A source of a variant is compiled, and the variant's jar waits for it.
proof fn lemma_variant_tasks_build_a_source(
    module: AndroidModel,
    variant: VariantModel,
    apk_dir: Seq<char>,
    sources: Seq<Seq<char>>,
    plugin: Option<Seq<char>>,
    source: Seq<char>,
)
    requires
        sources.contains(source),
    ensures
        is_built_into(
            front_tasks(module, variant, apk_dir, sources) + back_tasks(
                module,
                variant,
                sources,
                plugin,
            ),
            source,
            "jarClasses"@ + variant.name,
        ),
{
    reveal(front_tasks);
    reveal(back_tasks);
    let front = front_tasks(module, variant, apk_dir, sources);
    let back = back_tasks(module, variant, sources, plugin);
    let tasks = front + back;
    let java = java_sources(sources);
    let kotlin = other_sources(sources);
    let n: int = if kotlin.len() > 0 {
        1
    } else {
        0
    };
    lemma_source_is_in_a_half(sources, source);
    assert(tasks[6 + n] == back[n]);
    assert(back[n].name == "jarClasses"@ + variant.name);
    assert(back[n].depends_on[0] == "compile"@ + variant.name);
    if java.contains(source) {
        assert(tasks[5] == front[5]);
        assert(front[5].inputs[java.index_of(source)] == source);
        assert(tasks[5].inputs.contains(source));
        assert(tasks[6 + n].depends_on.contains(tasks[5].name));
    } else {
        assert(tasks[6] == back[0]);
        assert(back[0] == kotlin_task(module, variant, kotlin, plugin));
        assert(back[1].depends_on[1] == "compileKotlin"@ + variant.name);
        assert(tasks[6].inputs.contains(source));
        assert(tasks[7].depends_on.contains(tasks[6].name));
    }
}

/// Where the plans of all variants succeed, each source of each variant is
/// compiled and the variant's jar waits for it.
proof fn lemma_variant_plans_build_a_source(
    module: AndroidModel,
    flavors: FlavorModels,
    signing: Option<SigningModel>,
    variants: Seq<VariantModel>,
    i: int,
    source: Seq<char>,
)
    requires
        variant_plans(module, flavors, signing, variants).outcome is Ok,
        0 <= i < variants.len(),
        merged_sources(
            module.declared.sources,
            module.project_dir,
            variants[i].flavors,
            flavors,
        ) matches Ok(sources) && sources.contains(source),
    ensures
        is_built_into(
            variant_plans(module, flavors, signing, variants).tasks,
            source,
            "jarClasses"@ + variants[i].name,
        ),
    decreases variants.len(),
{
    let none: Seq<TaskModel> = seq![];
    let variant = variants[0];
    let name = "jarClasses"@ + variants[i].name;
    let first = variant_plan(module, flavors, signing, variant).tasks;
    let rest = variant_plans(module, flavors, signing, variants.drop_first()).tasks;
    let whole = variant_plans(module, flavors, signing, variants).tasks;
    if i > 0 {
        assert(variants.drop_first()[i - 1] == variants[i]);
        lemma_variant_plans_build_a_source(
            module,
            flavors,
            signing,
            variants.drop_first(),
            i - 1,
            source,
        );
        lemma_built_into_a_longer_list(first, rest, none, source, name);
        assert(first + rest + none =~= whole);
    } else {
        reveal(variant_plan);
        let paths = variant_paths(module.project_dir, module.declared.namespace, variant);
        let sources = merged_sources(
            module.declared.sources,
            module.project_dir,
            variant.flavors,
            flavors,
        )->Ok_0;
        let apk_dir = parent(paths.apk)->0;
        let plugin = compose_plugin(module.declared.compose, module.classpath)->Ok_0;
        let built = front_tasks(module, variant, apk_dir, sources) + back_tasks(
            module,
            variant,
            sources,
            plugin,
        );
        let signed = signing_tasks(module, variant, signing);
        lemma_variant_tasks_build_a_source(module, variant, apk_dir, sources, plugin, source);
        lemma_built_into_a_longer_list(none, built, signed + rest, source, name);
        assert(first == built + signed);
        assert(none + built + (signed + rest) =~= whole);
    }
}

/// Every source file of every variant is compiled, and the jar that the variant's
/// APK is made from waits for it: a change of any source reaches the APK.
pub proof fn law_every_source_reaches_the_classes_jar(
    config: JsonModel,
    android: JsonModel,
    project_dir: Seq<char>,
    probe: SdkModel,
    i: int,
    source: Seq<char>,
)
    requires
        config.str_at("projectDir"@) == Some(project_dir),
        config.get("android"@) == Some(android),
        android_plan(config, probe).outcome is Ok,
        0 <= i < module_variants(config)->Ok_0.0.len(),
        merged_sources(
            android_module(config, android, project_dir, probe)->Ok_0.declared.sources,
            project_dir,
            module_variants(config)->Ok_0.0[i].flavors,
            module_variants(config)->Ok_0.1,
        ) matches Ok(sources) && sources.contains(source),
    ensures
        is_built_into(
            android_plan(config, probe).tasks,
            source,
            "jarClasses"@ + module_variants(config)->Ok_0.0[i].name,
        ),
{
    let none: Seq<TaskModel> = seq![];
    let module = android_module(config, android, project_dir, probe)->Ok_0;
    let (variants, flavors) = module_variants(config)->Ok_0;
    let signing = module_signing(config)->Ok_0;
    let shared = shared_tasks(module);
    let passwords = password_tasks(project_dir, signing);
    let plans = variant_plans(module, flavors, signing, variants).tasks;
    let name = "jarClasses"@ + variants[i].name;
    lemma_variant_plans_build_a_source(module, flavors, signing, variants, i, source);
    lemma_built_into_a_longer_list(shared + passwords, plans, none, source, name);
    assert(shared + passwords + plans + none =~= android_plan(config, probe).tasks);
}

/// A relative path joined onto a base starts with the base.
pub proof fn lemma_join_starts_with_the_base(base: Seq<char>, part: Seq<char>)
    requires
        !is_absolute(part),
    ensures
        base.is_prefix_of(path_join(base, part)),
{
    assert(path_join(base, part).take(base.len() as int) =~= base);
}

/// The products of a variant with relative names are below the build directory.
proof fn lemma_variant_products_are_below(
    project_dir: Seq<char>,
    namespace: Seq<char>,
    variant: VariantModel,
)
    requires
        !is_absolute(variant.variant_dir),
        !is_absolute(variant.apk_filename),
        !is_absolute(dots_to_slashes(namespace)),
    ensures
        ({
            let build = path_join(project_dir, "build"@);
            let paths = variant_paths(project_dir, namespace, variant);
            &&& build.is_prefix_of(paths.classes_dir)
            &&& build.is_prefix_of(paths.classes_jar)
            &&& build.is_prefix_of(paths.dex_dir)
            &&& build.is_prefix_of(paths.resources_apk)
            &&& build.is_prefix_of(paths.rgen_dir)
            &&& build.is_prefix_of(paths.apk)
            &&& build.is_prefix_of(paths.buildconfig_java)
        }),
{
    reveal_strlit("classes");
    reveal_strlit("classes.jar");
    reveal_strlit("dex");
    reveal_strlit("resources.apk");
    reveal_strlit("R");
    reveal_strlit("generated");
    reveal_strlit("buildconfig");
    reveal_strlit("BuildConfig.java");
    let build = path_join(project_dir, "build"@);
    let own = variant_build(project_dir, variant.variant_dir);
    lemma_join_starts_with_the_base(build, variant.variant_dir);
    lemma_join_starts_with_the_base(own, "classes"@);
    lemma_join_starts_with_the_base(own, "classes.jar"@);
    lemma_join_starts_with_the_base(own, "dex"@);
    lemma_join_starts_with_the_base(own, "resources.apk"@);
    lemma_join_starts_with_the_base(own, "R"@);
    lemma_join_starts_with_the_base(own, variant.apk_filename);
    let generated = path_join(own, "generated"@);
    let sources = path_join(generated, "buildconfig"@);
    let package = path_join(sources, dots_to_slashes(namespace));
    lemma_join_starts_with_the_base(own, "generated"@);
    lemma_join_starts_with_the_base(generated, "buildconfig"@);
    lemma_join_starts_with_the_base(sources, dots_to_slashes(namespace));
    lemma_join_starts_with_the_base(package, "BuildConfig.java"@);
}

/// What all variants share is below the build directory.
proof fn lemma_shared_products_are_below(project_dir: Seq<char>)
    ensures
        path_join(project_dir, "build"@).is_prefix_of(res_zip_path(project_dir)),
        path_join(project_dir, "build"@).is_prefix_of(ks_password_path(project_dir)),
        path_join(project_dir, "build"@).is_prefix_of(key_password_path(project_dir)),
{
    reveal_strlit("build");
    reveal_strlit("build/android");
    reveal_strlit("res.zip");
    reveal_strlit("ks-password.txt");
    reveal_strlit("key-password.txt");
    let build = path_join(project_dir, "build"@);
    let shared = shared_build(project_dir);
    assert(shared.take(build.len() as int) =~= build);
    lemma_join_starts_with_the_base(shared, "res.zip"@);
    lemma_join_starts_with_the_base(shared, "ks-password.txt"@);
    lemma_join_starts_with_the_base(shared, "key-password.txt"@);
}

/// The file name of an APK is relative.
proof fn lemma_apk_name_is_relative(directory: Seq<char>)
    ensures
        !is_absolute(apk_name(directory)),
{
    reveal_strlit("app-");
    assert(apk_name(directory)[0] == 'a');
}

/// Every variant of a module has an APK named after its directory.
pub proof fn lemma_apk_names(config: JsonModel, i: int)
    requires
        module_variants(config) is Ok,
        0 <= i < module_variants(config)->Ok_0.0.len(),
    ensures
        module_variants(config)->Ok_0.0[i].apk_filename == apk_name(
            module_variants(config)->Ok_0.0[i].variant_dir,
        ),
{
    let android = config.get("android"@)->0;
    let (min_sdk, target_sdk) = sdk_levels(android)->Ok_0;
    let names = build_types(config)->Ok_0;
    let flavors = module_flavors(config)->Ok_0;
    if flavors.len() > 0 {
        let cells = matrix_cells(names, flavors, min_sdk, target_sdk);
        lemma_every_cell_of_a_table(names.len(), flavors.len(), cells, i);
    }
}

/// Everything the tasks produce is below the project's build directory, unless
/// a name that becomes part of a path is itself an absolute path.
pub proof fn law_products_are_below_the_build_directory(config: JsonModel, probe: SdkModel)
    requires
        config.str_at("projectDir"@) is Some,
        config.get("android"@) matches Some(android) ==> android.str_at("namespace"@) matches Some(
            namespace,
        ) ==> !is_absolute(dots_to_slashes(namespace)),
        module_variants(config) matches Ok((variants, _)) ==> forall|i: int|
            0 <= i < variants.len() ==> !is_absolute((#[trigger] variants[i]).variant_dir),
    ensures
        all_outputs_pass(
            android_plan(config, probe).tasks,
            |path: Seq<char>|
                path_join(config.str_at("projectDir"@)->0, "build"@).is_prefix_of(path),
        ),
{
    let project_dir = config.str_at("projectDir"@)->0;
    let build = path_join(project_dir, "build"@);
    let below = |path: Seq<char>|
        path_join(config.str_at("projectDir"@)->0, "build"@).is_prefix_of(path);
    let test = |task: TaskModel| outputs_pass(task, below);
    if let Some(android) = config.get("android"@) {
        if let Ok(module) = android_module(config, android, project_dir, probe) {
            lemma_shared_products_are_below(project_dir);
            assert forall|signing: Option<SigningModel>, i: int|
                module_variants(config) is Ok && 0 <= i < module_variants(config)->Ok_0.0.len()
                implies #[trigger] variant_passes(
                module,
                signing,
                module_variants(config)->Ok_0.0[i],
                test,
            ) by {
                let variant = module_variants(config)->Ok_0.0[i];
                lemma_apk_names(config, i);
                lemma_apk_name_is_relative(variant.variant_dir);
                lemma_variant_products_are_below(project_dir, module.declared.namespace, variant);
                lemma_variant_outputs(module, signing, variant, below);
            }
            lemma_module_plan_passes(module, config, test);
            let tasks = android_plan(config, probe).tasks;
            assert forall|i: int| 0 <= i < tasks.len() implies outputs_pass(
                #[trigger] tasks[i],
                below,
            ) by {
                assert(test(tasks[i]));
            }
        }
    }
}

/// The products of a variant below an absolute project directory have absolute
/// paths.
proof fn lemma_products_are_absolute(
    project_dir: Seq<char>,
    namespace: Seq<char>,
    variant: VariantModel,
)
    requires
        is_absolute(project_dir),
    ensures
        products_pass(
            variant_paths(project_dir, namespace, variant),
            |path: Seq<char>| is_absolute(path),
        ),
{
    let absolute = |path: Seq<char>| is_absolute(path);
    let paths = variant_paths(project_dir, namespace, variant);
    let build = path_join(project_dir, "build"@);
    let own = path_join(build, variant.variant_dir);
    let generated = path_join(own, "generated"@);
    let sources = path_join(generated, "buildconfig"@);
    let package = path_join(sources, dots_to_slashes(namespace));
    assert(absolute(build));
    assert(absolute(own)) by {
        law_join_below_an_absolute_base_is_absolute(build, variant.variant_dir);
    }
    assert(absolute(generated)) by {
        law_join_below_an_absolute_base_is_absolute(own, "generated"@);
    }
    assert(absolute(sources)) by {
        law_join_below_an_absolute_base_is_absolute(generated, "buildconfig"@);
    }
    assert(absolute(package)) by {
        law_join_below_an_absolute_base_is_absolute(sources, dots_to_slashes(namespace));
    }
    assert(absolute(paths.buildconfig_java)) by {
        law_join_below_an_absolute_base_is_absolute(package, "BuildConfig.java"@);
    }
    lemma_files_of_a_directory_are_absolute(own, variant.apk_filename);
}

/// The products that lie directly in an absolute directory have absolute paths.
proof fn lemma_files_of_a_directory_are_absolute(own: Seq<char>, apk: Seq<char>)
    requires
        is_absolute(own),
    ensures
        is_absolute(path_join(own, "classes"@)),
        is_absolute(path_join(own, "classes.jar"@)),
        is_absolute(path_join(own, "dex"@)),
        is_absolute(path_join(own, "resources.apk"@)),
        is_absolute(path_join(own, "R"@)),
        is_absolute(path_join(own, apk)),
{
}

/// What all variants share, below an absolute project directory, has absolute
/// paths.
proof fn lemma_shared_products_are_absolute(project_dir: Seq<char>)
    requires
        is_absolute(project_dir),
    ensures
        is_absolute(res_zip_path(project_dir)),
        is_absolute(ks_password_path(project_dir)),
        is_absolute(key_password_path(project_dir)),
{
    assert(is_absolute(shared_build(project_dir)));
}

/// Below an absolute project directory everything the tasks produce is named by
/// an absolute path.
pub proof fn law_products_are_absolute(config: JsonModel, probe: SdkModel)
    requires
        config.str_at("projectDir"@) matches Some(dir) ==> is_absolute(dir),
    ensures
        all_outputs_pass(android_plan(config, probe).tasks, |path: Seq<char>| is_absolute(path)),
{
    let absolute = |path: Seq<char>| is_absolute(path);
    let test = |task: TaskModel| outputs_pass(task, absolute);
    if let Some(project_dir) = config.str_at("projectDir"@) {
        if let Some(android) = config.get("android"@) {
            if let Ok(module) = android_module(config, android, project_dir, probe) {
                assert forall|signing: Option<SigningModel>, variant: VariantModel|
                    #[trigger] variant_passes(module, signing, variant, test) by {
                    lemma_products_are_absolute(project_dir, module.declared.namespace, variant);
                    lemma_variant_outputs(module, signing, variant, absolute);
                }
                lemma_shared_products_are_absolute(project_dir);
                lemma_shared_outputs(module, absolute);
                lemma_module_plan_passes(module, config, test);
                let tasks = android_plan(config, probe).tasks;
                assert forall|i: int| 0 <= i < tasks.len() implies outputs_pass(
                    #[trigger] tasks[i],
                    absolute,
                ) by {
                    assert(test(tasks[i]));
                }
            }
        }
    }
}

/// The paths of a variant's products pass a test.
pub open spec fn products_pass(paths: PathsModel, test: spec_fn(Seq<char>) -> bool) -> bool {
    &&& test(paths.classes_dir)
    &&& test(paths.classes_jar)
    &&& test(paths.dex_dir)
    &&& test(paths.resources_apk)
    &&& test(paths.rgen_dir)
    &&& test(paths.apk)
    &&& test(paths.buildconfig_java)
}

/// The outputs of a variant's front tasks are among the variant's products.
proof fn lemma_front_outputs(
    module: AndroidModel,
    variant: VariantModel,
    apk_dir: Seq<char>,
    sources: Seq<Seq<char>>,
    below: spec_fn(Seq<char>) -> bool,
)
    requires
        products_pass(
            variant_paths(module.project_dir, module.declared.namespace, variant),
            below,
        ),
    ensures
        all_tasks_pass(
            front_tasks(module, variant, apk_dir, sources),
            |task: TaskModel| outputs_pass(task, below),
        ),
{
    reveal(front_tasks);
    let front = front_tasks(module, variant, apk_dir, sources);
    let paths = variant_paths(module.project_dir, module.declared.namespace, variant);
    assert(front.len() == 6);
    assert(outputs_pass(front[0], below));
    assert(outputs_pass(front[1], below));
    assert(front[2].outputs == seq![paths.buildconfig_java]);
    assert(outputs_pass(front[2], below));
    assert(front[3].outputs == seq![paths.resources_apk, paths.rgen_dir]);
    assert(outputs_pass(front[3], below));
    assert(front[4].outputs == seq![paths.apk]);
    assert(outputs_pass(front[4], below));
    assert(front[5].outputs == seq![paths.classes_dir]);
    assert(outputs_pass(front[5], below));
}

/// The outputs of a variant's back tasks are among the variant's products.
proof fn lemma_back_outputs(
    module: AndroidModel,
    variant: VariantModel,
    sources: Seq<Seq<char>>,
    plugin: Option<Seq<char>>,
    below: spec_fn(Seq<char>) -> bool,
)
    requires
        products_pass(
            variant_paths(module.project_dir, module.declared.namespace, variant),
            below,
        ),
    ensures
        all_tasks_pass(
            back_tasks(module, variant, sources, plugin),
            |task: TaskModel| outputs_pass(task, below),
        ),
{
    reveal(back_tasks);
    let back = back_tasks(module, variant, sources, plugin);
    let paths = variant_paths(module.project_dir, module.declared.namespace, variant);
    let n = back.len() - 3;
    assert(n == 0 || n == 1);
    if n == 1 {
        assert(back[0].outputs == seq![paths.classes_dir]);
        assert(outputs_pass(back[0], below));
    }
    assert(back[n].outputs == seq![paths.classes_jar]);
    assert(outputs_pass(back[n], below));
    assert(back[n + 1].outputs == seq![paths.dex_dir]);
    assert(outputs_pass(back[n + 1], below));
    assert(back[n + 2].outputs == seq![paths.apk]);
    assert(outputs_pass(back[n + 2], below));
}

/// The outputs of the tasks that all variants share.
proof fn lemma_shared_outputs(module: AndroidModel, below: spec_fn(Seq<char>) -> bool)
    requires
        below(res_zip_path(module.project_dir)),
        below(ks_password_path(module.project_dir)),
        below(key_password_path(module.project_dir)),
    ensures
        all_tasks_pass(shared_tasks(module), |task: TaskModel| outputs_pass(task, below)),
        forall|signing: Option<SigningModel>|
            all_tasks_pass(
                #[trigger] password_tasks(module.project_dir, signing),
                |task: TaskModel| outputs_pass(task, below),
            ),
{
}

/// The outputs of a variant's tasks are among the variant's products.
proof fn lemma_variant_outputs(
    module: AndroidModel,
    signing: Option<SigningModel>,
    variant: VariantModel,
    below: spec_fn(Seq<char>) -> bool,
)
    requires
        products_pass(
            variant_paths(module.project_dir, module.declared.namespace, variant),
            below,
        ),
    ensures
        variant_passes(module, signing, variant, |task: TaskModel| outputs_pass(task, below)),
{
    let test = |task: TaskModel| outputs_pass(task, below);
    assert forall|apk_dir: Seq<char>, sources: Seq<Seq<char>>| all_tasks_pass(
        #[trigger] front_tasks(module, variant, apk_dir, sources),
        test,
    ) by {
        lemma_front_outputs(module, variant, apk_dir, sources, below);
    }
    assert forall|sources: Seq<Seq<char>>, plugin: Option<Seq<char>>| all_tasks_pass(
        #[trigger] back_tasks(module, variant, sources, plugin),
        test,
    ) by {
        lemma_back_outputs(module, variant, sources, plugin, below);
    }
}

/// Two signing blocks name the same key of the same keystore, and both or neither
/// hold each password.
pub open spec fn differ_in_passwords(one: JsonModel, other: JsonModel) -> bool {
    &&& one.str_at("storeFile"@) == other.str_at("storeFile"@)
    &&& one.str_at("keyAlias"@) == other.str_at("keyAlias"@)
    &&& one.str_at("storePassword"@) is Some == other.str_at("storePassword"@) is Some
    &&& one.str_at("keyPassword"@) is Some == other.str_at("keyPassword"@) is Some
}

/// Two tasks write the same file behind the same tasks, and differ at most in
/// what they write.
pub open spec fn differ_in_contents(one: TaskModel, other: TaskModel) -> bool {
    &&& one.name == other.name
    &&& one.inputs == other.inputs
    &&& one.outputs == other.outputs
    &&& one.depends_on == other.depends_on
    &&& match (one.action, other.action) {
        (
            ActionModel::WriteFile { path, .. },
            ActionModel::WriteFile { path: other_path, .. },
        ) => path == other_path,
        _ => false,
    }
}

/// The plans of variants do not depend on the passwords.
proof fn lemma_variant_plans_hold_no_password(
    module: AndroidModel,
    flavors: FlavorModels,
    one: SigningModel,
    other: SigningModel,
    variants: Seq<VariantModel>,
)
    requires
        one.store_file == other.store_file,
        one.key_alias == other.key_alias,
    ensures
        variant_plans(module, flavors, Some(one), variants) == variant_plans(
            module,
            flavors,
            Some(other),
            variants,
        ),
    decreases variants.len(),
{
    if variants.len() > 0 {
        let variant = variants[0];
        assert(variant_plan(module, flavors, Some(one), variant) == variant_plan(
            module,
            flavors,
            Some(other),
            variant,
        )) by {
            reveal(variant_plan);
            assert(signing_tasks(module, variant, Some(one)) == signing_tasks(
                module,
                variant,
                Some(other),
            ));
        }
        lemma_variant_plans_hold_no_password(module, flavors, one, other, variants.drop_first());
    }
}

/// Configurations that agree outside the signing block have the same module and
/// the same variants.
proof fn lemma_modules_without_signing(
    one: JsonModel,
    other: JsonModel,
    android: JsonModel,
    project_dir: Seq<char>,
    probe: SdkModel,
)
    requires
        forall|key: Seq<char>| key != "signing"@ ==> #[trigger] one.get(key) == other.get(key),
    ensures
        one.str_at("projectDir"@) == other.str_at("projectDir"@),
        one.get("android"@) == other.get("android"@),
        android_module(one, android, project_dir, probe) == android_module(
            other,
            android,
            project_dir,
            probe,
        ),
        module_variants(one) == module_variants(other),
{
    reveal_strlit("signing");
    reveal_strlit("projectDir");
    reveal_strlit("android");
    reveal_strlit("androidSdkDir");
    reveal_strlit("classpath");
    reveal_strlit("buildTypes");
    reveal_strlit("productFlavors");
    assert("signing"@.len() == 7 && "signing"@[0] == 's');
    assert("android"@.len() == 7 && "android"@[0] == 'a');
    assert("projectDir"@.len() == 10 && "androidSdkDir"@.len() == 13);
    assert("classpath"@.len() == 9 && "buildTypes"@.len() == 10);
    assert("productFlavors"@.len() == 14);
    assert(one.get("projectDir"@) == other.get("projectDir"@));
    assert(one.get("android"@) == other.get("android"@));
    assert(one.get("androidSdkDir"@) == other.get("androidSdkDir"@));
    assert(one.get("classpath"@) == other.get("classpath"@));
    assert(one.get("buildTypes"@) == other.get("buildTypes"@));
    assert(one.get("productFlavors"@) == other.get("productFlavors"@));
}

/// The passwords reach `apksigner` through files alone: of two modules that
/// differ in nothing but their passwords all tasks are the same, but for what the
/// two password files hold. No name, file, dependency or argument gives a
/// password away.
pub proof fn law_passwords_stand_only_in_their_files(
    one: JsonModel,
    other: JsonModel,
    probe: SdkModel,
)
    requires
        forall|key: Seq<char>| key != "signing"@ ==> #[trigger] one.get(key) == other.get(key),
        match (one.get("signing"@), other.get("signing"@)) {
            (Some(block), Some(other_block)) => differ_in_passwords(block, other_block),
            (None, None) => true,
            _ => false,
        },
    ensures
        android_plan(one, probe).outcome == android_plan(other, probe).outcome,
        android_plan(one, probe).tasks.len() == android_plan(other, probe).tasks.len(),
        forall|i: int|
            0 <= i < android_plan(one, probe).tasks.len() ==> {
                ||| #[trigger] android_plan(one, probe).tasks[i] == android_plan(
                    other,
                    probe,
                ).tasks[i]
                ||| differ_in_contents(
                    android_plan(one, probe).tasks[i],
                    android_plan(other, probe).tasks[i],
                ) && (android_plan(one, probe).tasks[i].name == "writeSigningPasswords"@
                    || android_plan(one, probe).tasks[i].name == "writeSigningKeyPassword"@)
            },
{
    lemma_modules_without_signing(
        one,
        other,
        one.get("android"@)->0,
        one.str_at("projectDir"@)->0,
        probe,
    );
    if let Some(project_dir) = one.str_at("projectDir"@) {
        if let Some(android) = one.get("android"@) {
            if let Ok(module) = android_module(one, android, project_dir, probe) {
                if module_variants(one) is Ok {
                    let (variants, flavors) = module_variants(one)->Ok_0;
                    if let Ok(Some(signing)) = module_signing(one) {
                        let other_signing = module_signing(other)->Ok_0->0;
                        let shared = shared_tasks(module);
                        let passwords = password_tasks(project_dir, Some(signing));
                        let others = password_tasks(project_dir, Some(other_signing));
                        let plans = variant_plans(module, flavors, Some(signing), variants).tasks;
                        lemma_variant_plans_hold_no_password(
                            module,
                            flavors,
                            signing,
                            other_signing,
                            variants,
                        );
                        assert(android_plan(one, probe).tasks == shared + (passwords + plans));
                        assert(android_plan(other, probe).tasks == shared + (others + plans));
                        assert(differ_in_contents(passwords[0], others[0]));
                        assert(differ_in_contents(passwords[1], others[1]));
                    }
                }
            }
        }
    }
}

} // verus!
