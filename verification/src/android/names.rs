//! The names of the tasks of the `ulite/android` plugin.

use crate::android::module::{android_module, module_signing, AndroidModel, SigningModel};
use crate::android::plan::{
    android_plan, back_tasks, compose_plugin, front_tasks, password_tasks, shared_tasks,
    signing_tasks, variant_paths, variant_plan, variant_plans,
};
use crate::android::variants::{merged_sources, module_variants, FlavorModels, VariantModel};
use crate::json::JsonModel;
use crate::path::parent;
use crate::sdk::SdkModel;
use crate::sources::other_sources;
use crate::task::TaskModel;
use vstd::prelude::*;

verus! {

/// The stages of a variant's build, in order.
enum Stage {
    PrepareApk,
    PrepareDex,
    GenerateBuildConfig,
    LinkResources,
    SeedApk,
    Compile,
    CompileKotlin,
    JarClasses,
    CompileDex,
    PackageApk,
    SignApk,
}

impl Stage {
    /// The place of a stage among the stages.
    spec fn place(self) -> int {
        match self {
            Stage::PrepareApk => 0,
            Stage::PrepareDex => 1,
            Stage::GenerateBuildConfig => 2,
            Stage::LinkResources => 3,
            Stage::SeedApk => 4,
            Stage::Compile => 5,
            Stage::CompileKotlin => 6,
            Stage::JarClasses => 7,
            Stage::CompileDex => 8,
            Stage::PackageApk => 9,
            Stage::SignApk => 10,
        }
    }

    /// What the name of the stage's task starts with; the variant's name
    /// follows.
    spec fn label(self) -> Seq<char> {
        match self {
            Stage::PrepareApk => "prepareApk"@,
            Stage::PrepareDex => "prepareDex"@,
            Stage::GenerateBuildConfig => "generateBuildConfig"@,
            Stage::LinkResources => "linkResources"@,
            Stage::SeedApk => "seedApk"@,
            Stage::Compile => "compile"@,
            Stage::CompileKotlin => "compileKotlin"@,
            Stage::JarClasses => "jarClasses"@,
            Stage::CompileDex => "compileDex"@,
            Stage::PackageApk => "packageApk"@,
            Stage::SignApk => "signApk"@,
        }
    }
}

/// The variant has Kotlin sources.
pub open spec fn has_kotlin(
    module: AndroidModel,
    flavors: FlavorModels,
    variant: VariantModel,
) -> bool {
    merged_sources(
        module.declared.sources,
        module.project_dir,
        variant.flavors,
        flavors,
    ) matches Ok(sources) && other_sources(sources).len() > 0
}

/// The `compile` task of one variant has the name of another task of the other
/// variant.
pub open spec fn names_clash(
    module: AndroidModel,
    flavors: FlavorModels,
    one: VariantModel,
    other: VariantModel,
) -> bool {
    ||| one.name == "Dex"@ + other.name
    ||| one.name == "Kotlin"@ + other.name && has_kotlin(module, flavors, other)
}

/// No two variants have one name, and none has a name that clashes with that of
/// another.
pub open spec fn names_are_apart(
    module: AndroidModel,
    flavors: FlavorModels,
    variants: Seq<VariantModel>,
) -> bool {
    &&& forall|i: int, j: int|
        0 <= i < j < variants.len() ==> (#[trigger] variants[i]).name != (
        #[trigger] variants[j]).name
    &&& forall|i: int, j: int|
        0 <= i < variants.len() && 0 <= j < variants.len() ==> !names_clash(
            module,
            flavors,
            #[trigger] variants[i],
            #[trigger] variants[j],
        )
}

/// No two tasks have one name.
pub open spec fn names_are_distinct(tasks: Seq<TaskModel>) -> bool {
    forall|i: int, j: int|
        0 <= i < j < tasks.len() ==> (#[trigger] tasks[i]).name != (#[trigger] tasks[j]).name
}

/// The characters that tell the labels of the stages apart.
proof fn lemma_labels()
    ensures
        forall|stage: Stage|
            (#[trigger] stage.label()).len() >= 7 && match stage {
                Stage::PrepareApk => stage.label().len() == 10 && stage.label()[0] == 'p'
                    && stage.label()[1] == 'r' && stage.label()[7] == 'A',
                Stage::PrepareDex => stage.label().len() == 10 && stage.label()[0] == 'p'
                    && stage.label()[1] == 'r' && stage.label()[7] == 'D',
                Stage::GenerateBuildConfig => stage.label()[0] == 'g',
                Stage::LinkResources => stage.label()[0] == 'l',
                Stage::SeedApk => stage.label()[0] == 's' && stage.label()[1] == 'e',
                Stage::Compile => stage.label().len() == 7 && stage.label()[0] == 'c',
                Stage::CompileKotlin => stage.label() == "compile"@ + "Kotlin"@
                    && stage.label().len() == 13 && stage.label()[0] == 'c' && stage.label()[7]
                    == 'K',
                Stage::JarClasses => stage.label()[0] == 'j',
                Stage::CompileDex => stage.label() == "compile"@ + "Dex"@ && stage.label().len()
                    == 10 && stage.label()[0] == 'c' && stage.label()[7] == 'D',
                Stage::PackageApk => stage.label()[0] == 'p' && stage.label()[1] == 'a',
                Stage::SignApk => stage.label()[0] == 's' && stage.label()[1] == 'i',
            },
{
    reveal_strlit("prepareApk");
    reveal_strlit("prepareDex");
    reveal_strlit("generateBuildConfig");
    reveal_strlit("linkResources");
    reveal_strlit("seedApk");
    reveal_strlit("compile");
    reveal_strlit("compileKotlin");
    reveal_strlit("Kotlin");
    reveal_strlit("jarClasses");
    reveal_strlit("compileDex");
    reveal_strlit("Dex");
    reveal_strlit("packageApk");
    reveal_strlit("signApk");
    assert("compileKotlin"@ =~= "compile"@ + "Kotlin"@);
    assert("compileDex"@ =~= "compile"@ + "Dex"@);
}

/// Two stages that give one name are the same stage of variants with one name,
/// unless one of them is `compile` and the other's label goes on from there.
proof fn lemma_equal_names(s: Stage, v: Seq<char>, t: Stage, w: Seq<char>)
    requires
        s.label() + v == t.label() + w,
    ensures
        ({
            ||| s == t && v == w
            ||| s == Stage::Compile && t == Stage::CompileKotlin && v == "Kotlin"@ + w
            ||| s == Stage::Compile && t == Stage::CompileDex && v == "Dex"@ + w
            ||| t == Stage::Compile && s == Stage::CompileKotlin && w == "Kotlin"@ + v
            ||| t == Stage::Compile && s == Stage::CompileDex && w == "Dex"@ + v
        }),
{
    lemma_labels();
    let name = s.label() + v;
    let other = t.label() + w;
    assert(name[0] == s.label()[0] && other[0] == t.label()[0]);
    assert(name[1] == s.label()[1] && other[1] == t.label()[1]);
    assert(s.label().len() > 7 ==> name[7] == s.label()[7]);
    assert(t.label().len() > 7 ==> other[7] == t.label()[7]);
    if s == t {
        assert(v =~= name.skip(s.label().len() as int));
        assert(w =~= other.skip(s.label().len() as int));
    } else {
        assert(s == Stage::Compile || t == Stage::Compile);
        assert(v.len() + s.label().len() == w.len() + t.label().len());
        if s == Stage::Compile {
            assert(v =~= name.skip(7));
            if t == Stage::CompileKotlin {
                assert(other.skip(7) =~= "Kotlin"@ + w);
            } else {
                assert(other.skip(7) =~= "Dex"@ + w);
            }
        } else {
            assert(w =~= other.skip(7));
            if s == Stage::CompileKotlin {
                assert(name.skip(7) =~= "Kotlin"@ + v);
            } else {
                assert(name.skip(7) =~= "Dex"@ + v);
            }
        }
    }
}

/// Where a task of the variants comes from: the position of its variant, and the
/// stage.
struct Origin {
    variant: int,
    stage: Stage,
}

/// One origin comes before another: an earlier variant, or an earlier stage of
/// the same.
spec fn comes_first(one: Origin, other: Origin) -> bool {
    one.variant < other.variant || one.variant == other.variant && one.stage.place()
        < other.stage.place()
}

/// Each task has its origin, the origins come in order, and the Kotlin stage is
/// only that of variants with Kotlin sources.
spec fn have_origins(
    tasks: Seq<TaskModel>,
    origins: Seq<Origin>,
    module: AndroidModel,
    flavors: FlavorModels,
    variants: Seq<VariantModel>,
    from: int,
) -> bool {
    &&& tasks.len() == origins.len()
    &&& forall|k: int|
        0 <= k < tasks.len() ==> {
            let origin = #[trigger] origins[k];
            &&& from <= origin.variant < variants.len()
            &&& tasks[k].name == origin.stage.label() + variants[origin.variant].name
            &&& origin.stage == Stage::CompileKotlin ==> has_kotlin(
                module,
                flavors,
                variants[origin.variant],
            )
        }
    &&& forall|k: int, l: int|
        0 <= k < l < tasks.len() ==> comes_first(#[trigger] origins[k], #[trigger] origins[l])
}

/// The origins of the front tasks of a variant.
spec fn front_origins(variant: int) -> Seq<Origin> {
    seq![
        Origin { variant, stage: Stage::PrepareApk },
        Origin { variant, stage: Stage::PrepareDex },
        Origin { variant, stage: Stage::GenerateBuildConfig },
        Origin { variant, stage: Stage::LinkResources },
        Origin { variant, stage: Stage::SeedApk },
        Origin { variant, stage: Stage::Compile },
    ]
}

/// The origins of the back tasks of a variant.
spec fn back_origins(variant: int, kotlin: bool) -> Seq<Origin> {
    let rest = seq![
        Origin { variant, stage: Stage::JarClasses },
        Origin { variant, stage: Stage::CompileDex },
        Origin { variant, stage: Stage::PackageApk },
    ];
    if kotlin {
        seq![Origin { variant, stage: Stage::CompileKotlin }] + rest
    } else {
        rest
    }
}

/// The tasks of one variant have their origins.
proof fn lemma_variant_has_origins(
    module: AndroidModel,
    flavors: FlavorModels,
    signing: Option<SigningModel>,
    variants: Seq<VariantModel>,
    at: int,
) -> (origins: Seq<Origin>)
    requires
        0 <= at < variants.len(),
    ensures
        have_origins(
            variant_plan(module, flavors, signing, variants[at]).tasks,
            origins,
            module,
            flavors,
            variants,
            at,
        ),
        forall|k: int| 0 <= k < origins.len() ==> (#[trigger] origins[k]).variant == at,
{
    let variant = variants[at];
    let plan = variant_plan(module, flavors, signing, variant);
    let paths = variant_paths(module.project_dir, module.declared.namespace, variant);
    let merged = merged_sources(
        module.declared.sources,
        module.project_dir,
        variant.flavors,
        flavors,
    );
    reveal(variant_plan);
    if merged is Ok && parent(paths.apk) is Some {
        let sources = merged->Ok_0;
        let apk_dir = parent(paths.apk)->0;
        let front = front_tasks(module, variant, apk_dir, sources);
        let first = front_origins(at);
        lemma_front_names(module, variant, apk_dir, sources);
        match compose_plugin(module.declared.compose, module.classpath) {
            Err(_) => {
                assert(plan.tasks =~= front);
                first
            },
            Ok(plugin) => {
                let back = back_tasks(module, variant, sources, plugin);
                let signed = signing_tasks(module, variant, signing);
                let kotlin = other_sources(sources).len() > 0;
                let second = back_origins(at, kotlin);
                let last = if signing is Some {
                    seq![Origin { variant: at, stage: Stage::SignApk }]
                } else {
                    seq![]
                };
                lemma_back_names(module, variant, sources, plugin);
                assert(plan.tasks == front + back + signed);
                first + second + last
            },
        }
    } else {
        seq![]
    }
}

/// The names of the front tasks of a variant.
proof fn lemma_front_names(
    module: AndroidModel,
    variant: VariantModel,
    apk_dir: Seq<char>,
    sources: Seq<Seq<char>>,
)
    ensures
        front_tasks(module, variant, apk_dir, sources).len() == 6,
        forall|k: int|
            0 <= k < 6 ==> (#[trigger] front_tasks(module, variant, apk_dir, sources)[k]).name
                == front_origins(0)[k].stage.label() + variant.name,
{
    reveal(front_tasks);
}

/// The names of the back tasks of a variant.
proof fn lemma_back_names(
    module: AndroidModel,
    variant: VariantModel,
    sources: Seq<Seq<char>>,
    plugin: Option<Seq<char>>,
)
    ensures
        ({
            let back = back_tasks(module, variant, sources, plugin);
            let origins = back_origins(0, other_sources(sources).len() > 0);
            &&& back.len() == origins.len()
            &&& forall|k: int|
                0 <= k < back.len() ==> (#[trigger] back[k]).name == origins[k].stage.label()
                    + variant.name
        }),
{
    reveal(back_tasks);
}

/// The tasks of the variants from one position on have their origins.
proof fn lemma_variants_have_origins(
    module: AndroidModel,
    flavors: FlavorModels,
    signing: Option<SigningModel>,
    variants: Seq<VariantModel>,
    from: int,
) -> (origins: Seq<Origin>)
    requires
        0 <= from <= variants.len(),
    ensures
        have_origins(
            variant_plans(module, flavors, signing, variants.skip(from)).tasks,
            origins,
            module,
            flavors,
            variants,
            from,
        ),
    decreases variants.len() - from,
{
    if from == variants.len() {
        seq![]
    } else {
        let left = variants.skip(from);
        let first = variant_plan(module, flavors, signing, variants[from]);
        let own = lemma_variant_has_origins(module, flavors, signing, variants, from);
        assert(left[0] == variants[from]);
        assert(left.drop_first() =~= variants.skip(from + 1));
        if first.outcome is Ok {
            let rest = lemma_variants_have_origins(module, flavors, signing, variants, from + 1);
            let tasks = variant_plans(module, flavors, signing, left).tasks;
            let others = variant_plans(module, flavors, signing, left.drop_first()).tasks;
            assert(tasks == first.tasks + others);
            let both = own + rest;
            assert forall|k: int| 0 <= k < tasks.len() implies {
                let origin = #[trigger] both[k];
                &&& from <= origin.variant < variants.len()
                &&& tasks[k].name == origin.stage.label() + variants[origin.variant].name
                &&& origin.stage == Stage::CompileKotlin ==> has_kotlin(
                    module,
                    flavors,
                    variants[origin.variant],
                )
            } by {
                if k < own.len() {
                    assert(both[k] == own[k]);
                } else {
                    assert(both[k] == rest[k - own.len()]);
                }
            }
            assert forall|k: int, l: int| 0 <= k < l < tasks.len() implies comes_first(
                #[trigger] both[k],
                #[trigger] both[l],
            ) by {
                if l < own.len() {
                    assert(both[k] == own[k] && both[l] == own[l]);
                } else if k < own.len() {
                    assert(both[k] == own[k] && both[l] == rest[l - own.len()]);
                } else {
                    assert(both[k] == rest[k - own.len()] && both[l] == rest[l - own.len()]);
                }
            }
            both
        } else {
            own
        }
    }
}

/// Tasks with origins have distinct names where the variants' names are apart.
proof fn lemma_origins_make_distinct(
    tasks: Seq<TaskModel>,
    origins: Seq<Origin>,
    module: AndroidModel,
    flavors: FlavorModels,
    variants: Seq<VariantModel>,
)
    requires
        have_origins(tasks, origins, module, flavors, variants, 0),
        names_are_apart(module, flavors, variants),
    ensures
        names_are_distinct(tasks),
{
    assert forall|k: int, l: int| 0 <= k < l < tasks.len() implies (#[trigger] tasks[k]).name != (
    #[trigger] tasks[l]).name by {
        let one = origins[k];
        let other = origins[l];
        let v = variants[one.variant];
        let w = variants[other.variant];
        assert(comes_first(one, other));
        if tasks[k].name == tasks[l].name {
            lemma_equal_names(one.stage, v.name, other.stage, w.name);
            assert(!names_clash(module, flavors, v, w));
            assert(!names_clash(module, flavors, w, v));
        }
    }
}

/// No task of a variant has the name of a shared task.
proof fn lemma_shared_names_are_apart(stage: Stage, v: Seq<char>)
    ensures
        stage.label() + v != "prepareBuildDir"@,
        stage.label() + v != "mergeResources"@,
        stage.label() + v != "writeSigningPasswords"@,
        stage.label() + v != "writeSigningKeyPassword"@,
{
    lemma_labels();
    reveal_strlit("prepareBuildDir");
    reveal_strlit("mergeResources");
    reveal_strlit("writeSigningPasswords");
    reveal_strlit("writeSigningKeyPassword");
    let name = stage.label() + v;
    assert(name[0] == stage.label()[0]);
    assert(name[1] == stage.label()[1]);
    assert(stage.label().len() > 7 ==> name[7] == stage.label()[7]);
}

/// The task is one of those that all variants share, by its name.
spec fn has_shared_name(task: TaskModel) -> bool {
    ||| task.name == "prepareBuildDir"@
    ||| task.name == "mergeResources"@
    ||| task.name == "writeSigningPasswords"@
    ||| task.name == "writeSigningKeyPassword"@
}

/// The tasks that all variants share have distinct names.
proof fn lemma_shared_names(module: AndroidModel, signing: Option<SigningModel>)
    ensures
        names_are_distinct(shared_tasks(module)),
        names_are_distinct(
            shared_tasks(module) + password_tasks(module.project_dir, signing),
        ),
        forall|k: int|
            0 <= k < (shared_tasks(module) + password_tasks(module.project_dir, signing)).len()
                ==> has_shared_name(
                #[trigger] (shared_tasks(module) + password_tasks(
                    module.project_dir,
                    signing,
                ))[k],
            ),
{
    reveal_strlit("prepareBuildDir");
    reveal_strlit("mergeResources");
    reveal_strlit("writeSigningPasswords");
    reveal_strlit("writeSigningKeyPassword");
    assert("prepareBuildDir"@[0] == 'p' && "mergeResources"@[0] == 'm');
    assert("writeSigningPasswords"@[0] == 'w' && "writeSigningPasswords"@.len() == 21);
    assert("writeSigningKeyPassword"@[0] == 'w' && "writeSigningKeyPassword"@.len() == 23);
}

/// Tasks of the variants behind the shared ones have distinct names.
proof fn lemma_shared_tasks_stay_distinct(
    shared: Seq<TaskModel>,
    tasks: Seq<TaskModel>,
    origins: Seq<Origin>,
    module: AndroidModel,
    flavors: FlavorModels,
    variants: Seq<VariantModel>,
)
    requires
        names_are_distinct(shared),
        forall|k: int|
            0 <= k < shared.len() ==> has_shared_name(#[trigger] shared[k]),
        have_origins(tasks, origins, module, flavors, variants, 0),
        names_are_apart(module, flavors, variants),
    ensures
        names_are_distinct(shared + tasks),
{
    let all = shared + tasks;
    lemma_origins_make_distinct(tasks, origins, module, flavors, variants);
    assert forall|k: int, l: int| 0 <= k < l < all.len() implies (#[trigger] all[k]).name != (
    #[trigger] all[l]).name by {
        if l < shared.len() {
            assert(all[k] == shared[k] && all[l] == shared[l]);
        } else if k < shared.len() {
            let origin = origins[l - shared.len()];
            assert(all[k] == shared[k] && all[l] == tasks[l - shared.len()]);
            lemma_shared_names_are_apart(origin.stage, variants[origin.variant].name);
        } else {
            assert(all[k] == tasks[k - shared.len()] && all[l] == tasks[l - shared.len()]);
        }
    }
}

/// No two tasks of a plan have one name, provided that no two variants have one
/// name, and that no variant is called like another with `Dex` in front of it,
/// or, where the other has Kotlin sources, with `Kotlin` in front of it.
pub proof fn law_task_names_are_distinct(config: JsonModel, probe: SdkModel)
    requires
        config.str_at("projectDir"@) matches Some(project_dir) ==> config.get(
            "android"@,
        ) matches Some(android) ==> android_module(
            config,
            android,
            project_dir,
            probe,
        ) matches Ok(module) ==> module_variants(config) matches Ok((variants, flavors))
            ==> names_are_apart(module, flavors, variants),
    ensures
        names_are_distinct(android_plan(config, probe).tasks),
{
    if let Some(project_dir) = config.str_at("projectDir"@) {
        if let Some(android) = config.get("android"@) {
            if let Ok(module) = android_module(config, android, project_dir, probe) {
                let shared = shared_tasks(module);
                lemma_shared_names(module, None);
                assert(shared + Seq::<TaskModel>::empty() =~= shared);
                if module_variants(config) is Ok {
                    let (variants, flavors) = module_variants(config)->Ok_0;
                    if let Ok(signing) = module_signing(config) {
                        let front = shared + password_tasks(project_dir, signing);
                        lemma_shared_names(module, signing);
                        let plans = variant_plans(module, flavors, signing, variants).tasks;
                        let origins = lemma_variants_have_origins(
                            module,
                            flavors,
                            signing,
                            variants,
                            0,
                        );
                        assert(variants.skip(0) =~= variants);
                        lemma_shared_tasks_stay_distinct(
                            front,
                            plans,
                            origins,
                            module,
                            flavors,
                            variants,
                        );
                        assert(android_plan(config, probe).tasks =~= front + plans);
                    }
                }
            }
        }
    }
}

} // verus!
