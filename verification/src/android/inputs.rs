//! What the tasks of the `ulite/android` plugin read.

use crate::android::laws::lemma_apk_names;
use crate::android::module::{android_module, module_signing, AndroidModel, SigningModel};
use crate::android::plan::{
    android_plan, back_tasks, compose_plugin, dexed_jars, front_tasks, is_kotlin_stdlib,
    password_tasks, res_zip_path, shared_tasks, sign_task, signing_tasks, variant_paths,
    variant_plan, variant_plans,
};
use crate::android::variants::{merged_sources, module_variants, FlavorModels, VariantModel};
use crate::json::JsonModel;
use crate::number::decimal;
use crate::path::{parent, path_join};
use crate::sdk::{platform_jar_path, sdk_root, SdkModel};
use crate::sources::{
    is_accepted, is_java, java_sources, law_sources_pass_when_each_is_accepted,
    lemma_halves_are_part, other_sources,
};
use crate::task::{all_tasks_pass, lemma_both_pass, TaskModel};
use crate::text::first_where;
use crate::variants::{apk_name, key_password_path, ks_password_path};
use vstd::prelude::*;

verus! {

/// The path ends as the path of a platform jar does.
spec fn ends_like_a_platform_jar(path: Seq<char>) -> bool {
    path.len() >= 5 && path.last() == 'r' && path[path.len() - 5] == 'd'
}

/// A joined path ends as its last part does.
proof fn lemma_join_ends_like_its_part(base: Seq<char>, part: Seq<char>)
    requires
        part.len() > 0,
    ensures
        path_join(base, part).len() >= part.len(),
        path_join(base, part).last() == part.last(),
        part.len() >= 5 ==> path_join(base, part)[path_join(base, part).len() - 5]
            == part[part.len() - 5],
{
}

/// A platform jar ends like one.
proof fn lemma_platform_jar_ends_like_one(sdk: Seq<char>, compile_sdk: i64)
    ensures
        ends_like_a_platform_jar(platform_jar_path(sdk, compile_sdk)),
{
    reveal_strlit("android.jar");
    let platforms = path_join(sdk, "platforms"@);
    let platform = path_join(platforms, "android-"@ + decimal(compile_sdk as int));
    lemma_join_ends_like_its_part(platform, "android.jar"@);
}

/// What the build makes never ends like a platform jar.
proof fn lemma_products_end_otherwise(
    project_dir: Seq<char>,
    namespace: Seq<char>,
    variant: VariantModel,
)
    requires
        variant.apk_filename == apk_name(variant.variant_dir),
    ensures
        ({
            let paths = variant_paths(project_dir, namespace, variant);
            &&& !ends_like_a_platform_jar(paths.classes_dir)
            &&& !ends_like_a_platform_jar(paths.classes_jar)
            &&& !ends_like_a_platform_jar(paths.dex_dir)
            &&& !ends_like_a_platform_jar(paths.resources_apk)
            &&& !ends_like_a_platform_jar(paths.rgen_java)
            &&& !ends_like_a_platform_jar(paths.apk)
        }),
        !ends_like_a_platform_jar(res_zip_path(project_dir)),
        !ends_like_a_platform_jar(ks_password_path(project_dir)),
        !ends_like_a_platform_jar(key_password_path(project_dir)),
{
    reveal_strlit("classes");
    reveal_strlit("classes.jar");
    reveal_strlit("dex");
    reveal_strlit("resources.apk");
    reveal_strlit("R.java");
    reveal_strlit(".apk");
    reveal_strlit("res.zip");
    reveal_strlit("ks-password.txt");
    reveal_strlit("key-password.txt");
    assert forall|base: Seq<char>, part: Seq<char>| part.len() > 0 implies {
        &&& #[trigger] path_join(base, part).len() >= part.len()
        &&& path_join(base, part).last() == part.last()
        &&& part.len() >= 5 ==> path_join(base, part)[path_join(base, part).len() - 5]
            == part[part.len() - 5]
    } by {
        lemma_join_ends_like_its_part(base, part);
    }
    assert(variant.apk_filename.last() == 'k');
}

/// A source that the compilers understand does not end like a platform jar.
proof fn lemma_sources_end_otherwise(source: Seq<char>)
    requires
        is_accepted(source),
    ensures
        !ends_like_a_platform_jar(source),
{
    reveal_strlit(".java");
    reveal_strlit(".kt");
    if is_java(source) {
        assert(source.subrange(source.len() - 5, source.len() as int).last() == 'a');
    } else {
        assert(source.subrange(source.len() - 3, source.len() as int).last() == 't');
    }
}

/// A text that was looked for is as it was looked for.
proof fn lemma_found_text_passes(list: Seq<Seq<char>>, test: spec_fn(Seq<char>) -> bool)
    ensures
        first_where(list, test) matches Some(found) ==> test(found),
    decreases list.len(),
{
    if list.len() > 0 {
        lemma_found_text_passes(list.drop_first(), test);
    }
}

/// The jar is none of the files that a module names itself, and no Kotlin
/// standard library.
pub open spec fn is_only_the_platform(
    jar: Seq<char>,
    module: AndroidModel,
    signing: Option<SigningModel>,
) -> bool {
    &&& jar != module.declared.res_dir
    &&& jar != module.declared.manifest
    &&& signing matches Some(block) ==> jar != path_join(module.project_dir, block.store_file)
    &&& !is_kotlin_stdlib(jar)
}

/// The tasks of a variant do not read the platform jar.
proof fn lemma_variant_does_not_read_it(
    module: AndroidModel,
    flavors: FlavorModels,
    signing: Option<SigningModel>,
    variant: VariantModel,
    jar: Seq<char>,
)
    requires
        ends_like_a_platform_jar(jar),
        is_only_the_platform(jar, module, signing),
        variant.apk_filename == apk_name(variant.variant_dir),
    ensures
        all_tasks_pass(
            variant_plan(module, flavors, signing, variant).tasks,
            |task: TaskModel| !task.inputs.contains(jar),
        ),
{
    reveal(variant_plan);
    let test = |task: TaskModel| !task.inputs.contains(jar);
    let paths = variant_paths(module.project_dir, module.declared.namespace, variant);
    let merged = merged_sources(
        module.declared.sources,
        module.project_dir,
        variant.flavors,
        flavors,
    );
    lemma_products_end_otherwise(module.project_dir, module.declared.namespace, variant);
    if merged is Ok && parent(paths.apk) is Some {
        let sources = merged->Ok_0;
        let apk_dir = parent(paths.apk)->0;
        let front = front_tasks(module, variant, apk_dir, sources);
        assert(!sources.contains(jar)) by {
            law_sources_pass_when_each_is_accepted(sources);
            if sources.contains(jar) {
                lemma_sources_end_otherwise(jar);
            }
        }
        lemma_front_does_not_read_it(module, variant, apk_dir, sources, jar);
        match compose_plugin(module.declared.compose, module.classpath) {
            Ok(plugin) => {
                let back = back_tasks(module, variant, sources, plugin);
                let signed = signing_tasks(module, variant, signing);
                lemma_halves_are_part(sources);
                lemma_dexed_jars_are_kotlin(module.classpath, other_sources(sources), jar);
                lemma_back_does_not_read_it(module, variant, sources, plugin, jar);
                if let Some(block) = signing {
                    let keystore = path_join(module.project_dir, block.store_file);
                    assert(sign_task(module, variant, block).inputs == seq![
                        paths.apk,
                        keystore,
                        ks_password_path(module.project_dir),
                        key_password_path(module.project_dir),
                    ]);
                }
                assert(all_tasks_pass(signed, test));
                lemma_both_pass(front, back, test);
                lemma_both_pass(front + back, signed, test);
            },
            Err(_) => {
                assert(front + Seq::<TaskModel>::empty() =~= front);
            },
        }
    }
}

/// The front tasks of a variant do not read the platform jar.
proof fn lemma_front_does_not_read_it(
    module: AndroidModel,
    variant: VariantModel,
    apk_dir: Seq<char>,
    sources: Seq<Seq<char>>,
    jar: Seq<char>,
)
    requires
        ends_like_a_platform_jar(jar),
        jar != module.declared.manifest,
        !sources.contains(jar),
        variant.apk_filename == apk_name(variant.variant_dir),
    ensures
        all_tasks_pass(
            front_tasks(module, variant, apk_dir, sources),
            |task: TaskModel| !task.inputs.contains(jar),
        ),
{
    reveal(front_tasks);
    let front = front_tasks(module, variant, apk_dir, sources);
    let paths = variant_paths(module.project_dir, module.declared.namespace, variant);
    lemma_products_end_otherwise(module.project_dir, module.declared.namespace, variant);
    lemma_halves_are_part(sources);
    assert(front.len() == 6);
    assert(front[0].inputs == Seq::<Seq<char>>::empty());
    assert(front[1].inputs == Seq::<Seq<char>>::empty());
    assert(front[2].inputs == Seq::<Seq<char>>::empty());
    assert(front[3].inputs == seq![
        res_zip_path(module.project_dir),
        module.declared.manifest,
    ]);
    assert(front[4].inputs == seq![paths.resources_apk]);
    assert(front[5].inputs == java_sources(sources).push(paths.rgen_java));
}

/// The jars that are dexed along are Kotlin standard libraries.
proof fn lemma_dexed_jars_are_kotlin(
    classpath: Seq<Seq<char>>,
    kotlin: Seq<Seq<char>>,
    jar: Seq<char>,
)
    requires
        !is_kotlin_stdlib(jar),
    ensures
        !dexed_jars(classpath, kotlin).contains(jar),
{
    lemma_found_text_passes(classpath, |jar: Seq<char>| is_kotlin_stdlib(jar));
}

/// The back tasks of a variant do not read the platform jar.
proof fn lemma_back_does_not_read_it(
    module: AndroidModel,
    variant: VariantModel,
    sources: Seq<Seq<char>>,
    plugin: Option<Seq<char>>,
    jar: Seq<char>,
)
    requires
        ({
            let paths = variant_paths(module.project_dir, module.declared.namespace, variant);
            &&& jar != paths.classes_dir
            &&& jar != paths.classes_jar
            &&& jar != paths.resources_apk
            &&& jar != paths.dex_dir
        }),
        !other_sources(sources).contains(jar),
        !dexed_jars(module.classpath, other_sources(sources)).contains(jar),
    ensures
        all_tasks_pass(
            back_tasks(module, variant, sources, plugin),
            |task: TaskModel| !task.inputs.contains(jar),
        ),
{
    reveal(back_tasks);
    let back = back_tasks(module, variant, sources, plugin);
    let paths = variant_paths(module.project_dir, module.declared.namespace, variant);
    let kotlin = other_sources(sources);
    let extra = dexed_jars(module.classpath, kotlin);
    let n = back.len() - 3;
    assert(n == 0 || n == 1);
    if n == 1 {
        assert(back[0].inputs == kotlin);
    }
    assert(back[n].inputs == seq![paths.classes_dir]);
    assert(back[n + 1].inputs == seq![paths.classes_jar] + extra);
    assert(back[n + 2].inputs == seq![paths.resources_apk, paths.dex_dir]);
}

/// The tasks of all variants do not read the platform jar.
proof fn lemma_variants_do_not_read_it(
    module: AndroidModel,
    flavors: FlavorModels,
    signing: Option<SigningModel>,
    variants: Seq<VariantModel>,
    jar: Seq<char>,
)
    requires
        ends_like_a_platform_jar(jar),
        is_only_the_platform(jar, module, signing),
        forall|i: int|
            0 <= i < variants.len() ==> (#[trigger] variants[i]).apk_filename == apk_name(
                variants[i].variant_dir,
            ),
    ensures
        all_tasks_pass(
            variant_plans(module, flavors, signing, variants).tasks,
            |task: TaskModel| !task.inputs.contains(jar),
        ),
    decreases variants.len(),
{
    if variants.len() > 0 {
        let rest = variants.drop_first();
        assert forall|i: int| 0 <= i < rest.len() implies (#[trigger] rest[i]).apk_filename
            == apk_name(rest[i].variant_dir) by {
            assert(rest[i] == variants[i + 1]);
        }
        lemma_variant_does_not_read_it(module, flavors, signing, variants[0], jar);
        lemma_variants_do_not_read_it(module, flavors, signing, rest, jar);
        lemma_both_pass(
            variant_plan(module, flavors, signing, variants[0]).tasks,
            variant_plans(module, flavors, signing, rest).tasks,
            |task: TaskModel| !task.inputs.contains(jar),
        );
    }
}

/// The platform jar is no task's input: the build never changes it, so the host
/// does not look at it. This holds unless the module itself names the jar as one
/// of its files, or its path makes it a Kotlin standard library.
pub proof fn law_platform_jar_is_no_input(
    config: JsonModel,
    android: JsonModel,
    project_dir: Seq<char>,
    probe: SdkModel,
)
    requires
        config.str_at("projectDir"@) == Some(project_dir),
        config.get("android"@) == Some(android),
        android_module(config, android, project_dir, probe) matches Ok(module)
            && is_only_the_platform(
            module.tools.platform_jar,
            module,
            match module_signing(config) {
                Ok(signing) => signing,
                Err(_) => None,
            },
        ),
    ensures
        forall|i: int|
            0 <= i < android_plan(config, probe).tasks.len() ==> !(
            #[trigger] android_plan(config, probe).tasks[i]).inputs.contains(
                android_module(config, android, project_dir, probe)->Ok_0.tools.platform_jar,
            ),
{
    let module = android_module(config, android, project_dir, probe)->Ok_0;
    let jar = module.tools.platform_jar;
    let test = |task: TaskModel| !task.inputs.contains(jar);
    let shared = shared_tasks(module);
    let tasks = android_plan(config, probe).tasks;
    assert(ends_like_a_platform_jar(jar)) by {
        let sdk = sdk_root(config, android.str_at("sdkDir"@), project_dir)->Ok_0;
        lemma_platform_jar_ends_like_one(sdk, module.declared.compile_sdk);
    }
    assert(shared[0].inputs == Seq::<Seq<char>>::empty());
    assert(shared[1].inputs == seq![module.declared.res_dir]);
    assert(all_tasks_pass(shared, test));
    assert(shared + Seq::<TaskModel>::empty() =~= shared);
    if module_variants(config) is Ok {
        let (variants, flavors) = module_variants(config)->Ok_0;
        if let Ok(signing) = module_signing(config) {
            let passwords = password_tasks(project_dir, signing);
            let plans = variant_plans(module, flavors, signing, variants).tasks;
            assert forall|i: int| 0 <= i < variants.len() implies (
            #[trigger] variants[i]).apk_filename == apk_name(variants[i].variant_dir) by {
                lemma_apk_names(config, i);
            }
            lemma_variants_do_not_read_it(module, flavors, signing, variants, jar);
            assert(all_tasks_pass(passwords, test));
            lemma_both_pass(passwords, plans, test);
            lemma_both_pass(shared, passwords + plans, test);
        }
    }
    assert(all_tasks_pass(tasks, test));
    assert forall|i: int| 0 <= i < tasks.len() implies !(#[trigger] tasks[i]).inputs.contains(
        jar,
    ) by {
        assert(test(tasks[i]));
    }
}

} // verus!
