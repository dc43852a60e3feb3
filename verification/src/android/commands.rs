//! What the tasks of the `ulite/android` plugin tell their tools, in terms of
//! the configuration.

use crate::android::build_config::{block_fields, buildconfig_source};
use crate::android::module::{android_module, module_signing, AndroidModel, SigningModel};
use crate::android::plan::{
    android_plan, back_tasks, buildconfig_params, compose_plugin, dexed_jars, front_tasks,
    is_kotlin_stdlib, password_tasks, shared_tasks, sign_task, signing_tasks, variant_paths,
    variant_plan, variant_plans,
};
use crate::android::variants::{merged_sources, module_variants, FlavorModels, VariantModel};
use crate::json::JsonModel;
use crate::jvm_commands::{java_files, kotlin_files, lemma_halves, lemma_required_list_is_listed};
use crate::meaning::{
    arguments, colon_list, lemma_module_classpath_is_listed, listing, module_jars, runs, writes,
};
use crate::number::decimal;
use crate::path::{all_joined, file_name, parent, path_join};
use crate::sdk::{highest_release, SdkModel};
use crate::sources::{compose_compiler, is_compose_compiler, other_sources};
use crate::task::{all_tasks_pass, lemma_both_pass, AllowlistedTool, TaskModel};
use crate::text::{contains_text, dots_to_slashes, ends_with, first_where};
use vstd::prelude::*;

verus! {

/// The SDK root: the module's own, resolved, or that of the host.
pub open spec fn described_sdk(
    config: JsonModel,
    android: JsonModel,
    project_dir: Seq<char>,
) -> Seq<char> {
    match android.str_at("sdkDir"@) {
        Some(dir) => path_join(project_dir, dir),
        None => config.str_at("androidSdkDir"@)->0,
    }
}

/// The module is what the configuration says, with the tools of its SDK.
pub open spec fn is_described(
    module: AndroidModel,
    config: JsonModel,
    android: JsonModel,
    project_dir: Seq<char>,
    probe: SdkModel,
) -> bool {
    let sdk = described_sdk(config, android, project_dir);
    &&& module.project_dir == project_dir
    &&& android.i64_at("compileSdk"@) == Some(module.declared.compile_sdk)
    &&& android.str_at("namespace"@) == Some(module.declared.namespace)
    &&& module.declared.compose <==> (android.get("compose"@) matches Some(value)
        && value.as_bool() == Some(true))
    &&& module.declared.sources == all_joined(project_dir, listing(android.get("sources"@)))
    &&& module.declared.manifest == path_join(project_dir, android.str_at("manifest"@)->0)
    &&& module.declared.res_dir == path_join(project_dir, android.str_at("resDir"@)->0)
    &&& module.declared.version_code == (if android.i64_at("versionCode"@) is Some {
        android.i64_at("versionCode"@)->0
    } else {
        1
    })
    &&& module.declared.version_name == (if android.str_at("versionName"@) is Some {
        android.str_at("versionName"@)->0
    } else {
        seq![]
    })
    &&& module.declared.fields == block_fields(android)
    &&& module.tools.platform_jar == path_join(
        path_join(
            path_join(sdk, "platforms"@),
            "android-"@ + decimal(module.declared.compile_sdk as int),
        ),
        "android.jar"@,
    )
    &&& highest_release(sdk, probe.build_tools) == Ok::<_, Seq<char>>(module.tools.build_tools)
    &&& module.tools.d8_jar == path_join(path_join(module.tools.build_tools, "lib"@), "d8.jar"@)
    &&& module.classpath == seq![module.tools.platform_jar] + module_jars(config, "compile"@)
}

/// The jar's file name says that it is the Compose compiler plugin.
pub open spec fn is_plugin(jar: Seq<char>) -> bool {
    contains_text(file_name(jar), "compose-compiler-plugin"@) && ends_with(file_name(jar), ".jar"@)
}

/// The jar is a Kotlin standard library, and not one of sources.
pub open spec fn is_stdlib(jar: Seq<char>) -> bool {
    contains_text(jar, "kotlin-stdlib"@) && ends_with(jar, ".jar"@) && !ends_with(
        jar,
        "-sources.jar"@,
    )
}

/// The first text of a list that passes a test.
pub open spec fn is_first(
    list: Seq<Seq<char>>,
    test: spec_fn(Seq<char>) -> bool,
    s: Seq<char>,
) -> bool {
    exists|k: int|
        {
            &&& 0 <= k < list.len()
            &&& #[trigger] list[k] == s
            &&& test(s)
            &&& forall|j: int| 0 <= j < k ==> !test(#[trigger] list[j])
        }
}

/// No text of a list passes a test.
pub open spec fn is_nowhere(list: Seq<Seq<char>>, test: spec_fn(Seq<char>) -> bool) -> bool {
    forall|j: int| 0 <= j < list.len() ==> !test(#[trigger] list[j])
}

/// The directory of a variant's products.
pub open spec fn variant_home(module: AndroidModel, variant: VariantModel) -> Seq<char> {
    path_join(path_join(module.project_dir, "build"@), variant.variant_dir)
}

/// The directory of what all variants share.
pub open spec fn shared_home(module: AndroidModel) -> Seq<char> {
    path_join(module.project_dir, "build/android"@)
}

/// The task makes a directory.
pub open spec fn makes_directory(task: TaskModel, dir: Seq<char>) -> bool {
    &&& runs(task, AllowlistedTool::Mkdir)
    &&& task.inputs.len() == 0
    &&& task.outputs.len() == 0
    &&& arguments(task) == seq!["-p"@, dir]
}

/// The task merges the module's resources.
pub open spec fn merges_resources(task: TaskModel, module: AndroidModel) -> bool {
    &&& task.name == "mergeResources"@
    &&& runs(task, AllowlistedTool::Aapt2)
    &&& task.inputs == seq![module.declared.res_dir]
    &&& task.outputs == seq![path_join(shared_home(module), "res.zip"@)]
    &&& task.depends_on == seq!["prepareBuildDir"@]
    &&& arguments(task) == seq![
        module.tools.build_tools,
        "compile"@,
        "--dir"@,
        task.inputs[0],
        "-o"@,
        task.outputs[0],
    ]
}

/// The task is one that all variants share.
pub open spec fn is_shared(task: TaskModel, module: AndroidModel) -> bool {
    ||| task.name == "prepareBuildDir"@ && makes_directory(task, shared_home(module))
        && task.depends_on.len() == 0
    ||| merges_resources(task, module)
}

/// The task writes one of the passwords.
pub open spec fn writes_password(
    task: TaskModel,
    module: AndroidModel,
    signing: SigningModel,
) -> bool {
    ||| {
        &&& task.name == "writeSigningPasswords"@
        &&& writes(task, signing.store_password)
        &&& task.depends_on.len() == 0
        &&& task.outputs[0] == path_join(shared_home(module), "ks-password.txt"@)
    }
    ||| {
        &&& task.name == "writeSigningKeyPassword"@
        &&& writes(task, signing.key_password)
        &&& task.depends_on.len() == 0
        &&& task.outputs[0] == path_join(shared_home(module), "key-password.txt"@)
    }
}

/// The task links the resources of a variant, for its API levels and under its
/// own package where it has a suffix.
pub open spec fn links(task: TaskModel, module: AndroidModel, variant: VariantModel) -> bool {
    &&& task.name == "linkResources"@ + variant.name
    &&& runs(task, AllowlistedTool::Aapt2)
    &&& task.inputs == seq![path_join(shared_home(module), "res.zip"@), module.declared.manifest]
    &&& task.outputs == seq![
        path_join(variant_home(module, variant), "resources.apk"@),
        path_join(variant_home(module, variant), "R"@),
    ]
    &&& arguments(task) == seq![
        module.tools.build_tools,
        "link"@,
        "-o"@,
        task.outputs[0],
        "--manifest"@,
        task.inputs[1],
        "-I"@,
        module.tools.platform_jar,
        "--java"@,
        task.outputs[1],
        "--custom-package"@,
        module.declared.namespace,
        "--min-sdk-version"@,
        decimal(variant.min_sdk as int),
        "--target-sdk-version"@,
        decimal(variant.target_sdk as int),
    ] + (if variant.application_id_suffix.len() > 0 {
        seq![
            "--rename-manifest-package"@,
            module.declared.namespace + variant.application_id_suffix,
        ]
    } else {
        seq![]
    }) + seq![task.inputs[0]]
    &&& task.depends_on == seq![
        "prepareBuildDir"@,
        "mergeResources"@,
        "prepareApk"@ + variant.name,
    ]
}

/// The task copies the linked resources as the seed of the APK.
pub open spec fn seeds(task: TaskModel, module: AndroidModel, variant: VariantModel) -> bool {
    &&& task.name == "seedApk"@ + variant.name
    &&& runs(task, AllowlistedTool::Cp)
    &&& task.inputs == seq![path_join(variant_home(module, variant), "resources.apk"@)]
    &&& task.outputs == seq![path_join(variant_home(module, variant), variant.apk_filename)]
    &&& arguments(task) == seq![task.inputs[0], task.outputs[0]]
    &&& task.depends_on == seq!["linkResources"@ + variant.name, "prepareApk"@ + variant.name]
}

/// The task compiles a variant's Java sources and its `R.java`, against the
/// platform jar and the module's jars.
pub open spec fn compiles_java(
    task: TaskModel,
    module: AndroidModel,
    variant: VariantModel,
    sources: Seq<Seq<char>>,
) -> bool {
    let home = variant_home(module, variant);
    let generated = path_join(home, "R"@);
    &&& task.name == "compile"@ + variant.name
    &&& runs(task, AllowlistedTool::Javac)
    &&& task.inputs == java_files(sources).push(
        path_join(
            path_join(generated, dots_to_slashes(module.declared.namespace)),
            "R.java"@,
        ),
    )
    &&& task.outputs == seq![path_join(home, "classes"@)]
    &&& arguments(task) == seq![
        "--release"@,
        "17"@,
        "-d"@,
        task.outputs[0],
        "-cp"@,
        colon_list(module.classpath),
        "-sourcepath"@,
        generated + ":"@ + path_join(path_join(home, "generated"@), "buildconfig"@),
    ] + task.inputs
    &&& task.depends_on == seq![
        "linkResources"@ + variant.name,
        "generateBuildConfig"@ + variant.name,
    ]
}

/// The task compiles a variant's Kotlin sources against the platform jar, the
/// module's jars and the variant's Java classes, with the Compose compiler
/// plugin where Compose is on.
pub open spec fn compiles_kotlin(
    task: TaskModel,
    module: AndroidModel,
    variant: VariantModel,
    sources: Seq<Seq<char>>,
) -> bool {
    let front = seq![
        "-d"@,
        path_join(variant_home(module, variant), "classes"@),
        "-cp"@,
        colon_list(
            (seq![module.tools.platform_jar] + module.classpath).push(
                path_join(variant_home(module, variant), "classes"@),
            ),
        ),
        "-jvm-target"@,
        "17"@,
    ];
    &&& task.name == "compileKotlin"@ + variant.name
    &&& runs(task, AllowlistedTool::Kotlinc)
    &&& task.inputs == kotlin_files(sources)
    &&& task.inputs.len() > 0
    &&& task.outputs == seq![path_join(variant_home(module, variant), "classes"@)]
    &&& task.depends_on == seq!["compile"@ + variant.name]
    &&& if module.declared.compose {
        exists|jar: Seq<char>|
            #![trigger is_plugin(jar)]
            is_first(module.classpath, |jar: Seq<char>| is_plugin(jar), jar) && arguments(task)
                == front.push("-Xplugin="@ + jar) + task.inputs
    } else {
        arguments(task) == front + task.inputs
    }
}

/// The task packs a variant's classes once they are compiled.
pub open spec fn packs(
    task: TaskModel,
    module: AndroidModel,
    variant: VariantModel,
    sources: Seq<Seq<char>>,
) -> bool {
    let home = variant_home(module, variant);
    &&& task.name == "jarClasses"@ + variant.name
    &&& runs(task, AllowlistedTool::Jar)
    &&& task.inputs == seq![path_join(home, "classes"@)]
    &&& task.outputs == seq![path_join(home, "classes.jar"@)]
    &&& arguments(task) == seq!["cf"@, task.outputs[0], "-C"@, task.inputs[0], "."@]
    &&& task.depends_on == (if kotlin_files(sources).len() > 0 {
        seq!["compile"@ + variant.name, "compileKotlin"@ + variant.name]
    } else {
        seq!["compile"@ + variant.name]
    })
}

/// The task dexes a variant's classes, all its inputs, for the variant's lowest
/// API level. Where the variant has Kotlin sources, the first Kotlin standard
/// library on the classpath goes in with them.
pub open spec fn dexes(
    task: TaskModel,
    module: AndroidModel,
    variant: VariantModel,
    sources: Seq<Seq<char>>,
) -> bool {
    let home = variant_home(module, variant);
    &&& task.name == "compileDex"@ + variant.name
    &&& runs(task, AllowlistedTool::Java)
    &&& task.outputs == seq![path_join(home, "dex"@)]
    &&& arguments(task) == seq![
        "-cp"@,
        module.tools.d8_jar,
        "com.android.tools.r8.D8"@,
        "--lib"@,
        module.tools.platform_jar,
        "--min-api"@,
        decimal(variant.min_sdk as int),
        "--output"@,
        task.outputs[0],
    ] + task.inputs
    &&& task.inputs.len() >= 1
    &&& task.inputs[0] == path_join(home, "classes.jar"@)
    &&& if kotlin_files(sources).len() == 0 || is_nowhere(
        module.classpath,
        |jar: Seq<char>| is_stdlib(jar),
    ) {
        task.inputs.len() == 1
    } else {
        task.inputs.len() == 2 && is_first(
            module.classpath,
            |jar: Seq<char>| is_stdlib(jar),
            task.inputs[1],
        )
    }
    &&& task.depends_on == seq!["jarClasses"@ + variant.name, "prepareDex"@ + variant.name]
}

/// The task puts the dex into the seeded APK.
pub open spec fn packages(task: TaskModel, module: AndroidModel, variant: VariantModel) -> bool {
    let home = variant_home(module, variant);
    &&& task.name == "packageApk"@ + variant.name
    &&& runs(task, AllowlistedTool::Jar)
    &&& task.inputs == seq![path_join(home, "resources.apk"@), path_join(home, "dex"@)]
    &&& task.outputs == seq![path_join(home, variant.apk_filename)]
    &&& arguments(task) == seq!["uf"@, task.outputs[0], "-C"@, task.inputs[1], "."@]
    &&& task.depends_on == seq![
        "linkResources"@ + variant.name,
        "seedApk"@ + variant.name,
        "compileDex"@ + variant.name,
    ]
}

/// The task signs the packaged APK with the module's key; the passwords come
/// from their files.
pub open spec fn signs(
    task: TaskModel,
    module: AndroidModel,
    variant: VariantModel,
    signing: SigningModel,
) -> bool {
    &&& task.name == "signApk"@ + variant.name
    &&& runs(task, AllowlistedTool::Apksigner)
    &&& task.inputs == seq![
        path_join(variant_home(module, variant), variant.apk_filename),
        path_join(module.project_dir, signing.store_file),
        path_join(shared_home(module), "ks-password.txt"@),
        path_join(shared_home(module), "key-password.txt"@),
    ]
    &&& task.outputs == seq![task.inputs[0]]
    &&& arguments(task) == seq![
        module.tools.build_tools,
        "sign"@,
        "--ks"@,
        task.inputs[1],
        "--ks-key-alias"@,
        signing.key_alias,
        "--ks-pass"@,
        "file:"@ + task.inputs[2],
        "--key-pass"@,
        "file:"@ + task.inputs[3],
        task.inputs[0],
    ]
    &&& task.depends_on == seq![
        "packageApk"@ + variant.name,
        "writeSigningPasswords"@,
        "writeSigningKeyPassword"@,
    ]
}

/// The task prepares a directory of a variant, or writes its `BuildConfig`.
pub open spec fn prepares(task: TaskModel, module: AndroidModel, variant: VariantModel) -> bool {
    let home = variant_home(module, variant);
    ||| {
        &&& task.name == "prepareApk"@ + variant.name
        &&& task.depends_on.len() == 0
        &&& parent(path_join(home, variant.apk_filename)) matches Some(dir) && makes_directory(
            task,
            dir,
        )
    }
    ||| {
        &&& task.name == "prepareDex"@ + variant.name
        &&& task.depends_on.len() == 0
        &&& makes_directory(task, path_join(home, "dex"@))
    }
    ||| {
        &&& task.name == "generateBuildConfig"@ + variant.name
        &&& task.depends_on == seq!["prepareBuildDir"@]
        &&& writes(task, buildconfig_source(buildconfig_params(module, variant)))
        &&& task.outputs[0] == path_join(
            path_join(
                path_join(path_join(home, "generated"@), "buildconfig"@),
                dots_to_slashes(module.declared.namespace),
            ),
            "BuildConfig.java"@,
        )
    }
}

/// The task is one of a variant with the given sources.
pub open spec fn is_of_variant(
    task: TaskModel,
    module: AndroidModel,
    variant: VariantModel,
    sources: Seq<Seq<char>>,
    signing: Option<SigningModel>,
) -> bool {
    ||| prepares(task, module, variant)
    ||| links(task, module, variant)
    ||| seeds(task, module, variant)
    ||| compiles_java(task, module, variant, sources)
    ||| compiles_kotlin(task, module, variant, sources)
    ||| packs(task, module, variant, sources)
    ||| dexes(task, module, variant, sources)
    ||| packages(task, module, variant)
    ||| signing matches Some(block) && signs(task, module, variant, block)
}

/// The first text that is looked for is the first that passes.
pub proof fn lemma_first_is_first(list: Seq<Seq<char>>, test: spec_fn(Seq<char>) -> bool)
    ensures
        match first_where(list, test) {
            Some(s) => is_first(list, test, s),
            None => is_nowhere(list, test),
        },
    decreases list.len(),
{
    if list.len() > 0 {
        let rest = list.drop_first();
        lemma_first_is_first(rest, test);
        if test(list[0]) {
            assert(is_first(list, test, list[0]));
        } else {
            match first_where(rest, test) {
                Some(s) => {
                    let k = choose|k: int|
                        {
                            &&& 0 <= k < rest.len()
                            &&& #[trigger] rest[k] == s
                            &&& test(s)
                            &&& forall|j: int| 0 <= j < k ==> !test(#[trigger] rest[j])
                        };
                    assert(list[k + 1] == s);
                    assert forall|j: int| 0 <= j < k + 1 implies !test(#[trigger] list[j]) by {
                        if j > 0 {
                            assert(rest[j - 1] == list[j]);
                        }
                    }
                },
                None => {
                    assert forall|j: int| 0 <= j < list.len() implies !test(
                        #[trigger] list[j],
                    ) by {
                        if j > 0 {
                            assert(rest[j - 1] == list[j]);
                        }
                    }
                },
            }
        }
    }
}

/// A module that is read is what the configuration says.
pub proof fn law_module_is_what_the_configuration_says(
    config: JsonModel,
    android: JsonModel,
    project_dir: Seq<char>,
    probe: SdkModel,
)
    requires
        android_module(config, android, project_dir, probe) is Ok,
    ensures
        is_described(
            android_module(config, android, project_dir, probe)->Ok_0,
            config,
            android,
            project_dir,
            probe,
        ),
{
    lemma_required_list_is_listed(android, "android"@, "sources"@);
    lemma_module_classpath_is_listed(config, "compile"@);
}

/// The front tasks of a variant do their part.
proof fn lemma_front_fits(
    module: AndroidModel,
    variant: VariantModel,
    sources: Seq<Seq<char>>,
    signing: Option<SigningModel>,
)
    requires
        parent(variant_paths(module.project_dir, module.declared.namespace, variant).apk) is Some,
    ensures
        all_tasks_pass(
            front_tasks(
                module,
                variant,
                parent(
                    variant_paths(module.project_dir, module.declared.namespace, variant).apk,
                )->0,
                sources,
            ),
            |task: TaskModel| is_of_variant(task, module, variant, sources, signing),
        ),
{
    reveal(front_tasks);
    let paths = variant_paths(module.project_dir, module.declared.namespace, variant);
    let front = front_tasks(module, variant, parent(paths.apk)->0, sources);
    lemma_halves(sources);
    assert(front.len() == 6);
    assert(prepares(front[0], module, variant));
    assert(prepares(front[1], module, variant));
    assert(prepares(front[2], module, variant));
    assert(links(front[3], module, variant)) by {
        let task = front[3];
        let fixed = seq![
            module.tools.build_tools,
            "link"@,
            "-o"@,
            task.outputs[0],
            "--manifest"@,
            task.inputs[1],
            "-I"@,
            module.tools.platform_jar,
            "--java"@,
            task.outputs[1],
            "--custom-package"@,
            module.declared.namespace,
            "--min-sdk-version"@,
            decimal(variant.min_sdk as int),
            "--target-sdk-version"@,
            decimal(variant.target_sdk as int),
        ];
        let renamed = seq![
            "--rename-manifest-package"@,
            module.declared.namespace + variant.application_id_suffix,
        ];
        if variant.application_id_suffix.len() > 0 {
            assert(arguments(task) =~= fixed + renamed + seq![task.inputs[0]]);
        } else {
            assert(arguments(task) =~= fixed + Seq::<Seq<char>>::empty() + seq![task.inputs[0]]);
        }
    }
    assert(seeds(front[4], module, variant));
    assert(compiles_java(front[5], module, variant, sources)) by {
        let task = front[5];
        assert(arguments(task) =~= seq![
            "--release"@,
            "17"@,
            "-d"@,
            task.outputs[0],
            "-cp"@,
            colon_list(module.classpath),
            "-sourcepath"@,
            paths.rgen_dir + ":"@ + paths.buildconfig_dir,
        ] + task.inputs);
    }
}

/// The Kotlin task of a variant does its part.
proof fn lemma_kotlin_fits(
    module: AndroidModel,
    variant: VariantModel,
    sources: Seq<Seq<char>>,
    plugin: Option<Seq<char>>,
)
    requires
        other_sources(sources).len() > 0,
        compose_plugin(module.declared.compose, module.classpath) == Ok::<_, Seq<char>>(plugin),
    ensures
        compiles_kotlin(
            back_tasks(module, variant, sources, plugin)[0],
            module,
            variant,
            sources,
        ),
{
    reveal(back_tasks);
    lemma_halves(sources);
    let task = back_tasks(module, variant, sources, plugin)[0];
    let front = seq![
        "-d"@,
        path_join(variant_home(module, variant), "classes"@),
        "-cp"@,
        colon_list(
            (seq![module.tools.platform_jar] + module.classpath).push(
                path_join(variant_home(module, variant), "classes"@),
            ),
        ),
        "-jvm-target"@,
        "17"@,
    ];
    if module.declared.compose {
        let jar = plugin->0;
        assert((|jar: Seq<char>| is_compose_compiler(jar)) =~= (|jar: Seq<char>| is_plugin(jar)));
        lemma_first_is_first(module.classpath, |jar: Seq<char>| is_plugin(jar));
        assert(compose_compiler(module.classpath) == Some(jar));
        assert(is_plugin(jar));
        assert(arguments(task) == front.push("-Xplugin="@ + jar) + task.inputs);
    } else {
        assert(arguments(task) == front + task.inputs);
    }
}

/// The back tasks of a variant do their part.
proof fn lemma_back_fits(
    module: AndroidModel,
    variant: VariantModel,
    sources: Seq<Seq<char>>,
    plugin: Option<Seq<char>>,
    signing: Option<SigningModel>,
)
    requires
        compose_plugin(module.declared.compose, module.classpath) == Ok::<_, Seq<char>>(plugin),
    ensures
        all_tasks_pass(
            back_tasks(module, variant, sources, plugin),
            |task: TaskModel| is_of_variant(task, module, variant, sources, signing),
        ),
{
    let back = back_tasks(module, variant, sources, plugin);
    let kotlin = other_sources(sources);
    let n: int = if kotlin.len() > 0 {
        1
    } else {
        0
    };
    lemma_halves(sources);
    if n == 1 {
        lemma_kotlin_fits(module, variant, sources, plugin);
    }
    assert(back.len() == n + 3 && packs(back[n], module, variant, sources)) by {
        reveal(back_tasks);
        let task = back[n];
        if n == 1 {
            assert(task.depends_on =~= seq![
                "compile"@ + variant.name,
                "compileKotlin"@ + variant.name,
            ]);
        }
    }
    assert(dexes(back[n + 1], module, variant, sources)) by {
        reveal(back_tasks);
        let task = back[n + 1];
        let extra = dexed_jars(module.classpath, kotlin);
        assert((|jar: Seq<char>| is_kotlin_stdlib(jar)) =~= (|jar: Seq<char>| is_stdlib(jar)));
        lemma_first_is_first(module.classpath, |jar: Seq<char>| is_stdlib(jar));
        assert(arguments(task) =~= seq![
            "-cp"@,
            module.tools.d8_jar,
            "com.android.tools.r8.D8"@,
            "--lib"@,
            module.tools.platform_jar,
            "--min-api"@,
            decimal(variant.min_sdk as int),
            "--output"@,
            task.outputs[0],
        ] + task.inputs);
        if first_where(module.classpath, |jar: Seq<char>| is_stdlib(jar)) is Some {
            let jar = first_where(module.classpath, |jar: Seq<char>| is_stdlib(jar))->0;
            assert(!is_nowhere(module.classpath, |jar: Seq<char>| is_stdlib(jar)));
            if n == 1 {
                assert(extra == seq![jar]);
            }
        }
    }
    assert(packages(back[n + 2], module, variant)) by {
        reveal(back_tasks);
    }
}

/// The signing task of a variant does its part.
proof fn lemma_sign_fits(module: AndroidModel, variant: VariantModel, signing: SigningModel)
    ensures
        signs(sign_task(module, variant, signing), module, variant, signing),
{
}

/// The sources of a variant; none where they are refused.
pub open spec fn variant_sources(
    module: AndroidModel,
    flavors: FlavorModels,
    variant: VariantModel,
) -> Seq<Seq<char>> {
    match merged_sources(
        module.declared.sources,
        module.project_dir,
        variant.flavors,
        flavors,
    ) {
        Ok(sources) => sources,
        Err(_) => seq![],
    }
}

/// The tasks of a variant do their part.
proof fn lemma_variant_fits(
    module: AndroidModel,
    flavors: FlavorModels,
    signing: Option<SigningModel>,
    variant: VariantModel,
)
    ensures
        all_tasks_pass(
            variant_plan(module, flavors, signing, variant).tasks,
            |task: TaskModel|
                is_of_variant(
                    task,
                    module,
                    variant,
                    variant_sources(module, flavors, variant),
                    signing,
                ),
        ),
{
    let sources = variant_sources(module, flavors, variant);
    let test = |task: TaskModel|
        is_of_variant(
            task,
            module,
            variant,
            variant_sources(module, flavors, variant),
            signing,
        );
    let paths = variant_paths(module.project_dir, module.declared.namespace, variant);
    let merged = merged_sources(
        module.declared.sources,
        module.project_dir,
        variant.flavors,
        flavors,
    );
    reveal(variant_plan);
    if merged is Ok && parent(paths.apk) is Some {
        let front = front_tasks(module, variant, parent(paths.apk)->0, sources);
        lemma_front_fits(module, variant, sources, signing);
        assert(all_tasks_pass(front, test));
        match compose_plugin(module.declared.compose, module.classpath) {
            Ok(plugin) => {
                let back = back_tasks(module, variant, sources, plugin);
                let signed = signing_tasks(module, variant, signing);
                lemma_back_fits(module, variant, sources, plugin, signing);
                assert(all_tasks_pass(back, test));
                if let Some(block) = signing {
                    lemma_sign_fits(module, variant, block);
                }
                assert(all_tasks_pass(signed, test));
                lemma_both_pass(front, back, test);
                lemma_both_pass(front + back, signed, test);
            },
            Err(_) => {
                assert(front + Seq::<TaskModel>::empty() =~= front);
            },
        }
    }
}

/// The task is one of one of the variants.
pub open spec fn is_of_variants(
    task: TaskModel,
    module: AndroidModel,
    flavors: FlavorModels,
    signing: Option<SigningModel>,
    variants: Seq<VariantModel>,
) -> bool {
    exists|k: int|
        0 <= k < variants.len() && is_of_variant(
            task,
            module,
            #[trigger] variants[k],
            variant_sources(module, flavors, variants[k]),
            signing,
        )
}

/// The tasks of all variants do their part.
proof fn lemma_variants_fit(
    module: AndroidModel,
    flavors: FlavorModels,
    signing: Option<SigningModel>,
    variants: Seq<VariantModel>,
    from: int,
)
    requires
        0 <= from <= variants.len(),
    ensures
        all_tasks_pass(
            variant_plans(module, flavors, signing, variants.skip(from)).tasks,
            |task: TaskModel| is_of_variants(task, module, flavors, signing, variants),
        ),
    decreases variants.len() - from,
{
    let test = |task: TaskModel| is_of_variants(task, module, flavors, signing, variants);
    if from < variants.len() {
        let left = variants.skip(from);
        let variant = variants[from];
        let first = variant_plan(module, flavors, signing, variant).tasks;
        assert(left[0] == variant);
        assert(left.drop_first() =~= variants.skip(from + 1));
        lemma_variant_fits(module, flavors, signing, variant);
        let own = |task: TaskModel|
            is_of_variant(
                task,
                module,
                variant,
                variant_sources(module, flavors, variant),
                signing,
            );
        assert forall|i: int| 0 <= i < first.len() implies test(#[trigger] first[i]) by {
            assert(own(first[i]));
            assert(variants[from] == variant);
        }
        lemma_variants_fit(module, flavors, signing, variants, from + 1);
        lemma_both_pass(
            first,
            variant_plans(module, flavors, signing, left.drop_first()).tasks,
            test,
        );
    }
}

/// The signing block that a configuration describes.
pub open spec fn is_signing_block(signing: SigningModel, config: JsonModel) -> bool {
    &&& config.get("signing"@) matches Some(block)
    &&& block.str_at("storeFile"@) == Some(signing.store_file)
    &&& block.str_at("storePassword"@) == Some(signing.store_password)
    &&& block.str_at("keyAlias"@) == Some(signing.key_alias)
    &&& block.str_at("keyPassword"@) == Some(signing.key_password)
}

/// Every task of a plan does its part of building the module that the
/// configuration describes: it prepares a directory, writes a file, or runs its
/// tool with all its inputs and outputs, the SDK's platform jar, the module's
/// jars, and the levels and names of its variant.
pub proof fn law_tasks_do_what_the_configuration_describes(
    config: JsonModel,
    android: JsonModel,
    project_dir: Seq<char>,
    probe: SdkModel,
)
    requires
        config.str_at("projectDir"@) == Some(project_dir),
        config.get("android"@) == Some(android),
        android_plan(config, probe).tasks.len() > 0,
    ensures
        ({
            let module = android_module(config, android, project_dir, probe)->Ok_0;
            let plan = android_plan(config, probe);
            &&& is_described(module, config, android, project_dir, probe)
            &&& forall|i: int|
                0 <= i < plan.tasks.len() ==> {
                    ||| is_shared(#[trigger] plan.tasks[i], module)
                    ||| module_variants(config) matches Ok((variants, flavors))
                        && module_signing(config) matches Ok(signing) && {
                        ||| is_of_variants(plan.tasks[i], module, flavors, signing, variants)
                        ||| signing matches Some(block) && is_signing_block(block, config)
                            && writes_password(plan.tasks[i], module, block)
                    }
                }
        }),
{
    let module = android_module(config, android, project_dir, probe)->Ok_0;
    let plan = android_plan(config, probe);
    law_module_is_what_the_configuration_says(config, android, project_dir, probe);
    let shared = shared_tasks(module);
    assert(is_shared(shared[0], module));
    assert(is_shared(shared[1], module));
    assert(shared + Seq::<TaskModel>::empty() =~= shared);
    if module_variants(config) is Ok && module_signing(config) is Ok {
        let (variants, flavors) = module_variants(config)->Ok_0;
        let signing = module_signing(config)->Ok_0;
        let passwords = password_tasks(project_dir, signing);
        let plans = variant_plans(module, flavors, signing, variants).tasks;
        let own = |task: TaskModel| is_of_variants(task, module, flavors, signing, variants);
        lemma_variants_fit(module, flavors, signing, variants, 0);
        assert(variants.skip(0) =~= variants);
        assert(all_tasks_pass(plans, own));
        if let Some(block) = signing {
            assert(is_signing_block(block, config));
            assert(writes_password(passwords[0], module, block));
            assert(writes_password(passwords[1], module, block));
        }
        let all = shared + (passwords + plans);
        assert(plan.tasks == all);
        assert forall|i: int| 0 <= i < all.len() implies {
            ||| is_shared(#[trigger] all[i], module)
            ||| is_of_variants(all[i], module, flavors, signing, variants)
            ||| signing matches Some(block) && writes_password(all[i], module, block)
        } by {
            if i < shared.len() {
                assert(all[i] == shared[i]);
            } else if i < shared.len() + passwords.len() {
                assert(all[i] == passwords[i - shared.len()]);
            } else {
                let k = i - shared.len() - passwords.len();
                assert(all[i] == plans[k]);
                assert(own(plans[k]));
            }
        }
    } else {
        assert(plan.tasks =~= shared);
    }
}

/// A list of arguments that ends in the inputs holds each of them.
proof fn lemma_inputs_at_the_end(front: Seq<Seq<char>>, inputs: Seq<Seq<char>>, input: Seq<char>)
    requires
        inputs.contains(input),
    ensures
        (front + inputs).contains(input),
{
    let k = inputs.index_of(input);
    assert((front + inputs)[front.len() + k] == input);
}

/// The Java compiler of a variant gets every input.
proof fn lemma_javac_gets_every_input(
    task: TaskModel,
    module: AndroidModel,
    variant: VariantModel,
    sources: Seq<Seq<char>>,
    input: Seq<char>,
)
    requires
        compiles_java(task, module, variant, sources),
        task.inputs.contains(input),
    ensures
        arguments(task).contains(input),
{
    let front = arguments(task).take(8);
    assert(arguments(task) =~= front + task.inputs);
    lemma_inputs_at_the_end(front, task.inputs, input);
}

/// The Kotlin compiler of a variant gets every input.
proof fn lemma_kotlinc_gets_every_input(
    task: TaskModel,
    module: AndroidModel,
    variant: VariantModel,
    sources: Seq<Seq<char>>,
    input: Seq<char>,
)
    requires
        compiles_kotlin(task, module, variant, sources),
        task.inputs.contains(input),
    ensures
        arguments(task).contains(input),
{
    let front = arguments(task).take(
        if module.declared.compose {
            7
        } else {
            6
        },
    );
    assert(arguments(task) =~= front + task.inputs);
    lemma_inputs_at_the_end(front, task.inputs, input);
}

/// `d8` gets every input.
proof fn lemma_d8_gets_every_input(
    task: TaskModel,
    module: AndroidModel,
    variant: VariantModel,
    sources: Seq<Seq<char>>,
    input: Seq<char>,
)
    requires
        dexes(task, module, variant, sources),
        task.inputs.contains(input),
    ensures
        arguments(task).contains(input),
{
    let front = arguments(task).take(9);
    assert(arguments(task) =~= front + task.inputs);
    lemma_inputs_at_the_end(front, task.inputs, input);
}

/// The tasks of a variant that compile are told apart by their tools.
proof fn lemma_tools_tell_tasks_apart(
    task: TaskModel,
    module: AndroidModel,
    variant: VariantModel,
    sources: Seq<Seq<char>>,
    signing: Option<SigningModel>,
)
    requires
        is_of_variant(task, module, variant, sources, signing),
    ensures
        runs(task, AllowlistedTool::Javac) ==> compiles_java(task, module, variant, sources),
        runs(task, AllowlistedTool::Kotlinc) ==> compiles_kotlin(task, module, variant, sources),
        runs(task, AllowlistedTool::Java) ==> dexes(task, module, variant, sources),
{
}

/// What a compiler or `d8` reads it is told: every input of such a task is among
/// the arguments of its tool.
pub proof fn law_compilers_get_every_input(
    config: JsonModel,
    android: JsonModel,
    project_dir: Seq<char>,
    probe: SdkModel,
    i: int,
    input: Seq<char>,
)
    requires
        config.str_at("projectDir"@) == Some(project_dir),
        config.get("android"@) == Some(android),
        0 <= i < android_plan(config, probe).tasks.len(),
        runs(android_plan(config, probe).tasks[i], AllowlistedTool::Javac) || runs(
            android_plan(config, probe).tasks[i],
            AllowlistedTool::Kotlinc,
        ) || runs(android_plan(config, probe).tasks[i], AllowlistedTool::Java),
        android_plan(config, probe).tasks[i].inputs.contains(input),
    ensures
        arguments(android_plan(config, probe).tasks[i]).contains(input),
{
    let task = android_plan(config, probe).tasks[i];
    let module = android_module(config, android, project_dir, probe)->Ok_0;
    law_tasks_do_what_the_configuration_describes(config, android, project_dir, probe);
    assert(!is_shared(task, module));
    let (variants, flavors) = module_variants(config)->Ok_0;
    let signing = module_signing(config)->Ok_0;
    assert(is_of_variants(task, module, flavors, signing, variants));
    let k = choose|k: int|
        0 <= k < variants.len() && is_of_variant(
            task,
            module,
            #[trigger] variants[k],
            variant_sources(module, flavors, variants[k]),
            signing,
        );
    let variant = variants[k];
    let sources = variant_sources(module, flavors, variant);
    lemma_tools_tell_tasks_apart(task, module, variant, sources, signing);
    if runs(task, AllowlistedTool::Javac) {
        lemma_javac_gets_every_input(task, module, variant, sources, input);
    } else if runs(task, AllowlistedTool::Kotlinc) {
        lemma_kotlinc_gets_every_input(task, module, variant, sources, input);
    } else {
        lemma_d8_gets_every_input(task, module, variant, sources, input);
    }
}

/// Kotlin is compiled against everything the module needs: the platform jar,
/// every jar that the module compiles against, and the variant's own classes are
/// on the compiler's classpath.
pub proof fn law_kotlin_sees_every_jar(
    config: JsonModel,
    android: JsonModel,
    project_dir: Seq<char>,
    probe: SdkModel,
    i: int,
    jar: Seq<char>,
)
    requires
        config.str_at("projectDir"@) == Some(project_dir),
        config.get("android"@) == Some(android),
        0 <= i < android_plan(config, probe).tasks.len(),
        runs(android_plan(config, probe).tasks[i], AllowlistedTool::Kotlinc),
        module_jars(config, "compile"@).contains(jar),
    ensures
        ({
            let task = android_plan(config, probe).tasks[i];
            exists|paths: Seq<Seq<char>>|
                {
                    &&& arguments(task).len() > 3
                    &&& arguments(task)[2] == "-cp"@
                    &&& arguments(task)[3] == #[trigger] colon_list(paths)
                    &&& paths.contains(jar)
                    &&& paths.contains(
                        android_module(
                            config,
                            android,
                            project_dir,
                            probe,
                        )->Ok_0.tools.platform_jar,
                    )
                    &&& paths.contains(task.outputs[0])
                }
        }),
{
    let task = android_plan(config, probe).tasks[i];
    let module = android_module(config, android, project_dir, probe)->Ok_0;
    law_tasks_do_what_the_configuration_describes(config, android, project_dir, probe);
    let paths = (seq![module.tools.platform_jar] + module.classpath).push(task.outputs[0]);
    let k = module_jars(config, "compile"@).index_of(jar);
    assert(paths[0] == module.tools.platform_jar);
    assert(paths[k + 2] == jar);
    assert(paths.last() == task.outputs[0]);
    assert(arguments(task)[3] == colon_list(paths));
}

/// The Kotlin standard library is dexed with the Kotlin that needs it: where a
/// variant has Kotlin sources and the module compiles against such a jar, the
/// first of them on the classpath is an argument of the variant's `d8` run.
pub proof fn law_standard_library_is_dexed(
    config: JsonModel,
    android: JsonModel,
    project_dir: Seq<char>,
    probe: SdkModel,
    i: int,
    jar: Seq<char>,
)
    requires
        config.str_at("projectDir"@) == Some(project_dir),
        config.get("android"@) == Some(android),
        0 <= i < android_plan(config, probe).tasks.len(),
        runs(android_plan(config, probe).tasks[i], AllowlistedTool::Java),
        module_jars(config, "compile"@).contains(jar),
        is_stdlib(jar),
    ensures
        ({
            let task = android_plan(config, probe).tasks[i];
            let module = android_module(config, android, project_dir, probe)->Ok_0;
            let (variants, flavors) = module_variants(config)->Ok_0;
            exists|k: int|
                {
                    &&& 0 <= k < variants.len()
                    &&& task.name == "compileDex"@ + (#[trigger] variants[k]).name
                    &&& kotlin_files(variant_sources(module, flavors, variants[k])).len() > 0
                        ==> exists|library: Seq<char>|
                        {
                            &&& #[trigger] is_stdlib(library)
                            &&& is_first(
                                module.classpath,
                                |jar: Seq<char>| is_stdlib(jar),
                                library,
                            )
                            &&& arguments(task).contains(library)
                        }
                }
        }),
{
    let task = android_plan(config, probe).tasks[i];
    let module = android_module(config, android, project_dir, probe)->Ok_0;
    law_tasks_do_what_the_configuration_describes(config, android, project_dir, probe);
    assert(!is_shared(task, module));
    let (variants, flavors) = module_variants(config)->Ok_0;
    let signing = module_signing(config)->Ok_0;
    assert(is_of_variants(task, module, flavors, signing, variants));
    let k = choose|k: int|
        0 <= k < variants.len() && is_of_variant(
            task,
            module,
            #[trigger] variants[k],
            variant_sources(module, flavors, variants[k]),
            signing,
        );
    let variant = variants[k];
    let sources = variant_sources(module, flavors, variant);
    lemma_tools_tell_tasks_apart(task, module, variant, sources, signing);
    let at = module_jars(config, "compile"@).index_of(jar);
    assert(module.classpath[at + 1] == jar);
    if kotlin_files(sources).len() > 0 {
        lemma_dexed_library(task, module, variant, sources, at + 1);
    }
}

/// The second input of `d8` is the first Kotlin standard library.
proof fn lemma_dexed_library(
    task: TaskModel,
    module: AndroidModel,
    variant: VariantModel,
    sources: Seq<Seq<char>>,
    at: int,
)
    requires
        dexes(task, module, variant, sources),
        kotlin_files(sources).len() > 0,
        0 <= at < module.classpath.len(),
        is_stdlib(module.classpath[at]),
    ensures
        task.inputs.len() == 2,
        is_stdlib(task.inputs[1]),
        is_first(module.classpath, |jar: Seq<char>| is_stdlib(jar), task.inputs[1]),
        arguments(task).contains(task.inputs[1]),
{
    let test = |jar: Seq<char>| is_stdlib(jar);
    assert(test(module.classpath[at]));
    assert(!is_nowhere(module.classpath, test));
    assert(is_first(module.classpath, test, task.inputs[1]));
    assert(test(task.inputs[1]));
    lemma_d8_gets_every_input(task, module, variant, sources, task.inputs[1]);
}

} // verus!
