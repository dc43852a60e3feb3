//! The tasks of an Android module.

use crate::android::build_config::{
    buildconfig_source, generate_buildconfig_source, BuildConfigParams, ParamsModel,
};
use crate::android::invocations::{
    compile_args, d8_args, d8_run, javac_run, kotlinc_android_args, kotlinc_run, link_args,
    link_run, mkdir_args, mkdir_run, package_args, package_run, resources_args, resources_run,
    rgen_java_of, rgen_java_path, sign_args, sign_run,
};
use crate::android::module::{
    android_module, module_signing, read_module, read_signing, AndroidModel, AndroidModule,
    SigningBlock, SigningModel,
};
use crate::android::variants::{
    compute_variants, merge_variant_sources, merged_sources, module_variants, variant_models,
    FlavorInfo, FlavorModels, Variant, VariantModel,
};
use crate::invocations::{jar_args, packing_args};
use crate::json::{Json, JsonModel, SortedMap};
use crate::letter_case::{lowercase, lowercase_text, pascal_case, to_pascal_case};
use crate::parse::{json_of_text, json_result, parse_json};
use crate::path::{join_path, parent, parent_dir, path_join, resolve_path};
use crate::sdk::{SdkModel, SdkProbe};
use crate::sources::{
    compose_compiler, find_compose_compiler_jar, java_sources, other_sources, partition_sources,
};
use crate::task::{
    append_tasks, file_task, no_tasks, plan_of, planned, precede, preceded, push_task, refuse,
    refused, run_tool_task, sequenced, task_models, tool_task, write_file_task, AllowlistedTool,
    ManifestModel, Plan, PlanModel, PluginManifest, Task, TaskModel,
};
use crate::text::{
    added_if, concat, concat3, contains_text, copy_texts, dots_to_slashes, ends_with, extend_texts,
    find_last, first_where, has_suffix, has_text, last_occurrence, no_texts, one_text,
    optional_text, prefix_of, push_text, same_text, slashed, texts, three_texts, two_texts,
};
use crate::variants::{
    key_password_path, ks_password_path, password_files, shared_build, shared_build_dir,
    variant_build, variant_build_dir,
};
use vstd::prelude::*;

verus! {

/// Where a variant's build products go.
pub struct VariantPaths {
    pub classes_dir: String,
    pub classes_jar: String,
    pub dex_dir: String,
    pub resources_apk: String,
    pub rgen_dir: String,
    pub rgen_java: String,
    pub apk: String,
    pub buildconfig_dir: String,
    pub buildconfig_java: String,
}

/// The mathematical counterpart of [`VariantPaths`].
pub struct PathsModel {
    pub classes_dir: Seq<char>,
    pub classes_jar: Seq<char>,
    pub dex_dir: Seq<char>,
    pub resources_apk: Seq<char>,
    pub rgen_dir: Seq<char>,
    pub rgen_java: Seq<char>,
    pub apk: Seq<char>,
    pub buildconfig_dir: Seq<char>,
    pub buildconfig_java: Seq<char>,
}

impl View for VariantPaths {
    type V = PathsModel;

    open spec fn view(&self) -> PathsModel {
        PathsModel {
            classes_dir: self.classes_dir@,
            classes_jar: self.classes_jar@,
            dex_dir: self.dex_dir@,
            resources_apk: self.resources_apk@,
            rgen_dir: self.rgen_dir@,
            rgen_java: self.rgen_java@,
            apk: self.apk@,
            buildconfig_dir: self.buildconfig_dir@,
            buildconfig_java: self.buildconfig_java@,
        }
    }
}

/// Where a variant's build products go.
pub open spec fn variant_paths(
    project_dir: Seq<char>,
    namespace: Seq<char>,
    variant: VariantModel,
) -> PathsModel {
    let build = variant_build(project_dir, variant.variant_dir);
    let rgen_dir = path_join(build, "R"@);
    let buildconfig_dir = path_join(path_join(build, "generated"@), "buildconfig"@);
    PathsModel {
        classes_dir: path_join(build, "classes"@),
        classes_jar: path_join(build, "classes.jar"@),
        dex_dir: path_join(build, "dex"@),
        resources_apk: path_join(build, "resources.apk"@),
        rgen_dir,
        rgen_java: rgen_java_of(rgen_dir, namespace),
        apk: path_join(build, variant.apk_filename),
        buildconfig_dir,
        buildconfig_java: path_join(
            path_join(buildconfig_dir, dots_to_slashes(namespace)),
            "BuildConfig.java"@,
        ),
    }
}

/// The merged resources of the module.
pub open spec fn res_zip_path(project_dir: Seq<char>) -> Seq<char> {
    path_join(shared_build(project_dir), "res.zip"@)
}

/// A variant's name without the names of its flavors.
pub open spec fn without_flavors(name: Seq<char>, flavors: Seq<Seq<char>>) -> Seq<char>
    decreases flavors.len(),
{
    if flavors.len() == 0 {
        name
    } else {
        let rest = without_flavors(name, flavors.drop_last());
        match last_occurrence(rest, pascal_case(flavors.last())) {
            Some(at) => rest.take(at),
            None => rest,
        }
    }
}

/// The build type of a variant, in lower case.
pub open spec fn build_type_of(variant: VariantModel) -> Seq<char> {
    lowercase(without_flavors(variant.name, variant.flavors))
}

/// The name of a variant's first flavor; empty where it has none.
pub open spec fn first_flavor(variant: VariantModel) -> Seq<char> {
    if variant.flavors.len() == 0 {
        seq![]
    } else {
        variant.flavors[0]
    }
}

/// What a variant's `BuildConfig` is made of.
pub open spec fn buildconfig_params(module: AndroidModel, variant: VariantModel) -> ParamsModel {
    ParamsModel {
        namespace: module.declared.namespace,
        application_id: module.declared.namespace + variant.application_id_suffix,
        build_type: build_type_of(variant),
        debug: build_type_of(variant) == "debug"@,
        flavor: first_flavor(variant),
        version_code: module.declared.version_code,
        version_name: module.declared.version_name,
        min_sdk: variant.min_sdk,
        target_sdk: variant.target_sdk,
        compile_sdk: module.declared.compile_sdk,
        user_fields: module.declared.fields,
    }
}

/// A jar of the Kotlin standard library, not of its sources.
pub open spec fn is_kotlin_stdlib(jar: Seq<char>) -> bool {
    contains_text(jar, "kotlin-stdlib"@) && ends_with(jar, ".jar"@) && !ends_with(
        jar,
        "-sources.jar"@,
    )
}

/// The jars that are dexed along with a variant's classes: the Kotlin standard
/// library where the variant has Kotlin sources.
pub open spec fn dexed_jars(
    classpath: Seq<Seq<char>>,
    kotlin_sources: Seq<Seq<char>>,
) -> Seq<Seq<char>> {
    if kotlin_sources.len() == 0 {
        seq![]
    } else {
        match first_where(classpath, |jar: Seq<char>| is_kotlin_stdlib(jar)) {
            Some(jar) => seq![jar],
            None => seq![],
        }
    }
}

/// Compose is enabled without its compiler plugin on the classpath.
pub open spec fn no_compose_compiler() -> Seq<char> {
    "compose = true but the compose compiler plugin JAR was not found on the compile classpath; add a dependency such as \"org.jetbrains.kotlin:compose-compiler-plugin:<kotlin-version>\""@
}

/// The Compose compiler plugin, which must be on the classpath where Compose is
/// enabled.
pub open spec fn compose_plugin(compose: bool, classpath: Seq<Seq<char>>) -> Result<
    Option<Seq<char>>,
    Seq<char>,
> {
    if !compose {
        Ok(None)
    } else {
        match compose_compiler(classpath) {
            Some(jar) => Ok(Some(jar)),
            None => Err(no_compose_compiler()),
        }
    }
}

/// The tasks that all variants share.
pub open spec fn shared_tasks(module: AndroidModel) -> Seq<TaskModel> {
    let build = shared_build(module.project_dir);
    let res_zip = res_zip_path(module.project_dir);
    seq![
        tool_task(
            "prepareBuildDir"@,
            seq![],
            seq![],
            seq![],
            AllowlistedTool::Mkdir,
            mkdir_run(build),
        ),
    ].push(
        tool_task(
            "mergeResources"@,
            seq![module.declared.res_dir],
            seq![res_zip],
            seq!["prepareBuildDir"@],
            AllowlistedTool::Aapt2,
            resources_run(module.tools.build_tools, module.declared.res_dir, res_zip),
        ),
    )
}

/// The tasks that write the passwords.
pub open spec fn password_tasks(
    project_dir: Seq<char>,
    signing: Option<SigningModel>,
) -> Seq<TaskModel> {
    match signing {
        None => seq![],
        Some(block) => seq![
            file_task(
                "writeSigningPasswords"@,
                ks_password_path(project_dir),
                block.store_password,
                seq![],
            ),
        ].push(
            file_task(
                "writeSigningKeyPassword"@,
                key_password_path(project_dir),
                block.key_password,
                seq![],
            ),
        ),
    }
}

/// The tasks of a variant up to the compiled Java classes. `R.java` is compiled
/// in any case, so that Kotlin can refer to it.
#[verifier::opaque]
pub open spec fn front_tasks(
    module: AndroidModel,
    variant: VariantModel,
    apk_dir: Seq<char>,
    sources: Seq<Seq<char>>,
) -> Seq<TaskModel> {
    let paths = variant_paths(module.project_dir, module.declared.namespace, variant);
    let res_zip = res_zip_path(module.project_dir);
    seq![
        tool_task(
            "prepareApk"@ + variant.name,
            seq![],
            seq![],
            seq![],
            AllowlistedTool::Mkdir,
            mkdir_run(apk_dir),
        ),
    ].push(
        tool_task(
            "prepareDex"@ + variant.name,
            seq![],
            seq![],
            seq![],
            AllowlistedTool::Mkdir,
            mkdir_run(paths.dex_dir),
        ),
    ).push(
        file_task(
            "generateBuildConfig"@ + variant.name,
            paths.buildconfig_java,
            buildconfig_source(buildconfig_params(module, variant)),
            seq!["prepareBuildDir"@],
        ),
    ).push(
        tool_task(
            "linkResources"@ + variant.name,
            seq![res_zip, module.declared.manifest],
            seq![paths.resources_apk, paths.rgen_dir],
            seq!["prepareBuildDir"@, "mergeResources"@, "prepareApk"@ + variant.name],
            AllowlistedTool::Aapt2,
            link_run(
                module.tools.build_tools,
                paths.resources_apk,
                module.declared.manifest,
                module.tools.platform_jar,
                paths.rgen_dir,
                module.declared.namespace,
                variant.min_sdk,
                variant.target_sdk,
                variant.application_id_suffix,
                res_zip,
            ),
        ),
    ).push(
        tool_task(
            "seedApk"@ + variant.name,
            seq![paths.resources_apk],
            seq![paths.apk],
            seq!["linkResources"@ + variant.name, "prepareApk"@ + variant.name],
            AllowlistedTool::Cp,
            seq![paths.resources_apk, paths.apk],
        ),
    ).push(
        tool_task(
            "compile"@ + variant.name,
            java_sources(sources).push(paths.rgen_java),
            seq![paths.classes_dir],
            seq!["linkResources"@ + variant.name, "generateBuildConfig"@ + variant.name],
            AllowlistedTool::Javac,
            javac_run(
                paths.classes_dir,
                module.classpath,
                java_sources(sources),
                paths.rgen_dir,
                paths.rgen_java,
                Some(paths.buildconfig_dir),
            ),
        ),
    )
}

/// The task that compiles a variant's Kotlin sources, which see its Java
/// classes.
pub open spec fn kotlin_task(
    module: AndroidModel,
    variant: VariantModel,
    kotlin_sources: Seq<Seq<char>>,
    plugin: Option<Seq<char>>,
) -> TaskModel {
    let paths = variant_paths(module.project_dir, module.declared.namespace, variant);
    tool_task(
        "compileKotlin"@ + variant.name,
        kotlin_sources,
        seq![paths.classes_dir],
        seq!["compile"@ + variant.name],
        AllowlistedTool::Kotlinc,
        kotlinc_run(
            paths.classes_dir,
            module.tools.platform_jar,
            module.classpath,
            kotlin_sources,
            plugin,
        ),
    )
}

/// The task that signs a variant's APK.
pub open spec fn sign_task(
    module: AndroidModel,
    variant: VariantModel,
    signing: SigningModel,
) -> TaskModel {
    let paths = variant_paths(module.project_dir, module.declared.namespace, variant);
    let keystore = path_join(module.project_dir, signing.store_file);
    let ks_file = ks_password_path(module.project_dir);
    let key_file = key_password_path(module.project_dir);
    tool_task(
        "signApk"@ + variant.name,
        seq![paths.apk, keystore, ks_file, key_file],
        seq![paths.apk],
        seq!["packageApk"@ + variant.name, "writeSigningPasswords"@, "writeSigningKeyPassword"@],
        AllowlistedTool::Apksigner,
        sign_run(
            module.tools.build_tools,
            keystore,
            signing.key_alias,
            ks_file,
            key_file,
            paths.apk,
        ),
    )
}

/// The tasks of a variant from the compiled Java classes to the APK.
#[verifier::opaque]
pub open spec fn back_tasks(
    module: AndroidModel,
    variant: VariantModel,
    sources: Seq<Seq<char>>,
    plugin: Option<Seq<char>>,
) -> Seq<TaskModel> {
    let paths = variant_paths(module.project_dir, module.declared.namespace, variant);
    let kotlin = other_sources(sources);
    let extra = dexed_jars(module.classpath, kotlin);
    added_if(
        seq![],
        kotlin.len() > 0,
        kotlin_task(module, variant, kotlin, plugin),
    ).push(
        tool_task(
            "jarClasses"@ + variant.name,
            seq![paths.classes_dir],
            seq![paths.classes_jar],
            added_if(
                seq!["compile"@ + variant.name],
                kotlin.len() > 0,
                "compileKotlin"@ + variant.name,
            ),
            AllowlistedTool::Jar,
            packing_args(paths.classes_jar, paths.classes_dir),
        ),
    ).push(
        tool_task(
            "compileDex"@ + variant.name,
            seq![paths.classes_jar] + extra,
            seq![paths.dex_dir],
            seq!["jarClasses"@ + variant.name, "prepareDex"@ + variant.name],
            AllowlistedTool::Java,
            d8_run(
                module.tools.d8_jar,
                module.tools.platform_jar,
                variant.min_sdk,
                paths.dex_dir,
                paths.classes_jar,
                extra,
            ),
        ),
    ).push(
        tool_task(
            "packageApk"@ + variant.name,
            seq![paths.resources_apk, paths.dex_dir],
            seq![paths.apk],
            seq![
                "linkResources"@ + variant.name,
                "seedApk"@ + variant.name,
                "compileDex"@ + variant.name,
            ],
            AllowlistedTool::Jar,
            package_run(paths.apk, paths.dex_dir),
        ),
    )
}

/// The signing tasks of a variant: none without a signing block.
pub open spec fn signing_tasks(
    module: AndroidModel,
    variant: VariantModel,
    signing: Option<SigningModel>,
) -> Seq<TaskModel> {
    match signing {
        None => seq![],
        Some(block) => seq![sign_task(module, variant, block)],
    }
}

/// The path of an APK has no directory.
pub open spec fn no_apk_directory(apk: Seq<char>) -> Seq<char> {
    "variant apk path '"@ + apk + "' has no parent directory"@
}

/// The plan of one variant.
#[verifier::opaque]
pub open spec fn variant_plan(
    module: AndroidModel,
    flavors: FlavorModels,
    signing: Option<SigningModel>,
    variant: VariantModel,
) -> PlanModel {
    let paths = variant_paths(module.project_dir, module.declared.namespace, variant);
    match merged_sources(
        module.declared.sources,
        module.project_dir,
        variant.flavors,
        flavors,
    ) {
        Err(e) => refused(e),
        Ok(sources) => match parent(paths.apk) {
            None => refused(no_apk_directory(paths.apk)),
            Some(apk_dir) => match compose_plugin(module.declared.compose, module.classpath) {
                Err(e) => preceded(
                    front_tasks(module, variant, apk_dir, sources),
                    refused(e),
                ),
                Ok(plugin) => planned(
                    front_tasks(module, variant, apk_dir, sources) + back_tasks(
                        module,
                        variant,
                        sources,
                        plugin,
                    ) + signing_tasks(module, variant, signing),
                ),
            },
        },
    }
}

/// The plans of the variants, one after another up to the first that fails.
pub open spec fn variant_plans(
    module: AndroidModel,
    flavors: FlavorModels,
    signing: Option<SigningModel>,
    variants: Seq<VariantModel>,
) -> PlanModel
    decreases variants.len(),
{
    if variants.len() == 0 {
        planned(seq![])
    } else {
        sequenced(
            variant_plan(module, flavors, signing, variants[0]),
            variant_plans(module, flavors, signing, variants.drop_first()),
        )
    }
}

/// The plan of a module that is known, with its toolchain.
pub open spec fn module_plan(module: AndroidModel, config: JsonModel) -> PlanModel {
    preceded(
        shared_tasks(module),
        match module_variants(config) {
            Err(e) => refused(e),
            Ok((variants, flavors)) => match module_signing(config) {
                Err(e) => refused(e),
                Ok(signing) => preceded(
                    password_tasks(module.project_dir, signing),
                    variant_plans(module, flavors, signing, variants),
                ),
            },
        },
    )
}

/// The plan of a module.
pub open spec fn android_plan(config: JsonModel, probe: SdkModel) -> PlanModel {
    match config.str_at("projectDir"@) {
        None => refused("module config is missing 'projectDir'"@),
        Some(project_dir) => match config.get("android"@) {
            None => refused("module config has no 'android' block"@),
            Some(android) => match android_module(config, android, project_dir, probe) {
                Err(e) => refused(e),
                Ok(module) => module_plan(module, config),
            },
        },
    }
}

/// The plan of a configuration that was read, or of the message of the reader.
pub open spec fn parsed_plan(parsed: Result<JsonModel, Seq<char>>, probe: SdkModel) -> PlanModel {
    match parsed {
        Err(e) => refused("invalid module config JSON: "@ + e),
        Ok(config) => android_plan(config, probe),
    }
}

/// How the plugin introduces itself.
pub open spec fn android_manifest(version: Seq<char>, abi_version: Seq<char>) -> ManifestModel {
    ManifestModel {
        name: "ulite/android"@,
        version,
        abi_version,
        tools: seq![
            "javac"@,
            "kotlinc"@,
            "aapt2"@,
            "jar"@,
            "java"@,
            "mkdir"@,
            "cp"@,
            "apksigner"@,
        ],
        dependencies: seq![],
    }
}

/// Where a variant's build products go.
fn lay_out(project_dir: &str, namespace: &str, variant: &Variant) -> (r: VariantPaths)
    ensures
        r@ == variant_paths(project_dir@, namespace@, variant@),
{
    let build = variant_build_dir(project_dir, variant.variant_dir.as_str());
    let rgen_dir = join_path(build.as_str(), "R");
    let generated = join_path(build.as_str(), "generated");
    let buildconfig_dir = join_path(generated.as_str(), "buildconfig");
    let package = join_path(buildconfig_dir.as_str(), slashed(namespace).as_str());
    VariantPaths {
        classes_dir: join_path(build.as_str(), "classes"),
        classes_jar: join_path(build.as_str(), "classes.jar"),
        dex_dir: join_path(build.as_str(), "dex"),
        resources_apk: join_path(build.as_str(), "resources.apk"),
        rgen_java: rgen_java_path(rgen_dir.as_str(), namespace),
        rgen_dir,
        apk: join_path(build.as_str(), variant.apk_filename.as_str()),
        buildconfig_java: join_path(package.as_str(), "BuildConfig.java"),
        buildconfig_dir,
    }
}

/// A variant's name without the names of its flavors.
fn strip_flavors(name: &str, flavors: &[String]) -> (r: String)
    ensures
        r@ == without_flavors(name@, texts(flavors@)),
{
    let ghost all = texts(flavors@);
    let mut rest = name.to_owned();
    let mut i: usize = 0;
    while i < flavors.len()
        invariant
            i <= flavors@.len(),
            all == texts(flavors@),
            rest@ == without_flavors(name@, all.take(i as int)),
        decreases flavors@.len() - i,
    {
        let flavor = to_pascal_case(flavors[i].as_str());
        assert(all.take(i + 1).drop_last() == all.take(i as int));
        assert(all.take(i + 1).last() == all[i as int]);
        match find_last(rest.as_str(), flavor.as_str()) {
            Some(at) => {
                rest = prefix_of(rest.as_str(), at);
            },
            None => {},
        }
        i = i + 1;
    }
    assert(all.take(i as int) == all);
    rest
}

/// The Java source of a variant's `BuildConfig`.
fn buildconfig_of(module: &AndroidModule, variant: &Variant) -> (r: String)
    ensures
        r@ == buildconfig_source(buildconfig_params(module@, variant@)),
{
    let namespace = module.declared.namespace.as_str();
    let application_id = concat(namespace, variant.application_id_suffix.as_str());
    let build_type = lowercase_text(
        strip_flavors(variant.name.as_str(), &variant.flavors).as_str(),
    );
    let flavor = if variant.flavors.len() == 0 {
        String::new()
    } else {
        variant.flavors[0].clone()
    };
    assert(flavor@ == first_flavor(variant@));
    generate_buildconfig_source(
        &BuildConfigParams {
            namespace,
            application_id: application_id.as_str(),
            build_type: build_type.as_str(),
            debug: same_text(build_type.as_str(), "debug"),
            flavor: flavor.as_str(),
            version_code: module.declared.version_code,
            version_name: module.declared.version_name.as_str(),
            min_sdk: variant.min_sdk,
            target_sdk: variant.target_sdk,
            compile_sdk: module.declared.compile_sdk,
            user_fields: &module.declared.fields,
        },
    )
}

/// The Kotlin standard library on a classpath.
fn find_kotlin_stdlib(classpath: &[String]) -> (r: Option<String>)
    ensures
        match r {
            Some(jar) => first_where(texts(classpath@), |jar: Seq<char>| is_kotlin_stdlib(jar))
                == Some(jar@),
            None => first_where(texts(classpath@), |jar: Seq<char>| is_kotlin_stdlib(jar)) is None,
        },
{
    let ghost all = texts(classpath@);
    let ghost test = |jar: Seq<char>| is_kotlin_stdlib(jar);
    let mut i: usize = 0;
    assert(all.skip(0) == all);
    while i < classpath.len()
        invariant
            i <= classpath@.len(),
            all == texts(classpath@),
            test == (|jar: Seq<char>| is_kotlin_stdlib(jar)),
            first_where(all, test) == first_where(all.skip(i as int), test),
        decreases classpath@.len() - i,
    {
        let jar = classpath[i].as_str();
        assert(all.skip(i as int)[0] == jar@);
        if has_text(jar, "kotlin-stdlib") && has_suffix(jar, ".jar") && !has_suffix(
            jar,
            "-sources.jar",
        ) {
            return Some(jar.to_owned());
        }
        assert(all.skip(i as int).drop_first() == all.skip(i + 1));
        i = i + 1;
    }
    None
}

/// The jars that are dexed along with a variant's classes.
fn extra_dex_jars(classpath: &[String], kotlin_sources: &[String]) -> (r: Vec<String>)
    ensures
        texts(r@) == dexed_jars(texts(classpath@), texts(kotlin_sources@)),
{
    if kotlin_sources.len() == 0 {
        return no_texts();
    }
    match find_kotlin_stdlib(classpath) {
        Some(jar) => one_text(jar.as_str()),
        None => no_texts(),
    }
}

/// The Compose compiler plugin, which must be on the classpath where Compose is
/// enabled.
pub fn find_compose_plugin(compose: bool, classpath: &[String]) -> (r: Result<
    Option<String>,
    String,
>)
    ensures
        match r {
            Ok(Some(jar)) => compose_plugin(compose, texts(classpath@)) == Ok::<_, Seq<char>>(
                Some(jar@),
            ),
            Ok(None) => compose_plugin(compose, texts(classpath@)) == Ok::<
                Option<Seq<char>>,
                Seq<char>,
            >(None),
            Err(e) => compose_plugin(compose, texts(classpath@)) == Err::<Option<Seq<char>>, _>(
                e@,
            ),
        },
{
    if !compose {
        return Ok(None);
    }
    match find_compose_compiler_jar(classpath) {
        Some(jar) => Ok(Some(jar)),
        None => Err(
            "compose = true but the compose compiler plugin JAR was not found on the compile classpath; add a dependency such as \"org.jetbrains.kotlin:compose-compiler-plugin:<kotlin-version>\"".to_owned(),
        ),
    }
}

/// The tasks that all variants share.
fn make_shared_tasks(module: &AndroidModule) -> (r: Vec<Task>)
    ensures
        task_models(r@) == shared_tasks(module@),
{
    let build = shared_build_dir(module.project_dir.as_str());
    let res_zip = join_path(build.as_str(), "res.zip");
    let mut tasks = no_tasks();
    push_task(
        &mut tasks,
        run_tool_task(
            "prepareBuildDir",
            no_texts(),
            no_texts(),
            no_texts(),
            AllowlistedTool::Mkdir,
            mkdir_args(build.as_str()),
        ),
    );
    push_task(
        &mut tasks,
        run_tool_task(
            "mergeResources",
            one_text(module.declared.res_dir.as_str()),
            one_text(res_zip.as_str()),
            one_text("prepareBuildDir"),
            AllowlistedTool::Aapt2,
            resources_args(
                module.tools.build_tools.as_str(),
                module.declared.res_dir.as_str(),
                res_zip.as_str(),
            ),
        ),
    );
    tasks
}

/// An optional signing block, by its model.
pub open spec fn signing_model(signing: Option<SigningBlock>) -> Option<SigningModel> {
    match signing {
        None => None,
        Some(block) => Some(block@),
    }
}

/// The tasks that write the passwords.
fn make_password_tasks(project_dir: &str, signing: &Option<SigningBlock>) -> (r: Vec<Task>)
    ensures
        task_models(r@) == password_tasks(project_dir@, signing_model(*signing)),
{
    let mut tasks = no_tasks();
    match signing {
        None => {},
        Some(block) => {
            let (ks_file, key_file) = password_files(project_dir);
            push_task(
                &mut tasks,
                write_file_task(
                    "writeSigningPasswords",
                    ks_file.as_str(),
                    block.store_password.as_str(),
                    no_texts(),
                ),
            );
            push_task(
                &mut tasks,
                write_file_task(
                    "writeSigningKeyPassword",
                    key_file.as_str(),
                    block.key_password.as_str(),
                    no_texts(),
                ),
            );
        },
    }
    tasks
}

/// The tasks of a variant up to the compiled Java classes.
fn make_front_tasks(
    module: &AndroidModule,
    variant: &Variant,
    paths: &VariantPaths,
    apk_dir: &str,
    java: &[String],
    Ghost(sources): Ghost<Seq<Seq<char>>>,
) -> (r: Vec<Task>)
    requires
        paths@ == variant_paths(module@.project_dir, module@.declared.namespace, variant@),
        texts(java@) == java_sources(sources),
    ensures
        task_models(r@) == front_tasks(module@, variant@, apk_dir@, sources),
{
    reveal(front_tasks);
    let name = variant.name.as_str();
    let manifest = module.declared.manifest.as_str();
    let build = shared_build_dir(module.project_dir.as_str());
    let res_zip = join_path(build.as_str(), "res.zip");
    let prepare_apk = concat("prepareApk", name);
    let link_resources = concat("linkResources", name);
    let generate = concat("generateBuildConfig", name);
    let mut tasks = no_tasks();
    push_task(
        &mut tasks,
        run_tool_task(
            prepare_apk.as_str(),
            no_texts(),
            no_texts(),
            no_texts(),
            AllowlistedTool::Mkdir,
            mkdir_args(apk_dir),
        ),
    );
    push_task(
        &mut tasks,
        run_tool_task(
            concat("prepareDex", name).as_str(),
            no_texts(),
            no_texts(),
            no_texts(),
            AllowlistedTool::Mkdir,
            mkdir_args(paths.dex_dir.as_str()),
        ),
    );
    push_task(
        &mut tasks,
        write_file_task(
            generate.as_str(),
            paths.buildconfig_java.as_str(),
            buildconfig_of(module, variant).as_str(),
            one_text("prepareBuildDir"),
        ),
    );
    push_task(
        &mut tasks,
        run_tool_task(
            link_resources.as_str(),
            two_texts(res_zip.as_str(), manifest),
            two_texts(paths.resources_apk.as_str(), paths.rgen_dir.as_str()),
            three_texts("prepareBuildDir", "mergeResources", prepare_apk.as_str()),
            AllowlistedTool::Aapt2,
            link_args(
                module.tools.build_tools.as_str(),
                paths.resources_apk.as_str(),
                manifest,
                module.tools.platform_jar.as_str(),
                paths.rgen_dir.as_str(),
                module.declared.namespace.as_str(),
                variant.min_sdk,
                variant.target_sdk,
                variant.application_id_suffix.as_str(),
                res_zip.as_str(),
            ),
        ),
    );
    push_task(
        &mut tasks,
        run_tool_task(
            concat("seedApk", name).as_str(),
            one_text(paths.resources_apk.as_str()),
            one_text(paths.apk.as_str()),
            two_texts(link_resources.as_str(), prepare_apk.as_str()),
            AllowlistedTool::Cp,
            two_texts(paths.resources_apk.as_str(), paths.apk.as_str()),
        ),
    );
    let mut inputs = copy_texts(java);
    push_text(&mut inputs, paths.rgen_java.as_str());
    push_task(
        &mut tasks,
        run_tool_task(
            concat("compile", name).as_str(),
            inputs,
            one_text(paths.classes_dir.as_str()),
            two_texts(link_resources.as_str(), generate.as_str()),
            AllowlistedTool::Javac,
            compile_args(
                paths.classes_dir.as_str(),
                &module.classpath,
                java,
                paths.rgen_dir.as_str(),
                paths.rgen_java.as_str(),
                Some(paths.buildconfig_dir.as_str()),
            ),
        ),
    );
    tasks
}

/// The task that compiles a variant's Kotlin sources.
fn make_kotlin_task(
    module: &AndroidModule,
    variant: &Variant,
    paths: &VariantPaths,
    kotlin: &[String],
    plugin: Option<&str>,
) -> (r: Task)
    requires
        paths@ == variant_paths(module@.project_dir, module@.declared.namespace, variant@),
    ensures
        r@ == kotlin_task(module@, variant@, texts(kotlin@), optional_text(plugin)),
{
    let name = variant.name.as_str();
    run_tool_task(
        concat("compileKotlin", name).as_str(),
        copy_texts(kotlin),
        one_text(paths.classes_dir.as_str()),
        one_text(concat("compile", name).as_str()),
        AllowlistedTool::Kotlinc,
        kotlinc_android_args(
            paths.classes_dir.as_str(),
            module.tools.platform_jar.as_str(),
            &module.classpath,
            kotlin,
            plugin,
        ),
    )
}

/// The tasks of a variant from the compiled Java classes to the APK.
fn make_back_tasks(
    module: &AndroidModule,
    variant: &Variant,
    paths: &VariantPaths,
    kotlin: &[String],
    plugin: Option<&str>,
    Ghost(sources): Ghost<Seq<Seq<char>>>,
) -> (r: Vec<Task>)
    requires
        paths@ == variant_paths(module@.project_dir, module@.declared.namespace, variant@),
        texts(kotlin@) == other_sources(sources),
    ensures
        task_models(r@) == back_tasks(module@, variant@, sources, optional_text(plugin)),
{
    reveal(back_tasks);
    let name = variant.name.as_str();
    let mut tasks = no_tasks();
    let mut compile_tasks = one_text(concat("compile", name).as_str());
    if kotlin.len() > 0 {
        push_task(&mut tasks, make_kotlin_task(module, variant, paths, kotlin, plugin));
        push_text(&mut compile_tasks, concat("compileKotlin", name).as_str());
    }
    push_task(
        &mut tasks,
        run_tool_task(
            concat("jarClasses", name).as_str(),
            one_text(paths.classes_dir.as_str()),
            one_text(paths.classes_jar.as_str()),
            compile_tasks,
            AllowlistedTool::Jar,
            jar_args(paths.classes_jar.as_str(), paths.classes_dir.as_str()),
        ),
    );
    let extra = extra_dex_jars(&module.classpath, kotlin);
    let mut dex_inputs = one_text(paths.classes_jar.as_str());
    extend_texts(&mut dex_inputs, &extra);
    push_task(
        &mut tasks,
        run_tool_task(
            concat("compileDex", name).as_str(),
            dex_inputs,
            one_text(paths.dex_dir.as_str()),
            two_texts(concat("jarClasses", name).as_str(), concat("prepareDex", name).as_str()),
            AllowlistedTool::Java,
            d8_args(
                module.tools.d8_jar.as_str(),
                module.tools.platform_jar.as_str(),
                variant.min_sdk,
                paths.dex_dir.as_str(),
                paths.classes_jar.as_str(),
                &extra,
            ),
        ),
    );
    push_task(
        &mut tasks,
        run_tool_task(
            concat("packageApk", name).as_str(),
            two_texts(paths.resources_apk.as_str(), paths.dex_dir.as_str()),
            one_text(paths.apk.as_str()),
            three_texts(
                concat("linkResources", name).as_str(),
                concat("seedApk", name).as_str(),
                concat("compileDex", name).as_str(),
            ),
            AllowlistedTool::Jar,
            package_args(paths.apk.as_str(), paths.dex_dir.as_str()),
        ),
    );
    tasks
}

/// The task that signs a variant's APK.
fn make_sign_task(
    module: &AndroidModule,
    variant: &Variant,
    paths: &VariantPaths,
    signing: &SigningBlock,
) -> (r: Task)
    requires
        paths@ == variant_paths(module@.project_dir, module@.declared.namespace, variant@),
    ensures
        r@ == sign_task(module@, variant@, signing@),
{
    let name = variant.name.as_str();
    let project_dir = module.project_dir.as_str();
    let keystore = resolve_path(project_dir, signing.store_file.as_str());
    let (ks_file, key_file) = password_files(project_dir);
    let mut inputs = two_texts(paths.apk.as_str(), keystore.as_str());
    push_text(&mut inputs, ks_file.as_str());
    push_text(&mut inputs, key_file.as_str());
    assert(texts(inputs@) =~= seq![paths.apk@, keystore@, ks_file@, key_file@]);
    run_tool_task(
        concat("signApk", name).as_str(),
        inputs,
        one_text(paths.apk.as_str()),
        three_texts(
            concat("packageApk", name).as_str(),
            "writeSigningPasswords",
            "writeSigningKeyPassword",
        ),
        AllowlistedTool::Apksigner,
        sign_args(
            module.tools.build_tools.as_str(),
            keystore.as_str(),
            signing.key_alias.as_str(),
            ks_file.as_str(),
            key_file.as_str(),
            paths.apk.as_str(),
        ),
    )
}

/// An optional text, borrowed.
fn borrowed(s: &Option<String>) -> (r: Option<&str>)
    ensures
        optional_text(r) == match *s {
            Some(t) => Some(t@),
            None => None,
        },
{
    match s {
        Some(t) => Some(t.as_str()),
        None => None,
    }
}

/// Plans one variant.
fn plan_variant(
    module: &AndroidModule,
    flavors: &SortedMap<FlavorInfo>,
    signing: &Option<SigningBlock>,
    variant: &Variant,
) -> (r: Plan)
    ensures
        r@ == variant_plan(module@, flavors@, signing_model(*signing), variant@),
{
    reveal(variant_plan);
    let project_dir = module.project_dir.as_str();
    let paths = lay_out(project_dir, module.declared.namespace.as_str(), variant);
    let sources = match merge_variant_sources(
        &module.declared.sources,
        project_dir,
        &variant.flavors,
        flavors,
    ) {
        Ok(sources) => sources,
        Err(e) => return refuse(e),
    };
    let apk_dir = match parent_dir(paths.apk.as_str()) {
        Some(dir) => dir,
        None => return refuse(
            concat3("variant apk path '", paths.apk.as_str(), "' has no parent directory"),
        ),
    };
    let ghost all = texts(sources@);
    let (java, kotlin) = partition_sources(&sources);
    let mut tasks = make_front_tasks(
        module,
        variant,
        &paths,
        apk_dir.as_str(),
        &java,
        Ghost(all),
    );
    let plugin = match find_compose_plugin(module.declared.compose, &module.classpath) {
        Ok(plugin) => plugin,
        Err(e) => return precede(tasks, refuse(e)),
    };
    append_tasks(
        &mut tasks,
        make_back_tasks(module, variant, &paths, &kotlin, borrowed(&plugin), Ghost(all)),
    );
    let ghost built = task_models(tasks@);
    match signing {
        None => {
            assert(built + signing_tasks(module@, variant@, None) =~= built);
        },
        Some(block) => {
            push_task(&mut tasks, make_sign_task(module, variant, &paths, block));
            assert(built + signing_tasks(module@, variant@, Some(block@)) =~= task_models(
                tasks@,
            ));
        },
    }
    plan_of(tasks)
}

/// Plans the variants, one after another up to the first that fails.
fn plan_variants(
    module: &AndroidModule,
    flavors: &SortedMap<FlavorInfo>,
    signing: &Option<SigningBlock>,
    variants: &[Variant],
) -> (r: Plan)
    ensures
        r@ == variant_plans(
            module@,
            flavors@,
            signing_model(*signing),
            variant_models(variants@),
        ),
{
    let ghost all = variant_models(variants@);
    let ghost block = signing_model(*signing);
    let ghost whole = variant_plans(module@, flavors@, block, all);
    let mut tasks = no_tasks();
    let mut i: usize = 0;
    assert(all.skip(0) == all);
    assert(seq![] + whole.tasks =~= whole.tasks);
    while i < variants.len()
        invariant
            i <= variants@.len(),
            all == variant_models(variants@),
            block == signing_model(*signing),
            whole == variant_plans(module@, flavors@, block, all),
            whole == preceded(
                task_models(tasks@),
                variant_plans(module@, flavors@, block, all.skip(i as int)),
            ),
        decreases variants@.len() - i,
    {
        let ghost earlier = task_models(tasks@);
        let ghost rest = variant_plans(module@, flavors@, block, all.skip(i + 1));
        assert(all.skip(i as int)[0] == variants@[i as int]@);
        assert(all.skip(i as int).drop_first() == all.skip(i + 1));
        let plan = plan_variant(module, flavors, signing, &variants[i]);
        match plan.outcome {
            Err(e) => {
                append_tasks(&mut tasks, plan.tasks);
                return Plan { tasks, outcome: Err(e) };
            },
            Ok(()) => {
                append_tasks(&mut tasks, plan.tasks);
                assert(earlier + (task_models(plan.tasks@) + rest.tasks) =~= task_models(tasks@)
                    + rest.tasks);
            },
        }
        i = i + 1;
    }
    assert(all.skip(i as int) =~= seq![]);
    assert(task_models(tasks@) + Seq::<TaskModel>::empty() =~= task_models(tasks@));
    plan_of(tasks)
}

/// Plans a module from its parsed configuration and what was found of the SDK.
pub fn plan_module(config: &Json, probe: &SdkProbe) -> (r: Plan)
    ensures
        r@ == android_plan(config@, probe@),
{
    let project_dir = match config.str_at("projectDir") {
        Some(dir) => dir,
        None => return refuse("module config is missing 'projectDir'".to_owned()),
    };
    let android = match config.get("android") {
        Some(android) => android,
        None => return refuse("module config has no 'android' block".to_owned()),
    };
    let module = match read_module(config, android, project_dir, probe) {
        Ok(module) => module,
        Err(e) => return refuse(e),
    };
    let shared = make_shared_tasks(&module);
    let (variants, flavors) = match compute_variants(config) {
        Ok(found) => found,
        Err(e) => return precede(shared, refuse(e)),
    };
    let signing = match read_signing(config) {
        Ok(signing) => signing,
        Err(e) => return precede(shared, refuse(e)),
    };
    let passwords = make_password_tasks(project_dir, &signing);
    let plan = plan_variants(&module, &flavors, &signing, &variants);
    precede(shared, precede(passwords, plan))
}

/// Plans a module from what reading its configuration gave.
pub fn plan_parsed(parsed: Result<Json, String>, probe: &SdkProbe) -> (r: Plan)
    ensures
        r@ == parsed_plan(json_result(parsed), probe@),
{
    match parsed {
        Err(e) => refuse(concat("invalid module config JSON: ", e.as_str())),
        Ok(config) => plan_module(&config, probe),
    }
}

/// The `ulite/android` plugin.
pub struct AndroidPlugin;

impl AndroidPlugin {
    /// Introduces the plugin: the tasks invoke exactly these tools.
    pub fn manifest(version: &str, abi_version: &str) -> (r: PluginManifest)
        ensures
            r@ == android_manifest(version@, abi_version@),
    {
        let mut tools = three_texts("javac", "kotlinc", "aapt2");
        push_text(&mut tools, "jar");
        push_text(&mut tools, "java");
        push_text(&mut tools, "mkdir");
        push_text(&mut tools, "cp");
        push_text(&mut tools, "apksigner");
        assert(texts(tools@) =~= android_manifest(version@, abi_version@).tools);
        PluginManifest {
            name: "ulite/android".to_owned(),
            version: version.to_owned(),
            abi_version: abi_version.to_owned(),
            tools,
            dependencies: no_texts(),
        }
    }

    /// Turns a module configuration, given as JSON, and what was found of the
    /// SDK into tasks.
    pub fn configure(module_config: &str, probe: &SdkProbe) -> (r: Plan)
        ensures
            r@ == parsed_plan(json_of_text(module_config@), probe@),
    {
        plan_parsed(parse_json(module_config), probe)
    }

    /// Returns its input.
    pub fn run(input: String) -> (r: String)
        ensures
            r == input,
    {
        input
    }
}

} // verus!
