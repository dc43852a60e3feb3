//! The tasks of a Kotlin multiplatform module.

use crate::android::invocations::{sign_args, sign_run};
use crate::android::module::{read_signing_key, signing_key};
use crate::android::plan::{compose_plugin, find_compose_plugin};
use crate::blocks::{missing_number, missing_number_message, read_string, required_string};
use crate::json::{lookup, Json, JsonModel, SortedMap};
use crate::jvm::{
    class_test_tasks, make_class_tests, make_main_tasks, make_runner_tests, runner_test_tasks,
    JvmModel, JvmModule,
};
use crate::jvm_tasks::{assemble_task, assembling, TEST_RUNNER_SOURCE_PATH};
use crate::kmp::classpath::{
    d8_merge_run, d8_run_args, kotlinc_android_args, kotlinc_run, merged_bucket, merged_classpath,
    merged_classpath_bucket, names_of, release_dir, release_path,
};
use crate::kmp::source_sets::{
    android_set_names, android_sets, block_list, check_entries, check_targets, checked_entries,
    checked_targets, collect_sources, collected_sources, jvm_set_names, jvm_sets,
    jvm_test_set_names, jvm_test_sets, optional_string_list,
};
use crate::kmp::variants::{
    compute_variants, module_variants, variant_models, Variant, VariantModel,
};
use crate::parse::{json_of_text, json_result, parse_json};
use crate::path::{all_joined, join_path, path_join, resolve_path, resolve_paths};
use crate::sdk::{
    android_jar, choose_sdk_root, d8_jar_location, d8_jar_path, find_build_tools_version,
    highest_version, platform_jar, sdk_root, SdkModel, SdkProbe,
};
use crate::sources::{
    checked_sources, java_sources, other_sources, partition_sources, reject_unknown_extensions,
};
use crate::task::{
    no_tasks, plan_of, planned, precede, preceded, push_task, refuse, refused, run_tool_task,
    sequenced, task_models, tasks_result, tool_task, AllowlistedTool, ManifestModel, Plan,
    PlanModel, PluginManifest, Task, TaskModel,
};
use crate::text::{
    concat, concat3, contains_text, copy_texts, extend_texts, has_text, no_texts, one_text,
    plain_result, push_text, same_text, text_result, texts, texts_result, three_texts, two_texts,
};
use crate::variants::{
    key_password_path, ks_password_path, password_files, variant_build, variant_build_dir,
};
use vstd::prelude::*;

verus! {

/// The source of the runner that the `junit-platform` test runner mode
/// generates. It scans the test classes directory given on the command line
/// through the JUnit Platform Launcher API and exits non-zero when a test failed.
pub const TEST_RUNNER_SOURCE: &'static str = r#"// Generated by the ulite/kmp plugin. Runs the tests compiled into the
// directory given on the command line through the JUnit Platform Launcher
// API; the engine(s) on the classpath are discovered automatically. Exits
// non-zero when any test failed or errored.
package ulite;

import java.io.File;
import java.io.PrintWriter;
import java.util.Collections;

import org.junit.platform.engine.discovery.DiscoverySelectors;
import org.junit.platform.launcher.Launcher;
import org.junit.platform.launcher.LauncherDiscoveryRequest;
import org.junit.platform.launcher.core.LauncherDiscoveryRequestBuilder;
import org.junit.platform.launcher.core.LauncherFactory;
import org.junit.platform.launcher.listeners.SummaryGeneratingListener;
import org.junit.platform.launcher.listeners.TestExecutionSummary;

public final class TestRunner {
    public static void main(String[] args) {
        if (args.length != 1) {
            System.err.println("usage: TestRunner <test-classes-dir>");
            System.exit(2);
        }
        File classesDir = new File(args[0]);
        LauncherDiscoveryRequest request = LauncherDiscoveryRequestBuilder.request()
                .selectors(DiscoverySelectors.selectClasspathRoots(
                        Collections.singleton(classesDir.toPath())))
                .build();
        Launcher launcher = LauncherFactory.create();
        SummaryGeneratingListener listener = new SummaryGeneratingListener();
        launcher.execute(request, listener);
        TestExecutionSummary summary = listener.getSummary();
        PrintWriter out = new PrintWriter(System.out, true);
        summary.printTo(out);
        summary.printFailuresTo(out);
        if (summary.getTotalFailureCount() > 0) {
            System.exit(1);
        }
    }
}
"#;

/// What the Android target is compiled with.
pub struct AndroidTarget {
    pub project_dir: String,
    pub sdk: String,
    pub platform_jar: String,
    pub kotlin_sources: Vec<String>,
    pub classpath: Vec<String>,
    pub compose_plugin: Option<String>,
}

/// The mathematical counterpart of [`AndroidTarget`].
pub struct TargetModel {
    pub project_dir: Seq<char>,
    pub sdk: Seq<char>,
    pub platform_jar: Seq<char>,
    pub kotlin_sources: Seq<Seq<char>>,
    pub classpath: Seq<Seq<char>>,
    pub compose_plugin: Option<Seq<char>>,
}

impl View for AndroidTarget {
    type V = TargetModel;

    open spec fn view(&self) -> TargetModel {
        TargetModel {
            project_dir: self.project_dir@,
            sdk: self.sdk@,
            platform_jar: self.platform_jar@,
            kotlin_sources: texts(self.kotlin_sources@),
            classpath: texts(self.classpath@),
            compose_plugin: match self.compose_plugin {
                Some(jar) => Some(jar@),
                None => None,
            },
        }
    }
}

/// How the APKs are signed, without the passwords.
pub struct Signer {
    pub keystore: String,
    pub key_alias: String,
}

/// The mathematical counterpart of [`Signer`].
pub struct SignerModel {
    pub keystore: Seq<char>,
    pub key_alias: Seq<char>,
}

impl View for Signer {
    type V = SignerModel;

    open spec fn view(&self) -> SignerModel {
        SignerModel { keystore: self.keystore@, key_alias: self.key_alias@ }
    }
}

/// An optional signer, by its model.
pub open spec fn signer_model(signer: Option<Signer>) -> Option<SignerModel> {
    match signer {
        None => None,
        Some(signer) => Some(signer@),
    }
}

/// The sources of a target, resolved; there must be some, and all must be
/// understood by a compiler.
pub open spec fn target_sources(
    entries: Seq<(Seq<char>, JsonModel)>,
    names: Seq<Seq<char>>,
    project_dir: Seq<char>,
    none: Seq<char>,
) -> Result<Seq<Seq<char>>, Seq<char>> {
    match collected_sources(entries, names) {
        Err(e) => Err(e),
        Ok(list) => if list.len() == 0 {
            Err(none)
        } else {
            match checked_sources(all_joined(project_dir, list)) {
                Err(e) => Err(e),
                Ok(()) => Ok(all_joined(project_dir, list)),
            }
        },
    }
}

/// The main build of the JVM target.
pub open spec fn jvm_target(
    config: JsonModel,
    entries: Seq<(Seq<char>, JsonModel)>,
    jvm: JsonModel,
    project_dir: Seq<char>,
) -> Result<JvmModel, Seq<char>> {
    match required_string(jvm, "kmp.jvm"@, "classesDir"@) {
        Err(e) => Err(e),
        Ok(classes_dir) => match required_string(jvm, "kmp.jvm"@, "jarFile"@) {
            Err(e) => Err(e),
            Ok(jar_file) => match target_sources(
                entries,
                jvm_sets(),
                project_dir,
                "the 'kmp' block declares no sources for the jvm target"@,
            ) {
                Err(e) => Err(e),
                Ok(sources) => Ok(
                    JvmModel {
                        project_dir,
                        java_sources: java_sources(sources),
                        kotlin_sources: other_sources(sources),
                        classes_dir: path_join(project_dir, classes_dir),
                        jar_file: path_join(project_dir, jar_file),
                        compile_classpath: merged_bucket(config, jvm_sets(), "compile"@),
                        processor_classpath: seq![],
                    },
                ),
            },
        },
    }
}

/// The test sources of the JVM target, resolved.
pub open spec fn target_tests(
    entries: Seq<(Seq<char>, JsonModel)>,
    project_dir: Seq<char>,
) -> Result<Seq<Seq<char>>, Seq<char>> {
    match collected_sources(entries, jvm_test_sets()) {
        Err(e) => Err(e),
        Ok(list) => match checked_sources(all_joined(project_dir, list)) {
            Err(e) => Err(e),
            Ok(()) => Ok(all_joined(project_dir, list)),
        },
    }
}

/// A test runner that is not known.
pub open spec fn unknown_runner(runner: Seq<char>) -> Seq<char> {
    "unknown 'testRunner' value '"@ + runner
        + "'; the only supported value is 'junit-platform'"@
}

/// The extra arguments of the test class; none where the list is wrong.
pub open spec fn class_args(jvm: JsonModel) -> Seq<Seq<char>> {
    match block_list(jvm, "testArgs"@) {
        Ok(args) => args,
        Err(_) => seq![],
    }
}

/// The tasks of the tests once it is known what runs them.
pub open spec fn target_test_tasks(
    config: JsonModel,
    entries: Seq<(Seq<char>, JsonModel)>,
    jvm: JsonModel,
    module: JvmModel,
    test_dir: Seq<char>,
) -> Result<Seq<TaskModel>, Seq<char>> {
    let compile_classpath = merged_bucket(config, jvm_test_sets(), "testCompile"@).push(
        module.classes_dir,
    );
    let runtime_classpath = merged_bucket(config, jvm_test_sets(), "testRuntime"@).push(
        test_dir,
    ).push(module.classes_dir);
    match target_tests(entries, module.project_dir) {
        Err(e) => Err(e),
        Ok(sources) => match jvm.str_at("testRunner"@) {
            Some(runner) => if runner != "junit-platform"@ {
                Err(unknown_runner(runner))
            } else {
                Ok(
                    runner_test_tasks(
                        sources,
                        path_join(module.project_dir, TEST_RUNNER_SOURCE_PATH@),
                        TEST_RUNNER_SOURCE@,
                        test_dir,
                        module.classes_dir,
                        compile_classpath,
                        runtime_classpath,
                        module.compile_tasks(),
                    ),
                )
            },
            None => if sources.len() == 0 {
                Ok(seq![])
            } else {
                Ok(
                    class_test_tasks(
                        sources,
                        test_dir,
                        module.classes_dir,
                        compile_classpath,
                        runtime_classpath,
                        module.compile_tasks(),
                        jvm.str_at("testClass"@)->0,
                        class_args(jvm),
                    ),
                )
            },
        },
    }
}

/// The tasks of the JVM target's tests; none where no directory is set for
/// their classes.
pub open spec fn jvm_test_tasks(
    config: JsonModel,
    entries: Seq<(Seq<char>, JsonModel)>,
    jvm: JsonModel,
    module: JvmModel,
) -> Result<Seq<TaskModel>, Seq<char>> {
    match jvm.str_at("testClassesDir"@) {
        None => Ok(seq![]),
        Some(dir) => {
            let class = jvm.str_at("testClass"@);
            let runner = jvm.str_at("testRunner"@);
            if class is None && runner is None {
                Err(
                    "the 'kmp.jvm' block has 'testClassesDir' but neither 'testClass' nor 'testRunner'"@,
                )
            } else if class is Some && runner is Some {
                Err(
                    "the 'kmp.jvm' block specifies both 'testClass' and 'testRunner'; these are mutually exclusive"@,
                )
            } else {
                target_test_tasks(
                    config,
                    entries,
                    jvm,
                    module,
                    path_join(module.project_dir, dir),
                )
            }
        },
    }
}

/// The plan of the JVM target: the main build, then the tests.
#[verifier::opaque]
pub open spec fn jvm_target_plan(
    config: JsonModel,
    entries: Seq<(Seq<char>, JsonModel)>,
    jvm: JsonModel,
    project_dir: Seq<char>,
) -> PlanModel {
    match jvm_target(config, entries, jvm, project_dir) {
        Err(e) => refused(e),
        Ok(module) => preceded(
            module.main_tasks(),
            match jvm_test_tasks(config, entries, jvm, module) {
                Err(e) => refused(e),
                Ok(tests) => planned(tests),
            },
        ),
    }
}

/// The directory of the Android target's own products.
pub open spec fn target_build(project_dir: Seq<char>) -> Seq<char> {
    path_join(project_dir, "build/kmp/android"@)
}

/// The classes of the Android target.
pub open spec fn target_classes(project_dir: Seq<char>) -> Seq<char> {
    path_join(target_build(project_dir), "classes"@)
}

/// The classes of the Android target as a jar.
pub open spec fn target_jar(project_dir: Seq<char>) -> Seq<char> {
    path_join(target_build(project_dir), "classes.jar"@)
}

/// The module's `android` block asks for Compose.
pub open spec fn wants_compose(config: JsonModel) -> bool {
    match config.get("android"@) {
        None => false,
        Some(android) => match android.get("compose"@) {
            None => false,
            Some(value) => value.as_bool() == Some(true),
        },
    }
}

/// A value of the module's `android` block.
pub open spec fn android_sdk_dir(config: JsonModel) -> Option<Seq<char>> {
    match config.get("android"@) {
        None => None,
        Some(android) => android.str_at("sdkDir"@),
    }
}

/// The API level the module compiles against.
pub open spec fn compile_level(config: JsonModel) -> Result<i64, Seq<char>> {
    match config.get("android"@) {
        None => Err(missing_number("android"@, "compileSdk"@)),
        Some(android) => match android.i64_at("compileSdk"@) {
            None => Err(missing_number("android"@, "compileSdk"@)),
            Some(n) => Ok(n),
        },
    }
}

/// The Android target compiles Kotlin alone.
pub open spec fn java_on_android() -> Seq<char> {
    "the Android target only compiles Kotlin (.kt) sources; move .java files to the JVM target or remove them from the Android source sets"@
}

/// What the Android target is compiled with.
pub open spec fn android_target(
    config: JsonModel,
    entries: Seq<(Seq<char>, JsonModel)>,
    project_dir: Seq<char>,
    probe: SdkModel,
) -> Result<TargetModel, Seq<char>> {
    match compile_level(config) {
        Err(e) => Err(e),
        Ok(compile_sdk) => match sdk_root(config, android_sdk_dir(config), project_dir) {
            Err(e) => Err(e),
            Ok(sdk) => match platform_jar(sdk, compile_sdk, probe.platform_jar) {
                Err(e) => Err(e),
                Ok(platform_jar) => match target_sources(
                    entries,
                    android_sets(),
                    project_dir,
                    "the 'kmp' block declares no sources for the android target"@,
                ) {
                    Err(e) => Err(e),
                    Ok(sources) => if java_sources(sources).len() > 0 {
                        Err(java_on_android())
                    } else {
                        let classpath = merged_bucket(config, android_sets(), "compile"@);
                        match compose_plugin(wants_compose(config), classpath) {
                            Err(e) => Err(e),
                            Ok(plugin) => Ok(
                                TargetModel {
                                    project_dir,
                                    sdk,
                                    platform_jar,
                                    kotlin_sources: other_sources(sources),
                                    classpath,
                                    compose_plugin: plugin,
                                },
                            ),
                        }
                    },
                },
            },
        },
    }
}

/// The tasks that compile the Android target's sources into a jar.
pub open spec fn target_compile_tasks(target: TargetModel) -> Seq<TaskModel> {
    let classes = target_classes(target.project_dir);
    seq![
        tool_task(
            "compileAndroid"@,
            target.kotlin_sources,
            seq![classes],
            seq!["ulite/android:prepareBuildDir"@],
            AllowlistedTool::Kotlinc,
            kotlinc_run(
                classes,
                target.platform_jar,
                target.classpath,
                target.kotlin_sources,
                target.compose_plugin,
            ),
        ),
    ].push(
        assembling(
            "jarKmpAndroid"@,
            classes,
            target_jar(target.project_dir),
            seq!["compileAndroid"@],
        ),
    )
}

/// The jars of the Kotlin standard library on a classpath.
pub open spec fn stdlib_jars(classpath: Seq<Seq<char>>) -> Seq<Seq<char>> {
    classpath.filter(|jar: Seq<char>| contains_text(jar, "kotlin-stdlib"@))
}

/// How the APKs are signed, if they are.
pub open spec fn module_signer(config: JsonModel, project_dir: Seq<char>) -> Result<
    Option<SignerModel>,
    Seq<char>,
> {
    match config.get("signing"@) {
        None => Ok(None),
        Some(block) => match signing_key(block, "storeFile"@) {
            Err(e) => Err(e),
            Ok(store_file) => match signing_key(block, "keyAlias"@) {
                Err(e) => Err(e),
                Ok(key_alias) => Ok(
                    Some(
                        SignerModel { keystore: path_join(project_dir, store_file), key_alias },
                    ),
                ),
            },
        },
    }
}

/// The task that merges the target's classes with those of the Android plugin
/// into one dex.
pub open spec fn merge_dex_task(
    target: TargetModel,
    release: Seq<char>,
    variant: VariantModel,
) -> TaskModel {
    let classes_jar = path_join(
        variant_build(target.project_dir, variant.variant_dir),
        "classes.jar"@,
    );
    let kmp_jar = target_jar(target.project_dir);
    let dex_dir = merged_dex_dir(target.project_dir, variant);
    let extra = stdlib_jars(target.classpath);
    tool_task(
        "mergeDex"@ + variant.name,
        seq![classes_jar, kmp_jar] + extra,
        seq![path_join(dex_dir, "classes.dex"@)],
        seq!["jarKmpAndroid"@, "ulite/android:jarClasses"@ + variant.name],
        AllowlistedTool::Java,
        d8_merge_run(
            d8_jar_path(release),
            seq![classes_jar, kmp_jar],
            dex_dir,
            variant.min_sdk,
            target.platform_jar,
            extra,
        ),
    )
}

/// Where the merged dex of a variant goes.
pub open spec fn merged_dex_dir(project_dir: Seq<char>, variant: VariantModel) -> Seq<char> {
    path_join(target_build(project_dir), "dex-"@ + variant.variant_dir)
}

/// The APK of a variant, which the Android plugin packages.
pub open spec fn variant_apk(project_dir: Seq<char>, variant: VariantModel) -> Seq<char> {
    path_join(variant_build(project_dir, variant.variant_dir), variant.apk_filename)
}

/// The task that puts the merged dex into the APK.
pub open spec fn graft_task(target: TargetModel, variant: VariantModel) -> TaskModel {
    let apk = variant_apk(target.project_dir, variant);
    let dex_dir = merged_dex_dir(target.project_dir, variant);
    tool_task(
        "assembleAndroid"@ + variant.name,
        seq![path_join(dex_dir, "classes.dex"@), apk],
        seq![apk],
        seq!["mergeDex"@ + variant.name, "ulite/android:packageApk"@ + variant.name],
        AllowlistedTool::Jar,
        seq!["uf"@, apk, "-C"@, dex_dir, "classes.dex"@],
    )
}

/// The task that signs the APK once the dex is in it.
pub open spec fn sign_task(
    target: TargetModel,
    release: Seq<char>,
    signer: SignerModel,
    variant: VariantModel,
) -> TaskModel {
    let apk = variant_apk(target.project_dir, variant);
    let ks_file = ks_password_path(target.project_dir);
    let key_file = key_password_path(target.project_dir);
    tool_task(
        "signKmpAndroid"@ + variant.name,
        seq![apk, signer.keystore, ks_file, key_file],
        seq![apk],
        seq![
            "assembleAndroid"@ + variant.name,
            "ulite/android:writeSigningPasswords"@,
            "ulite/android:writeSigningKeyPassword"@,
        ],
        AllowlistedTool::Apksigner,
        sign_run(release, signer.keystore, signer.key_alias, ks_file, key_file, apk),
    )
}

/// The tasks of one variant of the Android target.
pub open spec fn target_variant_tasks(
    target: TargetModel,
    release: Seq<char>,
    signer: Option<SignerModel>,
    variant: VariantModel,
) -> Seq<TaskModel> {
    let tasks = seq![merge_dex_task(target, release, variant)].push(graft_task(target, variant));
    match signer {
        None => tasks,
        Some(signer) => tasks.push(sign_task(target, release, signer, variant)),
    }
}

/// The tasks of the variants of the Android target, one variant after another.
pub open spec fn target_variants_tasks(
    target: TargetModel,
    release: Seq<char>,
    signer: Option<SignerModel>,
    variants: Seq<VariantModel>,
) -> Seq<TaskModel>
    decreases variants.len(),
{
    if variants.len() == 0 {
        seq![]
    } else {
        target_variants_tasks(target, release, signer, variants.drop_last())
            + target_variant_tasks(target, release, signer, variants.last())
    }
}

/// What follows once the Android target's sources are compiled.
pub open spec fn target_packaging(
    config: JsonModel,
    target: TargetModel,
    probe: SdkModel,
) -> Result<Seq<TaskModel>, Seq<char>> {
    match module_variants(config) {
        Err(e) => Err(e),
        Ok(variants) => match highest_version(target.sdk, probe.build_tools) {
            Err(e) => Err(e),
            Ok(version) => match module_signer(config, target.project_dir) {
                Err(e) => Err(e),
                Ok(signer) => Ok(
                    target_variants_tasks(
                        target,
                        release_path(target.sdk, version),
                        signer,
                        variants,
                    ),
                ),
            },
        },
    }
}

/// The plan of the Android target.
#[verifier::opaque]
pub open spec fn android_target_plan(
    config: JsonModel,
    entries: Seq<(Seq<char>, JsonModel)>,
    project_dir: Seq<char>,
    probe: SdkModel,
) -> PlanModel {
    match android_target(config, entries, project_dir, probe) {
        Err(e) => refused(e),
        Ok(target) => preceded(
            target_compile_tasks(target),
            match target_packaging(config, target, probe) {
                Err(e) => refused(e),
                Ok(tasks) => planned(tasks),
            },
        ),
    }
}

/// The plan of the targets of a `kmp` block whose entries are all recognized.
pub open spec fn targets_plan(
    config: JsonModel,
    entries: Seq<(Seq<char>, JsonModel)>,
    project_dir: Seq<char>,
    probe: SdkModel,
) -> PlanModel {
    let jvm = lookup(entries, "jvm"@);
    let android = lookup(entries, "android"@);
    if jvm is None && android is None {
        refused("the 'kmp' block declares no 'jvm' or 'android' target"@)
    } else {
        sequenced(
            match jvm {
                Some(jvm) => jvm_target_plan(config, entries, jvm, project_dir),
                None => planned(seq![]),
            },
            match android {
                Some(_) => android_target_plan(config, entries, project_dir, probe),
                None => planned(seq![]),
            },
        )
    }
}

/// The plan of a module.
pub open spec fn kmp_plan(config: JsonModel, probe: SdkModel) -> PlanModel {
    match config.str_at("projectDir"@) {
        None => refused("module config is missing 'projectDir'"@),
        Some(project_dir) => match config.get("kmp"@) {
            None => refused("module config has no 'kmp' block"@),
            Some(kmp) => match kmp.as_object() {
                None => refused("the 'kmp' block is not an object"@),
                Some(entries) => match checked_entries(entries) {
                    Err(e) => refused(e),
                    Ok(()) => match checked_targets(entries) {
                        Err(e) => refused(e),
                        Ok(()) => targets_plan(config, entries, project_dir, probe),
                    },
                },
            },
        },
    }
}

/// The plan of a configuration that was read, or of the message of the reader.
pub open spec fn parsed_plan(parsed: Result<JsonModel, Seq<char>>, probe: SdkModel) -> PlanModel {
    match parsed {
        Err(e) => refused("invalid module config JSON: "@ + e),
        Ok(config) => kmp_plan(config, probe),
    }
}

/// How the plugin introduces itself.
pub open spec fn kmp_manifest(version: Seq<char>, abi_version: Seq<char>) -> ManifestModel {
    ManifestModel {
        name: "ulite/kmp"@,
        version,
        abi_version,
        tools: seq!["javac"@, "kotlinc"@, "jar"@, "java"@, "apksigner"@],
        dependencies: seq!["ulite/android"@],
    }
}

/// Reads the sources of a target.
fn read_target_sources(
    entries: &SortedMap<Json>,
    names: &[&str],
    project_dir: &str,
    none: &str,
) -> (r: Result<Vec<String>, String>)
    ensures
        texts_result(r) == target_sources(entries@, names_of(names@), project_dir@, none@),
{
    let list = match collect_sources(entries, names) {
        Ok(list) => list,
        Err(e) => return Err(e),
    };
    if list.len() == 0 {
        return Err(none.to_owned());
    }
    let sources = resolve_paths(project_dir, &list);
    match reject_unknown_extensions(&sources) {
        Ok(()) => Ok(sources),
        Err(e) => Err(e),
    }
}

/// Reads the main build of the JVM target.
fn read_jvm_target(
    config: &Json,
    entries: &SortedMap<Json>,
    jvm: &Json,
    project_dir: &str,
) -> (r: Result<JvmModule, String>)
    ensures
        match r {
            Ok(module) => jvm_target(config@, entries@, jvm@, project_dir@) == Ok::<_, Seq<char>>(
                module@,
            ),
            Err(e) => jvm_target(config@, entries@, jvm@, project_dir@) == Err::<JvmModel, _>(e@),
        },
{
    let classes_dir = match read_string(jvm, "kmp.jvm", "classesDir") {
        Ok(dir) => dir,
        Err(e) => return Err(e),
    };
    let jar_file = match read_string(jvm, "kmp.jvm", "jarFile") {
        Ok(file) => file,
        Err(e) => return Err(e),
    };
    let names = jvm_set_names();
    let sources = match read_target_sources(
        entries,
        &names,
        project_dir,
        "the 'kmp' block declares no sources for the jvm target",
    ) {
        Ok(sources) => sources,
        Err(e) => return Err(e),
    };
    let (java_sources, kotlin_sources) = partition_sources(&sources);
    Ok(
        JvmModule {
            project_dir: project_dir.to_owned(),
            java_sources,
            kotlin_sources,
            classes_dir: resolve_path(project_dir, classes_dir.as_str()),
            jar_file: resolve_path(project_dir, jar_file.as_str()),
            compile_classpath: merged_classpath(config, &names),
            processor_classpath: no_texts(),
        },
    )
}

/// Reads the test sources of the JVM target.
fn read_target_tests(entries: &SortedMap<Json>, project_dir: &str) -> (r: Result<
    Vec<String>,
    String,
>)
    ensures
        texts_result(r) == target_tests(entries@, project_dir@),
{
    let list = match collect_sources(entries, &jvm_test_set_names()) {
        Ok(list) => list,
        Err(e) => return Err(e),
    };
    let sources = resolve_paths(project_dir, &list);
    match reject_unknown_extensions(&sources) {
        Ok(()) => Ok(sources),
        Err(e) => Err(e),
    }
}

/// The tasks of the JVM target's tests.
fn plan_target_tests(
    config: &Json,
    entries: &SortedMap<Json>,
    jvm: &Json,
    module: &JvmModule,
) -> (r: Result<Vec<Task>, String>)
    ensures
        tasks_result(r) == jvm_test_tasks(config@, entries@, jvm@, module@),
{
    let dir = match jvm.str_at("testClassesDir") {
        Some(dir) => dir,
        None => return Ok(no_tasks()),
    };
    let test_class = jvm.str_at("testClass");
    let test_runner = jvm.str_at("testRunner");
    if test_class.is_none() && test_runner.is_none() {
        return Err(
            "the 'kmp.jvm' block has 'testClassesDir' but neither 'testClass' nor 'testRunner'".to_owned(),
        );
    }
    if test_class.is_some() && test_runner.is_some() {
        return Err(
            "the 'kmp.jvm' block specifies both 'testClass' and 'testRunner'; these are mutually exclusive".to_owned(),
        );
    }
    let project_dir = module.project_dir.as_str();
    let classes_dir = module.classes_dir.as_str();
    let test_dir = resolve_path(project_dir, dir);
    let sources = match read_target_tests(entries, project_dir) {
        Ok(sources) => sources,
        Err(e) => return Err(e),
    };
    let names = jvm_test_set_names();
    let mut compile_classpath = merged_classpath_bucket(config, &names, "testCompile");
    push_text(&mut compile_classpath, classes_dir);
    let mut runtime_classpath = merged_classpath_bucket(config, &names, "testRuntime");
    push_text(&mut runtime_classpath, test_dir.as_str());
    push_text(&mut runtime_classpath, classes_dir);
    let compile_tasks = module.compile_task_names();
    match test_runner {
        Some(runner) => {
            if !same_text(runner, "junit-platform") {
                return Err(
                    concat3(
                        "unknown 'testRunner' value '",
                        runner,
                        "'; the only supported value is 'junit-platform'",
                    ),
                );
            }
            let generated = resolve_path(project_dir, TEST_RUNNER_SOURCE_PATH);
            Ok(
                make_runner_tests(
                    &sources,
                    generated.as_str(),
                    TEST_RUNNER_SOURCE,
                    test_dir.as_str(),
                    classes_dir,
                    &compile_classpath,
                    &runtime_classpath,
                    &compile_tasks,
                ),
            )
        },
        None => match test_class {
            Some(class) => {
                if sources.len() == 0 {
                    return Ok(no_tasks());
                }
                let args = match optional_string_list(jvm, "testArgs") {
                    Ok(args) => args,
                    Err(_) => no_texts(),
                };
                Ok(
                    make_class_tests(
                        &sources,
                        test_dir.as_str(),
                        classes_dir,
                        &compile_classpath,
                        &runtime_classpath,
                        &compile_tasks,
                        class,
                        &args,
                    ),
                )
            },
            None => Ok(no_tasks()),
        },
    }
}

/// Plans the JVM target.
fn plan_jvm_target(
    config: &Json,
    entries: &SortedMap<Json>,
    jvm: &Json,
    project_dir: &str,
) -> (r: Plan)
    ensures
        r@ == jvm_target_plan(config@, entries@, jvm@, project_dir@),
{
    reveal(jvm_target_plan);
    let module = match read_jvm_target(config, entries, jvm, project_dir) {
        Ok(module) => module,
        Err(e) => return refuse(e),
    };
    match plan_target_tests(config, entries, jvm, &module) {
        Err(e) => precede(make_main_tasks(&module), refuse(e)),
        Ok(tests) => precede(make_main_tasks(&module), plan_of(tests)),
    }
}

/// The SDK root the build uses: the `sdkDir` of the module's `android` block
/// when set, resolved against the project directory, otherwise the root the host
/// supplies.
pub fn resolve_sdk_root(config: &Json, project_dir: &str) -> (r: Result<String, String>)
    ensures
        text_result(r) == sdk_root(config@, android_sdk_dir(config@), project_dir@),
{
    let own_dir = match config.get("android") {
        None => None,
        Some(android) => android.str_at("sdkDir"),
    };
    choose_sdk_root(config, own_dir, project_dir)
}

/// Reads the API level the module compiles against.
fn read_compile_level(config: &Json) -> (r: Result<i64, String>)
    ensures
        plain_result(r) == compile_level(config@),
{
    let level = match config.get("android") {
        None => None,
        Some(android) => android.i64_at("compileSdk"),
    };
    match level {
        Some(n) => Ok(n),
        None => Err(missing_number_message("android", "compileSdk")),
    }
}

/// Whether the module's `android` block asks for Compose.
fn asks_for_compose(config: &Json) -> (r: bool)
    ensures
        r == wants_compose(config@),
{
    match config.get("android") {
        None => false,
        Some(android) => match android.get("compose") {
            None => false,
            Some(value) => match value.as_bool() {
                Some(b) => b,
                None => false,
            },
        },
    }
}

/// Reads what the Android target is compiled with.
fn read_android_target(
    config: &Json,
    entries: &SortedMap<Json>,
    project_dir: &str,
    probe: &SdkProbe,
) -> (r: Result<AndroidTarget, String>)
    ensures
        match r {
            Ok(target) => android_target(config@, entries@, project_dir@, probe@) == Ok::<
                _,
                Seq<char>,
            >(target@),
            Err(e) => android_target(config@, entries@, project_dir@, probe@) == Err::<
                TargetModel,
                _,
            >(e@),
        },
{
    let compile_sdk: i64 = match read_compile_level(config) {
        Ok(n) => n,
        Err(e) => return Err(e),
    };
    let sdk = match resolve_sdk_root(config, project_dir) {
        Ok(sdk) => sdk,
        Err(e) => return Err(e),
    };
    let platform_jar = match android_jar(sdk.as_str(), compile_sdk, probe.platform_jar) {
        Ok(jar) => jar,
        Err(e) => return Err(e),
    };
    let names = android_set_names();
    let sources = match read_target_sources(
        entries,
        &names,
        project_dir,
        "the 'kmp' block declares no sources for the android target",
    ) {
        Ok(sources) => sources,
        Err(e) => return Err(e),
    };
    let (java_sources, kotlin_sources) = partition_sources(&sources);
    if java_sources.len() > 0 {
        return Err(
            "the Android target only compiles Kotlin (.kt) sources; move .java files to the JVM target or remove them from the Android source sets".to_owned(),
        );
    }
    let classpath = merged_classpath(config, &names);
    let compose_plugin = match find_compose_plugin(asks_for_compose(config), &classpath) {
        Ok(plugin) => plugin,
        Err(e) => return Err(e),
    };
    Ok(
        AndroidTarget {
            project_dir: project_dir.to_owned(),
            sdk,
            platform_jar,
            kotlin_sources,
            classpath,
            compose_plugin,
        },
    )
}

/// The directory of the Android target's own products.
fn target_build_dir(project_dir: &str) -> (r: String)
    ensures
        r@ == target_build(project_dir@),
{
    join_path(project_dir, "build/kmp/android")
}

/// The classes of the Android target as a jar.
fn target_jar_file(project_dir: &str) -> (r: String)
    ensures
        r@ == target_jar(project_dir@),
{
    join_path(target_build_dir(project_dir).as_str(), "classes.jar")
}

/// The tasks that compile the Android target's sources into a jar.
fn make_compile_tasks(target: &AndroidTarget) -> (r: Vec<Task>)
    ensures
        task_models(r@) == target_compile_tasks(target@),
{
    let project_dir = target.project_dir.as_str();
    let classes = join_path(target_build_dir(project_dir).as_str(), "classes");
    let plugin = match &target.compose_plugin {
        Some(jar) => Some(jar.as_str()),
        None => None,
    };
    let mut tasks = no_tasks();
    push_task(
        &mut tasks,
        run_tool_task(
            "compileAndroid",
            copy_texts(&target.kotlin_sources),
            one_text(classes.as_str()),
            one_text("ulite/android:prepareBuildDir"),
            AllowlistedTool::Kotlinc,
            kotlinc_android_args(
                classes.as_str(),
                target.platform_jar.as_str(),
                &target.classpath,
                &target.kotlin_sources,
                plugin,
            ),
        ),
    );
    push_task(
        &mut tasks,
        assemble_task(
            "jarKmpAndroid",
            classes.as_str(),
            target_jar_file(project_dir).as_str(),
            one_text("compileAndroid"),
        ),
    );
    tasks
}

/// The jars of the Kotlin standard library on a classpath.
fn find_stdlib_jars(classpath: &[String]) -> (r: Vec<String>)
    ensures
        texts(r@) == stdlib_jars(texts(classpath@)),
{
    let ghost all = texts(classpath@);
    let ghost test = |jar: Seq<char>| contains_text(jar, "kotlin-stdlib"@);
    let mut jars = no_texts();
    let mut i: usize = 0;
    proof {
        reveal(Seq::filter);
    }
    while i < classpath.len()
        invariant
            i <= classpath@.len(),
            all == texts(classpath@),
            test == (|jar: Seq<char>| contains_text(jar, "kotlin-stdlib"@)),
            texts(jars@) == all.take(i as int).filter(test),
        decreases classpath@.len() - i,
    {
        proof {
            reveal(Seq::filter);
        }
        assert(all.take(i + 1).drop_last() == all.take(i as int));
        assert(all.take(i + 1).last() == all[i as int]);
        let jar = classpath[i].as_str();
        if has_text(jar, "kotlin-stdlib") {
            push_text(&mut jars, jar);
        }
        i = i + 1;
    }
    assert(all.take(i as int) == all);
    jars
}

/// Reads how the APKs are signed, if they are.
fn read_signer(config: &Json, project_dir: &str) -> (r: Result<Option<Signer>, String>)
    ensures
        match r {
            Ok(signer) => module_signer(config@, project_dir@) == Ok::<_, Seq<char>>(
                signer_model(signer),
            ),
            Err(e) => module_signer(config@, project_dir@) == Err::<Option<SignerModel>, _>(e@),
        },
{
    let block = match config.get("signing") {
        Some(block) => block,
        None => return Ok(None),
    };
    let store_file = match read_signing_key(block, "storeFile") {
        Ok(value) => value,
        Err(e) => return Err(e),
    };
    let key_alias = match read_signing_key(block, "keyAlias") {
        Ok(value) => value,
        Err(e) => return Err(e),
    };
    Ok(
        Some(
            Signer { keystore: resolve_path(project_dir, store_file.as_str()), key_alias },
        ),
    )
}

/// The task that merges the target's classes with those of the Android plugin.
fn make_merge_dex_task(
    target: &AndroidTarget,
    release: &str,
    variant: &Variant,
) -> (r: Task)
    ensures
        r@ == merge_dex_task(target@, release@, variant@),
{
    let project_dir = target.project_dir.as_str();
    let build = variant_build_dir(project_dir, variant.variant_dir.as_str());
    let classes_jar = join_path(build.as_str(), "classes.jar");
    let kmp_jar = target_jar_file(project_dir);
    let dex_dir = join_path(
        target_build_dir(project_dir).as_str(),
        concat("dex-", variant.variant_dir.as_str()).as_str(),
    );
    let extra = find_stdlib_jars(&target.classpath);
    let mut input_jars: Vec<&str> = Vec::new();
    input_jars.push(classes_jar.as_str());
    input_jars.push(kmp_jar.as_str());
    assert(names_of(input_jars@) =~= seq![classes_jar@, kmp_jar@]);
    let args = d8_run_args(
        d8_jar_location(release).as_str(),
        &input_jars,
        dex_dir.as_str(),
        variant.min_sdk,
        target.platform_jar.as_str(),
        &extra,
    );
    let mut inputs = two_texts(classes_jar.as_str(), kmp_jar.as_str());
    extend_texts(&mut inputs, &extra);
    run_tool_task(
        concat("mergeDex", variant.name.as_str()).as_str(),
        inputs,
        one_text(join_path(dex_dir.as_str(), "classes.dex").as_str()),
        two_texts(
            "jarKmpAndroid",
            concat("ulite/android:jarClasses", variant.name.as_str()).as_str(),
        ),
        AllowlistedTool::Java,
        args,
    )
}

/// The APK of a variant.
fn variant_apk_file(project_dir: &str, variant: &Variant) -> (r: String)
    ensures
        r@ == variant_apk(project_dir@, variant@),
{
    let build = variant_build_dir(project_dir, variant.variant_dir.as_str());
    join_path(build.as_str(), variant.apk_filename.as_str())
}

/// The task that puts the merged dex into the APK.
fn make_graft_task(target: &AndroidTarget, variant: &Variant) -> (r: Task)
    ensures
        r@ == graft_task(target@, variant@),
{
    let project_dir = target.project_dir.as_str();
    let apk = variant_apk_file(project_dir, variant);
    let dex_dir = join_path(
        target_build_dir(project_dir).as_str(),
        concat("dex-", variant.variant_dir.as_str()).as_str(),
    );
    let mut args = three_texts("uf", apk.as_str(), "-C");
    push_text(&mut args, dex_dir.as_str());
    push_text(&mut args, "classes.dex");
    assert(texts(args@) =~= seq!["uf"@, apk@, "-C"@, dex_dir@, "classes.dex"@]);
    run_tool_task(
        concat("assembleAndroid", variant.name.as_str()).as_str(),
        two_texts(join_path(dex_dir.as_str(), "classes.dex").as_str(), apk.as_str()),
        one_text(apk.as_str()),
        two_texts(
            concat("mergeDex", variant.name.as_str()).as_str(),
            concat("ulite/android:packageApk", variant.name.as_str()).as_str(),
        ),
        AllowlistedTool::Jar,
        args,
    )
}

/// The task that signs the APK once the dex is in it.
fn make_sign_task(target: &AndroidTarget, release: &str, signer: &Signer, variant: &Variant) -> (r:
    Task)
    ensures
        r@ == sign_task(target@, release@, signer@, variant@),
{
    let project_dir = target.project_dir.as_str();
    let apk = variant_apk_file(project_dir, variant);
    let (ks_file, key_file) = password_files(project_dir);
    let mut inputs = two_texts(apk.as_str(), signer.keystore.as_str());
    push_text(&mut inputs, ks_file.as_str());
    push_text(&mut inputs, key_file.as_str());
    assert(texts(inputs@) =~= seq![apk@, signer.keystore@, ks_file@, key_file@]);
    run_tool_task(
        concat("signKmpAndroid", variant.name.as_str()).as_str(),
        inputs,
        one_text(apk.as_str()),
        three_texts(
            concat("assembleAndroid", variant.name.as_str()).as_str(),
            "ulite/android:writeSigningPasswords",
            "ulite/android:writeSigningKeyPassword",
        ),
        AllowlistedTool::Apksigner,
        sign_args(
            release,
            signer.keystore.as_str(),
            signer.key_alias.as_str(),
            ks_file.as_str(),
            key_file.as_str(),
            apk.as_str(),
        ),
    )
}

/// The tasks of the variants of the Android target.
fn make_variants_tasks(
    target: &AndroidTarget,
    release: &str,
    signer: &Option<Signer>,
    variants: &[Variant],
) -> (r: Vec<Task>)
    ensures
        task_models(r@) == target_variants_tasks(
            target@,
            release@,
            signer_model(*signer),
            variant_models(variants@),
        ),
{
    let ghost all = variant_models(variants@);
    let mut tasks = no_tasks();
    let mut i: usize = 0;
    while i < variants.len()
        invariant
            i <= variants@.len(),
            all == variant_models(variants@),
            task_models(tasks@) == target_variants_tasks(
                target@,
                release@,
                signer_model(*signer),
                all.take(i as int),
            ),
        decreases variants@.len() - i,
    {
        let ghost earlier = task_models(tasks@);
        assert(all.take(i + 1).drop_last() == all.take(i as int));
        assert(all.take(i + 1).last() == all[i as int]);
        let variant = &variants[i];
        push_task(&mut tasks, make_merge_dex_task(target, release, variant));
        push_task(&mut tasks, make_graft_task(target, variant));
        match signer {
            None => {},
            Some(signer) => push_task(
                &mut tasks,
                make_sign_task(target, release, signer, variant),
            ),
        }
        i = i + 1;
        assert(task_models(tasks@) =~= earlier + target_variant_tasks(
            target@,
            release@,
            signer_model(*signer),
            variant@,
        ));
    }
    assert(all.take(i as int) == all);
    tasks
}

/// What follows once the Android target's sources are compiled.
fn plan_packaging(config: &Json, target: &AndroidTarget, probe: &SdkProbe) -> (r: Result<
    Vec<Task>,
    String,
>)
    ensures
        tasks_result(r) == target_packaging(config@, target@, probe@),
{
    let variants = match compute_variants(config) {
        Ok(variants) => variants,
        Err(e) => return Err(e),
    };
    let version = match find_build_tools_version(target.sdk.as_str(), &probe.build_tools) {
        Ok(version) => version,
        Err(e) => return Err(e),
    };
    let signer = match read_signer(config, target.project_dir.as_str()) {
        Ok(signer) => signer,
        Err(e) => return Err(e),
    };
    let release = release_dir(target.sdk.as_str(), version.as_str());
    Ok(make_variants_tasks(target, release.as_str(), &signer, &variants))
}

/// Plans the Android target.
fn plan_android_target(
    config: &Json,
    entries: &SortedMap<Json>,
    project_dir: &str,
    probe: &SdkProbe,
) -> (r: Plan)
    ensures
        r@ == android_target_plan(config@, entries@, project_dir@, probe@),
{
    reveal(android_target_plan);
    let target = match read_android_target(config, entries, project_dir, probe) {
        Ok(target) => target,
        Err(e) => return refuse(e),
    };
    match plan_packaging(config, &target, probe) {
        Err(e) => precede(make_compile_tasks(&target), refuse(e)),
        Ok(tasks) => precede(make_compile_tasks(&target), plan_of(tasks)),
    }
}

/// Plans the targets of a `kmp` block whose entries are all recognized.
fn plan_targets(
    config: &Json,
    entries: &SortedMap<Json>,
    project_dir: &str,
    probe: &SdkProbe,
) -> (r: Plan)
    ensures
        r@ == targets_plan(config@, entries@, project_dir@, probe@),
{
    let jvm = entries.get("jvm");
    let android = entries.get("android");
    if jvm.is_none() && android.is_none() {
        return refuse("the 'kmp' block declares no 'jvm' or 'android' target".to_owned());
    }
    let first = match jvm {
        Some(jvm) => plan_jvm_target(config, entries, jvm, project_dir),
        None => plan_of(no_tasks()),
    };
    match first.outcome {
        Err(_) => first,
        Ok(()) => {
            let second = match android {
                Some(_) => plan_android_target(config, entries, project_dir, probe),
                None => plan_of(no_tasks()),
            };
            precede(first.tasks, second)
        },
    }
}

/// Plans a module from its parsed configuration and what was found of the SDK.
pub fn plan_module(config: &Json, probe: &SdkProbe) -> (r: Plan)
    ensures
        r@ == kmp_plan(config@, probe@),
{
    let project_dir = match config.str_at("projectDir") {
        Some(dir) => dir,
        None => return refuse("module config is missing 'projectDir'".to_owned()),
    };
    let kmp = match config.get("kmp") {
        Some(kmp) => kmp,
        None => return refuse("module config has no 'kmp' block".to_owned()),
    };
    let entries = match kmp.as_object() {
        Some(entries) => entries,
        None => return refuse("the 'kmp' block is not an object".to_owned()),
    };
    match check_entries(entries) {
        Ok(()) => {},
        Err(e) => return refuse(e),
    }
    match check_targets(entries) {
        Ok(()) => {},
        Err(e) => return refuse(e),
    }
    plan_targets(config, entries, project_dir, probe)
}

/// Plans a module from what reading its configuration gave.
pub fn plan_parsed(parsed: Result<Json, String>, probe: &SdkProbe) -> (r: Plan)
    ensures
        r@ == parsed_plan(json_result(parsed), probe@),
{
    match parsed {
        Err(e) => refuse(concat("invalid module config JSON: ", e.as_str())),
        Ok(config) => plan_module(&config, probe),
    }
}

/// The `ulite/kmp` plugin.
pub struct KmpPlugin;

impl KmpPlugin {
    /// Introduces the plugin, which needs the Android plugin.
    pub fn manifest(version: &str, abi_version: &str) -> (r: PluginManifest)
        ensures
            r@ == kmp_manifest(version@, abi_version@),
    {
        let mut tools = three_texts("javac", "kotlinc", "jar");
        push_text(&mut tools, "java");
        push_text(&mut tools, "apksigner");
        assert(texts(tools@) =~= kmp_manifest(version@, abi_version@).tools);
        PluginManifest {
            name: "ulite/kmp".to_owned(),
            version: version.to_owned(),
            abi_version: abi_version.to_owned(),
            tools,
            dependencies: one_text("ulite/android"),
        }
    }

    /// Turns a module configuration, given as JSON, and what was found of the
    /// SDK into tasks.
    pub fn configure(module_config: &str, probe: &SdkProbe) -> (r: Plan)
        ensures
            r@ == parsed_plan(json_of_text(module_config@), probe@),
    {
        plan_parsed(parse_json(module_config), probe)
    }

    /// Returns its input.
    pub fn run(input: String) -> (r: String)
        ensures
            r == input,
    {
        input
    }
}

} // verus!
