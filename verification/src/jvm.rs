//! The `ulite/jvm` plugin: compiles a Java or Kotlin module, packages it into a
//! jar, and compiles and runs its tests.

use crate::blocks::{
    classpath_bucket, module_classpath, optional_list, read_list, read_optional_list, read_string,
    required_list, required_string, ListFault,
};
use crate::invocations::{ksp_args, ksp_dirs, ksp_output_dirs, ksp_run, run_test_args, test_args};
use crate::json::{Json, JsonModel};
use crate::jvm_tasks::{
    assemble_task, assembling, compile_task, compiling, generating_runner, runner_task, test_task,
    testing, TEST_RUNNER_CLASS, TEST_RUNNER_SOURCE_PATH,
};
use crate::parse::{json_of_text, json_result, parse_json};
use crate::path::{all_joined, path_join, resolve_path, resolve_paths};
use crate::sources::{
    checked_sources, is_java, java_sources, other_sources, partition_sources,
    reject_unknown_extensions,
};
use crate::task::{
    no_tasks, plan_of, planned, precede, preceded, push_task, refuse, refused, run_tool_task,
    task_models, tasks_result, tool_task, AllowlistedTool, ManifestModel, Plan, PlanModel,
    PluginManifest, Task, TaskModel,
};
use crate::text::{
    added_if, concat, concat3, copy_texts, has_suffix, no_texts, one_text, plain_result, push_text,
    same_text, texts, texts_result, two_texts,
};
use vstd::prelude::*;

verus! {

/// The source of the runner that the `junit-platform` test runner mode
/// generates. It scans the test classes directory given on the command line
/// through the JUnit Platform Launcher API and exits non-zero when a test failed.
pub const TEST_RUNNER_SOURCE: &'static str = r#"// Generated by the ulite/jvm plugin. Runs the tests compiled into the
// directory given on the command line through the JUnit Platform Launcher
// API; the engine(s) on the classpath are discovered automatically. Exits
// non-zero when any test failed or errored.
package ulite;

import java.io.File;
import java.io.PrintWriter;
import java.util.Collections;

import org.junit.platform.engine.discovery.DiscoverySelectors;
import org.junit.platform.launcher.Launcher;
import org.junit.platform.launcher.LauncherDiscoveryRequest;
import org.junit.platform.launcher.core.LauncherDiscoveryRequestBuilder;
import org.junit.platform.launcher.core.LauncherFactory;
import org.junit.platform.launcher.listeners.SummaryGeneratingListener;
import org.junit.platform.launcher.listeners.TestExecutionSummary;

public final class TestRunner {
    public static void main(String[] args) {
        if (args.length != 1) {
            System.err.println("usage: TestRunner <test-classes-dir>");
            System.exit(2);
        }
        File classesDir = new File(args[0]);
        LauncherDiscoveryRequest request = LauncherDiscoveryRequestBuilder.request()
                .selectors(DiscoverySelectors.selectClasspathRoots(
                        Collections.singleton(classesDir.toPath())))
                .build();
        Launcher launcher = LauncherFactory.create();
        SummaryGeneratingListener listener = new SummaryGeneratingListener();
        launcher.execute(request, listener);
        TestExecutionSummary summary = listener.getSummary();
        PrintWriter out = new PrintWriter(System.out, true);
        summary.printTo(out);
        summary.printFailuresTo(out);
        if (summary.getTotalFailureCount() > 0) {
            System.exit(1);
        }
    }
}
"#;

/// What the module configuration says of the main build.
pub struct JvmModule {
    pub project_dir: String,
    pub java_sources: Vec<String>,
    pub kotlin_sources: Vec<String>,
    pub classes_dir: String,
    pub jar_file: String,
    pub compile_classpath: Vec<String>,
    pub processor_classpath: Vec<String>,
}

/// The mathematical counterpart of [`JvmModule`].
pub struct JvmModel {
    pub project_dir: Seq<char>,
    pub java_sources: Seq<Seq<char>>,
    pub kotlin_sources: Seq<Seq<char>>,
    pub classes_dir: Seq<char>,
    pub jar_file: Seq<char>,
    pub compile_classpath: Seq<Seq<char>>,
    pub processor_classpath: Seq<Seq<char>>,
}

impl View for JvmModule {
    type V = JvmModel;

    open spec fn view(&self) -> JvmModel {
        JvmModel {
            project_dir: self.project_dir@,
            java_sources: texts(self.java_sources@),
            kotlin_sources: texts(self.kotlin_sources@),
            classes_dir: self.classes_dir@,
            jar_file: self.jar_file@,
            compile_classpath: texts(self.compile_classpath@),
            processor_classpath: texts(self.processor_classpath@),
        }
    }
}

/// The sources the `jvm` block declares, resolved and checked.
pub open spec fn declared_sources(jvm: JsonModel, project_dir: Seq<char>) -> Result<
    Seq<Seq<char>>,
    Seq<char>,
> {
    match required_list(jvm, "jvm"@, "sources"@) {
        Err(e) => Err(e),
        Ok(list) => if list.len() == 0 {
            Err("the 'jvm' block declares no sources"@)
        } else {
            let sources = all_joined(project_dir, list);
            match checked_sources(sources) {
                Err(e) => Err(e),
                Ok(()) => Ok(sources),
            }
        },
    }
}

/// The main build of a `jvm` block. Processors need Kotlin sources to process.
pub open spec fn jvm_module(config: JsonModel, jvm: JsonModel, project_dir: Seq<char>) -> Result<
    JvmModel,
    Seq<char>,
> {
    match declared_sources(jvm, project_dir) {
        Err(e) => Err(e),
        Ok(sources) => match required_string(jvm, "jvm"@, "classesDir"@) {
            Err(e) => Err(e),
            Ok(classes_dir) => match required_string(jvm, "jvm"@, "jarFile"@) {
                Err(e) => Err(e),
                Ok(jar_file) => {
                    let processors = module_classpath(config, "processor"@);
                    if processors.len() > 0 && other_sources(sources).len() == 0 {
                        Err("the module declares ksp deps but has no .kt sources"@)
                    } else {
                        Ok(
                            JvmModel {
                                project_dir,
                                java_sources: java_sources(sources),
                                kotlin_sources: other_sources(sources),
                                classes_dir: path_join(project_dir, classes_dir),
                                jar_file: path_join(project_dir, jar_file),
                                compile_classpath: module_classpath(config, "compile"@),
                                processor_classpath: processors,
                            },
                        )
                    }
                },
            },
        },
    }
}

impl JvmModel {
    /// The module runs processors.
    pub open spec fn has_processors(self) -> bool {
        self.processor_classpath.len() > 0
    }

    /// The module has Java sources.
    pub open spec fn has_java(self) -> bool {
        self.java_sources.len() > 0
    }

    /// The module has Kotlin sources.
    pub open spec fn has_kotlin(self) -> bool {
        self.kotlin_sources.len() > 0
    }

    /// The task that runs the processors.
    pub open spec fn ksp_task(self) -> TaskModel {
        tool_task(
            "ksp"@,
            self.kotlin_sources,
            seq![ksp_dirs(self.project_dir).0, ksp_dirs(self.project_dir).1],
            seq![],
            AllowlistedTool::Java,
            ksp_run(
                self.project_dir,
                self.kotlin_sources,
                self.compile_classpath,
                self.processor_classpath,
            ),
        )
    }

    /// The task that compiles the Java sources.
    pub open spec fn java_task(self) -> TaskModel {
        compiling(
            "compile"@,
            AllowlistedTool::Javac,
            self.classes_dir,
            self.compile_classpath,
            self.java_sources,
            added_if(seq![], self.has_processors(), "ksp"@),
        )
    }

    /// The task that compiles the Kotlin sources, which see the Java classes and
    /// what the processors generated.
    pub open spec fn kotlin_task(self) -> TaskModel {
        compiling(
            "compile-kotlin"@,
            AllowlistedTool::Kotlinc,
            self.classes_dir,
            self.compile_classpath.push(self.classes_dir),
            added_if(self.kotlin_sources, self.has_processors(), ksp_dirs(self.project_dir).0),
            added_if(
                added_if(seq![], self.has_java(), "compile"@),
                self.has_processors(),
                "ksp"@,
            ),
        )
    }

    /// The names of the compile tasks the module has.
    pub open spec fn compile_tasks(self) -> Seq<Seq<char>> {
        added_if(
            added_if(seq![], self.has_java(), "compile"@),
            self.has_kotlin(),
            "compile-kotlin"@,
        )
    }

    /// The tasks of the main build: generate, compile, package.
    pub open spec fn main_tasks(self) -> Seq<TaskModel> {
        added_if(
            added_if(
                added_if(seq![], self.has_processors(), self.ksp_task()),
                self.has_java(),
                self.java_task(),
            ),
            self.has_kotlin(),
            self.kotlin_task(),
        ).push(
            assembling("assemble"@, self.classes_dir, self.jar_file, self.compile_tasks()),
        )
    }
}

/// What the `test` task runs.
enum RunTarget<'a> {
    Class(&'a str),
    Runner(&'a str),
}

/// The mathematical counterpart of what the `test` task runs.
pub enum RunTargetModel {
    Class(Seq<char>),
    Runner(Seq<char>),
}

impl<'a> View for RunTarget<'a> {
    type V = RunTargetModel;

    closed spec fn view(&self) -> RunTargetModel {
        match self {
            RunTarget::Class(class) => RunTargetModel::Class(class@),
            RunTarget::Runner(runner) => RunTargetModel::Runner(runner@),
        }
    }
}

/// What the `test` task runs: exactly one of `testClass` and `testRunner`.
pub open spec fn run_target(jvm: JsonModel) -> Result<RunTargetModel, Seq<char>> {
    match (jvm.str_at("testClass"@), jvm.str_at("testRunner"@)) {
        (Some(_), Some(_)) => Err(
            "the 'jvm' block sets both testClass and testRunner; choose one"@,
        ),
        (None, None) => Err(
            "the 'jvm' block sets testSources without a testClass or testRunner"@,
        ),
        (Some(class), None) => Ok(RunTargetModel::Class(class)),
        (None, Some(runner)) => Ok(RunTargetModel::Runner(runner)),
    }
}

/// The block names the class that runs the tests, and declares no tests.
pub open spec fn test_class_alone() -> Seq<char> {
    "the 'jvm' block sets testClass without testSources and testClassesDir"@
}

/// A test source is no Java file.
pub open spec fn not_a_java_test(source: Seq<char>) -> Seq<char> {
    "test source '"@ + source
        + "' is not a .java file; kotlin test compilation is not supported"@
}

/// Every test source is a Java file; the first that is none is reported.
pub open spec fn checked_tests(sources: Seq<Seq<char>>) -> Result<(), Seq<char>>
    decreases sources.len(),
{
    if sources.len() == 0 {
        Ok(())
    } else if !is_java(sources[0]) {
        Err(not_a_java_test(sources[0]))
    } else {
        checked_tests(sources.drop_first())
    }
}

/// The test sources the `jvm` block declares, resolved and checked.
pub open spec fn declared_tests(jvm: JsonModel, project_dir: Seq<char>) -> Result<
    Seq<Seq<char>>,
    Seq<char>,
> {
    match required_list(jvm, "jvm"@, "testSources"@) {
        Err(e) => Err(e),
        Ok(list) => {
            let sources = all_joined(project_dir, list);
            if list.len() == 0 {
                Err("the 'jvm' block declares no test sources"@)
            } else {
                match checked_sources(sources) {
                    Err(e) => Err(e),
                    Ok(()) => match checked_tests(sources) {
                        Err(e) => Err(e),
                        Ok(()) => Ok(sources),
                    },
                }
            }
        },
    }
}

/// The optional list of strings under `key` of the `jvm` block.
pub open spec fn jvm_list(jvm: JsonModel, key: Seq<char>) -> Result<Seq<Seq<char>>, Seq<char>> {
    match optional_list(jvm, key) {
        Ok(list) => Ok(list),
        Err(ListFault::NotAList) => Err("the 'jvm' block's '"@ + key + "' is not a list"@),
        Err(ListFault::EntryNotAString) => Err("a 'jvm."@ + key + "' entry is not a string"@),
    }
}

/// A test runner that is not known.
pub open spec fn unsupported_runner(runner: Seq<char>) -> Seq<char> {
    "unsupported testRunner '"@ + runner + "'; the supported value is 'junit-platform'"@
}

/// The tasks that compile the tests and run a class of the module.
pub open spec fn class_test_tasks(
    sources: Seq<Seq<char>>,
    test_dir: Seq<char>,
    classes_dir: Seq<char>,
    compile_classpath: Seq<Seq<char>>,
    runtime_classpath: Seq<Seq<char>>,
    compile_tasks: Seq<Seq<char>>,
    class: Seq<char>,
    args: Seq<Seq<char>>,
) -> Seq<TaskModel> {
    seq![
        compiling(
            "compile-tests"@,
            AllowlistedTool::Javac,
            test_dir,
            compile_classpath,
            sources,
            compile_tasks,
        ),
    ].push(testing(test_dir, classes_dir, test_args(runtime_classpath, class, args)))
}

/// The tasks that generate the test runner, compile it with the tests and run
/// it.
pub open spec fn runner_test_tasks(
    sources: Seq<Seq<char>>,
    runner_path: Seq<char>,
    runner_source: Seq<char>,
    test_dir: Seq<char>,
    classes_dir: Seq<char>,
    compile_classpath: Seq<Seq<char>>,
    runtime_classpath: Seq<Seq<char>>,
    compile_tasks: Seq<Seq<char>>,
) -> Seq<TaskModel> {
    seq![generating_runner(runner_path, runner_source)].push(
        compiling(
            "compile-tests"@,
            AllowlistedTool::Javac,
            test_dir,
            compile_classpath,
            sources.push(runner_path),
            compile_tasks.push("generate-test-runner"@),
        ),
    ).push(
        testing(
            test_dir,
            classes_dir,
            test_args(runtime_classpath, TEST_RUNNER_CLASS@, seq![test_dir]),
        ),
    )
}

/// The tasks of a test suite whose sources and run target are known.
pub open spec fn suite_tasks(
    config: JsonModel,
    jvm: JsonModel,
    project_dir: Seq<char>,
    classes_dir: Seq<char>,
    compile_tasks: Seq<Seq<char>>,
    test_dir: Seq<char>,
    sources: Seq<Seq<char>>,
    target: RunTargetModel,
) -> Result<Seq<TaskModel>, Seq<char>> {
    let compile_classpath = module_classpath(config, "testCompile"@).push(classes_dir);
    let runtime_classpath = module_classpath(config, "testRuntime"@).push(test_dir).push(
        classes_dir,
    );
    match target {
        RunTargetModel::Runner(runner) => if runner != "junit-platform"@ {
            Err(unsupported_runner(runner))
        } else {
            Ok(
                runner_test_tasks(
                    sources,
                    path_join(project_dir, TEST_RUNNER_SOURCE_PATH@),
                    TEST_RUNNER_SOURCE@,
                    test_dir,
                    classes_dir,
                    compile_classpath,
                    runtime_classpath,
                    compile_tasks,
                ),
            )
        },
        RunTargetModel::Class(class) => match jvm_list(jvm, "testArgs"@) {
            Err(e) => Err(e),
            Ok(args) => Ok(
                class_test_tasks(
                    sources,
                    test_dir,
                    classes_dir,
                    compile_classpath,
                    runtime_classpath,
                    compile_tasks,
                    class,
                    args,
                ),
            ),
        },
    }
}

/// The tasks of the module's test suite; none where the block declares none.
pub open spec fn test_tasks(
    config: JsonModel,
    jvm: JsonModel,
    project_dir: Seq<char>,
    classes_dir: Seq<char>,
    compile_tasks: Seq<Seq<char>>,
) -> Result<Seq<TaskModel>, Seq<char>> {
    let dir = jvm.str_at("testClassesDir"@);
    if jvm.get("testSources"@) is None != dir is None {
        Err("the 'jvm' block must set testSources and testClassesDir together"@)
    } else {
        match dir {
            None => if jvm.str_at("testClass"@) is Some {
                Err(test_class_alone())
            } else {
                Ok(seq![])
            },
            Some(dir) => match run_target(jvm) {
                Err(e) => Err(e),
                Ok(target) => match declared_tests(jvm, project_dir) {
                    Err(e) => Err(e),
                    Ok(sources) => suite_tasks(
                        config,
                        jvm,
                        project_dir,
                        classes_dir,
                        compile_tasks,
                        path_join(project_dir, dir),
                        sources,
                        target,
                    ),
                },
            },
        }
    }
}

/// The plan of a module: the main build, then its tests.
pub open spec fn jvm_plan(config: JsonModel) -> PlanModel {
    match config.str_at("projectDir"@) {
        None => refused("module config is missing 'projectDir'"@),
        Some(project_dir) => match config.get("jvm"@) {
            None => refused("module config has no 'jvm' block"@),
            Some(jvm) => match jvm_module(config, jvm, project_dir) {
                Err(e) => refused(e),
                Ok(module) => {
                    let tests = test_tasks(
                        config,
                        jvm,
                        project_dir,
                        module.classes_dir,
                        module.compile_tasks(),
                    );
                    match tests {
                        Err(e) => preceded(module.main_tasks(), refused(e)),
                        Ok(tests) => preceded(module.main_tasks(), planned(tests)),
                    }
                },
            },
        },
    }
}

/// The plan of a configuration that was read, or of the message of the reader.
pub open spec fn parsed_plan(parsed: Result<JsonModel, Seq<char>>) -> PlanModel {
    match parsed {
        Err(e) => refused("invalid module config JSON: "@ + e),
        Ok(config) => jvm_plan(config),
    }
}

/// How the plugin introduces itself.
pub open spec fn jvm_manifest(version: Seq<char>, abi_version: Seq<char>) -> ManifestModel {
    ManifestModel {
        name: "ulite/jvm"@,
        version,
        abi_version,
        tools: seq!["javac"@, "kotlinc"@, "jar"@, "java"@],
        dependencies: seq![],
    }
}

/// Reads a string-list key of the module block, erroring when the key is absent
/// or holds a non-string entry.
pub fn string_list(jvm: &Json, key: &str) -> (r: Result<Vec<String>, String>)
    ensures
        texts_result(r) == required_list(jvm@, "jvm"@, key@),
{
    read_list(jvm, "jvm", key)
}

/// Reads an optional string-list key of the module block: a missing key is an
/// empty list, anything but a list of strings is an error.
pub fn optional_string_list(jvm: &Json, key: &str) -> (r: Result<Vec<String>, String>)
    ensures
        texts_result(r) == jvm_list(jvm@, key@),
{
    match read_optional_list(jvm, key) {
        Ok(list) => Ok(list),
        Err(ListFault::NotAList) => Err(
            concat3("the 'jvm' block's '", key, "' is not a list"),
        ),
        Err(ListFault::EntryNotAString) => Err(
            concat3("a 'jvm.", key, "' entry is not a string"),
        ),
    }
}

/// Reads the sources of the module.
fn read_sources(jvm: &Json, project_dir: &str) -> (r: Result<Vec<String>, String>)
    ensures
        texts_result(r) == declared_sources(jvm@, project_dir@),
{
    let list = match string_list(jvm, "sources") {
        Ok(list) => list,
        Err(e) => return Err(e),
    };
    if list.len() == 0 {
        return Err("the 'jvm' block declares no sources".to_owned());
    }
    let sources = resolve_paths(project_dir, &list);
    match reject_unknown_extensions(&sources) {
        Ok(()) => Ok(sources),
        Err(e) => Err(e),
    }
}

/// Reads the main build of the module.
fn read_module(config: &Json, jvm: &Json, project_dir: &str) -> (r: Result<JvmModule, String>)
    ensures
        match r {
            Ok(module) => jvm_module(config@, jvm@, project_dir@) == Ok::<_, Seq<char>>(module@),
            Err(e) => jvm_module(config@, jvm@, project_dir@) == Err::<JvmModel, _>(e@),
        },
{
    let sources = match read_sources(jvm, project_dir) {
        Ok(sources) => sources,
        Err(e) => return Err(e),
    };
    let (java_sources, kotlin_sources) = partition_sources(&sources);
    let classes_dir = match read_string(jvm, "jvm", "classesDir") {
        Ok(dir) => dir,
        Err(e) => return Err(e),
    };
    let jar_file = match read_string(jvm, "jvm", "jarFile") {
        Ok(file) => file,
        Err(e) => return Err(e),
    };
    let processor_classpath = classpath_bucket(config, "processor");
    if processor_classpath.len() > 0 && kotlin_sources.len() == 0 {
        return Err("the module declares ksp deps but has no .kt sources".to_owned());
    }
    Ok(
        JvmModule {
            project_dir: project_dir.to_owned(),
            java_sources,
            kotlin_sources,
            classes_dir: resolve_path(project_dir, classes_dir.as_str()),
            jar_file: resolve_path(project_dir, jar_file.as_str()),
            compile_classpath: classpath_bucket(config, "compile"),
            processor_classpath,
        },
    )
}

/// The task that runs the processors.
fn ksp_task(module: &JvmModule) -> (r: Task)
    ensures
        r@ == module@.ksp_task(),
{
    let (kotlin_out, java_out) = ksp_output_dirs(module.project_dir.as_str());
    run_tool_task(
        "ksp",
        copy_texts(&module.kotlin_sources),
        two_texts(kotlin_out.as_str(), java_out.as_str()),
        no_texts(),
        AllowlistedTool::Java,
        ksp_args(
            module.project_dir.as_str(),
            &module.kotlin_sources,
            &module.compile_classpath,
            &module.processor_classpath,
        ),
    )
}

/// The task that compiles the Java sources.
fn java_task(module: &JvmModule) -> (r: Task)
    ensures
        r@ == module@.java_task(),
{
    let mut depends_on = no_texts();
    if module.processor_classpath.len() > 0 {
        push_text(&mut depends_on, "ksp");
    }
    compile_task(
        "compile",
        AllowlistedTool::Javac,
        module.classes_dir.as_str(),
        &module.compile_classpath,
        copy_texts(&module.java_sources),
        depends_on,
    )
}

/// The task that compiles the Kotlin sources.
fn kotlin_task(module: &JvmModule) -> (r: Task)
    ensures
        r@ == module@.kotlin_task(),
{
    let mut sources = copy_texts(&module.kotlin_sources);
    let mut depends_on = no_texts();
    if module.java_sources.len() > 0 {
        push_text(&mut depends_on, "compile");
    }
    if module.processor_classpath.len() > 0 {
        let (kotlin_out, _) = ksp_output_dirs(module.project_dir.as_str());
        push_text(&mut sources, kotlin_out.as_str());
        push_text(&mut depends_on, "ksp");
    }
    let mut classpath = copy_texts(&module.compile_classpath);
    push_text(&mut classpath, module.classes_dir.as_str());
    compile_task(
        "compile-kotlin",
        AllowlistedTool::Kotlinc,
        module.classes_dir.as_str(),
        &classpath,
        sources,
        depends_on,
    )
}

impl JvmModule {
    /// The names of the compile tasks the module has.
    pub fn compile_task_names(&self) -> (r: Vec<String>)
        ensures
            texts(r@) == self@.compile_tasks(),
    {
        let mut names = no_texts();
        if self.java_sources.len() > 0 {
            push_text(&mut names, "compile");
        }
        if self.kotlin_sources.len() > 0 {
            push_text(&mut names, "compile-kotlin");
        }
        names
    }
}

/// The tasks of the main build.
pub fn make_main_tasks(module: &JvmModule) -> (r: Vec<Task>)
    ensures
        task_models(r@) == module@.main_tasks(),
{
    let mut tasks = no_tasks();
    if module.processor_classpath.len() > 0 {
        push_task(&mut tasks, ksp_task(module));
    }
    if module.java_sources.len() > 0 {
        push_task(&mut tasks, java_task(module));
    }
    if module.kotlin_sources.len() > 0 {
        push_task(&mut tasks, kotlin_task(module));
    }
    push_task(
        &mut tasks,
        assemble_task(
            "assemble",
            module.classes_dir.as_str(),
            module.jar_file.as_str(),
            module.compile_task_names(),
        ),
    );
    tasks
}

/// Rejects a test source that is no Java file.
fn reject_kotlin_tests(sources: &[String]) -> (r: Result<(), String>)
    ensures
        plain_result(r) == checked_tests(texts(sources@)),
{
    let ghost all = texts(sources@);
    let mut i: usize = 0;
    assert(all.skip(0) == all);
    while i < sources.len()
        invariant
            i <= sources@.len(),
            all == texts(sources@),
            checked_tests(all) == checked_tests(all.skip(i as int)),
        decreases sources@.len() - i,
    {
        assert(all.skip(i as int)[0] == all[i as int]);
        let source = sources[i].as_str();
        if !has_suffix(source, ".java") {
            return Err(
                concat3(
                    "test source '",
                    source,
                    "' is not a .java file; kotlin test compilation is not supported",
                ),
            );
        }
        assert(all.skip(i as int).drop_first() == all.skip(i + 1));
        i = i + 1;
    }
    Ok(())
}

/// Reads the test sources of the module.
fn read_tests(jvm: &Json, project_dir: &str) -> (r: Result<Vec<String>, String>)
    ensures
        texts_result(r) == declared_tests(jvm@, project_dir@),
{
    let list = match string_list(jvm, "testSources") {
        Ok(list) => list,
        Err(e) => return Err(e),
    };
    if list.len() == 0 {
        return Err("the 'jvm' block declares no test sources".to_owned());
    }
    let sources = resolve_paths(project_dir, &list);
    match reject_unknown_extensions(&sources) {
        Ok(()) => {},
        Err(e) => return Err(e),
    }
    match reject_kotlin_tests(&sources) {
        Ok(()) => Ok(sources),
        Err(e) => Err(e),
    }
}

/// The tasks that compile the tests and run a class of the module.
pub fn make_class_tests(
    sources: &[String],
    test_dir: &str,
    classes_dir: &str,
    compile_classpath: &[String],
    runtime_classpath: &[String],
    compile_tasks: &[String],
    class: &str,
    args: &[String],
) -> (r: Vec<Task>)
    ensures
        task_models(r@) == class_test_tasks(
            texts(sources@),
            test_dir@,
            classes_dir@,
            texts(compile_classpath@),
            texts(runtime_classpath@),
            texts(compile_tasks@),
            class@,
            texts(args@),
        ),
{
    let mut tasks = no_tasks();
    push_task(
        &mut tasks,
        compile_task(
            "compile-tests",
            AllowlistedTool::Javac,
            test_dir,
            compile_classpath,
            copy_texts(sources),
            copy_texts(compile_tasks),
        ),
    );
    push_task(
        &mut tasks,
        test_task(test_dir, classes_dir, run_test_args(runtime_classpath, class, args)),
    );
    tasks
}

/// The tasks that generate the test runner, compile it with the tests and run
/// it.
pub fn make_runner_tests(
    sources: &[String],
    runner_path: &str,
    runner_source: &str,
    test_dir: &str,
    classes_dir: &str,
    compile_classpath: &[String],
    runtime_classpath: &[String],
    compile_tasks: &[String],
) -> (r: Vec<Task>)
    ensures
        task_models(r@) == runner_test_tasks(
            texts(sources@),
            runner_path@,
            runner_source@,
            test_dir@,
            classes_dir@,
            texts(compile_classpath@),
            texts(runtime_classpath@),
            texts(compile_tasks@),
        ),
{
    let mut tasks = no_tasks();
    push_task(&mut tasks, runner_task(runner_path, runner_source));
    let mut all_sources = copy_texts(sources);
    push_text(&mut all_sources, runner_path);
    let mut depends_on = copy_texts(compile_tasks);
    push_text(&mut depends_on, "generate-test-runner");
    push_task(
        &mut tasks,
        compile_task(
            "compile-tests",
            AllowlistedTool::Javac,
            test_dir,
            compile_classpath,
            all_sources,
            depends_on,
        ),
    );
    push_task(
        &mut tasks,
        test_task(
            test_dir,
            classes_dir,
            run_test_args(runtime_classpath, TEST_RUNNER_CLASS, &one_text(test_dir)),
        ),
    );
    tasks
}

/// Reads what the `test` task runs.
fn read_run_target<'a>(jvm: &'a Json) -> (r: Result<RunTarget<'a>, String>)
    ensures
        match r {
            Ok(target) => run_target(jvm@) == Ok::<_, Seq<char>>(target@),
            Err(e) => run_target(jvm@) == Err::<RunTargetModel, _>(e@),
        },
{
    match (jvm.str_at("testClass"), jvm.str_at("testRunner")) {
        (Some(_), Some(_)) => Err(
            "the 'jvm' block sets both testClass and testRunner; choose one".to_owned(),
        ),
        (None, None) => Err(
            "the 'jvm' block sets testSources without a testClass or testRunner".to_owned(),
        ),
        (Some(class), None) => Ok(RunTarget::Class(class)),
        (None, Some(runner)) => Ok(RunTarget::Runner(runner)),
    }
}

/// The tasks of the module's test suite, none where the block declares none.
///
/// `testSources` and `testClassesDir` stand or fall together, and exactly one of
/// `testClass` and `testRunner` says what runs the tests: a class of the module,
/// with `testArgs` behind it, or a generated runner that finds the tests in the
/// test classes directory. A `testClass` without tests to run is an error. The
/// tests compile after the main classes, and run after they compiled.
pub fn register_tests(
    jvm: &Json,
    project_dir: &str,
    config: &Json,
    classes_dir: &str,
    compile_tasks: &[String],
) -> (r: Result<Vec<Task>, String>)
    ensures
        tasks_result(r) == test_tasks(
            config@,
            jvm@,
            project_dir@,
            classes_dir@,
            texts(compile_tasks@),
        ),
{
    let has_sources = jvm.get("testSources").is_some();
    let dir = jvm.str_at("testClassesDir");
    if has_sources != dir.is_some() {
        return Err(
            "the 'jvm' block must set testSources and testClassesDir together".to_owned(),
        );
    }
    let dir = match dir {
        Some(dir) => dir,
        None => {
            if jvm.str_at("testClass").is_some() {
                return Err(
                    "the 'jvm' block sets testClass without testSources and testClassesDir".to_owned(),
                );
            }
            return Ok(no_tasks());
        },
    };
    let target = match read_run_target(jvm) {
        Ok(target) => target,
        Err(e) => return Err(e),
    };
    let sources = match read_tests(jvm, project_dir) {
        Ok(sources) => sources,
        Err(e) => return Err(e),
    };
    let test_dir = resolve_path(project_dir, dir);
    let mut compile_classpath = classpath_bucket(config, "testCompile");
    push_text(&mut compile_classpath, classes_dir);
    let mut runtime_classpath = classpath_bucket(config, "testRuntime");
    push_text(&mut runtime_classpath, test_dir.as_str());
    push_text(&mut runtime_classpath, classes_dir);

    match target {
        RunTarget::Runner(runner) => {
            if !same_text(runner, "junit-platform") {
                return Err(
                    concat3(
                        "unsupported testRunner '",
                        runner,
                        "'; the supported value is 'junit-platform'",
                    ),
                );
            }
            let generated = resolve_path(project_dir, TEST_RUNNER_SOURCE_PATH);
            Ok(
                make_runner_tests(
                    &sources,
                    generated.as_str(),
                    TEST_RUNNER_SOURCE,
                    test_dir.as_str(),
                    classes_dir,
                    &compile_classpath,
                    &runtime_classpath,
                    compile_tasks,
                ),
            )
        },
        RunTarget::Class(class) => {
            let args = match optional_string_list(jvm, "testArgs") {
                Ok(args) => args,
                Err(e) => return Err(e),
            };
            Ok(
                make_class_tests(
                    &sources,
                    test_dir.as_str(),
                    classes_dir,
                    &compile_classpath,
                    &runtime_classpath,
                    compile_tasks,
                    class,
                    &args,
                ),
            )
        },
    }
}

/// Plans a module from its parsed configuration.
pub fn plan_module(config: &Json) -> (r: Plan)
    ensures
        r@ == jvm_plan(config@),
{
    let project_dir = match config.str_at("projectDir") {
        Some(dir) => dir,
        None => return refuse("module config is missing 'projectDir'".to_owned()),
    };
    let jvm = match config.get("jvm") {
        Some(jvm) => jvm,
        None => return refuse("module config has no 'jvm' block".to_owned()),
    };
    let module = match read_module(config, jvm, project_dir) {
        Ok(module) => module,
        Err(e) => return refuse(e),
    };
    let tests = register_tests(
        jvm,
        project_dir,
        config,
        module.classes_dir.as_str(),
        &module.compile_task_names(),
    );
    match tests {
        Err(e) => precede(make_main_tasks(&module), refuse(e)),
        Ok(tests) => precede(make_main_tasks(&module), plan_of(tests)),
    }
}

/// Plans a module from what reading its configuration gave.
pub fn plan_parsed(parsed: Result<Json, String>) -> (r: Plan)
    ensures
        r@ == parsed_plan(json_result(parsed)),
{
    match parsed {
        Err(e) => refuse(concat("invalid module config JSON: ", e.as_str())),
        Ok(config) => plan_module(&config),
    }
}

/// The `ulite/jvm` plugin.
pub struct JvmPlugin;

impl JvmPlugin {
    /// Introduces the plugin: every run-tool task uses one of these tools.
    pub fn manifest(version: &str, abi_version: &str) -> (r: PluginManifest)
        ensures
            r@ == jvm_manifest(version@, abi_version@),
    {
        let mut tools = two_texts("javac", "kotlinc");
        push_text(&mut tools, "jar");
        push_text(&mut tools, "java");
        assert(texts(tools@) =~= seq!["javac"@, "kotlinc"@, "jar"@, "java"@]);
        PluginManifest {
            name: "ulite/jvm".to_owned(),
            version: version.to_owned(),
            abi_version: abi_version.to_owned(),
            tools,
            dependencies: no_texts(),
        }
    }

    /// Turns a module configuration, given as JSON, into tasks.
    pub fn configure(module_config: &str) -> (r: Plan)
        ensures
            r@ == parsed_plan(json_of_text(module_config@)),
    {
        plan_parsed(parse_json(module_config))
    }

    /// Returns its input.
    pub fn run(input: String) -> (r: String)
        ensures
            r == input,
    {
        input
    }
}

} // verus!
