//! What the tasks of a JVM build tell their tools, in terms of the
//! configuration.

use crate::blocks::{required_list, strings_of};
use crate::invocations::ksp_dirs;
use crate::json::JsonModel;
use crate::jvm::{
    class_test_tasks, declared_sources, declared_tests, jvm_list, jvm_module, jvm_plan, run_target,
    runner_test_tasks, test_tasks, JvmModel, RunTargetModel, TEST_RUNNER_SOURCE,
};
use crate::meaning::{
    arguments, colon_list, lemma_module_classpath_is_listed, lemma_strings_are_listed, listing,
    module_jars, runs, writes,
};
use crate::path::{all_joined, path_join};
use crate::sources::{is_java, java_sources, other_sources};
use crate::task::{all_tasks_pass, is_named, lemma_both_pass, AllowlistedTool, TaskModel};
use crate::text::ends_with;
use vstd::prelude::*;

verus! {

/// What a main build is made of.
pub struct Build {
    pub project_dir: Seq<char>,
    pub sources: Seq<Seq<char>>,
    pub classes_dir: Seq<char>,
    pub jar_file: Seq<char>,
    pub jars: Seq<Seq<char>>,
    pub processors: Seq<Seq<char>>,
}

/// What a test suite is made of. The class is the one to run with `args`; where
/// there is none, the generated runner runs.
pub struct Suite {
    pub classes_dir: Seq<char>,
    pub sources: Seq<Seq<char>>,
    pub jars: Seq<Seq<char>>,
    pub runtime_jars: Seq<Seq<char>>,
    pub class: Option<Seq<char>>,
    pub args: Seq<Seq<char>>,
}

/// The sources among the given ones that end in `.java`.
pub open spec fn java_files(sources: Seq<Seq<char>>) -> Seq<Seq<char>> {
    sources.filter(|source: Seq<char>| ends_with(source, ".java"@))
}

/// The sources among the given ones that do not end in `.java`.
pub open spec fn kotlin_files(sources: Seq<Seq<char>>) -> Seq<Seq<char>> {
    sources.filter(|source: Seq<char>| !ends_with(source, ".java"@))
}

/// The task runs a compiler over all its inputs, into its only output, with the
/// given classpath.
pub open spec fn compiles(
    task: TaskModel,
    tool: AllowlistedTool,
    classpath: Seq<Seq<char>>,
) -> bool {
    &&& runs(task, tool)
    &&& task.outputs.len() == 1
    &&& arguments(task) == (if classpath.len() == 0 {
        seq!["-d"@, task.outputs[0]]
    } else {
        seq!["-d"@, task.outputs[0], "-cp"@, colon_list(classpath)]
    }) + task.inputs
}

/// The task runs KSP over the Kotlin sources, with the processors, against the
/// jars, into its two outputs.
pub open spec fn processes(task: TaskModel, build: Build) -> bool {
    let args = arguments(task);
    &&& task.name == "ksp"@
    &&& runs(task, AllowlistedTool::Java)
    &&& build.processors.len() > 0
    &&& task.depends_on.len() == 0
    &&& task.inputs == kotlin_files(build.sources)
    &&& task.outputs.len() == 2
    &&& task.outputs[0] == build.project_dir + "/build/generated/ksp/kotlin"@
    &&& task.outputs[1] == build.project_dir + "/build/generated/ksp/java"@
    &&& args.len() >= 3
    &&& args[0] == "-cp"@
    &&& args[1] == colon_list(build.processors)
    &&& args[2] == "com.google.devtools.ksp.cmdline.KSPJvmMain"@
    &&& args.last() == colon_list(build.processors)
    &&& args.contains("-source-roots="@ + colon_list(task.inputs))
    &&& args.contains("-kotlin-output-dir="@ + task.outputs[0])
    &&& args.contains("-java-output-dir="@ + task.outputs[1])
    &&& build.jars.len() > 0 ==> args.contains("-libraries="@ + colon_list(build.jars))
}

/// The task compiles the Java sources against the jars.
pub open spec fn compiles_java(task: TaskModel, build: Build) -> bool {
    &&& task.name == "compile"@
    &&& compiles(task, AllowlistedTool::Javac, build.jars)
    &&& task.inputs == java_files(build.sources)
    &&& task.outputs[0] == build.classes_dir
    &&& build.processors.len() > 0 <==> task.depends_on.contains("ksp"@)
}

/// The task compiles the Kotlin sources, and what the processors generate,
/// against the jars and the build's own classes.
pub open spec fn compiles_kotlin(task: TaskModel, build: Build) -> bool {
    &&& task.name == "compile-kotlin"@
    &&& compiles(task, AllowlistedTool::Kotlinc, build.jars.push(build.classes_dir))
    &&& task.inputs == (if build.processors.len() > 0 {
        kotlin_files(build.sources).push(build.project_dir + "/build/generated/ksp/kotlin"@)
    } else {
        kotlin_files(build.sources)
    })
    &&& task.outputs[0] == build.classes_dir
    &&& build.processors.len() > 0 <==> task.depends_on.contains("ksp"@)
    &&& java_files(build.sources).len() > 0 <==> task.depends_on.contains("compile"@)
}

/// The task packs the classes into the jar, once they are compiled.
pub open spec fn packs(task: TaskModel, build: Build) -> bool {
    &&& task.name == "assemble"@
    &&& runs(task, AllowlistedTool::Jar)
    &&& task.inputs == seq![build.classes_dir]
    &&& task.outputs == seq![build.jar_file]
    &&& arguments(task) == seq!["cf"@, build.jar_file, "-C"@, build.classes_dir, "."@]
    &&& java_files(build.sources).len() > 0 <==> task.depends_on.contains("compile"@)
    &&& kotlin_files(build.sources).len() > 0 <==> task.depends_on.contains("compile-kotlin"@)
}

/// The task is one of a main build.
pub open spec fn is_of_build(task: TaskModel, build: Build) -> bool {
    ||| processes(task, build)
    ||| compiles_java(task, build)
    ||| compiles_kotlin(task, build)
    ||| packs(task, build)
}

/// Where the generated test runner is written.
pub open spec fn runner_file(project_dir: Seq<char>) -> Seq<char> {
    path_join(project_dir, "build/generated-test-src/ulite/TestRunner.java"@)
}

/// The task compiles the tests, and the runner where one is generated, against
/// the test jars and the main classes.
pub open spec fn compiles_tests(task: TaskModel, build: Build, suite: Suite) -> bool {
    &&& task.name == "compile-tests"@
    &&& compiles(task, AllowlistedTool::Javac, suite.jars.push(build.classes_dir))
    &&& task.inputs == (if suite.class is Some {
        suite.sources
    } else {
        suite.sources.push(runner_file(build.project_dir))
    })
    &&& task.outputs[0] == suite.classes_dir
    &&& java_files(build.sources).len() > 0 <==> task.depends_on.contains("compile"@)
    &&& kotlin_files(build.sources).len() > 0 <==> task.depends_on.contains("compile-kotlin"@)
    &&& suite.class is None <==> task.depends_on.contains("generate-test-runner"@)
}

/// The task runs the tests: the test jars, the test classes and the main classes
/// are on its classpath.
pub open spec fn tests(task: TaskModel, build: Build, suite: Suite) -> bool {
    let classpath = suite.runtime_jars.push(suite.classes_dir).push(build.classes_dir);
    &&& task.name == "test"@
    &&& runs(task, AllowlistedTool::Java)
    &&& task.inputs == seq![suite.classes_dir, build.classes_dir]
    &&& task.outputs.len() == 0
    &&& task.depends_on == seq!["compile-tests"@]
    &&& arguments(task) == match suite.class {
        Some(class) => seq!["-cp"@, colon_list(classpath), class] + suite.args,
        None => seq!["-cp"@, colon_list(classpath), "ulite.TestRunner"@, suite.classes_dir],
    }
}

/// The task is one of a test suite, whose generated runner has the given source.
pub open spec fn is_of_suite(
    task: TaskModel,
    build: Build,
    suite: Suite,
    runner: Seq<char>,
) -> bool {
    ||| compiles_tests(task, build, suite)
    ||| tests(task, build, suite)
    ||| {
        &&& suite.class is None
        &&& task.name == "generate-test-runner"@
        &&& task.depends_on.len() == 0
        &&& writes(task, runner)
        &&& task.outputs[0] == runner_file(build.project_dir)
    }
}

/// The two ways to tell Java sources apart are one.
pub proof fn lemma_halves(sources: Seq<Seq<char>>)
    ensures
        java_sources(sources) == java_files(sources),
        other_sources(sources) == kotlin_files(sources),
{
    assert((|source: Seq<char>| is_java(source)) =~= (|source: Seq<char>|
        ends_with(source, ".java"@)));
    assert((|source: Seq<char>| !is_java(source)) =~= (|source: Seq<char>|
        !ends_with(source, ".java"@)));
}

/// The build that a model of a module describes.
pub open spec fn build_of(module: JvmModel, sources: Seq<Seq<char>>) -> Build {
    Build {
        project_dir: module.project_dir,
        sources,
        classes_dir: module.classes_dir,
        jar_file: module.jar_file,
        jars: module.compile_classpath,
        processors: module.processor_classpath,
    }
}

/// The names that the dependencies of a main build are told apart by.
proof fn lemma_main_names()
    ensures
        "ksp"@ != "compile"@,
        "ksp"@ != "compile-kotlin"@,
        "compile"@ != "compile-kotlin"@,
        "generate-test-runner"@ != "compile"@,
        "generate-test-runner"@ != "compile-kotlin"@,
{
    reveal_strlit("ksp");
    reveal_strlit("compile");
    reveal_strlit("compile-kotlin");
    reveal_strlit("generate-test-runner");
    assert("ksp"@.len() == 3 && "compile"@.len() == 7);
    assert("compile-kotlin"@.len() == 14 && "generate-test-runner"@.len() == 20);
}

/// The KSP task of a module is that of its build.
proof fn lemma_ksp_task(module: JvmModel, sources: Seq<Seq<char>>)
    requires
        module.kotlin_sources == other_sources(sources),
        module.has_processors(),
    ensures
        processes(module.ksp_task(), build_of(module, sources)),
{
    lemma_halves(sources);
    let task = module.ksp_task();
    let args = arguments(task);
    assert(args[7] == "-source-roots="@ + colon_list(task.inputs));
    assert(args[12] == "-kotlin-output-dir="@ + ksp_dirs(module.project_dir).0);
    assert(args[13] == "-java-output-dir="@ + ksp_dirs(module.project_dir).1);
    if module.compile_classpath.len() > 0 {
        assert(args[19] == "-libraries="@ + colon_list(module.compile_classpath));
    }
}

/// The compile tasks of a module are those of its build.
proof fn lemma_compile_tasks(module: JvmModel, sources: Seq<Seq<char>>)
    requires
        module.java_sources == java_sources(sources),
        module.kotlin_sources == other_sources(sources),
    ensures
        compiles_java(module.java_task(), build_of(module, sources)),
        compiles_kotlin(module.kotlin_task(), build_of(module, sources)),
{
    lemma_halves(sources);
    lemma_main_names();
    let java = module.java_task();
    let kotlin = module.kotlin_task();
    assert(arguments(java) =~= (if module.compile_classpath.len() == 0 {
        seq!["-d"@, java.outputs[0]]
    } else {
        seq!["-d"@, java.outputs[0], "-cp"@, colon_list(module.compile_classpath)]
    }) + java.inputs);
    if module.has_processors() {
        assert(java.depends_on[0] == "ksp"@);
        assert(kotlin.depends_on.last() == "ksp"@);
    }
    if module.has_java() {
        assert(kotlin.depends_on[0] == "compile"@);
    }
}

/// The packing task of a module is that of its build.
proof fn lemma_packing_task(module: JvmModel, sources: Seq<Seq<char>>)
    requires
        module.java_sources == java_sources(sources),
        module.kotlin_sources == other_sources(sources),
    ensures
        packs(module.main_tasks().last(), build_of(module, sources)),
{
    lemma_halves(sources);
    lemma_main_names();
    let names = module.compile_tasks();
    if module.has_java() {
        assert(names[0] == "compile"@);
    }
    if module.has_kotlin() {
        assert(names.last() == "compile-kotlin"@);
    }
}

/// The main tasks of a module are those of its build, and there is one for each
/// kind of work it has.
pub proof fn lemma_main_tasks_are_of_the_build(module: JvmModel, sources: Seq<Seq<char>>)
    requires
        module.java_sources == java_sources(sources),
        module.kotlin_sources == other_sources(sources),
    ensures
        forall|i: int|
            0 <= i < module.main_tasks().len() ==> is_of_build(
                #[trigger] module.main_tasks()[i],
                build_of(module, sources),
            ),
        is_named(module.main_tasks(), "ksp"@) <==> module.processor_classpath.len() > 0,
        is_named(module.main_tasks(), "compile"@) <==> java_files(sources).len() > 0,
        is_named(module.main_tasks(), "compile-kotlin"@) <==> kotlin_files(sources).len() > 0,
        is_named(module.main_tasks(), "assemble"@),
{
    lemma_halves(sources);
    lemma_main_names();
    reveal_strlit("assemble");
    assert("assemble"@.len() == 8);
    reveal_strlit("ksp");
    reveal_strlit("compile");
    reveal_strlit("compile-kotlin");
    if module.has_processors() {
        lemma_ksp_task(module, sources);
    }
    lemma_compile_tasks(module, sources);
    lemma_packing_task(module, sources);
    let tasks = module.main_tasks();
    assert(tasks.last().name == "assemble"@);
    assert(is_named(tasks, "assemble"@)) by {
        assert(tasks[tasks.len() - 1].name == "assemble"@);
    }
    let n: int = if module.has_processors() {
        1
    } else {
        0
    };
    if module.has_processors() {
        assert(tasks[0] == module.ksp_task());
    }
    if module.has_java() {
        assert(tasks[n] == module.java_task());
    }
    if module.has_kotlin() {
        assert(tasks[tasks.len() - 2] == module.kotlin_task());
    }
}

/// The tasks that run a class are those of its suite.
pub proof fn lemma_class_tests_are_of_the_suite(
    module: JvmModel,
    main: Seq<Seq<char>>,
    suite: Suite,
    runner: Seq<char>,
)
    requires
        module.java_sources == java_sources(main),
        module.kotlin_sources == other_sources(main),
        suite.class is Some,
    ensures
        all_tasks_pass(
            class_test_tasks(
                suite.sources,
                suite.classes_dir,
                module.classes_dir,
                suite.jars.push(module.classes_dir),
                suite.runtime_jars.push(suite.classes_dir).push(module.classes_dir),
                module.compile_tasks(),
                suite.class->0,
                suite.args,
            ),
            |task: TaskModel| is_of_suite(task, build_of(module, main), suite, runner),
        ),
{
    lemma_halves(main);
    lemma_main_names();
    let build = build_of(module, main);
    let tasks = class_test_tasks(
        suite.sources,
        suite.classes_dir,
        module.classes_dir,
        suite.jars.push(module.classes_dir),
        suite.runtime_jars.push(suite.classes_dir).push(module.classes_dir),
        module.compile_tasks(),
        suite.class->0,
        suite.args,
    );
    let names = module.compile_tasks();
    if module.has_java() {
        assert(names[0] == "compile"@);
    }
    if module.has_kotlin() {
        assert(names.last() == "compile-kotlin"@);
    }
    assert(compiles_tests(tasks[0], build, suite));
    assert(tests(tasks[1], build, suite));
}

/// The tasks that run the generated runner are those of its suite.
pub proof fn lemma_runner_tests_are_of_the_suite(
    module: JvmModel,
    main: Seq<Seq<char>>,
    suite: Suite,
    runner: Seq<char>,
)
    requires
        module.java_sources == java_sources(main),
        module.kotlin_sources == other_sources(main),
        suite.class is None,
    ensures
        all_tasks_pass(
            runner_test_tasks(
                suite.sources,
                runner_file(module.project_dir),
                runner,
                suite.classes_dir,
                module.classes_dir,
                suite.jars.push(module.classes_dir),
                suite.runtime_jars.push(suite.classes_dir).push(module.classes_dir),
                module.compile_tasks(),
            ),
            |task: TaskModel| is_of_suite(task, build_of(module, main), suite, runner),
        ),
{
    lemma_halves(main);
    lemma_main_names();
    let build = build_of(module, main);
    let tasks = runner_test_tasks(
        suite.sources,
        runner_file(module.project_dir),
        runner,
        suite.classes_dir,
        module.classes_dir,
        suite.jars.push(module.classes_dir),
        suite.runtime_jars.push(suite.classes_dir).push(module.classes_dir),
        module.compile_tasks(),
    );
    let names = module.compile_tasks();
    let waits = tasks[1].depends_on;
    assert(waits == names.push("generate-test-runner"@));
    assert(waits[names.len() as int] == "generate-test-runner"@);
    if module.has_java() {
        assert(waits[0] == "compile"@);
    }
    if module.has_kotlin() {
        assert(waits[names.len() - 1] == "compile-kotlin"@);
    }
    assert(writes(tasks[0], runner));
    assert(compiles_tests(tasks[1], build, suite));
    assert(arguments(tasks[2]) =~= seq![
        "-cp"@,
        colon_list(suite.runtime_jars.push(suite.classes_dir).push(module.classes_dir)),
        "ulite.TestRunner"@,
        suite.classes_dir,
    ]);
    assert(tests(tasks[2], build, suite));
}

/// The main build that a configuration describes.
pub open spec fn described_build(
    config: JsonModel,
    jvm: JsonModel,
    project_dir: Seq<char>,
) -> Build {
    Build {
        project_dir,
        sources: all_joined(project_dir, listing(jvm.get("sources"@))),
        classes_dir: path_join(project_dir, jvm.str_at("classesDir"@)->0),
        jar_file: path_join(project_dir, jvm.str_at("jarFile"@)->0),
        jars: module_jars(config, "compile"@),
        processors: module_jars(config, "processor"@),
    }
}

/// The test suite that a configuration describes.
pub open spec fn described_suite(
    config: JsonModel,
    jvm: JsonModel,
    project_dir: Seq<char>,
) -> Suite {
    Suite {
        classes_dir: path_join(project_dir, jvm.str_at("testClassesDir"@)->0),
        sources: all_joined(project_dir, listing(jvm.get("testSources"@))),
        jars: module_jars(config, "testCompile"@),
        runtime_jars: module_jars(config, "testRuntime"@),
        class: jvm.str_at("testClass"@),
        args: listing(jvm.get("testArgs"@)),
    }
}

/// A required list is what the block lists.
pub proof fn lemma_required_list_is_listed(block: JsonModel, owner: Seq<char>, key: Seq<char>)
    ensures
        required_list(block, owner, key) matches Ok(list) ==> list == listing(block.get(key)),
{
    if let Some(items) = block.array_at(key) {
        if strings_of(items) is Some {
            lemma_strings_are_listed(items);
        }
    }
}

/// The model of a module is that of the build it describes.
proof fn lemma_module_is_described(config: JsonModel, jvm: JsonModel, project_dir: Seq<char>)
    requires
        jvm_module(config, jvm, project_dir) is Ok,
    ensures
        ({
            let module = jvm_module(config, jvm, project_dir)->Ok_0;
            let build = described_build(config, jvm, project_dir);
            &&& module.java_sources == java_sources(build.sources)
            &&& module.kotlin_sources == other_sources(build.sources)
            &&& build_of(module, build.sources) == build
            &&& declared_sources(jvm, project_dir) == Ok::<_, Seq<char>>(build.sources)
        }),
{
    lemma_required_list_is_listed(jvm, "jvm"@, "sources"@);
    lemma_module_classpath_is_listed(config, "compile"@);
    lemma_module_classpath_is_listed(config, "processor"@);
}

/// The test tasks of a module are those of the suite it describes.
proof fn lemma_suite_is_described(config: JsonModel, jvm: JsonModel, project_dir: Seq<char>)
    requires
        jvm_module(config, jvm, project_dir) is Ok,
        test_tasks(
            config,
            jvm,
            project_dir,
            jvm_module(config, jvm, project_dir)->Ok_0.classes_dir,
            jvm_module(config, jvm, project_dir)->Ok_0.compile_tasks(),
        ) is Ok,
    ensures
        ({
            let module = jvm_module(config, jvm, project_dir)->Ok_0;
            let tasks = test_tasks(
                config,
                jvm,
                project_dir,
                module.classes_dir,
                module.compile_tasks(),
            )->Ok_0;
            let build = described_build(config, jvm, project_dir);
            let suite = described_suite(config, jvm, project_dir);
            &&& all_tasks_pass(
                tasks,
                |task: TaskModel| is_of_suite(task, build, suite, TEST_RUNNER_SOURCE@),
            )
            &&& jvm.str_at("testClassesDir"@) is Some <==> is_named(tasks, "test"@)
        }),
{
    let module = jvm_module(config, jvm, project_dir)->Ok_0;
    let build = described_build(config, jvm, project_dir);
    let suite = described_suite(config, jvm, project_dir);
    let runner = TEST_RUNNER_SOURCE@;
    let tasks = test_tasks(
        config,
        jvm,
        project_dir,
        module.classes_dir,
        module.compile_tasks(),
    )->Ok_0;
    lemma_module_is_described(config, jvm, project_dir);
    lemma_required_list_is_listed(jvm, "jvm"@, "testSources"@);
    lemma_module_classpath_is_listed(config, "testCompile"@);
    lemma_module_classpath_is_listed(config, "testRuntime"@);
    if jvm.str_at("testClassesDir"@) is Some {
        match run_target(jvm)->Ok_0 {
            RunTargetModel::Class(_) => {
                if jvm.get("testArgs"@) is Some {
                    lemma_strings_are_listed(jvm.get("testArgs"@)->0.as_array()->0);
                }
                assert(jvm_list(jvm, "testArgs"@) == Ok::<_, Seq<char>>(suite.args));
                lemma_class_tests_are_of_the_suite(module, build.sources, suite, runner);
                assert(tasks[1].name == "test"@);
            },
            RunTargetModel::Runner(_) => {
                lemma_runner_tests_are_of_the_suite(module, build.sources, suite, runner);
                assert(tasks[2].name == "test"@);
            },
        }
        assert(declared_tests(jvm, project_dir) == Ok::<_, Seq<char>>(suite.sources));
    }
}

/// Every task of a plan does its part of the build, or of the test suite, that
/// the configuration describes: each compiler gets all inputs of its task, the
/// jars of the right bucket and the classes it builds upon; what the processors
/// generate is compiled; the jar is made of the compiled classes; and the tests
/// run with their jars, their classes and the main classes.
pub proof fn law_tasks_do_what_the_configuration_describes(
    config: JsonModel,
    jvm: JsonModel,
    project_dir: Seq<char>,
)
    requires
        config.str_at("projectDir"@) == Some(project_dir),
        config.get("jvm"@) == Some(jvm),
        jvm_plan(config).tasks.len() > 0,
    ensures
        ({
            let build = described_build(config, jvm, project_dir);
            let suite = described_suite(config, jvm, project_dir);
            let plan = jvm_plan(config);
            &&& forall|i: int|
                0 <= i < plan.tasks.len() ==> is_of_build(#[trigger] plan.tasks[i], build)
                    || is_of_suite(plan.tasks[i], build, suite, TEST_RUNNER_SOURCE@)
            &&& is_named(plan.tasks, "ksp"@) <==> build.processors.len() > 0
            &&& is_named(plan.tasks, "compile"@) <==> java_files(build.sources).len() > 0
            &&& is_named(plan.tasks, "compile-kotlin"@) <==> kotlin_files(build.sources).len() > 0
            &&& is_named(plan.tasks, "assemble"@)
            &&& plan.outcome is Ok ==> (is_named(plan.tasks, "test"@) <==> jvm.str_at(
                "testClassesDir"@,
            ) is Some)
        }),
{
    let module = jvm_module(config, jvm, project_dir)->Ok_0;
    let build = described_build(config, jvm, project_dir);
    let suite = described_suite(config, jvm, project_dir);
    let plan = jvm_plan(config);
    let runner = TEST_RUNNER_SOURCE@;
    let main = module.main_tasks();
    lemma_module_is_described(config, jvm, project_dir);
    lemma_main_tasks_are_of_the_build(module, build.sources);
    let test = |task: TaskModel|
        is_of_build(task, build) || is_of_suite(task, build, suite, runner);
    assert(all_tasks_pass(main, test));
    let outcome = test_tasks(
        config,
        jvm,
        project_dir,
        module.classes_dir,
        module.compile_tasks(),
    );
    if outcome is Ok {
        let more = outcome->Ok_0;
        lemma_suite_is_described(config, jvm, project_dir);
        assert(all_tasks_pass(more, test)) by {
            assert forall|i: int| 0 <= i < more.len() implies test(#[trigger] more[i]) by {
                assert(is_of_suite(more[i], build, suite, runner));
            }
        }
        lemma_both_pass(main, more, test);
        assert(plan.tasks == main + more);
        lemma_names_of_both(main, more, build, suite, runner);
    } else {
        assert(plan.tasks =~= main);
        lemma_names_of_both(main, seq![], build, suite, runner);
    }
    assert forall|i: int| 0 <= i < plan.tasks.len() implies is_of_build(
        #[trigger] plan.tasks[i],
        build,
    ) || is_of_suite(plan.tasks[i], build, suite, runner) by {
        assert(test(plan.tasks[i]));
    }
}

/// A compiler gets every input.
proof fn lemma_compiler_gets_every_input(
    task: TaskModel,
    tool: AllowlistedTool,
    classpath: Seq<Seq<char>>,
    input: Seq<char>,
)
    requires
        compiles(task, tool, classpath),
        task.inputs.contains(input),
    ensures
        arguments(task).contains(input),
{
    let k = task.inputs.index_of(input);
    let n: int = if classpath.len() == 0 {
        2
    } else {
        4
    };
    assert(arguments(task)[n + k] == input);
}

/// A task that runs a compiler compiles.
proof fn lemma_tools_tell_tasks_apart(
    task: TaskModel,
    build: Build,
    suite: Suite,
    runner: Seq<char>,
)
    requires
        is_of_build(task, build) || is_of_suite(task, build, suite, runner),
    ensures
        runs(task, AllowlistedTool::Javac) ==> compiles_java(task, build) || compiles_tests(
            task,
            build,
            suite,
        ),
        runs(task, AllowlistedTool::Kotlinc) ==> compiles_kotlin(task, build),
{
}

/// What a compiler reads it is told: every input of a compile task is among the
/// arguments of its compiler.
pub proof fn law_compilers_get_every_input(
    config: JsonModel,
    jvm: JsonModel,
    project_dir: Seq<char>,
    i: int,
    input: Seq<char>,
)
    requires
        config.str_at("projectDir"@) == Some(project_dir),
        config.get("jvm"@) == Some(jvm),
        0 <= i < jvm_plan(config).tasks.len(),
        runs(jvm_plan(config).tasks[i], AllowlistedTool::Javac) || runs(
            jvm_plan(config).tasks[i],
            AllowlistedTool::Kotlinc,
        ),
        jvm_plan(config).tasks[i].inputs.contains(input),
    ensures
        arguments(jvm_plan(config).tasks[i]).contains(input),
{
    let task = jvm_plan(config).tasks[i];
    let build = described_build(config, jvm, project_dir);
    let suite = described_suite(config, jvm, project_dir);
    law_tasks_do_what_the_configuration_describes(config, jvm, project_dir);
    lemma_tools_tell_tasks_apart(task, build, suite, TEST_RUNNER_SOURCE@);
    if runs(task, AllowlistedTool::Kotlinc) {
        lemma_compiler_gets_every_input(
            task,
            AllowlistedTool::Kotlinc,
            build.jars.push(build.classes_dir),
            input,
        );
    } else if compiles_java(task, build) {
        lemma_compiler_gets_every_input(task, AllowlistedTool::Javac, build.jars, input);
    } else {
        lemma_compiler_gets_every_input(
            task,
            AllowlistedTool::Javac,
            suite.jars.push(build.classes_dir),
            input,
        );
    }
}

/// What the processors generate is compiled: with processors, the directory that
/// KSP writes Kotlin into is an argument of the Kotlin compiler, which waits for
/// KSP.
pub proof fn law_generated_kotlin_is_compiled(
    config: JsonModel,
    jvm: JsonModel,
    project_dir: Seq<char>,
    i: int,
    j: int,
)
    requires
        config.str_at("projectDir"@) == Some(project_dir),
        config.get("jvm"@) == Some(jvm),
        0 <= i < jvm_plan(config).tasks.len(),
        0 <= j < jvm_plan(config).tasks.len(),
        jvm_plan(config).tasks[i].name == "ksp"@,
        jvm_plan(config).tasks[j].name == "compile-kotlin"@,
    ensures
        exists|dir: Seq<char>|
            {
                &&& arguments(jvm_plan(config).tasks[i]).contains(
                    #[trigger] ("-kotlin-output-dir="@ + dir),
                )
                &&& jvm_plan(config).tasks[i].outputs.contains(dir)
                &&& arguments(jvm_plan(config).tasks[j]).contains(dir)
            },
        jvm_plan(config).tasks[j].depends_on.contains("ksp"@),
{
    let ksp = jvm_plan(config).tasks[i];
    let kotlin = jvm_plan(config).tasks[j];
    let build = described_build(config, jvm, project_dir);
    let suite = described_suite(config, jvm, project_dir);
    law_tasks_do_what_the_configuration_describes(config, jvm, project_dir);
    lemma_names_tell_tasks_apart(ksp, build, suite, TEST_RUNNER_SOURCE@);
    lemma_names_tell_tasks_apart(kotlin, build, suite, TEST_RUNNER_SOURCE@);
    lemma_generated_kotlin_is_an_argument(ksp, kotlin, build);
    let dir = build.project_dir + "/build/generated/ksp/kotlin"@;
    assert(arguments(ksp).contains("-kotlin-output-dir="@ + dir));
}

/// The name of a task tells what it does.
pub proof fn lemma_names_tell_tasks_apart(
    task: TaskModel,
    build: Build,
    suite: Suite,
    runner: Seq<char>,
)
    requires
        is_of_build(task, build) || is_of_suite(task, build, suite, runner),
    ensures
        task.name == "ksp"@ ==> processes(task, build),
        task.name == "compile-kotlin"@ ==> compiles_kotlin(task, build),
        task.name == "test"@ ==> tests(task, build, suite),
{
    lemma_all_names_differ();
}

/// What KSP writes the Kotlin compiler reads.
proof fn lemma_generated_kotlin_is_an_argument(ksp: TaskModel, kotlin: TaskModel, build: Build)
    requires
        processes(ksp, build),
        compiles_kotlin(kotlin, build),
    ensures
        ({
            let dir = build.project_dir + "/build/generated/ksp/kotlin"@;
            &&& arguments(ksp).contains("-kotlin-output-dir="@ + dir)
            &&& ksp.outputs.contains(dir)
            &&& arguments(kotlin).contains(dir)
        }),
{
    let dir = build.project_dir + "/build/generated/ksp/kotlin"@;
    assert(ksp.outputs[0] == dir);
    assert(kotlin.inputs.last() == dir);
    assert(arguments(kotlin).last() == dir);
}

/// No two kinds of tasks share a name.
proof fn lemma_all_names_differ()
    ensures
        "ksp"@.len() == 3,
        "compile"@.len() == 7,
        "compile-kotlin"@.len() == 14,
        "assemble"@.len() == 8,
        "compile-tests"@.len() == 13,
        "test"@.len() == 4,
        "generate-test-runner"@.len() == 20,
{
    reveal_strlit("ksp");
    reveal_strlit("compile");
    reveal_strlit("compile-kotlin");
    reveal_strlit("assemble");
    reveal_strlit("compile-tests");
    reveal_strlit("generate-test-runner");
    reveal_strlit("test");
}

/// The names of the main tasks are not those of the tests.
pub proof fn lemma_names_of_both(
    main: Seq<TaskModel>,
    more: Seq<TaskModel>,
    build: Build,
    suite: Suite,
    runner: Seq<char>,
)
    requires
        forall|i: int| 0 <= i < main.len() ==> is_of_build(#[trigger] main[i], build),
        all_tasks_pass(more, |task: TaskModel| is_of_suite(task, build, suite, runner)),
    ensures
        is_named(main + more, "ksp"@) <==> is_named(main, "ksp"@),
        is_named(main + more, "compile"@) <==> is_named(main, "compile"@),
        is_named(main + more, "compile-kotlin"@) <==> is_named(main, "compile-kotlin"@),
        is_named(main + more, "assemble"@) <==> is_named(main, "assemble"@),
        is_named(main + more, "test"@) <==> is_named(more, "test"@),
{
    lemma_all_names_differ();
    let all = main + more;
    let test = |task: TaskModel| is_of_suite(task, build, suite, runner);
    assert forall|name: Seq<char>| is_named(main, name) || is_named(more, name) <==> is_named(
        all,
        name,
    ) by {
        if is_named(main, name) {
            let i = choose|i: int| 0 <= i < main.len() && (#[trigger] main[i]).name == name;
            assert(all[i].name == name);
        }
        if is_named(more, name) {
            let i = choose|i: int| 0 <= i < more.len() && (#[trigger] more[i]).name == name;
            assert(all[main.len() + i].name == name);
        }
        if is_named(all, name) {
            let i = choose|i: int| 0 <= i < all.len() && (#[trigger] all[i]).name == name;
            if i < main.len() {
                assert(main[i].name == name);
            } else {
                assert(more[i - main.len()].name == name);
            }
        }
    }
    assert forall|i: int| 0 <= i < more.len() implies (#[trigger] more[i]).name.len() != 3
        && more[i].name.len() != 7 && more[i].name.len() != 14 && more[i].name.len() != 8 by {
        assert(test(more[i]));
    }
    assert forall|i: int| 0 <= i < main.len() implies (#[trigger] main[i]).name.len() != 4 by {
        assert(is_of_build(main[i], build));
    }
}

} // verus!
