//! What holds of every plan of the `ulite/jvm` plugin.

use crate::blocks::module_classpath;
use crate::invocations::ksp_dirs;
use crate::json::JsonModel;
use crate::jvm::{
    class_test_tasks, declared_sources, declared_tests, jvm_list, jvm_manifest, jvm_module,
    jvm_plan, run_target, runner_test_tasks, test_tasks, JvmModel, RunTargetModel,
    TEST_RUNNER_SOURCE,
};
use crate::jvm_tasks::{assembling, TEST_RUNNER_SOURCE_PATH};
use crate::path::{is_absolute, path_join};
use crate::sources::{
    java_sources, lemma_halves_are_part, lemma_source_is_in_a_half, other_sources,
};
use crate::task::{
    all_files_pass, all_use_declared_tools, files_pass, in_order, is_built_into, is_named,
    lemma_add_files, lemma_add_in_order, lemma_built_into_a_longer_list, nothing_outside, tool_name,
    ActionModel, AllowlistedTool, TaskModel,
};
use crate::text::added_if;
use vstd::prelude::*;

verus! {

/// The tasks of a main build are in order, and every compile task is among them.
pub proof fn lemma_main_tasks_are_in_order(
    module: JvmModel,
    outside: spec_fn(Seq<char>) -> bool,
)
    ensures
        in_order(module.main_tasks(), outside),
        forall|k: int|
            0 <= k < module.compile_tasks().len() ==> is_named(
                module.main_tasks(),
                #[trigger] module.compile_tasks()[k],
            ),
{
    let none: Seq<TaskModel> = seq![];
    let generated = added_if(none, module.has_processors(), module.ksp_task());
    let compiled = added_if(generated, module.has_java(), module.java_task());
    let kotlin = added_if(compiled, module.has_kotlin(), module.kotlin_task());
    let assemble = assembling(
        "assemble"@,
        module.classes_dir,
        module.jar_file,
        module.compile_tasks(),
    );
    assert(in_order(none, outside));
    if module.has_processors() {
        lemma_add_in_order(none, module.ksp_task(), outside);
    }
    assert(in_order(generated, outside));
    assert(module.has_processors() ==> is_named(generated, "ksp"@));
    if module.has_java() {
        lemma_add_in_order(generated, module.java_task(), outside);
    }
    assert(in_order(compiled, outside));
    assert(module.has_processors() ==> is_named(compiled, "ksp"@));
    assert(module.has_java() ==> is_named(compiled, "compile"@));
    if module.has_kotlin() {
        lemma_add_in_order(compiled, module.kotlin_task(), outside);
    }
    assert(module.has_java() ==> is_named(kotlin, "compile"@));
    assert(module.has_kotlin() ==> is_named(kotlin, "compile-kotlin"@));
    lemma_add_in_order(kotlin, assemble, outside);
}

/// Test tasks behind tasks that hold everything they depend on are in order.
pub proof fn lemma_class_tests_are_in_order(
    tasks: Seq<TaskModel>,
    sources: Seq<Seq<char>>,
    test_dir: Seq<char>,
    classes_dir: Seq<char>,
    compile_classpath: Seq<Seq<char>>,
    runtime_classpath: Seq<Seq<char>>,
    compile_tasks: Seq<Seq<char>>,
    class: Seq<char>,
    args: Seq<Seq<char>>,
    outside: spec_fn(Seq<char>) -> bool,
)
    requires
        in_order(tasks, outside),
        forall|k: int|
            0 <= k < compile_tasks.len() ==> is_named(tasks, #[trigger] compile_tasks[k]),
    ensures
        in_order(
            tasks + class_test_tasks(
                sources,
                test_dir,
                classes_dir,
                compile_classpath,
                runtime_classpath,
                compile_tasks,
                class,
                args,
            ),
            outside,
        ),
{
    let tests = class_test_tasks(
        sources,
        test_dir,
        classes_dir,
        compile_classpath,
        runtime_classpath,
        compile_tasks,
        class,
        args,
    );
    lemma_add_in_order(tasks, tests[0], outside);
    lemma_add_in_order(tasks.push(tests[0]), tests[1], outside);
    assert(tasks + tests =~= tasks.push(tests[0]).push(tests[1]));
}

/// Test tasks with a generated runner, behind tasks that hold everything they
/// depend on, are in order.
pub proof fn lemma_runner_tests_are_in_order(
    tasks: Seq<TaskModel>,
    sources: Seq<Seq<char>>,
    runner_path: Seq<char>,
    runner_source: Seq<char>,
    test_dir: Seq<char>,
    classes_dir: Seq<char>,
    compile_classpath: Seq<Seq<char>>,
    runtime_classpath: Seq<Seq<char>>,
    compile_tasks: Seq<Seq<char>>,
    outside: spec_fn(Seq<char>) -> bool,
)
    requires
        in_order(tasks, outside),
        forall|k: int|
            0 <= k < compile_tasks.len() ==> is_named(tasks, #[trigger] compile_tasks[k]),
    ensures
        in_order(
            tasks + runner_test_tasks(
                sources,
                runner_path,
                runner_source,
                test_dir,
                classes_dir,
                compile_classpath,
                runtime_classpath,
                compile_tasks,
            ),
            outside,
        ),
{
    let tests = runner_test_tasks(
        sources,
        runner_path,
        runner_source,
        test_dir,
        classes_dir,
        compile_classpath,
        runtime_classpath,
        compile_tasks,
    );
    let generated = tasks.push(tests[0]);
    lemma_add_in_order(tasks, tests[0], outside);
    assert forall|k: int| 0 <= k < tests[1].depends_on.len() implies is_named(
        generated,
        #[trigger] tests[1].depends_on[k],
    ) by {
        if k < compile_tasks.len() {
            assert(is_named(tasks, compile_tasks[k]));
        }
    }
    lemma_add_in_order(generated, tests[1], outside);
    lemma_add_in_order(generated.push(tests[1]), tests[2], outside);
    assert(tasks + tests =~= generated.push(tests[1]).push(tests[2]));
}

/// Every task of a plan depends only on tasks that come before it.
pub proof fn law_tasks_follow_what_they_depend_on(config: JsonModel)
    ensures
        in_order(jvm_plan(config).tasks, nothing_outside()),
{
    let outside = nothing_outside();
    if let Some(project_dir) = config.str_at("projectDir"@) {
        if let Some(jvm) = config.get("jvm"@) {
            if let Ok(module) = jvm_module(config, jvm, project_dir) {
                let main = module.main_tasks();
                let names = module.compile_tasks();
                lemma_main_tasks_are_in_order(module, outside);
                assert(main + Seq::<TaskModel>::empty() =~= main);
                let tests = test_tasks(config, jvm, project_dir, module.classes_dir, names);
                if tests is Ok && tests->Ok_0.len() > 0 {
                    lemma_suite_is_in_order(config, jvm, project_dir, module.classes_dir, names, main);
                } else if tests is Ok {
                    assert(main + tests->Ok_0 =~= main);
                }
            }
        }
    }
}

/// The tasks of a test suite behind the main build are in order.
proof fn lemma_suite_is_in_order(
    config: JsonModel,
    jvm: JsonModel,
    project_dir: Seq<char>,
    classes_dir: Seq<char>,
    names: Seq<Seq<char>>,
    main: Seq<TaskModel>,
)
    requires
        in_order(main, nothing_outside()),
        forall|k: int| 0 <= k < names.len() ==> is_named(main, #[trigger] names[k]),
        test_tasks(config, jvm, project_dir, classes_dir, names) is Ok,
        test_tasks(config, jvm, project_dir, classes_dir, names)->Ok_0.len() > 0,
    ensures
        in_order(
            main + test_tasks(config, jvm, project_dir, classes_dir, names)->Ok_0,
            nothing_outside(),
        ),
{
    let dir = path_join(project_dir, jvm.str_at("testClassesDir"@)->0);
    let sources = declared_tests(jvm, project_dir)->Ok_0;
    let compile_classpath = module_classpath(config, "testCompile"@).push(
        classes_dir,
    );
    let runtime_classpath = module_classpath(config, "testRuntime"@).push(
        dir,
    ).push(classes_dir);
    match run_target(jvm)->Ok_0 {
        RunTargetModel::Runner(_) => {
            lemma_runner_tests_are_in_order(
                main,
                sources,
                path_join(project_dir, TEST_RUNNER_SOURCE_PATH@),
                TEST_RUNNER_SOURCE@,
                dir,
                classes_dir,
                compile_classpath,
                runtime_classpath,
                names,
                nothing_outside(),
            );
        },
        RunTargetModel::Class(class) => {
            lemma_class_tests_are_in_order(
                main,
                sources,
                dir,
                classes_dir,
                compile_classpath,
                runtime_classpath,
                names,
                class,
                jvm_list(jvm, "testArgs"@)->Ok_0,
                nothing_outside(),
            );
        },
    }
}

/// Every tool the tasks run is declared in the manifest.
pub proof fn law_tools_are_declared(
    config: JsonModel,
    version: Seq<char>,
    abi_version: Seq<char>,
)
    ensures
        all_use_declared_tools(jvm_plan(config).tasks, jvm_manifest(version, abi_version).tools),
{
    let tools = jvm_manifest(version, abi_version).tools;
    assert(tools[0] == tool_name(AllowlistedTool::Javac));
    assert(tools[1] == tool_name(AllowlistedTool::Kotlinc));
    assert(tools[2] == tool_name(AllowlistedTool::Jar));
    assert(tools[3] == tool_name(AllowlistedTool::Java));
    assert(tools.contains(tool_name(AllowlistedTool::Javac)));
    assert(tools.contains(tool_name(AllowlistedTool::Kotlinc)));
    assert(tools.contains(tool_name(AllowlistedTool::Jar)));
    assert(tools.contains(tool_name(AllowlistedTool::Java)));
}

/// The files of a main build whose paths are absolute.
proof fn lemma_main_files_pass(module: JvmModel, test: spec_fn(Seq<char>) -> bool)
    requires
        forall|i: int| 0 <= i < module.java_sources.len() ==> test(#[trigger] module.java_sources[i]),
        forall|i: int|
            0 <= i < module.kotlin_sources.len() ==> test(#[trigger] module.kotlin_sources[i]),
        test(module.classes_dir),
        test(module.jar_file),
        test(ksp_dirs(module.project_dir).0),
        test(ksp_dirs(module.project_dir).1),
    ensures
        all_files_pass(module.main_tasks(), test),
{
    let none: Seq<TaskModel> = seq![];
    let generated = added_if(none, module.has_processors(), module.ksp_task());
    let compiled = added_if(generated, module.has_java(), module.java_task());
    let kotlin = added_if(compiled, module.has_kotlin(), module.kotlin_task());
    assert(all_files_pass(none, test));
    if module.has_processors() {
        assert(files_pass(module.ksp_task(), test));
        lemma_add_files(none, module.ksp_task(), test);
    }
    if module.has_java() {
        assert(files_pass(module.java_task(), test));
        lemma_add_files(generated, module.java_task(), test);
    }
    if module.has_kotlin() {
        assert(files_pass(module.kotlin_task(), test));
        lemma_add_files(compiled, module.kotlin_task(), test);
    }
    let assemble = assembling(
        "assemble"@,
        module.classes_dir,
        module.jar_file,
        module.compile_tasks(),
    );
    assert(files_pass(assemble, test));
    lemma_add_files(kotlin, assemble, test);
}

/// The files of a test suite whose paths are absolute.
#[verifier::spinoff_prover]
proof fn lemma_test_files_pass(
    config: JsonModel,
    jvm: JsonModel,
    project_dir: Seq<char>,
    classes_dir: Seq<char>,
    names: Seq<Seq<char>>,
)
    requires
        is_absolute(project_dir),
        is_absolute(classes_dir),
        test_tasks(config, jvm, project_dir, classes_dir, names) is Ok,
    ensures
        all_files_pass(
            test_tasks(config, jvm, project_dir, classes_dir, names)->Ok_0,
            |path: Seq<char>| is_absolute(path),
        ),
{
    let test = |path: Seq<char>| is_absolute(path);
    let tests = test_tasks(config, jvm, project_dir, classes_dir, names)->Ok_0;
    if let Some(dir) = jvm.str_at("testClassesDir"@) {
        let sources = declared_tests(jvm, project_dir)->Ok_0;
        assert(forall|i: int| 0 <= i < sources.len() ==> is_absolute(#[trigger] sources[i]));
        assert(is_absolute(path_join(project_dir, dir)));
        assert(is_absolute(path_join(project_dir, TEST_RUNNER_SOURCE_PATH@)));
        assert forall|i: int| 0 <= i < tests.len() implies files_pass(#[trigger] tests[i], test) by {
            match run_target(jvm)->Ok_0 {
                RunTargetModel::Runner(_) => {
                    assert(tests.len() == 3);
                    assert(tests[1].inputs == sources.push(
                        path_join(project_dir, TEST_RUNNER_SOURCE_PATH@),
                    ));
                },
                RunTargetModel::Class(_) => {
                    assert(tests.len() == 2);
                },
            }
        }
    }
}

/// Below an absolute project directory every file a task reads or writes is
/// named by an absolute path, so a build does not depend on the directory the
/// host runs in.
pub proof fn law_files_are_absolute(config: JsonModel)
    requires
        config.str_at("projectDir"@) matches Some(dir) ==> is_absolute(dir),
    ensures
        all_files_pass(jvm_plan(config).tasks, |path: Seq<char>| is_absolute(path)),
{
    let test = |path: Seq<char>| is_absolute(path);
    if let Some(project_dir) = config.str_at("projectDir"@) {
        if let Some(jvm) = config.get("jvm"@) {
            if let Ok(module) = jvm_module(config, jvm, project_dir) {
                lemma_module_is_absolute(config, jvm, project_dir);
                lemma_main_files_pass(module, test);
                let tests = test_tasks(
                    config,
                    jvm,
                    project_dir,
                    module.classes_dir,
                    module.compile_tasks(),
                );
                if tests is Ok {
                    lemma_test_files_pass(
                        config,
                        jvm,
                        project_dir,
                        module.classes_dir,
                        module.compile_tasks(),
                    );
                }
            }
        }
    }
}

/// The paths of a main build below an absolute project directory are absolute.
proof fn lemma_module_is_absolute(config: JsonModel, jvm: JsonModel, project_dir: Seq<char>)
    requires
        is_absolute(project_dir),
        jvm_module(config, jvm, project_dir) is Ok,
    ensures
        ({
            let module = jvm_module(config, jvm, project_dir)->Ok_0;
            &&& forall|i: int|
                0 <= i < module.java_sources.len() ==> is_absolute(
                    #[trigger] module.java_sources[i],
                )
            &&& forall|i: int|
                0 <= i < module.kotlin_sources.len() ==> is_absolute(
                    #[trigger] module.kotlin_sources[i],
                )
            &&& is_absolute(module.classes_dir)
            &&& is_absolute(module.jar_file)
            &&& is_absolute(ksp_dirs(module.project_dir).0)
            &&& is_absolute(ksp_dirs(module.project_dir).1)
        }),
{
    let module = jvm_module(config, jvm, project_dir)->Ok_0;
    let sources = declared_sources(jvm, project_dir)->Ok_0;
    lemma_halves_are_part(sources);
    assert(forall|i: int| 0 <= i < sources.len() ==> is_absolute(#[trigger] sources[i]));
    assert forall|i: int| 0 <= i < module.java_sources.len() implies is_absolute(
        #[trigger] module.java_sources[i],
    ) by {
        assert(sources.contains(java_sources(sources)[i]));
    }
    assert forall|i: int| 0 <= i < module.kotlin_sources.len() implies is_absolute(
        #[trigger] module.kotlin_sources[i],
    ) by {
        assert(sources.contains(other_sources(sources)[i]));
    }
    assert(ksp_dirs(project_dir).0[0] == project_dir[0]);
    assert(ksp_dirs(project_dir).1[0] == project_dir[0]);
}

/// A source of a main build is compiled, and the jar waits for it.
pub proof fn lemma_main_tasks_build_a_source(module: JvmModel, source: Seq<char>)
    requires
        module.java_sources.contains(source) || module.kotlin_sources.contains(source),
    ensures
        is_built_into(module.main_tasks(), source, "assemble"@),
{
    let tasks = module.main_tasks();
    let last = tasks.len() - 1;
    let names = module.compile_tasks();
    assert(tasks[last].name == "assemble"@);
    assert(tasks[last].depends_on == names);
    if module.java_sources.contains(source) {
        let at: int = if module.has_processors() {
            1
        } else {
            0
        };
        assert(tasks[at] == module.java_task());
        assert(names[0] == "compile"@);
        assert(tasks[at].inputs.contains(source));
        assert(tasks[last].depends_on.contains(tasks[at].name));
    } else {
        let task = module.kotlin_task();
        let k = module.kotlin_sources.index_of(source);
        assert(tasks[last - 1] == task);
        assert(task.inputs[k] == source);
        assert(names.last() == "compile-kotlin"@);
        assert(tasks[last - 1].inputs.contains(source));
        assert(tasks[last].depends_on.contains(tasks[last - 1].name));
    }
}

/// Every source file of a module is compiled, and the jar waits for it: a change
/// of any source reaches the jar.
pub proof fn law_every_source_reaches_the_jar(
    config: JsonModel,
    jvm: JsonModel,
    project_dir: Seq<char>,
    source: Seq<char>,
)
    requires
        config.str_at("projectDir"@) == Some(project_dir),
        config.get("jvm"@) == Some(jvm),
        jvm_module(config, jvm, project_dir) is Ok,
        declared_sources(jvm, project_dir)->Ok_0.contains(source),
    ensures
        is_built_into(jvm_plan(config).tasks, source, "assemble"@),
{
    let module = jvm_module(config, jvm, project_dir)->Ok_0;
    let main = module.main_tasks();
    let none: Seq<TaskModel> = seq![];
    lemma_source_is_in_a_half(declared_sources(jvm, project_dir)->Ok_0, source);
    lemma_main_tasks_build_a_source(module, source);
    let tests = test_tasks(config, jvm, project_dir, module.classes_dir, module.compile_tasks());
    let rest = match tests {
        Ok(tests) => tests,
        Err(_) => none,
    };
    lemma_built_into_a_longer_list(none, main, rest, source, "assemble"@);
    assert(none + main + rest =~= jvm_plan(config).tasks);
}

/// Two tasks run the same tool on the same files behind the same tasks, and
/// differ at most in the tool's arguments.
pub open spec fn differ_in_arguments(one: TaskModel, other: TaskModel) -> bool {
    &&& one.name == other.name
    &&& one.inputs == other.inputs
    &&& one.outputs == other.outputs
    &&& one.depends_on == other.depends_on
    &&& match (one.action, other.action) {
        (
            ActionModel::RunTool { tool, cwd, .. },
            ActionModel::RunTool { tool: other_tool, cwd: other_cwd, .. },
        ) => tool == other_tool && cwd == other_cwd,
        _ => false,
    }
}

/// The classpaths of the tests reach only the arguments of the tasks that
/// compile and run the tests: two modules that differ in nothing else have the
/// same other tasks, and the same files, tools and order in these two.
pub proof fn law_test_classpaths_reach_only_the_tests(one: JsonModel, other: JsonModel)
    requires
        one.str_at("projectDir"@) == other.str_at("projectDir"@),
        one.get("jvm"@) == other.get("jvm"@),
        module_classpath(one, "compile"@) == module_classpath(other, "compile"@),
        module_classpath(one, "processor"@) == module_classpath(other, "processor"@),
    ensures
        jvm_plan(one).outcome == jvm_plan(other).outcome,
        jvm_plan(one).tasks.len() == jvm_plan(other).tasks.len(),
        forall|i: int|
            0 <= i < jvm_plan(one).tasks.len() ==> {
                ||| #[trigger] jvm_plan(one).tasks[i] == jvm_plan(other).tasks[i]
                ||| differ_in_arguments(jvm_plan(one).tasks[i], jvm_plan(other).tasks[i]) && (
                jvm_plan(one).tasks[i].name == "compile-tests"@ || jvm_plan(one).tasks[i].name
                    == "test"@)
            },
{
    if let Some(project_dir) = one.str_at("projectDir"@) {
        if let Some(jvm) = one.get("jvm"@) {
            if let Ok(module) = jvm_module(one, jvm, project_dir) {
                let main = module.main_tasks();
                let names = module.compile_tasks();
                let first = test_tasks(one, jvm, project_dir, module.classes_dir, names);
                let second = test_tasks(other, jvm, project_dir, module.classes_dir, names);
                lemma_suites_differ_in_the_tests(
                    one,
                    other,
                    jvm,
                    project_dir,
                    module.classes_dir,
                    names,
                );
                if first is Ok {
                    assert(jvm_plan(one).tasks == main + first->Ok_0);
                    assert(jvm_plan(other).tasks == main + second->Ok_0);
                }
            }
        }
    }
}

/// The test suites of two modules with the same block fail alike, or differ only
/// in how the tests are compiled and run.
proof fn lemma_suites_differ_in_the_tests(
    one: JsonModel,
    other: JsonModel,
    jvm: JsonModel,
    project_dir: Seq<char>,
    classes_dir: Seq<char>,
    names: Seq<Seq<char>>,
)
    ensures
        match (
            test_tasks(one, jvm, project_dir, classes_dir, names),
            test_tasks(other, jvm, project_dir, classes_dir, names),
        ) {
            (Ok(first), Ok(second)) => {
                &&& first.len() == second.len()
                &&& forall|i: int|
                    0 <= i < first.len() ==> {
                        ||| #[trigger] first[i] == second[i]
                        ||| differ_in_arguments(first[i], second[i]) && (first[i].name
                            == "compile-tests"@ || first[i].name == "test"@)
                    }
            },
            (Err(a), Err(b)) => a == b,
            _ => false,
        },
{
}

} // verus!
