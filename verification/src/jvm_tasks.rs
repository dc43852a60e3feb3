//! Tasks of the plain-JVM toolchain, and the generated test runner.

use crate::invocations::{compile_args, compiler_args, jar_args, packing_args};
use crate::task::{
    file_task, run_tool_task, tool_task, write_file_task, AllowlistedTool, Task, TaskModel,
};
use crate::text::{no_texts, one_text, texts, two_texts};
use vstd::prelude::*;

verus! {

/// Where the generated test runner lands, relative to the project directory.
pub const TEST_RUNNER_SOURCE_PATH: &'static str =
    "build/generated-test-src/ulite/TestRunner.java";

/// The class name of the generated test runner.
pub const TEST_RUNNER_CLASS: &'static str = "ulite.TestRunner";

/// A task that runs one of the compilers over the given sources.
pub open spec fn compiling(
    name: Seq<char>,
    tool: AllowlistedTool,
    classes_dir: Seq<char>,
    classpath: Seq<Seq<char>>,
    sources: Seq<Seq<char>>,
    depends_on: Seq<Seq<char>>,
) -> TaskModel {
    tool_task(
        name,
        sources,
        seq![classes_dir],
        depends_on,
        tool,
        compiler_args(classes_dir, classpath, sources),
    )
}

/// A task that packs a classes directory into a jar.
pub open spec fn assembling(
    name: Seq<char>,
    classes_dir: Seq<char>,
    jar_file: Seq<char>,
    depends_on: Seq<Seq<char>>,
) -> TaskModel {
    tool_task(
        name,
        seq![classes_dir],
        seq![jar_file],
        depends_on,
        AllowlistedTool::Jar,
        packing_args(jar_file, classes_dir),
    )
}

/// The task that writes the test runner.
pub open spec fn generating_runner(path: Seq<char>, source: Seq<char>) -> TaskModel {
    file_task("generate-test-runner"@, path, source, seq![])
}

/// The task that runs the compiled tests.
pub open spec fn testing(
    test_classes_dir: Seq<char>,
    classes_dir: Seq<char>,
    args: Seq<Seq<char>>,
) -> TaskModel {
    tool_task(
        "test"@,
        seq![test_classes_dir, classes_dir],
        seq![],
        seq!["compile-tests"@],
        AllowlistedTool::Java,
        args,
    )
}

/// A task that runs one of the compilers over the given sources.
pub fn compile_task(
    name: &str,
    tool: AllowlistedTool,
    classes_dir: &str,
    classpath: &[String],
    sources: Vec<String>,
    depends_on: Vec<String>,
) -> (r: Task)
    ensures
        r@ == compiling(
            name@,
            tool,
            classes_dir@,
            texts(classpath@),
            texts(sources@),
            texts(depends_on@),
        ),
{
    let args = compile_args(classes_dir, classpath, &sources);
    run_tool_task(name, sources, one_text(classes_dir), depends_on, tool, args)
}

/// A task that packs a classes directory into a jar.
pub fn assemble_task(
    name: &str,
    classes_dir: &str,
    jar_file: &str,
    depends_on: Vec<String>,
) -> (r: Task)
    ensures
        r@ == assembling(name@, classes_dir@, jar_file@, texts(depends_on@)),
{
    run_tool_task(
        name,
        one_text(classes_dir),
        one_text(jar_file),
        depends_on,
        AllowlistedTool::Jar,
        jar_args(jar_file, classes_dir),
    )
}

/// The task that writes the test runner.
pub fn runner_task(path: &str, source: &str) -> (r: Task)
    ensures
        r@ == generating_runner(path@, source@),
{
    write_file_task("generate-test-runner", path, source, no_texts())
}

/// The task that runs the compiled tests.
pub fn test_task(test_classes_dir: &str, classes_dir: &str, args: Vec<String>) -> (r: Task)
    ensures
        r@ == testing(test_classes_dir@, classes_dir@, texts(args@)),
{
    run_tool_task(
        "test",
        two_texts(test_classes_dir, classes_dir),
        no_texts(),
        one_text("compile-tests"),
        AllowlistedTool::Java,
        args,
    )
}

} // verus!
