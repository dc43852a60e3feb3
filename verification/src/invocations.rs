//! The command lines of the JDK and Kotlin tools.

use crate::text::{concat, extend_texts, join_texts, joined, one_text, push_text, texts};
use vstd::prelude::*;

verus! {

/// The entries of a classpath as one text.
pub open spec fn path_list(entries: Seq<Seq<char>>) -> Seq<char> {
    joined(entries, ":"@)
}

/// A compiler run: where classes go, the classpath unless it is empty, and the
/// sources.
pub open spec fn compiler_args(
    classes_dir: Seq<char>,
    classpath: Seq<Seq<char>>,
    sources: Seq<Seq<char>>,
) -> Seq<Seq<char>> {
    if classpath.len() == 0 {
        seq!["-d"@, classes_dir] + sources
    } else {
        seq!["-d"@, classes_dir, "-cp"@, path_list(classpath)] + sources
    }
}

/// A `jar` run that packs the classes directory.
pub open spec fn packing_args(jar_file: Seq<char>, classes_dir: Seq<char>) -> Seq<Seq<char>> {
    seq!["cf"@, jar_file, "-C"@, classes_dir, "."@]
}

/// A `java` run of a test class.
pub open spec fn test_args(
    classpath: Seq<Seq<char>>,
    test_class: Seq<char>,
    args: Seq<Seq<char>>,
) -> Seq<Seq<char>> {
    seq!["-cp"@, path_list(classpath), test_class] + args
}

/// The directories KSP writes Kotlin and Java sources into.
pub open spec fn ksp_dirs(project_dir: Seq<char>) -> (Seq<char>, Seq<char>) {
    (
        project_dir + "/build/generated/ksp/kotlin"@,
        project_dir + "/build/generated/ksp/java"@,
    )
}

/// The fixed front of a KSP run.
pub open spec fn ksp_front(
    project_dir: Seq<char>,
    kotlin_sources: Seq<Seq<char>>,
    processor_classpath: Seq<Seq<char>>,
) -> Seq<Seq<char>> {
    seq![
        "-cp"@,
        path_list(processor_classpath),
        "com.google.devtools.ksp.cmdline.KSPJvmMain"@,
        "-jvm-target"@,
        "11"@,
        "-module-name"@,
        "main"@,
        "-source-roots="@ + path_list(kotlin_sources),
        "-project-base-dir="@ + project_dir,
        "-output-base-dir="@ + (project_dir + "/build"@),
        "-caches-dir="@ + (project_dir + "/build/ksp-caches"@),
        "-class-output-dir="@ + (project_dir + "/build/ksp-classes"@),
        "-kotlin-output-dir="@ + ksp_dirs(project_dir).0,
        "-java-output-dir="@ + ksp_dirs(project_dir).1,
        "-resource-output-dir="@ + (project_dir + "/build/ksp-resources"@),
        "-language-version"@,
        "2.0"@,
        "-api-version"@,
        "2.0"@,
    ]
}

/// A `java` run of the KSP command-line tool.
pub open spec fn ksp_run(
    project_dir: Seq<char>,
    kotlin_sources: Seq<Seq<char>>,
    compile_classpath: Seq<Seq<char>>,
    processor_classpath: Seq<Seq<char>>,
) -> Seq<Seq<char>> {
    let front = ksp_front(project_dir, kotlin_sources, processor_classpath);
    if compile_classpath.len() == 0 {
        front.push(path_list(processor_classpath))
    } else {
        front.push("-libraries="@ + path_list(compile_classpath)).push(
            path_list(processor_classpath),
        )
    }
}

/// The entries of a classpath as one text.
pub fn classpath_text(entries: &[String]) -> (r: String)
    ensures
        r@ == path_list(texts(entries@)),
{
    join_texts(entries, ":")
}

/// A compiler run: emit classes to `-d`, feed the classpath to `-cp` when there
/// is one, so that an empty classpath keeps the compiler's own defaults, then
/// the sources. Both compilers take this shape.
pub fn compile_args(classes_dir: &str, classpath: &[String], sources: &[String]) -> (r: Vec<
    String,
>)
    ensures
        texts(r@) == compiler_args(classes_dir@, texts(classpath@), texts(sources@)),
{
    let mut args = one_text("-d");
    push_text(&mut args, classes_dir);
    if classpath.len() > 0 {
        push_text(&mut args, "-cp");
        push_text(&mut args, classpath_text(classpath).as_str());
    }
    extend_texts(&mut args, sources);
    args
}

/// The `jar` run of an assemble task: create the jar and pack the classes
/// directory.
pub fn jar_args(jar_file: &str, classes_dir: &str) -> (r: Vec<String>)
    ensures
        texts(r@) == packing_args(jar_file@, classes_dir@),
{
    let mut args = one_text("cf");
    push_text(&mut args, jar_file);
    push_text(&mut args, "-C");
    push_text(&mut args, classes_dir);
    push_text(&mut args, ".");
    args
}

/// The `java` run of a test task: the test class with the runtime classpath,
/// followed by extra arguments.
pub fn run_test_args(classpath: &[String], test_class: &str, args: &[String]) -> (r: Vec<String>)
    ensures
        texts(r@) == test_args(texts(classpath@), test_class@, texts(args@)),
{
    let mut invocation = one_text("-cp");
    push_text(&mut invocation, classpath_text(classpath).as_str());
    push_text(&mut invocation, test_class);
    extend_texts(&mut invocation, args);
    invocation
}

/// The directories KSP writes its generated sources into, Kotlin first and Java
/// second.
pub fn ksp_output_dirs(project_dir: &str) -> (r: (String, String))
    ensures
        (r.0@, r.1@) == ksp_dirs(project_dir@),
{
    (
        concat(project_dir, "/build/generated/ksp/kotlin"),
        concat(project_dir, "/build/generated/ksp/java"),
    )
}

/// The `java` run of the KSP command-line tool against the module's Kotlin
/// sources.
///
/// The processor classpath is `-cp`, and again the last argument, from which
/// KSP loads the processors. The compile classpath becomes `-libraries`.
pub fn ksp_args(
    project_dir: &str,
    kotlin_sources: &[String],
    compile_classpath: &[String],
    processor_classpath: &[String],
) -> (r: Vec<String>)
    ensures
        texts(r@) == ksp_run(
            project_dir@,
            texts(kotlin_sources@),
            texts(compile_classpath@),
            texts(processor_classpath@),
        ),
{
    let (kotlin_out, java_out) = ksp_output_dirs(project_dir);
    let mut args = one_text("-cp");
    push_text(&mut args, classpath_text(processor_classpath).as_str());
    push_text(&mut args, "com.google.devtools.ksp.cmdline.KSPJvmMain");
    push_text(&mut args, "-jvm-target");
    push_text(&mut args, "11");
    push_text(&mut args, "-module-name");
    push_text(&mut args, "main");
    push_text(&mut args, concat("-source-roots=", classpath_text(kotlin_sources).as_str()).as_str());
    push_text(&mut args, concat("-project-base-dir=", project_dir).as_str());
    push_text(
        &mut args,
        concat("-output-base-dir=", concat(project_dir, "/build").as_str()).as_str(),
    );
    push_text(
        &mut args,
        concat("-caches-dir=", concat(project_dir, "/build/ksp-caches").as_str()).as_str(),
    );
    push_text(
        &mut args,
        concat("-class-output-dir=", concat(project_dir, "/build/ksp-classes").as_str()).as_str(),
    );
    push_text(&mut args, concat("-kotlin-output-dir=", kotlin_out.as_str()).as_str());
    push_text(&mut args, concat("-java-output-dir=", java_out.as_str()).as_str());
    push_text(
        &mut args,
        concat(
            "-resource-output-dir=",
            concat(project_dir, "/build/ksp-resources").as_str(),
        ).as_str(),
    );
    push_text(&mut args, "-language-version");
    push_text(&mut args, "2.0");
    push_text(&mut args, "-api-version");
    push_text(&mut args, "2.0");
    if compile_classpath.len() > 0 {
        push_text(
            &mut args,
            concat("-libraries=", classpath_text(compile_classpath).as_str()).as_str(),
        );
    }
    push_text(&mut args, classpath_text(processor_classpath).as_str());
    args
}

} // verus!
