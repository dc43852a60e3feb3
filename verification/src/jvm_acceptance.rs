//! Which modules the `ulite/jvm` plugin accepts.

use crate::json::JsonModel;
use crate::jvm::{
    checked_tests, declared_sources, declared_tests, jvm_module, jvm_plan, parsed_plan, test_tasks,
};
use crate::jvm_commands::{kotlin_files, lemma_halves, lemma_required_list_is_listed};
use crate::meaning::{
    are_sources, is_string_list, lemma_module_classpath_is_listed, listing, module_jars,
};
use crate::path::all_joined;
use crate::sources::{checked_sources, is_accepted, is_java, law_sources_pass_when_each_is_accepted};
use crate::text::ends_with;
use vstd::prelude::*;

verus! {

/// The block describes a main build: some sources, all Java or Kotlin, a place
/// for the classes and one for the jar, and Kotlin to process where there are
/// processors.
pub open spec fn is_buildable(config: JsonModel, jvm: JsonModel, project_dir: Seq<char>) -> bool {
    let sources = all_joined(project_dir, listing(jvm.get("sources"@)));
    &&& is_string_list(jvm.get("sources"@))
    &&& sources.len() > 0
    &&& are_sources(sources)
    &&& jvm.str_at("classesDir"@) is Some
    &&& jvm.str_at("jarFile"@) is Some
    &&& module_jars(config, "processor"@).len() > 0 ==> kotlin_files(sources).len() > 0
}

/// The block describes no tests, or all of a suite: some sources, all Java, a
/// place for the classes, and either a class to run or the one known runner.
pub open spec fn is_testable(jvm: JsonModel, project_dir: Seq<char>) -> bool {
    let sources = all_joined(project_dir, listing(jvm.get("testSources"@)));
    match (jvm.get("testSources"@), jvm.str_at("testClassesDir"@)) {
        (None, None) => jvm.str_at("testClass"@) is None,
        (Some(_), Some(_)) => {
            &&& is_string_list(jvm.get("testSources"@))
            &&& sources.len() > 0
            &&& forall|i: int|
                0 <= i < sources.len() ==> ends_with(#[trigger] sources[i], ".java"@)
            &&& match (jvm.str_at("testClass"@), jvm.str_at("testRunner"@)) {
                (Some(_), None) => jvm.get("testArgs"@) is None || is_string_list(
                    jvm.get("testArgs"@),
                ),
                (None, Some(runner)) => runner == "junit-platform"@,
                _ => false,
            }
        },
        _ => false,
    }
}

/// Tests pass exactly when each of them is Java.
proof fn lemma_tests_pass_when_each_is_java(sources: Seq<Seq<char>>)
    ensures
        checked_tests(sources) is Ok <==> forall|i: int|
            0 <= i < sources.len() ==> ends_with(#[trigger] sources[i], ".java"@),
    decreases sources.len(),
{
    if sources.len() > 0 {
        let rest = sources.drop_first();
        lemma_tests_pass_when_each_is_java(rest);
        if checked_tests(sources) is Ok {
            assert forall|i: int| 0 <= i < sources.len() implies ends_with(
                #[trigger] sources[i],
                ".java"@,
            ) by {
                if i > 0 {
                    assert(rest[i - 1] == sources[i]);
                }
            }
        } else if is_java(sources[0]) {
            let i = choose|i: int|
                0 <= i < rest.len() && !ends_with(#[trigger] rest[i], ".java"@);
            assert(sources[i + 1] == rest[i]);
        }
    }
}

/// The first test source that is no Java is reported.
pub proof fn law_first_test_that_is_no_java_is_reported(sources: Seq<Seq<char>>, k: int)
    requires
        0 <= k < sources.len(),
        !ends_with(sources[k], ".java"@),
        forall|i: int| 0 <= i < k ==> ends_with(#[trigger] sources[i], ".java"@),
    ensures
        checked_tests(sources) == Err::<(), _>(
            "test source '"@ + sources[k]
                + "' is not a .java file; kotlin test compilation is not supported"@,
        ),
    decreases k,
{
    if k > 0 {
        let rest = sources.drop_first();
        assert forall|i: int| 0 <= i < k - 1 implies ends_with(#[trigger] rest[i], ".java"@) by {
            assert(rest[i] == sources[i + 1]);
        }
        assert(ends_with(sources[0], ".java"@));
        law_first_test_that_is_no_java_is_reported(rest, k - 1);
    }
}

/// Sources pass exactly when each is Java or Kotlin.
pub proof fn lemma_sources_pass_when_they_are_sources(sources: Seq<Seq<char>>)
    ensures
        checked_sources(sources) is Ok <==> are_sources(sources),
{
    law_sources_pass_when_each_is_accepted(sources);
    if are_sources(sources) {
        assert forall|i: int| 0 <= i < sources.len() implies is_accepted(
            #[trigger] sources[i],
        ) by {}
    }
}

/// A plan has the tasks of the main build exactly where the block describes one,
/// and it succeeds exactly where the block describes no tests either, or all of
/// a suite.
pub proof fn law_plan_succeeds_for_what_is_described(
    config: JsonModel,
    jvm: JsonModel,
    project_dir: Seq<char>,
)
    requires
        config.str_at("projectDir"@) == Some(project_dir),
        config.get("jvm"@) == Some(jvm),
    ensures
        jvm_plan(config).tasks.len() > 0 <==> is_buildable(config, jvm, project_dir),
        jvm_plan(config).outcome is Ok <==> is_buildable(config, jvm, project_dir)
            && is_testable(jvm, project_dir),
{
    let sources = all_joined(project_dir, listing(jvm.get("sources"@)));
    let tests = all_joined(project_dir, listing(jvm.get("testSources"@)));
    lemma_required_list_is_listed(jvm, "jvm"@, "sources"@);
    lemma_required_list_is_listed(jvm, "jvm"@, "testSources"@);
    lemma_module_classpath_is_listed(config, "processor"@);
    lemma_halves(sources);
    lemma_sources_pass_when_they_are_sources(sources);
    lemma_sources_pass_when_they_are_sources(tests);
    lemma_tests_pass_when_each_is_java(tests);
    assert(declared_sources(jvm, project_dir) is Ok <==> is_string_list(jvm.get("sources"@))
        && sources.len() > 0 && are_sources(sources));
    assert(jvm_module(config, jvm, project_dir) is Ok <==> is_buildable(config, jvm, project_dir));
    assert(declared_tests(jvm, project_dir) is Ok <==> is_string_list(jvm.get("testSources"@))
        && tests.len() > 0 && forall|i: int|
        0 <= i < tests.len() ==> ends_with(#[trigger] tests[i], ".java"@));
    if let Ok(module) = jvm_module(config, jvm, project_dir) {
        assert(module.main_tasks().len() > 0);
        let outcome = test_tasks(
            config,
            jvm,
            project_dir,
            module.classes_dir,
            module.compile_tasks(),
        );
        assert(outcome is Ok <==> is_testable(jvm, project_dir));
    }
}

/// A configuration without a project directory, or without a block, is refused,
/// and nothing is planned.
pub proof fn law_incomplete_configuration_is_refused(config: JsonModel)
    requires
        config.str_at("projectDir"@) is None || config.get("jvm"@) is None,
    ensures
        jvm_plan(config).outcome is Err,
        jvm_plan(config).tasks.len() == 0,
{
}

/// A text that is no JSON is refused with the reader's message, and nothing is
/// planned; any other is planned as the configuration it spells.
pub proof fn law_unreadable_configuration_is_refused(parsed: Result<JsonModel, Seq<char>>)
    ensures
        match parsed {
            Ok(config) => parsed_plan(parsed) == jvm_plan(config),
            Err(e) => {
                &&& parsed_plan(parsed).tasks.len() == 0
                &&& parsed_plan(parsed).outcome == Err::<(), _>(
                    "invalid module config JSON: "@ + e,
                )
            },
        },
{
}

} // verus!
