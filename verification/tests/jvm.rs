//! Command lines and block keys of the JVM plugin.

use ulb_plugins::invocations::{ksp_args, ksp_output_dirs, run_test_args};
use ulb_plugins::json::Json;
use ulb_plugins::jvm::{string_list, TEST_RUNNER_SOURCE};
use ulb_plugins::jvm_tasks::TEST_RUNNER_SOURCE_PATH;
use ulb_plugins::parse::parse_json;

fn json(text: &str) -> Json {
    parse_json(text).expect("well-formed JSON")
}

#[test]
fn test_run_invocation_prepends_the_classpath_and_names_the_class() {
    let args = run_test_args(
        &[
            "/repos/junit.jar".to_owned(),
            "/proj/build/test-classes".to_owned(),
            "/proj/build/classes".to_owned(),
        ],
        "com.example.AppTest",
        &[],
    );
    assert_eq!(
        args,
        vec![
            "-cp".to_owned(),
            "/repos/junit.jar:/proj/build/test-classes:/proj/build/classes".to_owned(),
            "com.example.AppTest".to_owned(),
        ]
    );
}

#[test]
fn test_run_invocation_appends_runner_arguments_after_the_class() {
    let args = run_test_args(
        &[
            "/proj/build/test-classes".to_owned(),
            "/proj/build/classes".to_owned(),
        ],
        "org.junit.runner.JUnitCore",
        &["com.example.AppTest".to_owned()],
    );
    assert_eq!(
        args,
        vec![
            "-cp".to_owned(),
            "/proj/build/test-classes:/proj/build/classes".to_owned(),
            "org.junit.runner.JUnitCore".to_owned(),
            "com.example.AppTest".to_owned(),
        ]
    );
}

#[test]
fn ksp_invocation_runs_the_tool_against_the_processor_classpath() {
    let args = ksp_args(
        "/proj",
        &["/proj/src/Main.kt".to_owned()],
        &["/repos/one.jar".to_owned()],
        &[
            "/repos/ksp-toolchain.jar".to_owned(),
            "/repos/processor.jar".to_owned(),
        ],
    );
    assert_eq!(
        args,
        vec![
            "-cp".to_owned(),
            "/repos/ksp-toolchain.jar:/repos/processor.jar".to_owned(),
            "com.google.devtools.ksp.cmdline.KSPJvmMain".to_owned(),
            "-jvm-target".to_owned(),
            "11".to_owned(),
            "-module-name".to_owned(),
            "main".to_owned(),
            "-source-roots=/proj/src/Main.kt".to_owned(),
            "-project-base-dir=/proj".to_owned(),
            "-output-base-dir=/proj/build".to_owned(),
            "-caches-dir=/proj/build/ksp-caches".to_owned(),
            "-class-output-dir=/proj/build/ksp-classes".to_owned(),
            "-kotlin-output-dir=/proj/build/generated/ksp/kotlin".to_owned(),
            "-java-output-dir=/proj/build/generated/ksp/java".to_owned(),
            "-resource-output-dir=/proj/build/ksp-resources".to_owned(),
            "-language-version".to_owned(),
            "2.0".to_owned(),
            "-api-version".to_owned(),
            "2.0".to_owned(),
            "-libraries=/repos/one.jar".to_owned(),
            "/repos/ksp-toolchain.jar:/repos/processor.jar".to_owned(),
        ]
    );
}

#[test]
fn ksp_invocation_omits_libraries_when_the_compile_classpath_is_empty() {
    let args = ksp_args(
        "/proj",
        &["/proj/src/Main.kt".to_owned()],
        &[],
        &["/repos/processor.jar".to_owned()],
    );
    assert!(!args.contains(&"-libraries=/repos/one.jar".to_owned()));
    assert_eq!(args.last().unwrap(), "/repos/processor.jar");
}

#[test]
fn ksp_output_dirs_split_kotlin_and_java_generation() {
    let (kotlin_out, java_out) = ksp_output_dirs("/proj");
    assert_eq!(kotlin_out, "/proj/build/generated/ksp/kotlin");
    assert_eq!(java_out, "/proj/build/generated/ksp/java");
}

#[test]
fn string_list_reads_and_errors() {
    let block = json(r#"{ "sources": ["a.java", "b.java"] }"#);
    assert_eq!(
        string_list(&block, "sources").expect("parses"),
        vec!["a.java".to_owned(), "b.java".to_owned()]
    );
    assert!(string_list(&block, "missing").is_err());
}

#[test]
fn generated_runner_source_targets_the_launcher_api() {
    assert!(TEST_RUNNER_SOURCE.contains("LauncherDiscoveryRequestBuilder.request()"));
    assert!(TEST_RUNNER_SOURCE.contains("SummaryGeneratingListener"));
    assert!(TEST_RUNNER_SOURCE.contains("summary.getTotalFailureCount() > 0"));
    assert!(TEST_RUNNER_SOURCE.contains("class TestRunner"));
    assert!(TEST_RUNNER_SOURCE_PATH.ends_with("ulite/TestRunner.java"));
}

#[test]
fn generated_runner_invocation_scan_arguments_follow_the_class() {
    let args = run_test_args(
        &[
            "/repos/launcher.jar".to_owned(),
            "/proj/build/test-classes".to_owned(),
            "/proj/build/classes".to_owned(),
        ],
        "ulite.TestRunner",
        &["/proj/build/test-classes".to_owned()],
    );
    assert_eq!(
        args,
        vec![
            "-cp".to_owned(),
            "/repos/launcher.jar:/proj/build/test-classes:/proj/build/classes".to_owned(),
            "ulite.TestRunner".to_owned(),
            "/proj/build/test-classes".to_owned(),
        ]
    );
}
