//! Source sets, classpaths and variants of the multiplatform plugin.

use ulb_plugins::invocations::run_test_args;
use ulb_plugins::json::Json;
use ulb_plugins::kmp::classpath::{
    kotlinc_android_args, merged_classpath, merged_classpath_bucket, source_set_classpath,
    source_set_classpath_bucket,
};
use ulb_plugins::kmp::plan::TEST_RUNNER_SOURCE;
use ulb_plugins::kmp::source_sets::optional_string_list;
use ulb_plugins::kmp::variants::compute_variants;
use ulb_plugins::letter_case::to_pascal_case;
use ulb_plugins::parse::parse_json;

fn json(text: &str) -> Json {
    parse_json(text).expect("well-formed JSON")
}

#[test]
fn optional_string_list_reads_and_errors() {
    let block = json(r#"{ "sources": ["a.kt", "b.kt"] }"#);
    assert_eq!(
        optional_string_list(&block, "sources").expect("parses"),
        vec!["a.kt".to_owned(), "b.kt".to_owned()]
    );
    assert!(
        optional_string_list(&block, "missing")
            .expect("missing is empty")
            .is_empty()
    );
    assert!(
        optional_string_list(&json(r#"{ "sources": "a.kt" }"#), "sources").is_err()
    );
}

#[test]
fn source_set_classpath_reads_a_resolved_source_set() {
    let config = json(r#"{
        "classpathSourceSets": {
            "kmp.commonMain": { "compile": ["/repos/shared.jar"] }
        }
    }"#);
    assert_eq!(
        source_set_classpath(&config, "kmp.commonMain"),
        vec!["/repos/shared.jar".to_owned()]
    );
    assert!(source_set_classpath(&config, "kmp.jvmMain").is_empty());
    assert!(source_set_classpath(&json(r#"{}"#), "kmp.commonMain").is_empty());
}

#[test]
fn target_classpath_unions_source_sets_in_hierarchy_order() {
    let config = json(r#"{
        "classpathSourceSets": {
            "kmp.commonMain": { "compile": ["/repos/shared.jar", "/repos/other.jar"] },
            "kmp.jvmMain": { "compile": ["/repos/jvm.jar", "/repos/shared.jar"] }
        }
    }"#);
    assert_eq!(
        merged_classpath(&config, &["commonMain", "jvmMain"]),
        vec![
            "/repos/shared.jar".to_owned(),
            "/repos/other.jar".to_owned(),
            "/repos/jvm.jar".to_owned(),
        ]
    );
}

#[test]
fn kotlinc_android_includes_platform_jar_and_jvm_target() {
    let args = kotlinc_android_args(
        "/proj/build/classes",
        "/sdk/platforms/android-34/android.jar",
        &["/repos/lib.jar".to_owned()],
        &["/proj/src/Foo.kt".to_owned()],
        None,
    );
    assert!(args.contains(&"-d".to_owned()));
    assert!(args.contains(&"/proj/build/classes".to_owned()));
    assert!(args.contains(&"-cp".to_owned()));
    assert!(args.contains(&"-jvm-target".to_owned()));
    assert!(args.contains(&"17".to_owned()));
    assert!(args.contains(&"/proj/src/Foo.kt".to_owned()));
    assert!(!args.iter().any(|a| a.starts_with("-Xplugin=")));
}

#[test]
fn kotlinc_android_loads_compose_plugin_via_xplugin() {
    let args = kotlinc_android_args(
        "/proj/build/classes",
        "/sdk/platforms/android-34/android.jar",
        &[],
        &["/proj/src/Foo.kt".to_owned()],
        Some("/maven/compose-compiler-plugin-2.0.jar"),
    );
    assert!(
        args.contains(&"-Xplugin=/maven/compose-compiler-plugin-2.0.jar".to_owned()),
        "compose JAR must be loaded via -Xplugin=<path>, got: {args:?}"
    );
}

#[test]
fn to_pascal_case_handles_variants() {
    assert_eq!(to_pascal_case("debug"), "Debug");
    assert_eq!(to_pascal_case("release"), "Release");
    assert_eq!(to_pascal_case("free"), "Free");
}

#[test]
fn compute_variants_respects_build_type_min_sdk_override() {
    let config = json(r#"{
        "android": { "compileSdk": 34, "minSdk": 21 },
        "buildTypes": {
            "debug": {},
            "release": { "minSdk": 24 }
        }
    }"#);
    let variants = compute_variants(&config).unwrap();
    let debug = variants.iter().find(|v| v.name == "Debug").unwrap();
    let release = variants.iter().find(|v| v.name == "Release").unwrap();
    assert_eq!(debug.min_sdk, 21);
    assert_eq!(release.min_sdk, 24);
}

#[test]
fn compute_variants_flavor_min_sdk_takes_precedence() {
    let config = json(r#"{
        "android": { "compileSdk": 34, "minSdk": 21 },
        "buildTypes": {
            "release": { "minSdk": 24 }
        },
        "productFlavors": {
            "dimension": "tier",
            "free": { "dimension": "tier" },
            "pro": { "dimension": "tier", "minSdk": 28 }
        }
    }"#);
    let variants = compute_variants(&config).unwrap();
    let free_release = variants.iter().find(|v| v.name == "ReleaseFree").unwrap();
    let pro_release = variants.iter().find(|v| v.name == "ReleasePro").unwrap();
    assert_eq!(free_release.min_sdk, 24);
    assert_eq!(pro_release.min_sdk, 28);
}

#[test]
fn source_set_classpath_bucket_reads_any_bucket() {
    let config = json(r#"{
        "classpathSourceSets": {
            "kmp.commonMain": {
                "compile": ["/repos/compile.jar"],
                "testCompile": ["/repos/test-compile.jar"],
                "testRuntime": ["/repos/test-runtime.jar"],
                "runtime": ["/repos/runtime.jar"]
            }
        }
    }"#);
    assert_eq!(
        source_set_classpath_bucket(&config, "kmp.commonMain", "compile"),
        vec!["/repos/compile.jar".to_owned()]
    );
    assert_eq!(
        source_set_classpath_bucket(&config, "kmp.commonMain", "testCompile"),
        vec!["/repos/test-compile.jar".to_owned()]
    );
    assert_eq!(
        source_set_classpath_bucket(&config, "kmp.commonMain", "testRuntime"),
        vec!["/repos/test-runtime.jar".to_owned()]
    );
    assert_eq!(
        source_set_classpath_bucket(&config, "kmp.commonMain", "runtime"),
        vec!["/repos/runtime.jar".to_owned()]
    );
    assert!(source_set_classpath_bucket(&config, "kmp.jvmMain", "compile").is_empty());
}

#[test]
fn merged_classpath_bucket_unions_across_source_sets() {
    let config = json(r#"{
        "classpathSourceSets": {
            "kmp.commonTest": { "testCompile": ["/repos/shared.jar", "/repos/other.jar"] },
            "kmp.jvmTest": { "testCompile": ["/repos/jvm-test.jar", "/repos/shared.jar"] }
        }
    }"#);
    assert_eq!(
        merged_classpath_bucket(&config, &["commonTest", "jvmTest"], "testCompile"),
        vec![
            "/repos/shared.jar".to_owned(),
            "/repos/other.jar".to_owned(),
            "/repos/jvm-test.jar".to_owned(),
        ]
    );
}

#[test]
fn run_test_args_builds_cp_and_class() {
    let args = run_test_args(
        &[
            "/repos/junit.jar".to_owned(),
            "/proj/build/test-classes".to_owned(),
        ],
        "com.example.AppTest",
        &[],
    );
    assert_eq!(
        args,
        vec![
            "-cp".to_owned(),
            "/repos/junit.jar:/proj/build/test-classes".to_owned(),
            "com.example.AppTest".to_owned(),
        ]
    );
}

#[test]
fn run_test_args_appends_extra_args() {
    let args = run_test_args(
        &["/repos/junit.jar".to_owned()],
        "org.junit.runner.JUnitCore",
        &["com.example.AppTest".to_owned()],
    );
    assert_eq!(
        args,
        vec![
            "-cp".to_owned(),
            "/repos/junit.jar".to_owned(),
            "org.junit.runner.JUnitCore".to_owned(),
            "com.example.AppTest".to_owned(),
        ]
    );
}

#[test]
fn run_test_args_for_generated_runner() {
    let args = run_test_args(
        &[
            "/repos/junit.jar".to_owned(),
            "/proj/build/test-classes".to_owned(),
            "/proj/build/classes".to_owned(),
        ],
        "ulite.TestRunner",
        &["/proj/build/test-classes".to_owned()],
    );
    assert_eq!(
        args,
        vec![
            "-cp".to_owned(),
            "/repos/junit.jar:/proj/build/test-classes:/proj/build/classes".to_owned(),
            "ulite.TestRunner".to_owned(),
            "/proj/build/test-classes".to_owned(),
        ]
    );
}

#[test]
fn generated_runner_source_mentions_launcher_api() {
    assert!(TEST_RUNNER_SOURCE.contains("LauncherFactory"));
    assert!(TEST_RUNNER_SOURCE.contains("DiscoverySelectors"));
    assert!(TEST_RUNNER_SOURCE.contains("SummaryGeneratingListener"));
}
