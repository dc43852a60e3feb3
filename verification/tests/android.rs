//! Android block keys, variants, generated sources and command lines.

use ulb_plugins::android::build_config::{
    generate_buildconfig_source, parse_build_config_fields, BuildConfigField, BuildConfigParams,
};
use ulb_plugins::android::invocations::{
    compile_args, d8_args, kotlinc_android_args, package_args, rgen_java_path,
};
use ulb_plugins::android::keys::{
    bool_value, int_value, optional_int, resolve_sdk_root, string_list, string_value,
};
use ulb_plugins::android::variants::{compute_variants, merge_variant_sources, FlavorInfo};
use ulb_plugins::blocks::classpath_bucket;
use ulb_plugins::json::{Json, SortedMap};
use ulb_plugins::letter_case::to_pascal_case;
use ulb_plugins::parse::parse_json;
use ulb_plugins::sdk::version_rank;
use ulb_plugins::sources::{
    find_compose_compiler_jar, partition_sources, reject_unknown_extensions,
};

fn json(text: &str) -> Json {
    parse_json(text).expect("well-formed JSON")
}

fn one_flavor(name: String, info: FlavorInfo) -> SortedMap<FlavorInfo> {
    let mut flavors = SortedMap::new();
    flavors.insert(name, info);
    flavors
}

#[test]
fn compiler_invocation_pins_release_and_heads_the_classpath_with_the_platform_jar() {
    let rgen = "/proj/build/android/R";
    let args = compile_args(
        "/proj/build/classes",
        &[
            "/sdk/platforms/android-36/android.jar".to_owned(),
            "/repos/one.jar".to_owned(),
        ],
        &["/proj/src/Main.java".to_owned()],
        rgen,
        &rgen_java_path(rgen, "com.example.ulite"),
        None,
    );
    assert_eq!(
        args,
        vec![
            "--release".to_owned(),
            "17".to_owned(),
            "-d".to_owned(),
            "/proj/build/classes".to_owned(),
            "-cp".to_owned(),
            "/sdk/platforms/android-36/android.jar:/repos/one.jar".to_owned(),
            "-sourcepath".to_owned(),
            "/proj/build/android/R".to_owned(),
            "/proj/src/Main.java".to_owned(),
            "/proj/build/android/R/com/example/ulite/R.java".to_owned(),
        ]
    );
}

#[test]
fn compiler_invocation_keeps_cp_for_a_dep_free_module() {
    let rgen = "/proj/build/android/R";
    let args = compile_args(
        "/proj/build/classes",
        &["/sdk/platforms/android-36/android.jar".to_owned()],
        &["/proj/src/Main.java".to_owned()],
        rgen,
        &rgen_java_path(rgen, "com.example.ulite"),
        None,
    );
    assert_eq!(
        args,
        vec![
            "--release".to_owned(),
            "17".to_owned(),
            "-d".to_owned(),
            "/proj/build/classes".to_owned(),
            "-cp".to_owned(),
            "/sdk/platforms/android-36/android.jar".to_owned(),
            "-sourcepath".to_owned(),
            "/proj/build/android/R".to_owned(),
            "/proj/src/Main.java".to_owned(),
            "/proj/build/android/R/com/example/ulite/R.java".to_owned(),
        ]
    );
}

#[test]
fn rgen_java_path_maps_namespace_dots_to_directories() {
    assert_eq!(
        rgen_java_path(
            "/proj/build/android/R",
            "com.example.ulite"
        ),
        "/proj/build/android/R/com/example/ulite/R.java"
    );
}

#[test]
fn d8_invocation_runs_the_jar_through_the_d8_main_class() {
    let args = d8_args(
        "/sdk/build-tools/36.0.0/lib/d8.jar",
        "/sdk/platforms/android-36/android.jar",
        21,
        "/proj/build/dex",
        "/proj/build/classes.jar",
        &[],
    );
    assert_eq!(
        args,
        vec![
            "-cp".to_owned(),
            "/sdk/build-tools/36.0.0/lib/d8.jar".to_owned(),
            "com.android.tools.r8.D8".to_owned(),
            "--lib".to_owned(),
            "/sdk/platforms/android-36/android.jar".to_owned(),
            "--min-api".to_owned(),
            "21".to_owned(),
            "--output".to_owned(),
            "/proj/build/dex".to_owned(),
            "/proj/build/classes.jar".to_owned(),
        ]
    );
}

#[test]
fn d8_invocation_includes_extra_jars_for_kotlin_stdlib() {
    let args = d8_args(
        "/sdk/build-tools/36.0.0/lib/d8.jar",
        "/sdk/platforms/android-36/android.jar",
        21,
        "/proj/build/dex",
        "/proj/build/classes.jar",
        &["/libs/kotlin-stdlib-2.0.0.jar".to_owned()],
    );
    assert!(args.contains(&"/libs/kotlin-stdlib-2.0.0.jar".to_owned()));
    assert_eq!(args.len(), 11);
}

#[test]
fn sdk_root_prefers_the_module_sdk_dir_over_the_injected_root() {
    let config = json(r#"{ "androidSdkDir": "/default/sdk" }"#);
    let block = json(r#"{ "sdkDir": "/module/sdk" }"#);
    assert_eq!(
        resolve_sdk_root(&config, &block, "/proj").expect("resolves"),
        "/module/sdk"
    );
}

#[test]
fn sdk_root_resolves_a_relative_module_sdk_dir_against_the_project_dir() {
    // The host preopens the module sdkDir at `<projectDir>/<path>`, so
    // the plugin must resolve it the same way to see the same directory.
    let config = json(r#"{}"#);
    let block = json(r#"{ "sdkDir": "vendor/sdk" }"#);
    assert_eq!(
        resolve_sdk_root(&config, &block, "/proj").expect("resolves"),
        "/proj/vendor/sdk"
    );
}

#[test]
fn sdk_root_falls_back_to_the_injected_root() {
    let config = json(r#"{ "androidSdkDir": "/default/sdk" }"#);
    let block = json(r#"{}"#);
    assert_eq!(
        resolve_sdk_root(&config, &block, "/proj").expect("resolves"),
        "/default/sdk"
    );
}

#[test]
fn sdk_root_errors_when_nowhere_to_be_found() {
    let config = json(r#"{}"#);
    let block = json(r#"{}"#);
    assert!(resolve_sdk_root(&config, &block, "/proj").is_err());
}

#[test]
fn optional_int_reads_present_absent_and_invalid() {
    let block = json(r#"{ "minSdk": 21, "targetSdk": "36" }"#);
    assert_eq!(optional_int(&block, "minSdk"), Ok(Some(21)));
    assert_eq!(optional_int(&block, "compileSdk"), Ok(None));
    let error = optional_int(&block, "targetSdk").expect_err("non-number");
    assert!(error.contains("targetSdk"), "{error}");
}

#[test]
fn package_invocation_grafts_every_dex_file_onto_the_apk() {
    let args = package_args(
        "/proj/build/app-debug.apk",
        "/proj/build/dex",
    );
    assert_eq!(
        args,
        vec![
            "uf".to_owned(),
            "/proj/build/app-debug.apk".to_owned(),
            "-C".to_owned(),
            "/proj/build/dex".to_owned(),
            ".".to_owned(),
        ]
    );
}

#[test]
fn version_rank_parses_numeric_dotted_names_only() {
    assert_eq!(version_rank("36.0.0"), Some(vec![36, 0, 0]));
    assert_eq!(version_rank("0.0.1"), Some(vec![0, 0, 1]));
    assert_eq!(version_rank("rc-1"), None);
    assert_eq!(version_rank("36.0."), None);
}

#[test]
fn block_strings_and_lists_read_and_error() {
    let block =
        json(r#"{ "compileSdk": 36, "sources": ["a.java"], "classesDir": "build/classes" }"#);
    assert_eq!(int_value(&block, "compileSdk").expect("number"), 36);
    assert_eq!(
        string_list(&block, "sources").expect("list"),
        vec!["a.java".to_owned()]
    );
    assert_eq!(
        string_value(&block, "classesDir").expect("string"),
        "build/classes"
    );
    assert!(int_value(&block, "sources").is_err());
    assert!(string_value(&block, "compileSdk").is_err());
    assert!(string_list(&block, "missing").is_err());
    assert!(int_value(&block, "missing").is_err());
}

#[test]
fn classpath_bucket_reads_and_defaults() {
    let config = json(r#"{ "classpath": { "compile": ["/repos/one.jar"] } }"#);
    assert_eq!(
        classpath_bucket(&config, "compile"),
        vec!["/repos/one.jar".to_owned()]
    );
    assert!(classpath_bucket(&config, "testCompile").is_empty());
    assert!(classpath_bucket(&json(r#"{}"#), "compile").is_empty());
}

#[test]
fn non_java_sources_are_rejected() {
    assert!(reject_unknown_extensions(&["/proj/src/Main.txt".to_owned()]).is_err());
    assert!(reject_unknown_extensions(&["/proj/src/Main.java".to_owned()]).is_ok());
    assert!(reject_unknown_extensions(&["/proj/src/Main.kt".to_owned()]).is_ok());
    assert!(
        reject_unknown_extensions(&[
            "/proj/src/Main.java".to_owned(),
            "/proj/src/Main.kt".to_owned()
        ])
        .is_ok()
    );
}

#[test]
fn to_pascal_case_splits_on_underscores_and_capitalizes() {
    assert_eq!(to_pascal_case("debug"), "Debug");
    assert_eq!(to_pascal_case("release"), "Release");
    assert_eq!(to_pascal_case("free"), "Free");
    assert_eq!(to_pascal_case("paid"), "Paid");

    // Mixed-case tails are preserved; digit-leading parts survive.
    assert_eq!(to_pascal_case("myFlavor"), "MyFlavor");
    assert_eq!(to_pascal_case("3d"), "3d");
}

#[test]
fn compute_variants_carries_selected_flavor_names_and_sources() {
    // Variants carry their selected flavor names so the per-variant
    // source merge can find each flavor's `sources`.
    let config = json(r#"{
        "android": { "compileSdk": 36, "minSdk": 21 },
        "buildTypes": {
            "debug": {},
            "release": {}
        },
        "productFlavors": {
            "dimension": "tier",
            "free": {
                "dimension": "tier",
                "sources": ["src/free/Free.kt"]
            },
            "paid": {
                "dimension": "tier"
            }
        }
    }"#);
    let (variants, flavor_infos) = compute_variants(&config).expect("variants");
    let free_debug = variants
        .iter()
        .find(|v| v.name == "DebugFree")
        .expect("DebugFree variant");
    assert_eq!(free_debug.flavors, ["free".to_owned()]);
    assert_eq!(
        flavor_infos.get("free").expect("free flavor").sources,
        ["src/free/Free.kt".to_owned()]
    );
    let paid_release = variants
        .iter()
        .find(|v| v.name == "ReleasePaid")
        .expect("ReleasePaid variant");
    assert_eq!(paid_release.flavors, ["paid".to_owned()]);

    // A build type without flavors selects none.
    let plain = json(r#"{
        "android": { "compileSdk": 36, "minSdk": 21 }
    }"#);
    let (variants, _) = compute_variants(&plain).expect("variants");
    assert!(variants.iter().all(|v| v.flavors.is_empty()));
}

#[test]
fn compute_variants_explicit_build_types_no_flavors() {
    let config = json(r#"{
        "android": { "compileSdk": 36, "minSdk": 21 },
        "buildTypes": {
            "debug": { "minifyEnabled": false },
            "release": { "minifyEnabled": true }
        }
    }"#);
    let (variants, _) = compute_variants(&config).expect("variants");
    assert_eq!(variants.len(), 2);
    assert_eq!(variants[0].name, "Debug");
    assert_eq!(variants[1].name, "Release");
}

#[test]
fn compute_variants_with_flavors() {
    let config = json(r#"{
        "android": { "compileSdk": 36, "minSdk": 21 },
        "buildTypes": {
            "debug": {},
            "release": {}
        },
        "productFlavors": {
            "dimension": "tier",
            "free": { "applicationIdSuffix": ".free" },
            "paid": { "applicationIdSuffix": ".paid" }
        }
    }"#);
    let (variants, _) = compute_variants(&config).expect("variants");
    assert_eq!(variants.len(), 4);
    let names: Vec<&str> = variants.iter().map(|v| v.name.as_str()).collect();
    assert!(names.contains(&"DebugFree"));
    assert!(names.contains(&"DebugPaid"));
    assert!(names.contains(&"ReleaseFree"));
    assert!(names.contains(&"ReleasePaid"));
    let debug_free = variants.iter().find(|v| v.name == "DebugFree").unwrap();
    assert_eq!(debug_free.variant_dir, "debugFree");
    assert_eq!(debug_free.apk_filename, "app-debugFree.apk");
    assert_eq!(debug_free.application_id_suffix, ".free");
}

#[test]
fn compute_variants_flavor_overrides_min_sdk() {
    let config = json(r#"{
        "android": { "compileSdk": 36, "minSdk": 21 },
        "productFlavors": {
            "dimension": "tier",
            "free": { "minSdk": 24 }
        }
    }"#);
    let (variants, _) = compute_variants(&config).expect("variants");
    assert_eq!(variants.len(), 2);
    let free = variants
        .iter()
        .find(|v| v.variant_dir == "debugFree")
        .unwrap();
    assert_eq!(free.min_sdk, 24);
    let release_free = variants
        .iter()
        .find(|v| v.variant_dir == "releaseFree")
        .unwrap();
    assert_eq!(release_free.min_sdk, 24);
}

#[test]
fn compute_variants_flavor_missing_dimension_is_error() {
    let config = json(r#"{
        "android": { "compileSdk": 36, "minSdk": 21 },
        "productFlavors": {
            "free": {}
        }
    }"#);
    let error = compute_variants(&config).expect_err("missing dimension");
    assert!(error.contains("dimension"), "{error}");
}

#[test]
fn partition_sources_separates_java_from_kotlin() {
    let sources = vec![
        "/proj/src/Foo.java".to_owned(),
        "/proj/src/Bar.kt".to_owned(),
        "/proj/src/Baz.java".to_owned(),
    ];
    let (java, kotlin) = partition_sources(&sources);
    assert_eq!(
        java,
        vec![
            "/proj/src/Foo.java".to_owned(),
            "/proj/src/Baz.java".to_owned()
        ]
    );
    assert_eq!(kotlin, vec!["/proj/src/Bar.kt".to_owned()]);
}

#[test]
fn partition_sources_handles_pure_java() {
    let sources = vec!["/proj/src/A.java".to_owned(), "/proj/src/B.java".to_owned()];
    let (java, kotlin) = partition_sources(&sources);
    assert_eq!(java.len(), 2);
    assert!(kotlin.is_empty());
}

#[test]
fn partition_sources_handles_pure_kotlin() {
    let sources = vec!["/proj/src/A.kt".to_owned(), "/proj/src/B.kt".to_owned()];
    let (java, kotlin) = partition_sources(&sources);
    assert!(java.is_empty());
    assert_eq!(kotlin.len(), 2);
}

#[test]
fn kotlinc_android_invocation_heads_classpath_with_platform_jar() {
    let args = kotlinc_android_args(
        "/proj/build/classes",
        "/sdk/platforms/android-36/android.jar",
        &["/repos/one.jar".to_owned()],
        &["/proj/src/Main.kt".to_owned()],
        None,
    );
    assert_eq!(
        args,
        vec![
            "-d".to_owned(),
            "/proj/build/classes".to_owned(),
            "-cp".to_owned(),
            "/sdk/platforms/android-36/android.jar:/repos/one.jar:/proj/build/classes"
                .to_owned(),
            "-jvm-target".to_owned(),
            "17".to_owned(),
            "/proj/src/Main.kt".to_owned(),
        ]
    );
}

#[test]
fn kotlinc_android_invocation_for_dep_free_module() {
    let args = kotlinc_android_args(
        "/proj/build/classes",
        "/sdk/platforms/android-36/android.jar",
        &[],
        &["/proj/src/Main.kt".to_owned()],
        None,
    );
    assert_eq!(
        args,
        vec![
            "-d".to_owned(),
            "/proj/build/classes".to_owned(),
            "-cp".to_owned(),
            "/sdk/platforms/android-36/android.jar:/proj/build/classes".to_owned(),
            "-jvm-target".to_owned(),
            "17".to_owned(),
            "/proj/src/Main.kt".to_owned(),
        ]
    );
}

#[test]
fn kotlinc_android_invocation_loads_compose_plugin_via_xplugin() {
    let args = kotlinc_android_args(
        "/proj/build/classes",
        "/sdk/platforms/android-36/android.jar",
        &[],
        &["/proj/src/Main.kt".to_owned()],
        Some("/maven/compose-compiler-plugin-2.0.jar"),
    );
    assert!(
        args.contains(&"-Xplugin=/maven/compose-compiler-plugin-2.0.jar".to_owned()),
        "compose JAR must be loaded via -Xplugin=<path>, got: {args:?}"
    );
}

#[test]
fn kotlinc_android_invocation_omits_compose_plugin_when_absent() {
    let args = kotlinc_android_args(
        "/proj/build/classes",
        "/sdk/platforms/android-36/android.jar",
        &[],
        &["/proj/src/Main.kt".to_owned()],
        None,
    );
    assert!(
        !args.iter().any(|a| a.starts_with("-Xplugin=")),
        "None must not add a -Xplugin arg"
    );
}

#[test]
fn find_compose_compiler_jar_returns_none_when_absent() {
    let cp = vec!["/maven/appcompat-1.7.0.jar".to_owned()];
    assert_eq!(find_compose_compiler_jar(&cp), None);
}

#[test]
fn bool_value_parses_true() {
    let v = json(r#"{ "compose": true }"#);
    assert!(bool_value(&v, "compose").unwrap());
}

#[test]
fn bool_value_parses_false() {
    let v = json(r#"{ "compose": false }"#);
    assert!(!bool_value(&v, "compose").unwrap());
}

#[test]
fn bool_value_defaults_to_false_when_absent() {
    let v = json(r#"{}"#);
    assert!(!bool_value(&v, "compose").unwrap());
}

#[test]
fn bool_value_rejects_non_boolean() {
    let v = json(r#"{ "compose": "yes" }"#);
    let err = bool_value(&v, "compose").unwrap_err();
    assert!(err.contains("true or false"), "{err}");
}

#[test]
fn merge_variant_sources_deduplicates_first_occurrence_wins() {
    let infos = one_flavor("free".to_owned(),
        FlavorInfo {
            dimension: "tier".to_owned(),
            min_sdk: None,
            application_id_suffix: ".free".to_owned(),
            sources: vec!["src/free/Free.kt".to_owned()],
        },);
    // The base already lists the flavor's file; the resolved flavor
    // path matches the resolved base path, so dedup keeps only the first.
    let merged = merge_variant_sources(
        &["src/Main.java".to_owned(), "src/free/Free.kt".to_owned()],
        "/proj",
        &["free".to_owned()],
        &infos,
    )
    .expect("merges");
    assert_eq!(
        merged,
        [
            "/proj/src/Main.java".to_owned(),
            "/proj/src/free/Free.kt".to_owned()
        ]
    );
}

#[test]
fn merge_variant_sources_appends_flavor_sources_without_overlap() {
    let infos = one_flavor("paid".to_owned(),
        FlavorInfo {
            dimension: "tier".to_owned(),
            min_sdk: None,
            application_id_suffix: ".paid".to_owned(),
            sources: vec!["src/paid/Paid.java".to_owned()],
        },);
    let merged = merge_variant_sources(
        &["src/Main.java".to_owned()],
        "/proj",
        &["paid".to_owned()],
        &infos,
    )
    .expect("merges");
    assert_eq!(
        merged,
        [
            "/proj/src/Main.java".to_owned(),
            "/proj/src/paid/Paid.java".to_owned()
        ]
    );
}

#[test]
fn merge_variant_sources_resolves_relative_paths_against_project_dir() {
    let infos = one_flavor("paid".to_owned(),
        FlavorInfo {
            dimension: "tier".to_owned(),
            min_sdk: None,
            application_id_suffix: String::new(),
            sources: vec!["src/paid/Paid.java".to_owned()],
        },);
    let merged =
        merge_variant_sources(&[], "/proj", &["paid".to_owned()], &infos).expect("merges");
    assert_eq!(merged.len(), 1);
    assert!(
        merged[0].starts_with("/proj/"),
        "relative flavor source must resolve against the project dir: {}",
        merged[0]
    );
    assert!(merged[0].ends_with("src/paid/Paid.java"));
}

#[test]
fn merge_variant_sources_rejects_bad_extensions() {
    let infos = one_flavor("evil".to_owned(),
        FlavorInfo {
            dimension: "tier".to_owned(),
            min_sdk: None,
            application_id_suffix: String::new(),
            sources: vec!["src/evil/payload.exe".to_owned()],
        },);
    let err = merge_variant_sources(&[], "/proj", &["evil".to_owned()], &infos)
        .expect_err("unsupported extension");
    assert!(err.contains("neither a .java nor a .kt"), "{err}");
}

#[test]
fn parse_build_config_fields_extracts_triples() {
    // With two buildConfigField entries, insert_accumulating produces a
    // flat first triple + a nested second triple:
    // ["String", "API_KEY", "\"abc123\"", ["boolean", "FEATURE_FLAG", "true"]]
    let android = json(r#"{
        "compileSdk": 36,
        "buildConfigField": [
            "String", "API_KEY", "\"abc123\"",
            ["boolean", "FEATURE_FLAG", "true"]
        ],
        "namespace": "com.example"
    }"#);
    let fields = parse_build_config_fields(&android);
    assert_eq!(fields.len(), 2);
    assert_eq!(fields[0].java_type, "String");
    assert_eq!(fields[0].name, "API_KEY");
    assert_eq!(fields[0].initializer, "\"abc123\"");
    assert_eq!(fields[1].java_type, "boolean");
    assert_eq!(fields[1].name, "FEATURE_FLAG");
    assert_eq!(fields[1].initializer, "true");
}

#[test]
fn parse_build_config_fields_single_triple() {
    let android = json(r#"{
        "buildConfigField": ["String", "API_KEY", "abc123"]
    }"#);
    let fields = parse_build_config_fields(&android);
    assert_eq!(fields.len(), 1);
    assert_eq!(fields[0].java_type, "String");
    assert_eq!(fields[0].name, "API_KEY");
    assert_eq!(fields[0].initializer, "abc123");
}

#[test]
fn parse_build_config_fields_three_entries() {
    // Three buildConfigField declarations produce:
    // ["String", "A", "\"x\"", ["int", "B", "3"], ["boolean", "C", "true"]]
    let android = json(r#"{
        "buildConfigField": [
            "String", "A", "\"x\"",
            ["int", "B", "3"],
            ["boolean", "C", "true"]
        ]
    }"#);
    let fields = parse_build_config_fields(&android);
    assert_eq!(fields.len(), 3);
    assert_eq!(fields[0].java_type, "String");
    assert_eq!(fields[0].name, "A");
    assert_eq!(fields[1].java_type, "int");
    assert_eq!(fields[1].name, "B");
    assert_eq!(fields[1].initializer, "3");
    assert_eq!(fields[2].java_type, "boolean");
    assert_eq!(fields[2].name, "C");
    assert_eq!(fields[2].initializer, "true");
}

#[test]
fn parse_build_config_fields_ignores_non_triple_values() {
    let android = json(r#"{
        "buildConfigField": "not a list"
    }"#);
    let fields = parse_build_config_fields(&android);
    assert!(fields.is_empty());
}

#[test]
fn parse_build_config_fields_returns_empty_when_absent() {
    let android = json(r#"{ "compileSdk": 36 }"#);
    assert!(parse_build_config_fields(&android).is_empty());
}

#[test]
fn generate_buildconfig_source_produces_valid_java() {
    let source = generate_buildconfig_source(&BuildConfigParams {
        namespace: "com.example.app",
        application_id: "com.example.app",
        build_type: "debug",
        debug: true,
        flavor: "",
        version_code: 1,
        version_name: "1.0",
        min_sdk: 21,
        target_sdk: 33,
        compile_sdk: 36,
        user_fields: &[],
    });
    assert!(source.contains("package com.example.app;"));
    assert!(source.contains("public final class BuildConfig"));
    assert!(
        source.contains("public static final String APPLICATION_ID = \"com.example.app\";")
    );
    assert!(source.contains("public static final String BUILD_TYPE = \"debug\";"));
    assert!(source.contains("public static final boolean DEBUG = true;"));
    assert!(source.contains("public static final String FLAVOR = \"\";"));
    assert!(source.contains("public static final int VERSION_CODE = 1;"));
    assert!(source.contains("public static final String VERSION_NAME = \"1.0\";"));
    assert!(source.contains("public static final int MIN_SDK_VERSION = 21;"));
    assert!(source.contains("public static final int TARGET_SDK_VERSION = 33;"));
    assert!(source.contains("public static final int COMPILE_SDK_VERSION = 36;"));
}

#[test]
fn generate_buildconfig_source_includes_user_fields() {
    let user_fields = vec![
        BuildConfigField {
            java_type: "String".to_owned(),
            name: "API_KEY".to_owned(),
            initializer: "\"secret\"".to_owned(),
        },
        BuildConfigField {
            java_type: "int".to_owned(),
            name: "MAX_RETRIES".to_owned(),
            initializer: "3".to_owned(),
        },
    ];
    let source = generate_buildconfig_source(&BuildConfigParams {
        namespace: "com.example",
        application_id: "com.example",
        build_type: "release",
        debug: false,
        flavor: "paid",
        version_code: 42,
        version_name: "2.0",
        min_sdk: 24,
        target_sdk: 34,
        compile_sdk: 36,
        user_fields: &user_fields,
    });
    assert!(source.contains("public static final String API_KEY = \"secret\";"));
    assert!(source.contains("public static final int MAX_RETRIES = 3;"));
    assert!(source.contains("public static final String FLAVOR = \"paid\";"));
    assert!(source.contains("public static final boolean DEBUG = false;"));
    assert!(source.contains("public static final int VERSION_CODE = 42;"));
}

#[test]
fn generate_buildconfig_source_includes_application_id_suffix() {
    let source = generate_buildconfig_source(&BuildConfigParams {
        namespace: "com.example",
        application_id: "com.example.free",
        build_type: "debug",
        debug: true,
        flavor: "free",
        version_code: 1,
        version_name: "",
        min_sdk: 21,
        target_sdk: 33,
        compile_sdk: 36,
        user_fields: &[],
    });
    assert!(
        source.contains("APPLICATION_ID = \"com.example.free\""),
        "APPLICATION_ID should include suffix: {source}"
    );
}

#[test]
fn compile_args_includes_buildconfig_dir_on_sourcepath() {
    let rgen = "/proj/build/android/R";
    let bc = "/proj/build/android/generated/buildconfig";
    let args = compile_args(
        "/proj/build/classes",
        &["/sdk/platforms/android-36/android.jar".to_owned()],
        &["/proj/src/Main.java".to_owned()],
        rgen,
        &rgen_java_path(rgen, "com.example"),
        Some(bc),
    );
    let sp_idx = args.iter().position(|a| a == "-sourcepath").unwrap();
    let sp_value = &args[sp_idx + 1];
    assert!(
        sp_value.contains("/proj/build/android/generated/buildconfig"),
        "sourcepath must include buildconfig dir: {sp_value}"
    );
    assert!(
        sp_value.starts_with("/proj/build/android/R:"),
        "sourcepath must start with R dir: {sp_value}"
    );
}
