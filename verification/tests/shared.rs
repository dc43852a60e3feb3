//! What the plugins have in common.

use ulb_plugins::android::variants::compute_variants as android_variants;
use ulb_plugins::invocations::{compile_args, jar_args};
use ulb_plugins::json::Json;
use ulb_plugins::kmp::variants::compute_variants as kmp_variants;
use ulb_plugins::parse::parse_json;
use ulb_plugins::path::resolve_path;
use ulb_plugins::sources::{
    find_compose_compiler_jar, partition_sources, reject_unknown_extensions,
};

fn json(text: &str) -> Json {
    parse_json(text).expect("well-formed JSON")
}

#[test]
fn lib_compiler_invocation_carries_classpath_and_sources() {
    {
        let args = compile_args(
            "/proj/build/classes",
            &["/repos/one.jar".to_owned(), "/repos/two.jar".to_owned()],
            &["/proj/src/App.java".to_owned()],
        );
        assert_eq!(
            args,
            vec![
                "-d".to_owned(),
                "/proj/build/classes".to_owned(),
                "-cp".to_owned(),
                "/repos/one.jar:/repos/two.jar".to_owned(),
                "/proj/src/App.java".to_owned(),
            ]
        );
    }
    {
        let args = compile_args(
            "/proj/build/classes",
            &["/repos/one.jar".to_owned(), "/repos/two.jar".to_owned()],
            &[
                "/proj/src/commonMain".to_owned(),
                "/proj/src/jvmMain".to_owned(),
            ],
        );
        assert_eq!(
            args,
            vec![
                "-d".to_owned(),
                "/proj/build/classes".to_owned(),
                "-cp".to_owned(),
                "/repos/one.jar:/repos/two.jar".to_owned(),
                "/proj/src/commonMain".to_owned(),
                "/proj/src/jvmMain".to_owned(),
            ]
        );
    }
}

#[test]
fn lib_compiler_invocation_omits_cp_for_an_empty_classpath() {
    {
        let args = compile_args(
            "/proj/build/classes",
            &[],
            &["/proj/src/App.java".to_owned()],
        );
        assert_eq!(
            args,
            vec![
                "-d".to_owned(),
                "/proj/build/classes".to_owned(),
                "/proj/src/App.java".to_owned(),
            ]
        );
    }
    {
        let args = compile_args(
            "/proj/build/classes",
            &[],
            &["/proj/src/jvmMain".to_owned()],
        );
        assert_eq!(
            args,
            vec![
                "-d".to_owned(),
                "/proj/build/classes".to_owned(),
                "/proj/src/jvmMain".to_owned(),
            ]
        );
    }
}

#[test]
fn lib_compute_variants_defaults_to_debug_and_release() {
    {
        let config = json(r#"{
            "android": { "compileSdk": 36, "minSdk": 21 }
        }"#);
        let (variants, _) = android_variants(&config).expect("variants");
        assert_eq!(variants.len(), 2);
        assert_eq!(variants[0].name, "Debug");
        assert_eq!(variants[0].variant_dir, "debug");
        assert_eq!(variants[0].apk_filename, "app-debug.apk");
        assert_eq!(variants[1].name, "Release");
        assert_eq!(variants[1].variant_dir, "release");
        assert_eq!(variants[1].apk_filename, "app-release.apk");
    }
    {
        let config = json(r#"{
            "android": { "compileSdk": 34, "minSdk": 24 }
        }"#);
        let variants = kmp_variants(&config).unwrap();
        assert_eq!(variants.len(), 2);
        assert_eq!(variants[0].name, "Debug");
        assert_eq!(variants[0].variant_dir, "debug");
        assert_eq!(variants[0].apk_filename, "app-debug.apk");
        assert_eq!(variants[1].name, "Release");
        assert_eq!(variants[1].variant_dir, "release");
        assert_eq!(variants[1].apk_filename, "app-release.apk");
    }
}

#[test]
fn lib_find_compose_compiler_jar_matches_jar_filename() {
    {
        let cp = vec![
            "/maven/appcompat-1.7.0.jar".to_owned(),
            "/maven/compose-compiler-plugin-2.0.0.jar".to_owned(),
        ];
        assert_eq!(
            find_compose_compiler_jar(&cp),
            Some("/maven/compose-compiler-plugin-2.0.0.jar".to_owned())
        );
    }
    {
        let cp = vec![
            "/maven/appcompat-1.7.0.jar".to_owned(),
            "/maven/compose-compiler-plugin-2.0.0.jar".to_owned(),
        ];
        assert_eq!(
            find_compose_compiler_jar(&cp),
            Some("/maven/compose-compiler-plugin-2.0.0.jar".to_owned())
        );
    }
}

#[test]
fn lib_jar_invocation_packs_the_classes_directory() {
    {
        assert_eq!(
            jar_args("/proj/build/app.jar", "/proj/build/classes"),
            vec![
                "cf".to_owned(),
                "/proj/build/app.jar".to_owned(),
                "-C".to_owned(),
                "/proj/build/classes".to_owned(),
                ".".to_owned(),
            ]
        );
    }
    {
        assert_eq!(
            jar_args("/proj/build/app.jar", "/proj/build/classes"),
            vec![
                "cf".to_owned(),
                "/proj/build/app.jar".to_owned(),
                "-C".to_owned(),
                "/proj/build/classes".to_owned(),
                ".".to_owned(),
            ]
        );
    }
}

#[test]
fn lib_relative_block_paths_resolve_against_the_project_dir() {
    {
        assert_eq!(
            resolve_path("/proj", "src/Main.java"),
            "/proj/src/Main.java"
        );
        assert_eq!(resolve_path("/proj", "/abs/Main.java"), "/abs/Main.java");
    }
    {
        assert_eq!(resolve_path("/proj", "src/App.java"), "/proj/src/App.java");
        assert_eq!(resolve_path("/proj", "/abs/App.java"), "/abs/App.java");
    }
    {
        assert_eq!(
            resolve_path("/proj", "src/commonMain"),
            "/proj/src/commonMain"
        );
        assert_eq!(resolve_path("/proj", "/abs/commonMain"), "/abs/commonMain");
    }
}

#[test]
fn lib_sources_partition_by_extension() {
    {
        let sources = vec![
            "/proj/src/Main.kt".to_owned(),
            "/proj/src/App.java".to_owned(),
            "/proj/src/Util.kt".to_owned(),
        ];
        let (java, kotlin) = partition_sources(&sources);
        assert_eq!(java, vec!["/proj/src/App.java".to_owned()]);
        assert_eq!(
            kotlin,
            vec![
                "/proj/src/Main.kt".to_owned(),
                "/proj/src/Util.kt".to_owned(),
            ]
        );
    }
    {
        let sources = vec![
            "/proj/src/commonMain/Shared.kt".to_owned(),
            "/proj/src/jvmMain/JvmApp.java".to_owned(),
            "/proj/src/commonMain/Util.kt".to_owned(),
        ];
        let (java, kotlin) = partition_sources(&sources);
        assert_eq!(java, vec!["/proj/src/jvmMain/JvmApp.java".to_owned()]);
        assert_eq!(
            kotlin,
            vec![
                "/proj/src/commonMain/Shared.kt".to_owned(),
                "/proj/src/commonMain/Util.kt".to_owned(),
            ]
        );
    }
}

#[test]
fn lib_unknown_source_extensions_are_rejected() {
    {
        assert!(reject_unknown_extensions(&["/proj/src/App.txt".to_owned()]).is_err());
        assert!(reject_unknown_extensions(&["/proj/src/App.java".to_owned()]).is_ok());
    }
    {
        assert!(reject_unknown_extensions(&["/proj/A.java".to_owned()]).is_ok());
        assert!(reject_unknown_extensions(&["/proj/A.kt".to_owned()]).is_ok());
        assert!(reject_unknown_extensions(&["/proj/A.txt".to_owned()]).is_err());
    }
}
