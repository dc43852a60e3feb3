//! Plans of the Android plugin.

use ulb_plugins::android::build_config::{
    generate_buildconfig_source, parse_build_config_fields, quote_string, BuildConfigField,
    BuildConfigParams,
};
use ulb_plugins::android::plan::AndroidPlugin;
use ulb_plugins::android::variants::{compute_variants, merge_variant_sources, FlavorInfo};
use ulb_plugins::json::{Json, SortedMap};
use ulb_plugins::parse::parse_json;
use ulb_plugins::sdk::{Listing, SdkProbe, ToolsEntry};
use ulb_plugins::sources::find_compose_compiler_jar;
use ulb_plugins::task::{Action, AllowlistedTool, Plan, Task};

fn json(text: &str) -> Json {
    parse_json(text).expect("well-formed JSON")
}

fn probe() -> SdkProbe {
    SdkProbe {
        platform_jar: true,
        build_tools: Listing::Entries(vec![ToolsEntry {
            name: "36.0.0".to_owned(),
            is_dir: true,
            has_aapt2: true,
            has_d8: true,
        }]),
        d8_jar: true,
    }
}

const BLOCK: &str = r#""compileSdk": 36, "minSdk": 21, "namespace": "com.example.app", "manifest": "AndroidManifest.xml", "resDir": "res""#;

fn config(block: &str, rest: &str) -> String {
    format!(
        r#"{{"projectDir": "/proj", "androidSdkDir": "/sdk", "android": {{{BLOCK}, {block}}}{rest}}}"#
    )
}

fn configure(block: &str, rest: &str) -> Plan {
    AndroidPlugin::configure(&config(block, rest), &probe())
}

fn names(plan: &Plan) -> Vec<&str> {
    plan.tasks.iter().map(|task| task.name.as_str()).collect()
}

fn task<'a>(plan: &'a Plan, name: &str) -> &'a Task {
    plan.tasks.iter().find(|task| task.name == name).expect("the task is planned")
}

fn run(task: &Task) -> (AllowlistedTool, Vec<&str>) {
    match &task.action {
        Action::RunTool(run) => {
            assert_eq!(run.cwd, ".");
            (run.tool, run.args.iter().map(|arg| arg.as_str()).collect())
        }
        Action::WriteFile(_) => panic!("{} writes a file", task.name),
    }
}

fn written(task: &Task) -> (&str, &str) {
    match &task.action {
        Action::WriteFile(file) => (&file.path, &file.contents),
        Action::RunTool(_) => panic!("{} runs a tool", task.name),
    }
}

fn failure(plan: &Plan) -> &str {
    plan.outcome.as_ref().expect_err("planning fails")
}

const JAR: &str = "/sdk/platforms/android-36/android.jar";

#[test]
fn a_java_module_has_the_tasks_of_two_variants() {
    let plan = configure(r#""sources": ["src/Main.java"]"#, "");
    assert_eq!(plan.outcome, Ok(()));
    let mut expected = vec!["prepareBuildDir".to_owned(), "mergeResources".to_owned()];
    for variant in ["Debug", "Release"] {
        for task in [
            "prepareApk",
            "prepareDex",
            "generateBuildConfig",
            "linkResources",
            "seedApk",
            "compile",
            "jarClasses",
            "compileDex",
            "packageApk",
        ] {
            expected.push(format!("{task}{variant}"));
        }
    }
    assert_eq!(names(&plan), expected);
}

#[test]
fn the_shared_tasks_prepare_and_merge() {
    let plan = configure(r#""sources": ["src/Main.java"]"#, "");
    assert_eq!(
        run(task(&plan, "prepareBuildDir")),
        (AllowlistedTool::Mkdir, vec!["-p", "/proj/build/android"])
    );
    let merge = task(&plan, "mergeResources");
    assert_eq!(merge.inputs, ["/proj/res"]);
    assert_eq!(merge.outputs, ["/proj/build/android/res.zip"]);
    assert_eq!(merge.depends_on, ["prepareBuildDir"]);
    assert_eq!(
        run(merge),
        (
            AllowlistedTool::Aapt2,
            vec![
                "/sdk/build-tools/36.0.0",
                "compile",
                "--dir",
                "/proj/res",
                "-o",
                "/proj/build/android/res.zip"
            ]
        )
    );
}

#[test]
fn a_variant_is_built_below_its_own_directory() {
    let plan = configure(
        r#""sources": ["src/Main.java"]"#,
        r#", "classpath": {"compile": ["/r/one.jar"]}"#,
    );
    assert_eq!(
        run(task(&plan, "prepareApkDebug")),
        (AllowlistedTool::Mkdir, vec!["-p", "/proj/build/debug"])
    );
    assert_eq!(
        run(task(&plan, "prepareDexDebug")),
        (AllowlistedTool::Mkdir, vec!["-p", "/proj/build/debug/dex"])
    );
    let link = task(&plan, "linkResourcesDebug");
    assert_eq!(link.inputs, ["/proj/build/android/res.zip", "/proj/AndroidManifest.xml"]);
    assert_eq!(link.outputs, ["/proj/build/debug/resources.apk", "/proj/build/debug/R"]);
    assert_eq!(link.depends_on, ["prepareBuildDir", "mergeResources", "prepareApkDebug"]);
    assert_eq!(
        run(link),
        (
            AllowlistedTool::Aapt2,
            vec![
                "/sdk/build-tools/36.0.0",
                "link",
                "-o",
                "/proj/build/debug/resources.apk",
                "--manifest",
                "/proj/AndroidManifest.xml",
                "-I",
                JAR,
                "--java",
                "/proj/build/debug/R",
                "--custom-package",
                "com.example.app",
                "--min-sdk-version",
                "21",
                "--target-sdk-version",
                "36",
                "/proj/build/android/res.zip"
            ]
        )
    );
    let seed = task(&plan, "seedApkDebug");
    assert_eq!(seed.depends_on, ["linkResourcesDebug", "prepareApkDebug"]);
    assert_eq!(
        run(seed),
        (
            AllowlistedTool::Cp,
            vec!["/proj/build/debug/resources.apk", "/proj/build/debug/app-debug.apk"]
        )
    );
    let compile = task(&plan, "compileDebug");
    assert_eq!(
        compile.inputs,
        ["/proj/src/Main.java", "/proj/build/debug/R/com/example/app/R.java"]
    );
    assert_eq!(compile.outputs, ["/proj/build/debug/classes"]);
    assert_eq!(compile.depends_on, ["linkResourcesDebug", "generateBuildConfigDebug"]);
    let classpath = format!("{JAR}:/r/one.jar");
    assert_eq!(
        run(compile),
        (
            AllowlistedTool::Javac,
            vec![
                "--release",
                "17",
                "-d",
                "/proj/build/debug/classes",
                "-cp",
                classpath.as_str(),
                "-sourcepath",
                "/proj/build/debug/R:/proj/build/debug/generated/buildconfig",
                "/proj/src/Main.java",
                "/proj/build/debug/R/com/example/app/R.java"
            ]
        )
    );
    let pack = task(&plan, "jarClassesDebug");
    assert_eq!(pack.depends_on, ["compileDebug"]);
    assert_eq!(
        run(pack).1,
        ["cf", "/proj/build/debug/classes.jar", "-C", "/proj/build/debug/classes", "."]
    );
    let dex = task(&plan, "compileDexDebug");
    assert_eq!(dex.inputs, ["/proj/build/debug/classes.jar"]);
    assert_eq!(dex.outputs, ["/proj/build/debug/dex"]);
    assert_eq!(dex.depends_on, ["jarClassesDebug", "prepareDexDebug"]);
    assert_eq!(
        run(dex),
        (
            AllowlistedTool::Java,
            vec![
                "-cp",
                "/sdk/build-tools/36.0.0/lib/d8.jar",
                "com.android.tools.r8.D8",
                "--lib",
                JAR,
                "--min-api",
                "21",
                "--output",
                "/proj/build/debug/dex",
                "/proj/build/debug/classes.jar"
            ]
        )
    );
    let package = task(&plan, "packageApkDebug");
    assert_eq!(package.inputs, ["/proj/build/debug/resources.apk", "/proj/build/debug/dex"]);
    assert_eq!(package.outputs, ["/proj/build/debug/app-debug.apk"]);
    assert_eq!(package.depends_on, ["linkResourcesDebug", "seedApkDebug", "compileDexDebug"]);
    assert_eq!(
        run(package),
        (
            AllowlistedTool::Jar,
            vec!["uf", "/proj/build/debug/app-debug.apk", "-C", "/proj/build/debug/dex", "."]
        )
    );
}

#[test]
fn kotlin_sources_bring_their_own_task_and_the_standard_library() {
    let plan = configure(
        r#""sources": ["src/Main.kt"]"#,
        r#", "classpath": {"compile": ["/r/kotlin-stdlib-2.0-sources.jar", "/r/kotlin-stdlib-2.0.jar", "/r/kotlin-stdlib-jdk8.jar"]}"#,
    );
    let kotlin = task(&plan, "compileKotlinDebug");
    assert_eq!(kotlin.inputs, ["/proj/src/Main.kt"]);
    assert_eq!(kotlin.depends_on, ["compileDebug"]);
    assert_eq!(run(kotlin).0, AllowlistedTool::Kotlinc);
    assert_eq!(task(&plan, "jarClassesDebug").depends_on, ["compileDebug", "compileKotlinDebug"]);
    assert_eq!(
        task(&plan, "compileDexDebug").inputs,
        ["/proj/build/debug/classes.jar", "/r/kotlin-stdlib-2.0.jar"]
    );
    // R.java is compiled even without Java sources.
    assert_eq!(
        task(&plan, "compileDebug").inputs,
        ["/proj/build/debug/R/com/example/app/R.java"]
    );
}

#[test]
fn flavors_give_each_variant_its_own_identity() {
    let plan = configure(
        r#""sources": ["src/Main.java"], "versionCode": 7, "versionName": "1.2", "targetSdk": 34, "buildConfigField": ["int", "N", "3"]"#,
        r#", "buildTypes": {"debug": {}}, "productFlavors": {"dimension": "tier", "free": {"applicationIdSuffix": ".free", "minSdk": 24, "sources": ["src/Free.kt"]}}"#,
    );
    assert_eq!(plan.outcome, Ok(()));
    let link = run(task(&plan, "linkResourcesDebugFree")).1;
    assert_eq!(
        link[10..],
        [
            "--custom-package",
            "com.example.app",
            "--min-sdk-version",
            "24",
            "--target-sdk-version",
            "34",
            "--rename-manifest-package",
            "com.example.app.free",
            "/proj/build/android/res.zip"
        ]
    );
    assert_eq!(task(&plan, "compileKotlinDebugFree").inputs, ["/proj/src/Free.kt"]);
    assert_eq!(
        task(&plan, "packageApkDebugFree").outputs,
        ["/proj/build/debugFree/app-debugFree.apk"]
    );
    let generate = task(&plan, "generateBuildConfigDebugFree");
    assert_eq!(generate.depends_on, ["prepareBuildDir"]);
    let (path, contents) = written(generate);
    assert_eq!(
        path,
        "/proj/build/debugFree/generated/buildconfig/com/example/app/BuildConfig.java"
    );
    assert_eq!(
        contents,
        "package com.example.app;\n\npublic final class BuildConfig {\n\
         \x20 public static final String APPLICATION_ID = \"com.example.app.free\";\n\
         \x20 public static final String BUILD_TYPE = \"debug\";\n\
         \x20 public static final boolean DEBUG = true;\n\
         \x20 public static final String FLAVOR = \"free\";\n\
         \x20 public static final int VERSION_CODE = 7;\n\
         \x20 public static final String VERSION_NAME = \"1.2\";\n\
         \x20 public static final int MIN_SDK_VERSION = 24;\n\
         \x20 public static final int TARGET_SDK_VERSION = 34;\n\
         \x20 public static final int COMPILE_SDK_VERSION = 36;\n\
         \x20 public static final int N = 3;\n}\n"
    );
}

#[test]
fn the_build_type_is_recovered_from_the_variant() {
    let plan = configure(
        r#""sources": ["src/Main.java"]"#,
        r#", "buildTypes": {"free_release": {}}, "productFlavors": {"dimension": "tier", "free": {}}"#,
    );
    let (_, contents) = written(task(&plan, "generateBuildConfigFreeReleaseFree"));
    assert!(contents.contains("BUILD_TYPE = \"freerelease\";"), "{contents}");
    assert!(contents.contains("DEBUG = false;"), "{contents}");
    assert!(contents.contains("VERSION_CODE = 1;"), "{contents}");
    assert!(contents.contains("VERSION_NAME = \"\";"), "{contents}");
    // Letters outside ASCII are lowered too.
    let plan = configure(r#""sources": ["src/Main.java"]"#, r#", "buildTypes": {"Été": {}}"#);
    let (path, contents) = written(task(&plan, "generateBuildConfigÉté"));
    assert!(path.starts_with("/proj/build/été/"), "{path}");
    assert!(contents.contains("BUILD_TYPE = \"été\";"), "{contents}");
}

const SIGNING: &str = r#", "signing": {"storeFile": "release.keystore", "storePassword": "sp", "keyAlias": "key", "keyPassword": "kp"}"#;

#[test]
fn signing_is_shared_by_all_variants() {
    let plan = configure(r#""sources": ["src/Main.java"]"#, SIGNING);
    assert_eq!(plan.outcome, Ok(()));
    assert_eq!(
        written(task(&plan, "writeSigningPasswords")),
        ("/proj/build/android/ks-password.txt", "sp")
    );
    assert_eq!(
        written(task(&plan, "writeSigningKeyPassword")),
        ("/proj/build/android/key-password.txt", "kp")
    );
    for (variant, dir) in [("Debug", "debug"), ("Release", "release")] {
        let sign = task(&plan, &format!("signApk{variant}"));
        let apk = format!("/proj/build/{dir}/app-{dir}.apk");
        assert_eq!(
            sign.inputs,
            [
                apk.as_str(),
                "/proj/release.keystore",
                "/proj/build/android/ks-password.txt",
                "/proj/build/android/key-password.txt"
            ]
        );
        assert_eq!(
            sign.depends_on,
            [
                format!("packageApk{variant}"),
                "writeSigningPasswords".to_owned(),
                "writeSigningKeyPassword".to_owned()
            ]
        );
        assert_eq!(
            run(sign),
            (
                AllowlistedTool::Apksigner,
                vec![
                    "/sdk/build-tools/36.0.0",
                    "sign",
                    "--ks",
                    "/proj/release.keystore",
                    "--ks-key-alias",
                    "key",
                    "--ks-pass",
                    "file:/proj/build/android/ks-password.txt",
                    "--key-pass",
                    "file:/proj/build/android/key-password.txt",
                    apk.as_str()
                ]
            )
        );
    }
    let unsigned = configure(r#""sources": ["src/Main.java"]"#, "");
    assert!(!names(&unsigned).iter().any(|name| name.contains("ign")));
}

#[test]
fn every_plan_is_ordered_declared_and_below_the_build_directory() {
    let plan = configure(
        r#""sources": ["src/Main.java", "src/Main.kt"], "compose": true"#,
        &format!(
            r#"{SIGNING}, "classpath": {{"compile": ["/r/compose-compiler-plugin-2.0.jar"]}}, "productFlavors": {{"dimension": "tier", "free": {{}}, "paid": {{}}}}"#
        ),
    );
    assert_eq!(plan.outcome, Ok(()));
    let manifest = AndroidPlugin::manifest("0.6.0", "0.6");
    assert_eq!(manifest.name, "ulite/android");
    assert_eq!(
        manifest.tools,
        ["javac", "kotlinc", "aapt2", "jar", "java", "mkdir", "cp", "apksigner"]
    );
    assert!(manifest.dependencies.is_empty());
    for (i, task) in plan.tasks.iter().enumerate() {
        for name in &task.depends_on {
            assert!(plan.tasks[..i].iter().any(|earlier| &earlier.name == name), "{name}");
        }
        if let Action::RunTool(run) = &task.action {
            let tool = format!("{:?}", run.tool).to_lowercase();
            assert!(manifest.tools.contains(&tool), "{tool}");
        }
        for path in &task.outputs {
            assert!(path.starts_with("/proj/build/"), "{path}");
        }
    }
    let kotlin = run(task(&plan, "compileKotlinReleasePaid")).1;
    assert!(kotlin.contains(&"-Xplugin=/r/compose-compiler-plugin-2.0.jar"), "{kotlin:?}");
    assert_eq!(AndroidPlugin::run("echo".to_owned()), "echo");
}

#[test]
fn a_broken_block_registers_nothing() {
    let cases = [
        ("{}", "module config is missing 'projectDir'"),
        (r#"{"projectDir": "/p"}"#, "module config has no 'android' block"),
        (
            r#"{"projectDir": "/p", "android": {}}"#,
            "the 'android' block is missing a numeric 'compileSdk'",
        ),
        (
            r#"{"projectDir": "/p", "android": {"compileSdk": 1}}"#,
            "the 'android' block is missing a 'namespace' string",
        ),
        (
            r#"{"projectDir": "/p", "android": {"compileSdk": 1, "namespace": "n", "compose": [1]}}"#,
            "the 'android' block key 'compose' must be true or false, got [1]",
        ),
        (
            r#"{"projectDir": "/p", "android": {"compileSdk": 1, "namespace": "n"}}"#,
            "the 'android' block is missing a 'sources' list",
        ),
        (
            r#"{"projectDir": "/p", "android": {"compileSdk": 1, "namespace": "n", "sources": []}}"#,
            "the 'android' block declares no sources",
        ),
        (
            r#"{"projectDir": "/p", "android": {"compileSdk": 1, "namespace": "n", "sources": ["a.c"]}}"#,
            "source '/p/a.c' is neither a .java nor a .kt file",
        ),
        (
            r#"{"projectDir": "/p", "android": {"compileSdk": 1, "namespace": "n", "sources": ["a.kt"]}}"#,
            "the 'android' block is missing a 'manifest' string",
        ),
        (
            r#"{"projectDir": "/p", "android": {"compileSdk": 1, "namespace": "n", "sources": ["a.kt"], "manifest": "m"}}"#,
            "the 'android' block is missing a 'resDir' string",
        ),
        (
            r#"{"projectDir": "/p", "android": {"compileSdk": 1, "namespace": "n", "sources": ["a.kt"], "manifest": "m", "resDir": "r"}}"#,
            "no Android SDK root: set 'sdkDir' in the 'android' block, or pass --android-sdk / ANDROID_HOME / ANDROID_SDK_ROOT to the host",
        ),
    ];
    for (config, message) in cases {
        let plan = AndroidPlugin::configure(config, &probe());
        assert!(plan.tasks.is_empty(), "{config}");
        assert_eq!(failure(&plan), message, "{config}");
    }
    let plan = AndroidPlugin::configure("[", &probe());
    assert!(failure(&plan).starts_with("invalid module config JSON: "));
    assert!(plan.tasks.is_empty());
}

#[test]
fn a_broken_sdk_registers_nothing() {
    let text = config(r#""sources": ["src/Main.java"]"#, "");
    let mut without_jar = probe();
    without_jar.platform_jar = false;
    let mut without_tools = probe();
    without_tools.build_tools = Listing::Entries(Vec::new());
    let mut without_d8 = probe();
    without_d8.d8_jar = false;
    for (probe, message) in [
        (without_jar, "no android.jar for compileSdk 36 under '/sdk'"),
        (
            without_tools,
            "no build-tools release with aapt2 and lib/d8.jar under '/sdk/build-tools'",
        ),
        (
            without_d8,
            "no d8.jar under '/sdk/build-tools/36.0.0'; expected it at '/sdk/build-tools/36.0.0/lib/d8.jar'",
        ),
    ] {
        let plan = AndroidPlugin::configure(&text, &probe);
        assert!(plan.tasks.is_empty());
        assert_eq!(failure(&plan), message);
    }
}

#[test]
fn broken_variants_and_signing_follow_the_shared_tasks() {
    let cases = [
        (r#", "buildTypes": 1"#, "'buildTypes' must be a block"),
        (r#", "productFlavors": []"#, "'productFlavors' must be a block"),
        (r#", "productFlavors": {"free": 1}"#, "flavor 'free' must be a block"),
        (r#", "productFlavors": {"free": {}}"#, "flavor 'free' is missing a 'dimension' key"),
        (
            r#", "productFlavors": {"dimension": "t", "free": {"minSdk": "x"}}"#,
            "flavor 'free' minSdk must be an integer",
        ),
        (
            r#", "productFlavors": {"dimension": "t", "free": {"sources": 1}}"#,
            "flavor 'free' sources must be a list of strings",
        ),
        (
            r#", "productFlavors": {"dimension": "t", "free": {"sources": [1]}}"#,
            "flavor 'free' sources must be strings",
        ),
        (
            r#", "productFlavors": {"dimension": "", "free": {}}"#,
            "flavor 'free' has an empty 'dimension'",
        ),
        (r#", "signing": {}"#, "the 'signing' block is missing 'storeFile'"),
        (
            r#", "signing": {"storeFile": "s"}"#,
            "the 'signing' block is missing 'storePassword'",
        ),
        (
            r#", "signing": {"storeFile": "s", "storePassword": "p"}"#,
            "the 'signing' block is missing 'keyAlias'",
        ),
        (
            r#", "signing": {"storeFile": "s", "storePassword": "p", "keyAlias": "a"}"#,
            "the 'signing' block is missing 'keyPassword'",
        ),
    ];
    for (rest, message) in cases {
        let plan = configure(r#""sources": ["src/Main.java"]"#, rest);
        assert_eq!(failure(&plan), message, "{rest}");
        assert_eq!(names(&plan), ["prepareBuildDir", "mergeResources"], "{rest}");
    }
    let plan = configure(r#""sources": ["src/Main.java"], "targetSdk": "x""#, "");
    assert_eq!(
        failure(&plan),
        "the 'android' block key 'targetSdk' must be an integer, found \"x\""
    );
    let without_min = r#"{"projectDir": "/p", "androidSdkDir": "/sdk", "android": {"compileSdk": 1, "namespace": "n", "sources": ["a.kt"], "manifest": "m", "resDir": "r"}}"#;
    let plan = AndroidPlugin::configure(without_min, &probe());
    assert_eq!(failure(&plan), "the 'android' block is missing a numeric 'minSdk'");
    assert_eq!(names(&plan), ["prepareBuildDir", "mergeResources"]);
}

#[test]
fn a_broken_variant_ends_the_plan() {
    let plan = configure(
        r#""sources": ["src/Main.java"]"#,
        r#", "productFlavors": {"dimension": "t", "bad": {"sources": ["x.exe"]}}"#,
    );
    assert_eq!(failure(&plan), "source '/proj/x.exe' is neither a .java nor a .kt file");
    assert_eq!(names(&plan), ["prepareBuildDir", "mergeResources"]);
    let plan = configure(r#""sources": ["src/Main.java"], "compose": true"#, "");
    assert_eq!(
        failure(&plan),
        "compose = true but the compose compiler plugin JAR was not found on the compile classpath; add a dependency such as \"org.jetbrains.kotlin:compose-compiler-plugin:<kotlin-version>\""
    );
    assert_eq!(
        names(&plan),
        [
            "prepareBuildDir",
            "mergeResources",
            "prepareApkDebug",
            "prepareDexDebug",
            "generateBuildConfigDebug",
            "linkResourcesDebug",
            "seedApkDebug",
            "compileDebug"
        ]
    );
}

#[test]
fn the_matrix_goes_build_type_by_build_type() {
    let config = json(
        r#"{"android": {"compileSdk": 36, "minSdk": 21}, "buildTypes": {"release": {}, "debug": {}}, "productFlavors": {"dimension": "t", "paid": {}, "free": {}}}"#,
    );
    let (variants, flavors) = compute_variants(&config).expect("variants");
    let names: Vec<&str> = variants.iter().map(|variant| variant.name.as_str()).collect();
    assert_eq!(names, ["DebugFree", "DebugPaid", "ReleaseFree", "ReleasePaid"]);
    assert_eq!(flavors.len(), 2);
    assert_eq!(flavors.key_at(0), "free");
    assert_eq!(variants[0].target_sdk, 36);
}

#[test]
fn repeated_base_sources_are_merged_once() {
    let base = ["/proj/A.java".to_owned(), "A.java".to_owned(), "B.java".to_owned()];
    let mut flavors = SortedMap::new();
    flavors.insert(
        "free".to_owned(),
        FlavorInfo {
            dimension: "t".to_owned(),
            min_sdk: None,
            application_id_suffix: String::new(),
            sources: vec!["C.kt".to_owned(), "B.java".to_owned(), "C.kt".to_owned()],
        },
    );
    let selected = ["other".to_owned(), "free".to_owned()];
    assert_eq!(
        merge_variant_sources(&base, "/proj", &selected, &flavors).expect("merges"),
        ["/proj/A.java", "/proj/B.java", "/proj/C.kt"]
    );
}

#[test]
fn quoting_escapes_backslashes_and_quotes() {
    assert_eq!(quote_string(r#"a\b"c"#), r#""a\\b\"c""#);
    assert_eq!(quote_string(""), "\"\"");
    assert_eq!(quote_string("é"), "\"é\"");
    for text in ["", "\\", "\"", "\\\"", "plain", "a\\\\b\"\""] {
        let quoted = quote_string(text);
        let inside = &quoted[1..quoted.len() - 1];
        assert_eq!(inside, text.replace('\\', "\\\\").replace('"', "\\\""));
    }
}

#[test]
fn fields_that_are_no_triples_are_passed_over() {
    let android = json(
        r#"{"buildConfigField": [1, "a", ["x", 2, null], ["y"], "T", "N", "I", "left", "over"]}"#,
    );
    let fields = parse_build_config_fields(&android);
    let found: Vec<(&str, &str, &str)> = fields
        .iter()
        .map(|f| (f.java_type.as_str(), f.name.as_str(), f.initializer.as_str()))
        .collect();
    assert_eq!(found, [("x", "_UNKNOWN_", "null"), ("T", "N", "I")]);
    let objects = json(r#"{"buildConfigField": [[1, "A", "2"]]}"#);
    assert_eq!(parse_build_config_fields(&objects)[0].java_type, "Object");
}

#[test]
fn numbers_in_the_generated_source_can_be_negative() {
    let fields = [BuildConfigField {
        java_type: "long".to_owned(),
        name: "L".to_owned(),
        initializer: "-1L".to_owned(),
    }];
    let source = generate_buildconfig_source(&BuildConfigParams {
        namespace: "n",
        application_id: "n",
        build_type: "debug",
        debug: false,
        flavor: "",
        version_code: -5,
        version_name: "\"",
        min_sdk: 1,
        target_sdk: 2,
        compile_sdk: 3,
        user_fields: &fields,
    });
    assert!(source.contains("VERSION_CODE = -5;"), "{source}");
    assert!(source.contains("VERSION_NAME = \"\\\"\";"), "{source}");
    assert!(source.ends_with("  public static final long L = -1L;\n}\n"), "{source}");
}

#[test]
fn the_platform_jar_is_no_input() {
    let plan = configure(
        r#""sources": ["src/Main.java", "src/Main.kt"]"#,
        &format!(r#"{SIGNING}, "classpath": {{"compile": ["/r/kotlin-stdlib.jar"]}}"#),
    );
    assert_eq!(plan.outcome, Ok(()));
    for task in &plan.tasks {
        assert!(!task.inputs.iter().any(|input| input == JAR), "{}", task.name);
    }
}

#[test]
fn every_source_reaches_the_classes_jar() {
    let plan = configure(
        r#""sources": ["src/Main.java"]"#,
        r#", "productFlavors": {"dimension": "t", "free": {"sources": ["src/Free.kt"]}}"#,
    );
    for variant in ["DebugFree", "ReleaseFree"] {
        let pack = task(&plan, &format!("jarClasses{variant}"));
        for source in ["/proj/src/Main.java", "/proj/src/Free.kt"] {
            let reached = plan.tasks.iter().any(|task| {
                task.inputs.iter().any(|input| input == source)
                    && pack.depends_on.contains(&task.name)
            });
            assert!(reached, "{variant} {source}");
        }
    }
}

#[test]
fn the_compose_plugin_is_known_by_its_file_name() {
    let classpath = [
        "/m2/compose-compiler-plugin/notes.jar".to_owned(),
        "/m2/compose-compiler-plugin-2.0.0.pom".to_owned(),
        "/m2/compose-compiler-plugin-2.0.0.jar".to_owned(),
    ];
    assert_eq!(
        find_compose_compiler_jar(&classpath),
        Some("/m2/compose-compiler-plugin-2.0.0.jar".to_owned())
    );
    assert_eq!(find_compose_compiler_jar(&classpath[..2]), None);
    assert_eq!(
        find_compose_compiler_jar(&["compose-compiler-plugin.jar".to_owned()]),
        Some("compose-compiler-plugin.jar".to_owned())
    );
    let plan = configure(
        r#""sources": ["src/Main.kt"], "compose": true"#,
        r#", "classpath": {"compile": ["/m2/compose-compiler-plugin/notes.jar", "/m2/compose-compiler-plugin-2.0.0.jar"]}"#,
    );
    let kotlin = run(task(&plan, "compileKotlinDebug")).1;
    assert!(kotlin.contains(&"-Xplugin=/m2/compose-compiler-plugin-2.0.0.jar"), "{kotlin:?}");
}

fn has_distinct_names(plan: &Plan) -> bool {
    let mut sorted = names(plan);
    sorted.sort_unstable();
    sorted.windows(2).all(|pair| pair[0] != pair[1])
}

#[test]
fn task_names_are_distinct_unless_variant_names_clash() {
    let sources = r#""sources": ["src/Main.java"]"#;
    let flavored = r#", "productFlavors": {"dimension": "t", "free": {}, "paid": {}}"#;
    assert!(has_distinct_names(&configure(sources, &format!("{SIGNING}{flavored}"))));
    let kotlin = r#", "buildTypes": {"debug": {}, "kotlin_debug": {}}"#;
    assert!(has_distinct_names(&configure(sources, kotlin)));
    assert!(!has_distinct_names(&configure(r#""sources": ["src/Main.kt"]"#, kotlin)));
    let dex = r#", "buildTypes": {"debug": {}, "dex_debug": {}}"#;
    assert!(!has_distinct_names(&configure(sources, dex)));
    let same = r#", "buildTypes": {"a_b": {}, "aB": {}}"#;
    assert!(!has_distinct_names(&configure(sources, same)));
}

#[test]
fn passwords_stand_only_in_their_files() {
    let with = |store: &str, key: &str| {
        configure(
            r#""sources": ["src/Main.java"]"#,
            &format!(
                r#", "signing": {{"storeFile": "k", "storePassword": "{store}", "keyAlias": "a", "keyPassword": "{key}"}}"#
            ),
        )
    };
    let one = with("hunter2", "hunter3");
    let other = with("secret", "hidden");
    assert_eq!(one.outcome, Ok(()));
    assert_eq!(names(&one), names(&other));
    for (a, b) in one.tasks.iter().zip(&other.tasks) {
        let same = format!("{a:?}") == format!("{b:?}");
        let written_here = a.name.starts_with("writeSigning");
        assert_eq!(same, !written_here, "{}", a.name);
        if written_here {
            assert_eq!(written(a).0, written(b).0);
            assert_eq!((&a.inputs, &a.outputs), (&b.inputs, &b.outputs));
        }
    }
}
