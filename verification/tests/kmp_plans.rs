//! Plans of the multiplatform plugin.

use ulb_plugins::android::plan::AndroidPlugin;
use ulb_plugins::kmp::classpath::d8_merge_args;
use ulb_plugins::kmp::plan::{resolve_sdk_root, KmpPlugin, TEST_RUNNER_SOURCE};
use ulb_plugins::kmp::variants::compute_variants;
use ulb_plugins::parse::parse_json;
use ulb_plugins::sdk::{Listing, SdkProbe, ToolsEntry};
use ulb_plugins::task::{Action, AllowlistedTool, Plan, Task};

fn probe() -> SdkProbe {
    SdkProbe {
        platform_jar: true,
        build_tools: Listing::Entries(vec![ToolsEntry {
            name: "36.0.0".to_owned(),
            is_dir: true,
            has_aapt2: true,
            has_d8: true,
        }]),
        d8_jar: true,
    }
}

fn configure(kmp: &str, rest: &str) -> Plan {
    KmpPlugin::configure(
        &format!(r#"{{"projectDir": "/proj", "kmp": {{{kmp}}}{rest}}}"#),
        &probe(),
    )
}

fn names(plan: &Plan) -> Vec<&str> {
    plan.tasks.iter().map(|task| task.name.as_str()).collect()
}

fn task<'a>(plan: &'a Plan, name: &str) -> &'a Task {
    plan.tasks.iter().find(|task| task.name == name).expect("the task is planned")
}

fn run(task: &Task) -> (AllowlistedTool, Vec<&str>) {
    match &task.action {
        Action::RunTool(run) => {
            assert_eq!(run.cwd, ".");
            (run.tool, run.args.iter().map(|arg| arg.as_str()).collect())
        }
        Action::WriteFile(_) => panic!("{} writes a file", task.name),
    }
}

fn failure(plan: &Plan) -> &str {
    plan.outcome.as_ref().expect_err("planning fails")
}

const JVM: &str = r#""commonMain": {"sources": ["c/Shared.kt"]}, "jvmMain": {"sources": ["j/App.java", "j/Main.kt"]}"#;
const SETS: &str = r#", "classpathSourceSets": {"kmp.commonMain": {"compile": ["/r/shared.jar"]}, "kmp.jvmMain": {"compile": ["/r/jvm.jar", "/r/shared.jar"]}, "kmp.jvmTest": {"testCompile": ["/r/tc.jar"], "testRuntime": ["/r/tr.jar"]}}"#;

#[test]
fn the_jvm_target_compiles_shared_sources_first() {
    let plan = configure(&format!(r#"{JVM}, "jvm": {{"classesDir": "b/c", "jarFile": "b/a.jar"}}"#), SETS);
    assert_eq!(plan.outcome, Ok(()));
    assert_eq!(names(&plan), ["compile", "compile-kotlin", "assemble"]);
    assert_eq!(
        run(task(&plan, "compile")),
        (
            AllowlistedTool::Javac,
            vec!["-d", "/proj/b/c", "-cp", "/r/shared.jar:/r/jvm.jar", "/proj/j/App.java"]
        )
    );
    let kotlin = task(&plan, "compile-kotlin");
    assert_eq!(kotlin.inputs, ["/proj/c/Shared.kt", "/proj/j/Main.kt"]);
    assert_eq!(kotlin.depends_on, ["compile"]);
    assert_eq!(
        run(kotlin).1,
        [
            "-d",
            "/proj/b/c",
            "-cp",
            "/r/shared.jar:/r/jvm.jar:/proj/b/c",
            "/proj/c/Shared.kt",
            "/proj/j/Main.kt"
        ]
    );
    let assemble = task(&plan, "assemble");
    assert_eq!(assemble.outputs, ["/proj/b/a.jar"]);
    assert_eq!(assemble.depends_on, ["compile", "compile-kotlin"]);
}

#[test]
fn the_jvm_target_compiles_and_runs_its_tests() {
    let target = r#""classesDir": "c", "jarFile": "a.jar", "testClassesDir": "tc""#;
    let tests = r#""commonTest": {"sources": ["t/Shared.java"]}, "jvmTest": {"sources": ["t/Jvm.java"]}"#;
    let plan = configure(
        &format!(
            r#"{JVM}, {tests}, "jvm": {{{target}, "testClass": "com.T", "testArgs": ["x"]}}"#
        ),
        SETS,
    );
    assert_eq!(plan.outcome, Ok(()));
    let compile = task(&plan, "compile-tests");
    assert_eq!(compile.inputs, ["/proj/t/Shared.java", "/proj/t/Jvm.java"]);
    assert_eq!(compile.depends_on, ["compile", "compile-kotlin"]);
    assert_eq!(
        run(compile).1,
        [
            "-d",
            "/proj/tc",
            "-cp",
            "/r/tc.jar:/proj/c",
            "/proj/t/Shared.java",
            "/proj/t/Jvm.java"
        ]
    );
    let test = task(&plan, "test");
    assert_eq!(test.inputs, ["/proj/tc", "/proj/c"]);
    assert_eq!(run(test).1, ["-cp", "/r/tr.jar:/proj/tc:/proj/c", "com.T", "x"]);

    // A list of arguments that is wrong counts as none, and without sources
    // there is nothing to run.
    let plan = configure(
        &format!(r#"{JVM}, {tests}, "jvm": {{{target}, "testClass": "com.T", "testArgs": 1}}"#),
        "",
    );
    assert_eq!(run(task(&plan, "test")).1, ["-cp", "/proj/tc:/proj/c", "com.T"]);
    let plan = configure(&format!(r#"{JVM}, "jvm": {{{target}, "testClass": "com.T"}}"#), "");
    assert_eq!(plan.outcome, Ok(()));
    assert_eq!(names(&plan), ["compile", "compile-kotlin", "assemble"]);

    let plan = configure(
        &format!(r#"{JVM}, "jvm": {{{target}, "testRunner": "junit-platform"}}"#),
        "",
    );
    let path = "/proj/build/generated-test-src/ulite/TestRunner.java";
    match &task(&plan, "generate-test-runner").action {
        Action::WriteFile(file) => {
            assert_eq!(file.path, path);
            assert_eq!(file.contents, TEST_RUNNER_SOURCE);
        }
        Action::RunTool(_) => panic!("the runner is written"),
    }
    assert_eq!(task(&plan, "compile-tests").inputs, [path]);
    assert_eq!(
        task(&plan, "compile-tests").depends_on,
        ["compile", "compile-kotlin", "generate-test-runner"]
    );
    assert_eq!(
        run(task(&plan, "test")).1,
        ["-cp", "/proj/tc:/proj/c", "ulite.TestRunner", "/proj/tc"]
    );
}

const ANDROID: &str = r#", "androidSdkDir": "/sdk", "android": {"compileSdk": 36, "minSdk": 21, "namespace": "com.example", "sources": ["src/Main.java"], "manifest": "m.xml", "resDir": "res"}"#;
const TARGET: &str = r#""commonMain": {"sources": ["c/Shared.kt"]}, "androidMain": {"sources": ["a/Main.kt"]}, "android": {}"#;
const SIGNING: &str = r#", "signing": {"storeFile": "k", "storePassword": "sp", "keyAlias": "al", "keyPassword": "kp"}"#;

#[test]
fn the_android_target_merges_its_dex_into_the_apk() {
    let sets = r#", "classpathSourceSets": {"kmp.androidMain": {"compile": ["/r/kotlin-stdlib.jar", "/r/x.jar"]}}"#;
    let plan = configure(TARGET, &format!("{ANDROID}{sets}"));
    assert_eq!(plan.outcome, Ok(()));
    assert_eq!(
        names(&plan),
        [
            "compileAndroid",
            "jarKmpAndroid",
            "mergeDexDebug",
            "assembleAndroidDebug",
            "mergeDexRelease",
            "assembleAndroidRelease"
        ]
    );
    let jar = "/sdk/platforms/android-36/android.jar";
    let classpath = format!("{jar}:/r/kotlin-stdlib.jar:/r/x.jar");
    let compile = task(&plan, "compileAndroid");
    assert_eq!(compile.depends_on, ["ulite/android:prepareBuildDir"]);
    assert_eq!(compile.outputs, ["/proj/build/kmp/android/classes"]);
    assert_eq!(
        run(compile),
        (
            AllowlistedTool::Kotlinc,
            vec![
                "-d",
                "/proj/build/kmp/android/classes",
                "-cp",
                classpath.as_str(),
                "-jvm-target",
                "17",
                "/proj/a/Main.kt",
                "/proj/c/Shared.kt"
            ]
        )
    );
    assert_eq!(
        run(task(&plan, "jarKmpAndroid")).1,
        [
            "cf",
            "/proj/build/kmp/android/classes.jar",
            "-C",
            "/proj/build/kmp/android/classes",
            "."
        ]
    );
    let merge = task(&plan, "mergeDexDebug");
    assert_eq!(
        merge.inputs,
        [
            "/proj/build/debug/classes.jar",
            "/proj/build/kmp/android/classes.jar",
            "/r/kotlin-stdlib.jar"
        ]
    );
    assert_eq!(merge.outputs, ["/proj/build/kmp/android/dex-debug/classes.dex"]);
    assert_eq!(merge.depends_on, ["jarKmpAndroid", "ulite/android:jarClassesDebug"]);
    assert_eq!(
        run(merge),
        (
            AllowlistedTool::Java,
            vec![
                "-cp",
                "/sdk/build-tools/36.0.0/lib/d8.jar",
                "com.android.tools.r8.D8",
                "--min-api=21",
                "--lib",
                jar,
                "--output=/proj/build/kmp/android/dex-debug",
                "/proj/build/debug/classes.jar",
                "/proj/build/kmp/android/classes.jar",
                "/r/kotlin-stdlib.jar"
            ]
        )
    );
    let graft = task(&plan, "assembleAndroidDebug");
    assert_eq!(
        graft.inputs,
        ["/proj/build/kmp/android/dex-debug/classes.dex", "/proj/build/debug/app-debug.apk"]
    );
    assert_eq!(graft.depends_on, ["mergeDexDebug", "ulite/android:packageApkDebug"]);
    assert_eq!(
        run(graft),
        (
            AllowlistedTool::Jar,
            vec![
                "uf",
                "/proj/build/debug/app-debug.apk",
                "-C",
                "/proj/build/kmp/android/dex-debug",
                "classes.dex"
            ]
        )
    );
}

#[test]
fn the_grafted_apk_is_signed_last() {
    let plan = configure(TARGET, &format!("{ANDROID}{SIGNING}"));
    let sign = task(&plan, "signKmpAndroidDebug");
    assert_eq!(
        sign.depends_on,
        [
            "assembleAndroidDebug",
            "ulite/android:writeSigningPasswords",
            "ulite/android:writeSigningKeyPassword"
        ]
    );
    assert_eq!(
        run(sign),
        (
            AllowlistedTool::Apksigner,
            vec![
                "/sdk/build-tools/36.0.0",
                "sign",
                "--ks",
                "/proj/k",
                "--ks-key-alias",
                "al",
                "--ks-pass",
                "file:/proj/build/android/ks-password.txt",
                "--key-pass",
                "file:/proj/build/android/key-password.txt",
                "/proj/build/debug/app-debug.apk"
            ]
        )
    );
}

#[test]
fn both_targets_depend_only_on_tasks_that_are_planned() {
    let rest = format!(
        r#"{ANDROID}{SIGNING}, "buildTypes": {{"my_type": {{}}}}, "productFlavors": {{"dimension": "t", "free": {{}}, "paid": {{}}}}"#
    );
    let kmp = format!(
        r#"{TARGET}, "jvmMain": {{"sources": ["j/A.java"]}}, "jvm": {{"classesDir": "c", "jarFile": "a.jar"}}"#
    );
    let plan = configure(&kmp, &rest);
    assert_eq!(plan.outcome, Ok(()));
    let android = AndroidPlugin::configure(
        &format!(r#"{{"projectDir": "/proj"{rest}}}"#),
        &probe(),
    );
    assert_eq!(android.outcome, Ok(()));
    let manifest = KmpPlugin::manifest("0.6.0", "0.6");
    assert_eq!(manifest.name, "ulite/kmp");
    assert_eq!(manifest.tools, ["javac", "kotlinc", "jar", "java", "apksigner"]);
    assert_eq!(manifest.dependencies, ["ulite/android"]);
    for (i, task) in plan.tasks.iter().enumerate() {
        for name in &task.depends_on {
            let found = match name.strip_prefix("ulite/android:") {
                Some(rest) => android.tasks.iter().any(|task| task.name == rest),
                None => plan.tasks[..i].iter().any(|earlier| &earlier.name == name),
            };
            assert!(found, "{name}");
        }
        if let Action::RunTool(run) = &task.action {
            let tool = format!("{:?}", run.tool).to_lowercase();
            assert!(manifest.tools.contains(&tool), "{tool}");
        }
        for path in &task.outputs {
            assert!(path.starts_with('/'), "{path}");
        }
    }
    // The classes that are merged and the APK are those of the Android plugin.
    let merge = task(&plan, "mergeDexMyTypeFree");
    assert_eq!(merge.inputs[0], task(&android, "jarClassesMyTypeFree").outputs[0]);
    assert_eq!(
        task(&plan, "assembleAndroidMyTypePaid").outputs,
        task(&android, "packageApkMyTypePaid").outputs
    );
    assert_eq!(KmpPlugin::run("echo".to_owned()), "echo");
}

#[test]
fn unrecognized_entries_are_reported() {
    let cases = [
        (r#""x": 1"#, "the 'kmp.x' entry is not a block"),
        (
            r#""comonMain": {"sources": []}"#,
            "the 'kmp.comonMain' source set is not supported (commonMain, jvmMain, androidMain, commonTest, jvmTest)",
        ),
        (
            r#""commonMain": {}"#,
            "the 'kmp.commonMain' entry is neither a source set (a block with a 'sources' or 'deps' key) nor a known target (jvm, android, ios, desktop, native, wasm)",
        ),
        (r#""ios": {}"#, "the 'kmp.ios' target is not implemented"),
        (r#""jvm": {}, "wasm": {}"#, "the 'kmp.wasm' target is not implemented"),
        (
            r#""commonMain": {"deps": {}}"#,
            "the 'kmp' block declares no 'jvm' or 'android' target",
        ),
        ("", "the 'kmp' block declares no 'jvm' or 'android' target"),
    ];
    for (kmp, message) in cases {
        let plan = configure(kmp, "");
        assert_eq!(failure(&plan), message, "{kmp}");
        assert!(plan.tasks.is_empty(), "{kmp}");
    }
    for (config, message) in [
        ("{}", "module config is missing 'projectDir'"),
        (r#"{"projectDir": "/p"}"#, "module config has no 'kmp' block"),
        (r#"{"projectDir": "/p", "kmp": []}"#, "the 'kmp' block is not an object"),
    ] {
        let plan = KmpPlugin::configure(config, &probe());
        assert_eq!(failure(&plan), message);
        assert!(plan.tasks.is_empty());
    }
    let plan = KmpPlugin::configure("", &probe());
    assert!(failure(&plan).starts_with("invalid module config JSON: "));
}

#[test]
fn a_broken_jvm_target_is_reported() {
    let cases = [
        (r#""jvm": {}"#, "the 'kmp.jvm' block is missing a 'classesDir' string"),
        (
            r#""jvm": {"classesDir": "c"}"#,
            "the 'kmp.jvm' block is missing a 'jarFile' string",
        ),
        (
            r#""jvm": {"classesDir": "c", "jarFile": "j"}"#,
            "the 'kmp' block declares no sources for the jvm target",
        ),
        (
            r#""jvm": {"classesDir": "c", "jarFile": "j"}, "jvmMain": {"sources": 1}"#,
            "the block's 'sources' is not a list",
        ),
        (
            r#""jvm": {"classesDir": "c", "jarFile": "j"}, "jvmMain": {"sources": [1]}"#,
            "a 'sources' entry is not a string",
        ),
        (
            r#""jvm": {"classesDir": "c", "jarFile": "j"}, "jvmMain": {"sources": ["a.c"]}"#,
            "source '/proj/a.c' is neither a .java nor a .kt file",
        ),
    ];
    for (kmp, message) in cases {
        let plan = configure(kmp, "");
        assert_eq!(failure(&plan), message, "{kmp}");
        assert!(plan.tasks.is_empty(), "{kmp}");
    }
}

#[test]
fn broken_tests_follow_the_main_build() {
    let cases = [
        (
            "",
            "",
            "the 'kmp.jvm' block has 'testClassesDir' but neither 'testClass' nor 'testRunner'",
        ),
        (
            r#", "testClass": "A", "testRunner": "junit-platform""#,
            "",
            "the 'kmp.jvm' block specifies both 'testClass' and 'testRunner'; these are mutually exclusive",
        ),
        (
            r#", "testClass": "A""#,
            r#", "jvmTest": {"sources": ["t.c"]}"#,
            "source '/proj/t.c' is neither a .java nor a .kt file",
        ),
        (
            r#", "testRunner": "spock""#,
            "",
            "unknown 'testRunner' value 'spock'; the only supported value is 'junit-platform'",
        ),
    ];
    for (keys, sets, message) in cases {
        let plan = configure(
            &format!(
                r#"{JVM}{sets}, "android": {{}}, "jvm": {{"classesDir": "c", "jarFile": "j", "testClassesDir": "t"{keys}}}"#
            ),
            "",
        );
        assert_eq!(failure(&plan), message);
        assert_eq!(names(&plan), ["compile", "compile-kotlin", "assemble"]);
    }
}

#[test]
fn a_broken_android_target_is_reported() {
    let level = "the 'android' block is missing a numeric 'compileSdk'";
    let sdk = "no Android SDK root: set 'sdkDir' in the 'android' block, or pass --android-sdk / ANDROID_HOME / ANDROID_SDK_ROOT to the host";
    let cases = [
        (TARGET, "", level),
        (TARGET, r#", "android": {}"#, level),
        (TARGET, r#", "android": {"compileSdk": 36}"#, sdk),
        (
            r#""android": {}"#,
            ANDROID,
            "the 'kmp' block declares no sources for the android target",
        ),
        (
            r#""android": {}, "commonMain": {"sources": ["A.java"]}"#,
            ANDROID,
            "the Android target only compiles Kotlin (.kt) sources; move .java files to the JVM target or remove them from the Android source sets",
        ),
        (
            TARGET,
            r#", "androidSdkDir": "/sdk", "android": {"compileSdk": 36, "compose": true}"#,
            "compose = true but the compose compiler plugin JAR was not found on the compile classpath; add a dependency such as \"org.jetbrains.kotlin:compose-compiler-plugin:<kotlin-version>\"",
        ),
    ];
    for (kmp, rest, message) in cases {
        let plan = configure(kmp, rest);
        assert_eq!(failure(&plan), message);
        assert!(plan.tasks.is_empty());
    }
    let text = format!(r#"{{"projectDir": "/proj", "kmp": {{{TARGET}}}{ANDROID}}}"#);
    let mut without_jar = probe();
    without_jar.platform_jar = false;
    let plan = KmpPlugin::configure(&text, &without_jar);
    assert_eq!(failure(&plan), "no android.jar for compileSdk 36 under '/sdk'");
    assert!(plan.tasks.is_empty());
}

#[test]
fn broken_packaging_follows_the_compile_tasks() {
    let cases = [
        (r#", "buildTypes": 1"#, "'buildTypes' must be a block"),
        (r#", "productFlavors": 1"#, "'productFlavors' must be a block"),
        (r#", "productFlavors": {"f": 1}"#, "flavor 'f' must be a block"),
        (r#", "productFlavors": {"f": {}}"#, "flavor 'f' is missing a 'dimension' key"),
        (r#", "signing": {}"#, "the 'signing' block is missing 'storeFile'"),
        (r#", "signing": {"storeFile": "s"}"#, "the 'signing' block is missing 'keyAlias'"),
    ];
    for (rest, message) in cases {
        let plan = configure(TARGET, &format!("{ANDROID}{rest}"));
        assert_eq!(failure(&plan), message, "{rest}");
        assert_eq!(names(&plan), ["compileAndroid", "jarKmpAndroid"]);
    }
    let text = format!(r#"{{"projectDir": "/proj", "kmp": {{{TARGET}}}{ANDROID}}}"#);
    let mut without_tools = probe();
    without_tools.build_tools = Listing::Entries(Vec::new());
    let plan = KmpPlugin::configure(&text, &without_tools);
    assert_eq!(
        failure(&plan),
        "no build-tools version found under '/sdk/build-tools'; install the Android SDK build-tools"
    );
    assert_eq!(names(&plan), ["compileAndroid", "jarKmpAndroid"]);
    let without_min = r#", "androidSdkDir": "/sdk", "android": {"compileSdk": 36}"#;
    let plan = configure(TARGET, without_min);
    assert_eq!(failure(&plan), "the 'android' block is missing a numeric 'minSdk'");
    let none = parse_json("{}").expect("well-formed JSON");
    assert_eq!(
        compute_variants(&none).expect_err("no block"),
        "module config has no 'android' block"
    );
}

#[test]
fn the_merge_takes_the_highest_version() {
    let args = d8_merge_args(
        "/sdk",
        &probe().build_tools,
        &["a.jar", "b.jar"],
        "/out",
        24,
        "/p.jar",
        &["c.jar".to_owned()],
    )
    .expect("a version is there");
    assert_eq!(
        args,
        [
            "-cp",
            "/sdk/build-tools/36.0.0/lib/d8.jar",
            "com.android.tools.r8.D8",
            "--min-api=24",
            "--lib",
            "/p.jar",
            "--output=/out",
            "a.jar",
            "b.jar",
            "c.jar"
        ]
    );
    assert!(d8_merge_args("/sdk", &Listing::Entries(Vec::new()), &[], "/out", 1, "/p", &[]).is_err());
}

#[test]
fn the_sdk_root_comes_from_the_android_block_or_the_host() {
    let config = |text: &str| parse_json(text).expect("well-formed JSON");
    let own = config(r#"{"android": {"sdkDir": "sdk"}, "androidSdkDir": "/host"}"#);
    assert_eq!(resolve_sdk_root(&own, "/proj"), Ok("/proj/sdk".to_owned()));
    let host = config(r#"{"androidSdkDir": "/host"}"#);
    assert_eq!(resolve_sdk_root(&host, "/proj"), Ok("/host".to_owned()));
    assert!(resolve_sdk_root(&config("{}"), "/proj").is_err());
}

#[test]
fn every_source_of_the_jvm_target_reaches_the_jar() {
    let plan = configure(
        &format!(r#"{JVM}, "jvm": {{"classesDir": "c", "jarFile": "a.jar"}}"#),
        SETS,
    );
    let assemble = task(&plan, "assemble");
    for source in ["/proj/c/Shared.kt", "/proj/j/App.java", "/proj/j/Main.kt"] {
        let reached = plan.tasks.iter().any(|task| {
            task.inputs.iter().any(|input| input == source)
                && assemble.depends_on.contains(&task.name)
        });
        assert!(reached, "{source}");
    }
}

#[test]
fn the_dependencies_of_the_module_are_not_consulted() {
    let kmp = format!(r#"{TARGET}, {JVM_TARGET}"#);
    let plain = configure(&kmp, ANDROID);
    let scoped = configure(
        &kmp,
        &format!(r#"{ANDROID}, "deps": {{"implementation": ["x:y:1"]}}, "classpath": {{"compile": ["/r/own.jar"], "testCompile": ["/r/t.jar"]}}"#),
    );
    assert_eq!(plain.outcome, Ok(()));
    assert_eq!(format!("{plain:?}"), format!("{scoped:?}"));
}

const JVM_TARGET: &str = r#""jvmMain": {"sources": ["j/A.java"]}, "jvm": {"classesDir": "c", "jarFile": "a.jar"}"#;

#[test]
fn the_passwords_are_not_read() {
    let rest = |passwords: &str| {
        format!(r#"{ANDROID}, "signing": {{"storeFile": "k", "keyAlias": "al"{passwords}}}"#)
    };
    let without = configure(TARGET, &rest(""));
    let with = configure(TARGET, &rest(r#", "storePassword": "sp", "keyPassword": "kp""#));
    assert_eq!(without.outcome, Ok(()));
    assert_eq!(format!("{without:?}"), format!("{with:?}"));
}
