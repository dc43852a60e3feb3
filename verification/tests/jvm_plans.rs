//! Plans of the JVM plugin and of the hello plugin.

use ulb_plugins::hello::HelloPlugin;
use ulb_plugins::jvm::{optional_string_list, register_tests, JvmPlugin, TEST_RUNNER_SOURCE};
use ulb_plugins::parse::parse_json;
use ulb_plugins::task::{Action, AllowlistedTool, Plan, Task};

fn names(plan: &Plan) -> Vec<&str> {
    plan.tasks.iter().map(|task| task.name.as_str()).collect()
}

fn task<'a>(plan: &'a Plan, name: &str) -> &'a Task {
    plan.tasks.iter().find(|task| task.name == name).expect("the task is planned")
}

fn run(task: &Task) -> (AllowlistedTool, Vec<&str>) {
    match &task.action {
        Action::RunTool(run) => {
            assert_eq!(run.cwd, ".");
            (run.tool, run.args.iter().map(|arg| arg.as_str()).collect())
        }
        Action::WriteFile(_) => panic!("{} writes a file", task.name),
    }
}

fn configure(rest: &str) -> Plan {
    JvmPlugin::configure(&format!(
        r#"{{"projectDir": "/proj", "classpath": {{"compile": ["/r/one.jar"], "testCompile": ["/r/tc.jar"], "testRuntime": ["/r/tr.jar"]}}, "jvm": {{{rest}}}}}"#
    ))
}

fn failure(plan: &Plan) -> &str {
    plan.outcome.as_ref().expect_err("planning fails")
}

const MAIN: &str = r#""sources": ["src/App.java", "src/Util.kt"], "classesDir": "build/classes", "jarFile": "build/app.jar""#;

#[test]
fn a_mixed_module_compiles_java_before_kotlin() {
    let plan = configure(MAIN);
    assert_eq!(plan.outcome, Ok(()));
    assert_eq!(names(&plan), ["compile", "compile-kotlin", "assemble"]);
    let java = task(&plan, "compile");
    assert_eq!(java.inputs, ["/proj/src/App.java"]);
    assert_eq!(java.outputs, ["/proj/build/classes"]);
    assert!(java.depends_on.is_empty());
    assert_eq!(
        run(java),
        (
            AllowlistedTool::Javac,
            vec!["-d", "/proj/build/classes", "-cp", "/r/one.jar", "/proj/src/App.java"]
        )
    );
    let kotlin = task(&plan, "compile-kotlin");
    assert_eq!(kotlin.depends_on, ["compile"]);
    assert_eq!(
        run(kotlin),
        (
            AllowlistedTool::Kotlinc,
            vec![
                "-d",
                "/proj/build/classes",
                "-cp",
                "/r/one.jar:/proj/build/classes",
                "/proj/src/Util.kt"
            ]
        )
    );
    let assemble = task(&plan, "assemble");
    assert_eq!(assemble.inputs, ["/proj/build/classes"]);
    assert_eq!(assemble.outputs, ["/proj/build/app.jar"]);
    assert_eq!(assemble.depends_on, ["compile", "compile-kotlin"]);
    assert_eq!(
        run(assemble),
        (
            AllowlistedTool::Jar,
            vec!["cf", "/proj/build/app.jar", "-C", "/proj/build/classes", "."]
        )
    );
}

#[test]
fn a_module_of_one_language_has_one_compile_task() {
    let java = configure(r#""sources": ["A.java"], "classesDir": "c", "jarFile": "/out/j.jar""#);
    assert_eq!(names(&java), ["compile", "assemble"]);
    assert_eq!(task(&java, "assemble").outputs, ["/out/j.jar"]);
    let kotlin = configure(r#""sources": ["A.kt"], "classesDir": "c", "jarFile": "j.jar""#);
    assert_eq!(names(&kotlin), ["compile-kotlin", "assemble"]);
    assert!(task(&kotlin, "compile-kotlin").depends_on.is_empty());
}

#[test]
fn processors_run_before_both_compilers() {
    let plan = JvmPlugin::configure(
        r#"{"projectDir": "/proj", "classpath": {"processor": ["/r/ksp.jar"]},
            "jvm": {"sources": ["A.java", "B.kt"], "classesDir": "c", "jarFile": "j.jar"}}"#,
    );
    assert_eq!(names(&plan), ["ksp", "compile", "compile-kotlin", "assemble"]);
    let ksp = task(&plan, "ksp");
    assert_eq!(ksp.inputs, ["/proj/B.kt"]);
    assert_eq!(
        ksp.outputs,
        ["/proj/build/generated/ksp/kotlin", "/proj/build/generated/ksp/java"]
    );
    assert_eq!(run(ksp).0, AllowlistedTool::Java);
    assert_eq!(task(&plan, "compile").depends_on, ["ksp"]);
    let kotlin = task(&plan, "compile-kotlin");
    assert_eq!(kotlin.inputs, ["/proj/B.kt", "/proj/build/generated/ksp/kotlin"]);
    assert_eq!(kotlin.depends_on, ["compile", "ksp"]);
}

#[test]
fn tests_run_the_named_class() {
    let plan = configure(&format!(
        r#"{MAIN}, "testSources": ["T.java"], "testClassesDir": "tc", "testClass": "com.T", "testArgs": ["x"]"#
    ));
    assert_eq!(plan.outcome, Ok(()));
    assert_eq!(
        names(&plan),
        ["compile", "compile-kotlin", "assemble", "compile-tests", "test"]
    );
    let compile = task(&plan, "compile-tests");
    assert_eq!(compile.inputs, ["/proj/T.java"]);
    assert_eq!(compile.outputs, ["/proj/tc"]);
    assert_eq!(compile.depends_on, ["compile", "compile-kotlin"]);
    assert_eq!(
        run(compile),
        (
            AllowlistedTool::Javac,
            vec!["-d", "/proj/tc", "-cp", "/r/tc.jar:/proj/build/classes", "/proj/T.java"]
        )
    );
    let test = task(&plan, "test");
    assert_eq!(test.inputs, ["/proj/tc", "/proj/build/classes"]);
    assert!(test.outputs.is_empty());
    assert_eq!(test.depends_on, ["compile-tests"]);
    assert_eq!(
        run(test),
        (
            AllowlistedTool::Java,
            vec!["-cp", "/r/tr.jar:/proj/tc:/proj/build/classes", "com.T", "x"]
        )
    );
}

#[test]
fn tests_run_the_generated_runner() {
    let plan = configure(&format!(
        r#"{MAIN}, "testSources": ["T.java"], "testClassesDir": "tc", "testRunner": "junit-platform""#
    ));
    assert_eq!(
        names(&plan),
        ["compile", "compile-kotlin", "assemble", "generate-test-runner", "compile-tests", "test"]
    );
    let path = "/proj/build/generated-test-src/ulite/TestRunner.java";
    let generate = task(&plan, "generate-test-runner");
    assert_eq!(generate.outputs, [path]);
    match &generate.action {
        Action::WriteFile(file) => {
            assert_eq!(file.path, path);
            assert_eq!(file.contents, TEST_RUNNER_SOURCE);
        }
        Action::RunTool(_) => panic!("the runner is written"),
    }
    let compile = task(&plan, "compile-tests");
    assert_eq!(compile.inputs, ["/proj/T.java", path]);
    assert_eq!(compile.depends_on, ["compile", "compile-kotlin", "generate-test-runner"]);
    assert_eq!(
        run(task(&plan, "test")).1,
        ["-cp", "/r/tr.jar:/proj/tc:/proj/build/classes", "ulite.TestRunner", "/proj/tc"]
    );
}

#[test]
fn a_broken_main_build_registers_nothing() {
    let cases = [
        ("{", None),
        ("{}", Some("module config is missing 'projectDir'")),
        (r#"{"projectDir": "/p"}"#, Some("module config has no 'jvm' block")),
        (
            r#"{"projectDir": "/p", "jvm": {}}"#,
            Some("the 'jvm' block is missing a 'sources' list"),
        ),
        (
            r#"{"projectDir": "/p", "jvm": {"sources": [1]}}"#,
            Some("a 'sources' entry is not a string"),
        ),
        (
            r#"{"projectDir": "/p", "jvm": {"sources": []}}"#,
            Some("the 'jvm' block declares no sources"),
        ),
        (
            r#"{"projectDir": "/p", "jvm": {"sources": ["a.c"]}}"#,
            Some("source '/p/a.c' is neither a .java nor a .kt file"),
        ),
        (
            r#"{"projectDir": "/p", "jvm": {"sources": ["a.kt"]}}"#,
            Some("the 'jvm' block is missing a 'classesDir' string"),
        ),
        (
            r#"{"projectDir": "/p", "jvm": {"sources": ["a.kt"], "classesDir": "c"}}"#,
            Some("the 'jvm' block is missing a 'jarFile' string"),
        ),
        (
            r#"{"projectDir": "/p", "classpath": {"processor": ["k.jar"]}, "jvm": {"sources": ["a.java"], "classesDir": "c", "jarFile": "j"}}"#,
            Some("the module declares ksp deps but has no .kt sources"),
        ),
    ];
    for (config, message) in cases {
        let plan = JvmPlugin::configure(config);
        assert!(plan.tasks.is_empty(), "{config}");
        match message {
            Some(message) => assert_eq!(failure(&plan), message, "{config}"),
            None => {
                let expected = format!(
                    "invalid module config JSON: {}",
                    parse_json(config).expect_err("malformed")
                );
                assert_eq!(failure(&plan), expected);
            }
        }
    }
}

#[test]
fn a_broken_test_suite_follows_the_main_build() {
    let cases = [
        (
            r#""testSources": ["T.java"]"#,
            "the 'jvm' block must set testSources and testClassesDir together",
        ),
        (
            r#""testClassesDir": "tc""#,
            "the 'jvm' block must set testSources and testClassesDir together",
        ),
        (
            r#""testSources": ["T.java"], "testClassesDir": "tc", "testClass": "A", "testRunner": "junit-platform""#,
            "the 'jvm' block sets both testClass and testRunner; choose one",
        ),
        (
            r#""testSources": ["T.java"], "testClassesDir": "tc""#,
            "the 'jvm' block sets testSources without a testClass or testRunner",
        ),
        (
            r#""testSources": "T.java", "testClassesDir": "tc", "testClass": "A""#,
            "the 'jvm' block is missing a 'testSources' list",
        ),
        (
            r#""testSources": [], "testClassesDir": "tc", "testClass": "A""#,
            "the 'jvm' block declares no test sources",
        ),
        (
            r#""testSources": ["T.c"], "testClassesDir": "tc", "testClass": "A""#,
            "source '/proj/T.c' is neither a .java nor a .kt file",
        ),
        (
            r#""testSources": ["T.java", "T.kt"], "testClassesDir": "tc", "testClass": "A""#,
            "test source '/proj/T.kt' is not a .java file; kotlin test compilation is not supported",
        ),
        (
            r#""testSources": ["T.java"], "testClassesDir": "tc", "testRunner": "spock""#,
            "unsupported testRunner 'spock'; the supported value is 'junit-platform'",
        ),
        (
            r#""testSources": ["T.java"], "testClassesDir": "tc", "testClass": "A", "testArgs": "x""#,
            "the 'jvm' block's 'testArgs' is not a list",
        ),
        (
            r#""testSources": ["T.java"], "testClassesDir": "tc", "testClass": "A", "testArgs": [1]"#,
            "a 'jvm.testArgs' entry is not a string",
        ),
    ];
    for (tests, message) in cases {
        let plan = configure(&format!("{MAIN}, {tests}"));
        assert_eq!(failure(&plan), message, "{tests}");
        assert_eq!(names(&plan), ["compile", "compile-kotlin", "assemble"], "{tests}");
    }
}

#[test]
fn optional_lists_default_to_empty() {
    let block = parse_json(r#"{"testArgs": ["a"]}"#).expect("well-formed JSON");
    assert_eq!(optional_string_list(&block, "testArgs"), Ok(vec!["a".to_owned()]));
    assert_eq!(optional_string_list(&block, "none"), Ok(Vec::new()));
}

#[test]
fn every_task_follows_what_it_depends_on_and_runs_a_declared_tool() {
    let plan = JvmPlugin::configure(&format!(
        r#"{{"projectDir": "/proj", "classpath": {{"processor": ["/r/ksp.jar"]}}, "jvm": {{{MAIN}, "testSources": ["T.java"], "testClassesDir": "tc", "testRunner": "junit-platform"}}}}"#
    ));
    assert_eq!(plan.outcome, Ok(()));
    let manifest = JvmPlugin::manifest("1.2.3", "0.8");
    assert_eq!(manifest.name, "ulite/jvm");
    assert_eq!(manifest.version, "1.2.3");
    assert_eq!(manifest.abi_version, "0.8");
    assert_eq!(manifest.tools, ["javac", "kotlinc", "jar", "java"]);
    assert!(manifest.dependencies.is_empty());
    for (i, task) in plan.tasks.iter().enumerate() {
        for name in &task.depends_on {
            assert!(plan.tasks[..i].iter().any(|earlier| &earlier.name == name), "{name}");
        }
        if let Action::RunTool(run) = &task.action {
            let tool = format!("{:?}", run.tool).to_lowercase();
            assert!(manifest.tools.contains(&tool), "{tool}");
        }
        for path in task.inputs.iter().chain(&task.outputs) {
            assert!(path.starts_with('/'), "{path}");
        }
    }
    assert_eq!(JvmPlugin::run("echo".to_owned()), "echo");
}

#[test]
fn hello_accepts_any_well_formed_configuration() {
    for config in ["null", "{}", r#"{"projectDir": "/p"}"#, "[1, 2]", "\"text\""] {
        assert_eq!(HelloPlugin::configure(config), Ok(()));
    }
    let error = HelloPlugin::configure("{").expect_err("malformed");
    assert!(error.starts_with("invalid module config JSON: "), "{error}");
    assert_eq!(HelloPlugin::run("world".to_owned()), "hello-plugin says: world");
    let manifest = HelloPlugin::manifest("0.5.0", "0.8");
    assert_eq!(manifest.name, "ulite/hello");
    assert!(manifest.tools.is_empty());
    assert!(manifest.dependencies.is_empty());
}

#[test]
fn every_source_reaches_the_jar() {
    let plan = JvmPlugin::configure(&format!(
        r#"{{"projectDir": "/proj", "classpath": {{"processor": ["/r/ksp.jar"]}}, "jvm": {{{MAIN}}}}}"#
    ));
    let assemble = task(&plan, "assemble");
    for source in ["/proj/src/App.java", "/proj/src/Util.kt"] {
        let reached = plan.tasks.iter().any(|task| {
            task.inputs.iter().any(|input| input == source)
                && assemble.depends_on.contains(&task.name)
        });
        assert!(reached, "{source}");
    }
}

#[test]
fn test_classpaths_reach_only_the_tests() {
    let tests = r#""testSources": ["T.java"], "testClassesDir": "tc", "testRunner": "junit-platform""#;
    let with = |buckets: &str| {
        JvmPlugin::configure(&format!(
            r#"{{"projectDir": "/proj", "classpath": {{"compile": ["/r/one.jar"]{buckets}}}, "jvm": {{{MAIN}, {tests}}}}}"#
        ))
    };
    let plain = with("");
    let scoped = with(r#", "testCompile": ["/r/junit.jar"], "testRuntime": ["/r/junit.jar"]"#);
    assert_eq!(names(&plain), names(&scoped));
    for (a, b) in plain.tasks.iter().zip(&scoped.tasks) {
        let same = format!("{a:?}") == format!("{b:?}");
        assert_eq!(same, a.name != "compile-tests" && a.name != "test", "{}", a.name);
    }
}

#[test]
fn a_test_class_without_tests_is_an_error() {
    let message = "the 'jvm' block sets testClass without testSources and testClassesDir";
    let tests = |keys: &str| {
        let block = parse_json(&format!("{{{keys}}}")).expect("well-formed JSON");
        let config = parse_json("{}").expect("well-formed JSON");
        register_tests(&block, "/p", &config, "/p/out", &["compile".to_owned()])
    };
    for keys in [
        r#""testClass": "com.example.AppTest""#,
        r#""testClass": "A", "testRunner": "B""#,
    ] {
        let plan = configure(&format!("{MAIN}, {keys}"));
        assert_eq!(failure(&plan), message, "{keys}");
        assert_eq!(names(&plan), ["compile", "compile-kotlin", "assemble"], "{keys}");
        assert_eq!(tests(keys).expect_err("nothing to run"), message, "{keys}");
    }
    for keys in [
        r#""testRunner": "junit-platform""#,
        r#""testRunner": "spock""#,
        r#""testClass": 1"#,
        r#""testRunner": [1]"#,
        r#""testArgs": ["x"]"#,
    ] {
        let plan = configure(&format!("{MAIN}, {keys}"));
        assert_eq!(plan.outcome, Ok(()), "{keys}");
        assert_eq!(names(&plan), ["compile", "compile-kotlin", "assemble"], "{keys}");
        assert!(tests(keys).expect("no tests").is_empty(), "{keys}");
    }
}
