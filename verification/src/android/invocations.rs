//! The command lines of the Android build.

use crate::invocations::{classpath_text, path_list};
use crate::number::{decimal, decimal_text};
use crate::path::{join_path, path_join};
use crate::text::{
    concat, concat3, dots_to_slashes, extend_texts, one_text, optional_text, push_text, slashed,
    texts,
};
use vstd::prelude::*;

verus! {

/// The directories `javac` looks for further sources in.
pub open spec fn source_path(rgen_dir: Seq<char>, buildconfig_dir: Option<Seq<char>>) -> Seq<char> {
    match buildconfig_dir {
        None => rgen_dir,
        Some(dir) => rgen_dir + ":"@ + dir,
    }
}

/// The `javac` run of a compile task.
pub open spec fn javac_run(
    classes_dir: Seq<char>,
    classpath: Seq<Seq<char>>,
    sources: Seq<Seq<char>>,
    rgen_dir: Seq<char>,
    rgen_java: Seq<char>,
    buildconfig_dir: Option<Seq<char>>,
) -> Seq<Seq<char>> {
    (seq![
        "--release"@,
        "17"@,
        "-d"@,
        classes_dir,
        "-cp"@,
        path_list(classpath),
        "-sourcepath"@,
        source_path(rgen_dir, buildconfig_dir),
    ] + sources).push(rgen_java)
}

/// The front of a `kotlinc` run, up to the sources.
pub open spec fn kotlinc_front(
    classes_dir: Seq<char>,
    classpath: Seq<Seq<char>>,
    compose_compiler_jar: Option<Seq<char>>,
) -> Seq<Seq<char>> {
    let front = seq!["-d"@, classes_dir, "-cp"@, path_list(classpath), "-jvm-target"@, "17"@];
    match compose_compiler_jar {
        None => front,
        Some(jar) => front.push("-Xplugin="@ + jar),
    }
}

/// The `kotlinc` run of a compile task that sees the module's own classes.
pub open spec fn kotlinc_run(
    classes_dir: Seq<char>,
    platform_jar: Seq<char>,
    classpath: Seq<Seq<char>>,
    sources: Seq<Seq<char>>,
    compose_compiler_jar: Option<Seq<char>>,
) -> Seq<Seq<char>> {
    kotlinc_front(
        classes_dir,
        (seq![platform_jar] + classpath).push(classes_dir),
        compose_compiler_jar,
    ) + sources
}

/// The `R.java` generated for a namespace.
pub open spec fn rgen_java_of(rgen_dir: Seq<char>, namespace: Seq<char>) -> Seq<char> {
    path_join(path_join(rgen_dir, dots_to_slashes(namespace)), "R.java"@)
}

/// The `java` run of `d8`.
pub open spec fn d8_run(
    d8_jar: Seq<char>,
    platform_jar: Seq<char>,
    min_sdk: i64,
    dex_dir: Seq<char>,
    classes_jar: Seq<char>,
    extra_jars: Seq<Seq<char>>,
) -> Seq<Seq<char>> {
    seq![
        "-cp"@,
        d8_jar,
        "com.android.tools.r8.D8"@,
        "--lib"@,
        platform_jar,
        "--min-api"@,
        decimal(min_sdk as int),
        "--output"@,
        dex_dir,
        classes_jar,
    ] + extra_jars
}

/// The `jar` run that adds everything under the dex directory to the APK.
pub open spec fn package_run(apk: Seq<char>, dex_dir: Seq<char>) -> Seq<Seq<char>> {
    seq!["uf"@, apk, "-C"@, dex_dir, "."@]
}

/// The `mkdir` run that makes a directory and those above it.
pub open spec fn mkdir_run(dir: Seq<char>) -> Seq<Seq<char>> {
    seq!["-p"@, dir]
}

/// The `aapt2` run that merges the resources.
pub open spec fn resources_run(
    build_tools: Seq<char>,
    res_dir: Seq<char>,
    res_zip: Seq<char>,
) -> Seq<Seq<char>> {
    seq![build_tools, "compile"@, "--dir"@, res_dir, "-o"@, res_zip]
}

/// The `aapt2` run that links the resources of a variant.
pub open spec fn link_run(
    build_tools: Seq<char>,
    resources_apk: Seq<char>,
    manifest: Seq<char>,
    platform_jar: Seq<char>,
    rgen_dir: Seq<char>,
    namespace: Seq<char>,
    min_sdk: i64,
    target_sdk: i64,
    suffix: Seq<char>,
    res_zip: Seq<char>,
) -> Seq<Seq<char>> {
    let front = seq![
        build_tools,
        "link"@,
        "-o"@,
        resources_apk,
        "--manifest"@,
        manifest,
        "-I"@,
        platform_jar,
        "--java"@,
        rgen_dir,
        "--custom-package"@,
        namespace,
        "--min-sdk-version"@,
        decimal(min_sdk as int),
        "--target-sdk-version"@,
        decimal(target_sdk as int),
    ];
    if suffix.len() == 0 {
        front.push(res_zip)
    } else {
        front.push("--rename-manifest-package"@).push(namespace + suffix).push(res_zip)
    }
}

/// The `apksigner` run that signs an APK.
pub open spec fn sign_run(
    build_tools: Seq<char>,
    keystore: Seq<char>,
    key_alias: Seq<char>,
    ks_password_file: Seq<char>,
    key_password_file: Seq<char>,
    apk: Seq<char>,
) -> Seq<Seq<char>> {
    seq![
        build_tools,
        "sign"@,
        "--ks"@,
        keystore,
        "--ks-key-alias"@,
        key_alias,
        "--ks-pass"@,
        "file:"@ + ks_password_file,
        "--key-pass"@,
        "file:"@ + key_password_file,
        apk,
    ]
}

/// The `javac` run of a compile task: emit classes to `-d`, the classpath headed
/// by the platform jar to `-cp`, then the sources followed by the generated
/// `R.java`. The directory of `R.java`, and that of the generated `BuildConfig`
/// when there is one, are on `-sourcepath`.
///
/// The release is pinned to 17, because `d8` rejects class files newer than its
/// supported range.
pub fn compile_args(
    classes_dir: &str,
    classpath: &[String],
    sources: &[String],
    rgen_dir: &str,
    rgen_java: &str,
    buildconfig_dir: Option<&str>,
) -> (r: Vec<String>)
    ensures
        texts(r@) == javac_run(
            classes_dir@,
            texts(classpath@),
            texts(sources@),
            rgen_dir@,
            rgen_java@,
            optional_text(buildconfig_dir),
        ),
{
    let mut args = one_text("--release");
    push_text(&mut args, "17");
    push_text(&mut args, "-d");
    push_text(&mut args, classes_dir);
    push_text(&mut args, "-cp");
    push_text(&mut args, classpath_text(classpath).as_str());
    push_text(&mut args, "-sourcepath");
    match buildconfig_dir {
        None => push_text(&mut args, rgen_dir),
        Some(dir) => push_text(&mut args, concat3(rgen_dir, ":", dir).as_str()),
    }
    extend_texts(&mut args, sources);
    push_text(&mut args, rgen_java);
    args
}

/// The front of a `kotlinc` run, up to the sources.
pub fn kotlinc_front_args(
    classes_dir: &str,
    classpath: &[String],
    compose_compiler_jar: Option<&str>,
) -> (r: Vec<String>)
    ensures
        texts(r@) == kotlinc_front(
            classes_dir@,
            texts(classpath@),
            optional_text(compose_compiler_jar),
        ),
{
    let mut args = one_text("-d");
    push_text(&mut args, classes_dir);
    push_text(&mut args, "-cp");
    push_text(&mut args, classpath_text(classpath).as_str());
    push_text(&mut args, "-jvm-target");
    push_text(&mut args, "17");
    match compose_compiler_jar {
        None => {},
        Some(jar) => push_text(&mut args, concat("-Xplugin=", jar).as_str()),
    }
    args
}

/// The `kotlinc` run of a compile task: emit classes to `-d`, the platform jar,
/// the dependencies and the classes directory itself to `-cp`, so that the
/// module's own Java classes resolve, then the sources. The JVM target matches
/// the release `javac` is pinned to. A Compose compiler plugin is loaded through
/// `-Xplugin`.
pub fn kotlinc_android_args(
    classes_dir: &str,
    platform_jar: &str,
    classpath: &[String],
    sources: &[String],
    compose_compiler_jar: Option<&str>,
) -> (r: Vec<String>)
    ensures
        texts(r@) == kotlinc_run(
            classes_dir@,
            platform_jar@,
            texts(classpath@),
            texts(sources@),
            optional_text(compose_compiler_jar),
        ),
{
    let mut entries = one_text(platform_jar);
    extend_texts(&mut entries, classpath);
    push_text(&mut entries, classes_dir);
    let mut args = kotlinc_front_args(classes_dir, &entries, compose_compiler_jar);
    extend_texts(&mut args, sources);
    args
}

/// The `R.java` generated for `namespace` under `rgen_dir`: the dot segments of
/// the namespace become directories.
pub fn rgen_java_path(rgen_dir: &str, namespace: &str) -> (r: String)
    ensures
        r@ == rgen_java_of(rgen_dir@, namespace@),
{
    let package = join_path(rgen_dir, slashed(namespace).as_str());
    join_path(package.as_str(), "R.java")
}

/// The `java` run of `d8`: the platform jar as `--lib`, the lowest API level as
/// `--min-api`, and the classes jar plus any further jars as inputs.
pub fn d8_args(
    d8_jar: &str,
    platform_jar: &str,
    min_sdk: i64,
    dex_dir: &str,
    classes_jar: &str,
    extra_jars: &[String],
) -> (r: Vec<String>)
    ensures
        texts(r@) == d8_run(
            d8_jar@,
            platform_jar@,
            min_sdk,
            dex_dir@,
            classes_jar@,
            texts(extra_jars@),
        ),
{
    let mut args = one_text("-cp");
    push_text(&mut args, d8_jar);
    push_text(&mut args, "com.android.tools.r8.D8");
    push_text(&mut args, "--lib");
    push_text(&mut args, platform_jar);
    push_text(&mut args, "--min-api");
    push_text(&mut args, decimal_text(min_sdk).as_str());
    push_text(&mut args, "--output");
    push_text(&mut args, dex_dir);
    push_text(&mut args, classes_jar);
    extend_texts(&mut args, extra_jars);
    args
}

/// The `jar` run that adds the dex to the APK: everything under the `d8` output
/// directory, so that every emitted dex file is packaged.
pub fn package_args(apk: &str, dex_dir: &str) -> (r: Vec<String>)
    ensures
        texts(r@) == package_run(apk@, dex_dir@),
{
    let mut args = one_text("uf");
    push_text(&mut args, apk);
    push_text(&mut args, "-C");
    push_text(&mut args, dex_dir);
    push_text(&mut args, ".");
    args
}

/// The `mkdir` run that makes a directory and those above it.
pub fn mkdir_args(dir: &str) -> (r: Vec<String>)
    ensures
        texts(r@) == mkdir_run(dir@),
{
    let mut args = one_text("-p");
    push_text(&mut args, dir);
    args
}

/// The `aapt2` run that merges the resources.
pub fn resources_args(build_tools: &str, res_dir: &str, res_zip: &str) -> (r: Vec<String>)
    ensures
        texts(r@) == resources_run(build_tools@, res_dir@, res_zip@),
{
    let mut args = one_text(build_tools);
    push_text(&mut args, "compile");
    push_text(&mut args, "--dir");
    push_text(&mut args, res_dir);
    push_text(&mut args, "-o");
    push_text(&mut args, res_zip);
    args
}

/// The `aapt2` run that links the resources of a variant. A variant with an
/// application id of its own is renamed in the manifest.
pub fn link_args(
    build_tools: &str,
    resources_apk: &str,
    manifest: &str,
    platform_jar: &str,
    rgen_dir: &str,
    namespace: &str,
    min_sdk: i64,
    target_sdk: i64,
    suffix: &str,
    res_zip: &str,
) -> (r: Vec<String>)
    ensures
        texts(r@) == link_run(
            build_tools@,
            resources_apk@,
            manifest@,
            platform_jar@,
            rgen_dir@,
            namespace@,
            min_sdk,
            target_sdk,
            suffix@,
            res_zip@,
        ),
{
    let mut args = one_text(build_tools);
    push_text(&mut args, "link");
    push_text(&mut args, "-o");
    push_text(&mut args, resources_apk);
    push_text(&mut args, "--manifest");
    push_text(&mut args, manifest);
    push_text(&mut args, "-I");
    push_text(&mut args, platform_jar);
    push_text(&mut args, "--java");
    push_text(&mut args, rgen_dir);
    push_text(&mut args, "--custom-package");
    push_text(&mut args, namespace);
    push_text(&mut args, "--min-sdk-version");
    push_text(&mut args, decimal_text(min_sdk).as_str());
    push_text(&mut args, "--target-sdk-version");
    push_text(&mut args, decimal_text(target_sdk).as_str());
    if suffix.unicode_len() > 0 {
        push_text(&mut args, "--rename-manifest-package");
        push_text(&mut args, concat(namespace, suffix).as_str());
    }
    push_text(&mut args, res_zip);
    args
}

/// The `apksigner` run that signs an APK, reading the passwords from files.
pub fn sign_args(
    build_tools: &str,
    keystore: &str,
    key_alias: &str,
    ks_password_file: &str,
    key_password_file: &str,
    apk: &str,
) -> (r: Vec<String>)
    ensures
        texts(r@) == sign_run(
            build_tools@,
            keystore@,
            key_alias@,
            ks_password_file@,
            key_password_file@,
            apk@,
        ),
{
    let mut args = one_text(build_tools);
    push_text(&mut args, "sign");
    push_text(&mut args, "--ks");
    push_text(&mut args, keystore);
    push_text(&mut args, "--ks-key-alias");
    push_text(&mut args, key_alias);
    push_text(&mut args, "--ks-pass");
    push_text(&mut args, concat("file:", ks_password_file).as_str());
    push_text(&mut args, "--key-pass");
    push_text(&mut args, concat("file:", key_password_file).as_str());
    push_text(&mut args, apk);
    args
}

} // verus!
