//! The classpaths of source sets, and the command lines that use them.

use crate::android::invocations::{kotlinc_front, kotlinc_front_args};
use crate::blocks::{bucket_of, read_bucket};
use crate::json::{Json, JsonModel};
use crate::number::{decimal, decimal_text};
use crate::path::{join_path, path_join};
use crate::sdk::{
    build_tools_location, build_tools_path, d8_jar_location, d8_jar_path, find_build_tools_version,
    highest_version, Listing, ListingModel,
};
use crate::text::{
    concat, distinct, extend_texts, no_texts, one_text, optional_text, push_distinct, push_text,
    texts, texts_result,
};
use vstd::prelude::*;

verus! {

/// The characters of each text of a list.
pub open spec fn names_of(list: Seq<&str>) -> Seq<Seq<char>> {
    list.map_values(|s: &str| s@)
}

/// The jars of one bucket of a source set's resolved classpath.
pub open spec fn set_bucket(config: JsonModel, path: Seq<char>, bucket: Seq<char>) -> Seq<
    Seq<char>,
> {
    match config.get("classpathSourceSets"@) {
        None => seq![],
        Some(sets) => match sets.get(path) {
            None => seq![],
            Some(classpath) => bucket_of(classpath, bucket),
        },
    }
}

/// The jars of one bucket of several source sets, one set after another.
pub open spec fn gathered_bucket(
    config: JsonModel,
    names: Seq<Seq<char>>,
    bucket: Seq<char>,
) -> Seq<Seq<char>>
    decreases names.len(),
{
    if names.len() == 0 {
        seq![]
    } else {
        gathered_bucket(config, names.drop_last(), bucket) + set_bucket(
            config,
            "kmp."@ + names.last(),
            bucket,
        )
    }
}

/// The jars of one bucket of several source sets, each jar once.
pub open spec fn merged_bucket(
    config: JsonModel,
    names: Seq<Seq<char>>,
    bucket: Seq<char>,
) -> Seq<Seq<char>> {
    distinct(gathered_bucket(config, names, bucket))
}

/// The `kotlinc` run for Android sources that have no Java beside them.
pub open spec fn kotlinc_run(
    classes_dir: Seq<char>,
    platform_jar: Seq<char>,
    classpath: Seq<Seq<char>>,
    sources: Seq<Seq<char>>,
    compose_compiler_jar: Option<Seq<char>>,
) -> Seq<Seq<char>> {
    kotlinc_front(classes_dir, seq![platform_jar] + classpath, compose_compiler_jar) + sources
}

/// The directory of a build-tools release.
pub open spec fn release_path(sdk: Seq<char>, version: Seq<char>) -> Seq<char> {
    path_join(build_tools_path(sdk), version)
}

/// The `java` run of `d8` that merges jars into one dex.
pub open spec fn d8_merge_run(
    d8_jar: Seq<char>,
    input_jars: Seq<Seq<char>>,
    output_dir: Seq<char>,
    min_sdk: i64,
    platform_jar: Seq<char>,
    extra_jars: Seq<Seq<char>>,
) -> Seq<Seq<char>> {
    seq![
        "-cp"@,
        d8_jar,
        "com.android.tools.r8.D8"@,
        "--min-api="@ + decimal(min_sdk as int),
        "--lib"@,
        platform_jar,
        "--output="@ + output_dir,
    ] + input_jars + extra_jars
}

/// The `d8` run with the highest build-tools version of an SDK.
pub open spec fn d8_merge(
    sdk: Seq<char>,
    listing: ListingModel,
    input_jars: Seq<Seq<char>>,
    output_dir: Seq<char>,
    min_sdk: i64,
    platform_jar: Seq<char>,
    extra_jars: Seq<Seq<char>>,
) -> Result<Seq<Seq<char>>, Seq<char>> {
    match highest_version(sdk, listing) {
        Err(e) => Err(e),
        Ok(version) => Ok(
            d8_merge_run(
                d8_jar_path(release_path(sdk, version)),
                input_jars,
                output_dir,
                min_sdk,
                platform_jar,
                extra_jars,
            ),
        ),
    }
}

/// The jars of one bucket of a source set's resolved classpath.
pub fn source_set_classpath_bucket(config: &Json, path: &str, bucket: &str) -> (r: Vec<String>)
    ensures
        texts(r@) == set_bucket(config@, path@, bucket@),
{
    match config.get("classpathSourceSets") {
        None => no_texts(),
        Some(sets) => match sets.get(path) {
            None => no_texts(),
            Some(classpath) => read_bucket(classpath, bucket),
        },
    }
}

/// The compile jars of a source set's resolved classpath.
pub fn source_set_classpath(config: &Json, path: &str) -> (r: Vec<String>)
    ensures
        texts(r@) == set_bucket(config@, path@, "compile"@),
{
    source_set_classpath_bucket(config, path, "compile")
}

/// Adds to a list without repetitions the texts it does not hold.
fn merge_texts(merged: &mut Vec<String>, more: &[String], Ghost(earlier): Ghost<Seq<Seq<char>>>)
    requires
        texts(old(merged)@) == distinct(earlier),
    ensures
        texts(final(merged)@) == distinct(earlier + texts(more@)),
{
    let ghost added = texts(more@);
    let mut i: usize = 0;
    assert(earlier + added.take(0) =~= earlier);
    while i < more.len()
        invariant
            i <= more@.len(),
            added == texts(more@),
            texts(merged@) == distinct(earlier + added.take(i as int)),
        decreases more@.len() - i,
    {
        push_distinct(merged, more[i].as_str());
        i = i + 1;
        let ghost longer = earlier + added.take(i as int);
        assert(longer.drop_last() =~= earlier + added.take(i - 1));
        assert(longer.last() == added[i - 1]);
    }
    assert(added.take(i as int) == added);
}

/// The jars of one bucket of several source sets, in the order of the sets, each
/// jar once.
pub fn merged_classpath_bucket(config: &Json, source_sets: &[&str], bucket: &str) -> (r: Vec<
    String,
>)
    ensures
        texts(r@) == merged_bucket(config@, names_of(source_sets@), bucket@),
{
    let ghost names = names_of(source_sets@);
    let mut merged = no_texts();
    let mut i: usize = 0;
    assert(distinct(seq![]) =~= seq![]);
    while i < source_sets.len()
        invariant
            i <= source_sets@.len(),
            names == names_of(source_sets@),
            texts(merged@) == merged_bucket(config@, names.take(i as int), bucket@),
        decreases source_sets@.len() - i,
    {
        let ghost earlier = gathered_bucket(config@, names.take(i as int), bucket@);
        let path = concat("kmp.", source_sets[i]);
        let jars = source_set_classpath_bucket(config, path.as_str(), bucket);
        merge_texts(&mut merged, &jars, Ghost(earlier));
        i = i + 1;
        assert(names.take(i as int).drop_last() == names.take(i - 1));
        assert(names.take(i as int).last() == names[i - 1]);
    }
    assert(names.take(i as int) == names);
    merged
}

/// The compile jars of several source sets, each jar once.
pub fn merged_classpath(config: &Json, source_sets: &[&str]) -> (r: Vec<String>)
    ensures
        texts(r@) == merged_bucket(config@, names_of(source_sets@), "compile"@),
{
    merged_classpath_bucket(config, source_sets, "compile")
}

/// The `kotlinc` run for Android sources that have no Java beside them.
pub fn kotlinc_android_args(
    classes_dir: &str,
    platform_jar: &str,
    classpath: &[String],
    sources: &[String],
    compose_compiler_jar: Option<&str>,
) -> (r: Vec<String>)
    ensures
        texts(r@) == kotlinc_run(
            classes_dir@,
            platform_jar@,
            texts(classpath@),
            texts(sources@),
            optional_text(compose_compiler_jar),
        ),
{
    let mut entries = one_text(platform_jar);
    extend_texts(&mut entries, classpath);
    let mut args = kotlinc_front_args(classes_dir, &entries, compose_compiler_jar);
    extend_texts(&mut args, sources);
    args
}

/// The directory of a build-tools release.
pub fn release_dir(sdk: &str, version: &str) -> (r: String)
    ensures
        r@ == release_path(sdk@, version@),
{
    join_path(build_tools_location(sdk).as_str(), version)
}

/// The `java` run of a given `d8` that merges jars into one dex.
pub fn d8_run_args(
    d8_jar: &str,
    input_jars: &[&str],
    output_dir: &str,
    min_sdk: i64,
    platform_jar: &str,
    extra_jars: &[String],
) -> (r: Vec<String>)
    ensures
        texts(r@) == d8_merge_run(
            d8_jar@,
            names_of(input_jars@),
            output_dir@,
            min_sdk,
            platform_jar@,
            texts(extra_jars@),
        ),
{
    let mut args = one_text("-cp");
    push_text(&mut args, d8_jar);
    push_text(&mut args, "com.android.tools.r8.D8");
    push_text(&mut args, concat("--min-api=", decimal_text(min_sdk).as_str()).as_str());
    push_text(&mut args, "--lib");
    push_text(&mut args, platform_jar);
    push_text(&mut args, concat("--output=", output_dir).as_str());
    let ghost front = texts(args@);
    let ghost inputs = names_of(input_jars@);
    let mut i: usize = 0;
    assert(front + inputs.take(0) =~= front);
    while i < input_jars.len()
        invariant
            i <= input_jars@.len(),
            inputs == names_of(input_jars@),
            texts(args@) == front + inputs.take(i as int),
        decreases input_jars@.len() - i,
    {
        push_text(&mut args, input_jars[i]);
        i = i + 1;
        assert(front + inputs.take(i as int) =~= (front + inputs.take(i - 1)).push(
            inputs[i - 1],
        ));
    }
    assert(inputs.take(i as int) == inputs);
    extend_texts(&mut args, extra_jars);
    assert(texts(args@) =~= d8_merge_run(
        d8_jar@,
        inputs,
        output_dir@,
        min_sdk,
        platform_jar@,
        texts(extra_jars@),
    ));
    args
}

/// The `java` run of `d8` that merges jars into one dex, with the highest
/// build-tools version of the SDK.
pub fn d8_merge_args(
    sdk_root: &str,
    listing: &Listing,
    input_jars: &[&str],
    output_dir: &str,
    min_sdk: i64,
    platform_jar: &str,
    extra_jars: &[String],
) -> (r: Result<Vec<String>, String>)
    ensures
        texts_result(r) == d8_merge(
            sdk_root@,
            listing@,
            names_of(input_jars@),
            output_dir@,
            min_sdk,
            platform_jar@,
            texts(extra_jars@),
        ),
{
    let version = match find_build_tools_version(sdk_root, listing) {
        Ok(version) => version,
        Err(e) => return Err(e),
    };
    let d8_jar = d8_jar_location(release_dir(sdk_root, version.as_str()).as_str());
    Ok(
        d8_run_args(
            d8_jar.as_str(),
            input_jars,
            output_dir,
            min_sdk,
            platform_jar,
            extra_jars,
        ),
    )
}

} // verus!
