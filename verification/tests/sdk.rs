//! Finding the parts of an Android SDK.

use ulb_plugins::json::Json;
use ulb_plugins::parse::parse_json;
use ulb_plugins::sdk::{
    android_jar, d8_jar_location, find_build_tools_version, highest_build_tools, sdk_places,
    version_rank, Listing, ToolsEntry,
};

fn json(text: &str) -> Json {
    parse_json(text).expect("well-formed JSON")
}

fn entry(name: &str, is_dir: bool, has_aapt2: bool, has_d8: bool) -> ToolsEntry {
    ToolsEntry { name: name.to_owned(), is_dir, has_aapt2, has_d8 }
}

fn complete(names: &[&str]) -> Listing {
    Listing::Entries(names.iter().map(|name| entry(name, true, true, true)).collect())
}

#[test]
fn android_jar_accepts_a_present_platform_jar() {
    assert_eq!(
        android_jar("/sdk", 36, true).expect("found"),
        "/sdk/platforms/android-36/android.jar"
    );
}

#[test]
fn android_jar_rejects_an_unknown_compile_level() {
    let error = android_jar("/sdk", 99, false).expect_err("missing jar");
    assert!(error.contains("compileSdk 99"), "{error}");
    assert_eq!(error, "no android.jar for compileSdk 99 under '/sdk'");
}

#[test]
fn build_tools_picks_the_highest_release_with_both_tools() {
    assert_eq!(
        highest_build_tools("/sdk", &complete(&["35.0.0", "36.0.0"])).expect("found"),
        "/sdk/build-tools/36.0.0"
    );
}

#[test]
fn build_tools_skips_releases_missing_a_tool() {
    let listing = Listing::Entries(vec![entry("35.0.0", true, true, false)]);
    let error = highest_build_tools("/sdk", &listing).expect_err("no complete release");
    assert!(error.contains("aapt2 and lib/d8.jar"), "{error}");
    assert_eq!(
        error,
        "no build-tools release with aapt2 and lib/d8.jar under '/sdk/build-tools'"
    );
    let listing = Listing::Entries(vec![
        entry("37.0.0", true, false, true),
        entry("36.0.0", false, true, true),
        entry("rc-1", true, true, true),
        entry("9.1", true, true, true),
        entry("10.0.0", true, true, true),
    ]);
    assert_eq!(highest_build_tools("/sdk", &listing).expect("found"), "/sdk/build-tools/10.0.0");
}

#[test]
fn versions_compare_number_by_number() {
    let pick = |names: &[&str]| highest_build_tools("/sdk", &complete(names)).expect("found");
    assert_eq!(pick(&["9.0.0", "10.0.0"]), "/sdk/build-tools/10.0.0");
    assert_eq!(pick(&["36", "36.0"]), "/sdk/build-tools/36.0");
    assert_eq!(pick(&["36.0", "36"]), "/sdk/build-tools/36.0");
    assert_eq!(pick(&["36.1", "36.0.9"]), "/sdk/build-tools/36.1");
    // Of two equal ranks the last one listed is taken.
    assert_eq!(pick(&["36.0.0", "036.0.0"]), "/sdk/build-tools/036.0.0");
    assert_eq!(pick(&["036.0.0", "36.0.0"]), "/sdk/build-tools/36.0.0");
}

#[test]
fn a_directory_that_cannot_be_listed_is_reported() {
    let refused = Listing::CannotList("denied".to_owned());
    let broken = Listing::CannotRead("gone".to_owned());
    assert_eq!(
        highest_build_tools("/sdk", &refused),
        Err("cannot list '/sdk/build-tools': denied".to_owned())
    );
    assert_eq!(
        highest_build_tools("/sdk", &broken),
        Err("cannot read '/sdk/build-tools': gone".to_owned())
    );
    assert_eq!(
        find_build_tools_version("/sdk", &refused),
        Err("cannot list '/sdk/build-tools': denied".to_owned())
    );
    assert_eq!(
        find_build_tools_version("/sdk", &broken),
        Err("cannot read '/sdk/build-tools': gone".to_owned())
    );
}

#[test]
fn find_build_tools_version_errs_when_sdk_has_no_build_tools() {
    let err = find_build_tools_version("/sdk", &Listing::Entries(Vec::new())).unwrap_err();
    assert!(err.contains("no build-tools version found"), "unexpected error: {err}");
    assert_eq!(
        err,
        "no build-tools version found under '/sdk/build-tools'; install the Android SDK build-tools"
    );
}

#[test]
fn find_build_tools_version_picks_highest_version() {
    let listing = complete(&["35.0.0", "36.0.1", "36.0.0"]);
    assert_eq!(find_build_tools_version("/sdk", &listing).unwrap(), "36.0.1");
}

#[test]
fn a_version_of_three_numbers_may_have_other_parts() {
    let listing = Listing::Entries(vec![
        entry("36.0", false, false, false),
        entry("34.0.0.rc", false, false, false),
        entry("36.0.0.1", false, false, false),
    ]);
    assert_eq!(find_build_tools_version("/sdk", &listing).unwrap(), "34.0.0.rc");
}

#[test]
fn version_rank_takes_what_parses_as_a_number() {
    assert_eq!(version_rank("+1.2"), Some(vec![1, 2]));
    assert_eq!(version_rank(""), None);
    assert_eq!(version_rank("18446744073709551616"), None);
}

#[test]
fn places_follow_from_the_configuration() {
    let config = json(
        r#"{"projectDir": "/proj", "androidSdkDir": "/sdk", "android": {"compileSdk": 36}}"#,
    );
    let places = sdk_places(&config).expect("known");
    assert_eq!(places.sdk, "/sdk");
    assert_eq!(places.platform_jar, "/sdk/platforms/android-36/android.jar");
    assert_eq!(places.build_tools, "/sdk/build-tools");
    let own = json(r#"{"projectDir": "/p", "android": {"compileSdk": 1, "sdkDir": "vendor"}}"#);
    assert_eq!(sdk_places(&own).expect("known").sdk, "/p/vendor");
    for unknown in [
        "{}",
        r#"{"projectDir": "/p"}"#,
        r#"{"projectDir": "/p", "android": {}}"#,
        r#"{"projectDir": "/p", "android": {"compileSdk": 1}}"#,
        r#"{"androidSdkDir": "/sdk", "android": {"compileSdk": 1}}"#,
    ] {
        assert!(sdk_places(&json(unknown)).is_none(), "{unknown}");
    }
    assert_eq!(d8_jar_location("/sdk/build-tools/36.0.0"), "/sdk/build-tools/36.0.0/lib/d8.jar");
}
