//! Text, numbers, letter case, paths and JSON, held against the standard
//! library and `serde_json`.

use std::path::Path;
use ulb_plugins::blocks::{
    classpath_bucket, keep_strings, read_int, read_list, read_optional_list, read_string,
    read_strings, ListFault,
};
use ulb_plugins::json::{Json, SortedMap};
use ulb_plugins::letter_case::to_pascal_case;
use ulb_plugins::number::{decimal_text, parse_u64};
use ulb_plugins::parse::parse_json;
use ulb_plugins::path::{file_name_of, join_path, parent_dir, resolve_path, resolve_paths};
use ulb_plugins::sources::{partition_sources, reject_unknown_extensions};
use ulb_plugins::text::{
    find_last, has_suffix, has_text, join_texts, order_of, prefix_of, push_distinct, slashed,
    split_text, Order,
};

const PATHS: [&str; 30] = [
    "", "/", "//", "a", "a/", "a//", "/a", "/a/", "a/b", "/a/b", "a//b", "./a", "./", ".", "..",
    "../a", "a/.", "a/./", "a/..", "/.", "/./", "/a/.", "/a/./b", "a/./b/.", "/a//b//", "a b/c",
    "./././a", ".a", "/..", "é/ü",
];

fn json(text: &str) -> Json {
    parse_json(text).expect("well-formed JSON")
}

#[test]
fn joining_agrees_with_the_standard_library() {
    for base in PATHS {
        for part in PATHS {
            let expected = Path::new(base).join(part).to_string_lossy().into_owned();
            assert_eq!(join_path(base, part), expected, "{base:?} {part:?}");
            assert_eq!(resolve_path(base, part), expected, "{base:?} {part:?}");
        }
    }
}

#[test]
fn the_parent_agrees_with_the_standard_library() {
    for path in PATHS {
        let expected = Path::new(path).parent().map(|p| p.to_string_lossy().into_owned());
        assert_eq!(parent_dir(path), expected, "{path:?}");
    }
    for base in PATHS {
        for part in PATHS {
            let path = join_path(base, part);
            let expected = Path::new(&path).parent().map(|p| p.to_string_lossy().into_owned());
            assert_eq!(parent_dir(&path), expected, "{path:?}");
        }
    }
}

#[test]
fn paths_resolve_one_by_one_and_only_once() {
    let paths = vec!["a".to_owned(), "/b".to_owned(), "c/d".to_owned()];
    let once = resolve_paths("/proj", &paths);
    assert_eq!(once, ["/proj/a", "/b", "/proj/c/d"]);
    assert_eq!(resolve_paths("/proj", &once), once);
}

#[test]
fn splitting_and_joining_agree_with_the_standard_library() {
    for text in ["", ".", "a", "a.b", ".a.", "a..b", "36.0.0", "é.ü"] {
        let pieces = split_text(text, '.');
        let expected: Vec<&str> = text.split('.').collect();
        assert_eq!(pieces, expected, "{text:?}");
        assert_eq!(join_texts(&pieces, "."), text);
    }
    assert_eq!(join_texts(&[], ":"), "");
    assert_eq!(join_texts(&["a".to_owned(), "b".to_owned(), "c".to_owned()], ", "), "a, b, c");
}

#[test]
fn searching_agrees_with_the_standard_library() {
    for text in ["", "a", "aa", "aaa", "abab", "abcabc", "DebugFree", "FreeFree"] {
        for pattern in ["", "a", "ab", "abc", "Free", "x", "aaaa"] {
            assert_eq!(find_last(text, pattern), text.rfind(pattern), "{text:?} {pattern:?}");
            assert_eq!(has_text(text, pattern), text.contains(pattern));
            assert_eq!(has_suffix(text, pattern), text.ends_with(pattern));
        }
    }
    // Positions are counted in characters, and cut there.
    assert_eq!(find_last("éFree", "Free"), Some(1));
    assert_eq!(prefix_of("éFree", 1), "é");
}

#[test]
fn texts_are_ordered_as_strings_are() {
    let texts = ["", "a", "A", "ab", "abc", "b", "é", "z", "\u{ffff}", "\u{10000}", "commonMain"];
    for a in texts {
        for b in texts {
            let expected = if a < b {
                Order::Before
            } else if a == b {
                Order::Same
            } else {
                Order::After
            };
            assert_eq!(order_of(a, b), expected, "{a:?} {b:?}");
        }
    }
}

#[test]
fn numbers_agree_with_the_standard_library() {
    for n in [0, 1, 9, 10, -1, -10, 36, 1234567890, i64::MAX, i64::MIN] {
        assert_eq!(decimal_text(n), n.to_string());
    }
    for text in [
        "", "0", "7", "36", "007", "+5", "+", "-1", "-0", "1a", " 1", "1 ", "１",
        "18446744073709551615", "18446744073709551616", "99999999999999999999999",
    ] {
        assert_eq!(parse_u64(text), text.parse::<u64>().ok(), "{text:?}");
    }
    assert_eq!(parse_u64(&decimal_text(36)), Some(36));
}

#[test]
fn pascal_case_handles_underscores_and_letters_outside_ascii() {
    assert_eq!(to_pascal_case("my_build_type"), "MyBuildType");
    assert_eq!(to_pascal_case("__a__b__"), "AB");
    assert_eq!(to_pascal_case(""), "");
    assert_eq!(to_pascal_case("_"), "");
    assert_eq!(to_pascal_case("élan"), "Élan");
    // One letter can become several.
    assert_eq!(to_pascal_case("ßa"), "SSa");
    assert_eq!(to_pascal_case("{x}"), "{x}");
}

#[test]
fn dots_become_slashes() {
    assert_eq!(slashed("com.example.app"), "com/example/app");
    assert_eq!(slashed(""), "");
    assert_eq!(slashed("a/b.c"), "a/b/c");
}

#[test]
fn a_distinct_list_keeps_the_first_occurrence() {
    let mut list = Vec::new();
    for text in ["b", "a", "b", "c", "a"] {
        push_distinct(&mut list, text);
    }
    assert_eq!(list, ["b", "a", "c"]);
}

#[test]
fn every_source_goes_to_one_half() {
    let sources: Vec<String> = ["a.kt", "b.java", "c.kt", "d.java", ".java"]
        .iter()
        .map(|s| s.to_string())
        .collect();
    let (java, other) = partition_sources(&sources);
    assert_eq!(java, ["b.java", "d.java", ".java"]);
    assert_eq!(other, ["a.kt", "c.kt"]);
    assert_eq!(java.len() + other.len(), sources.len());
}

#[test]
fn the_first_unknown_extension_is_reported() {
    let sources = vec!["a.java".to_owned(), "b.rs".to_owned(), "c.txt".to_owned()];
    assert_eq!(
        reject_unknown_extensions(&sources),
        Err("source 'b.rs' is neither a .java nor a .kt file".to_owned())
    );
    assert_eq!(reject_unknown_extensions(&[]), Ok(()));
}

#[test]
fn a_map_keeps_its_keys_in_order_and_the_last_value_of_each() {
    let mut map: SortedMap<u64> = SortedMap::new();
    for (key, value) in [("b", 1), ("a", 2), ("c", 3), ("b", 4)] {
        map.insert(key.to_owned(), value);
    }
    assert_eq!(map.len(), 3);
    let keys: Vec<&str> = (0..3).map(|i| map.key_at(i).as_str()).collect();
    assert_eq!(keys, ["a", "b", "c"]);
    assert_eq!(map.get("b"), Some(&4));
    assert_eq!(map.get("a"), Some(&2));
    assert_eq!(map.get("d"), None);
    assert_eq!(*map.value_at(2), 3);
}

#[test]
fn json_is_read_as_serde_json_reads_it() {
    let text = r#"{ "b": [1, -2, 3.5, 18446744073709551615, null, true], "a": {"x": "y\n"} }"#;
    let value = json(text);
    let expected: serde_json::Value = serde_json::from_str(text).expect("well-formed JSON");
    assert_eq!(value.text, expected.to_string());
    let map = value.as_object().expect("an object");
    assert_eq!(map.key_at(0), "a");
    assert_eq!(map.key_at(1), "b");
    let items = value.array_at("b").expect("an array");
    let numbers: Vec<Option<i64>> = items.iter().map(|item| item.as_i64()).collect();
    assert_eq!(numbers, [Some(1), Some(-2), None, None, None, None]);
    assert_eq!(items[5].as_bool(), Some(true));
    assert_eq!(items[4].as_bool(), None);
    assert_eq!(items[3].text, "18446744073709551615");
    assert_eq!(value.get("a").and_then(|a| a.str_at("x")), Some("y\n"));
    assert!(value.get("c").is_none());
    assert!(items[0].get("a").is_none());
    // The last of two equal keys counts.
    assert_eq!(json(r#"{"k": 1, "k": 2}"#).i64_at("k"), Some(2));
}

#[test]
fn json_errors_carry_the_message_of_serde_json() {
    for text in ["", "{", "[1,]", "nul", "{\"a\" 1}", "1 2"] {
        let expected = serde_json::from_str::<serde_json::Value>(text)
            .expect_err("malformed")
            .to_string();
        assert_eq!(parse_json(text).expect_err("malformed"), expected);
    }
}

#[test]
fn block_keys_are_read_or_reported() {
    let block = json(r#"{"list": ["a", "b"], "mixed": ["a", 1], "n": 7, "s": "t"}"#);
    assert_eq!(read_list(&block, "jvm", "list"), Ok(vec!["a".to_owned(), "b".to_owned()]));
    assert_eq!(
        read_list(&block, "jvm", "none"),
        Err("the 'jvm' block is missing a 'none' list".to_owned())
    );
    assert_eq!(
        read_list(&block, "jvm", "mixed"),
        Err("a 'mixed' entry is not a string".to_owned())
    );
    assert_eq!(read_string(&block, "jvm", "s"), Ok("t".to_owned()));
    assert_eq!(
        read_string(&block, "kmp.jvm", "n"),
        Err("the 'kmp.jvm' block is missing a 'n' string".to_owned())
    );
    assert_eq!(read_int(&block, "android", "n"), Ok(7));
    assert_eq!(
        read_int(&block, "android", "s"),
        Err("the 'android' block is missing a numeric 's'".to_owned())
    );
    assert_eq!(read_optional_list(&block, "none"), Ok(Vec::new()));
    assert_eq!(read_optional_list(&block, "n"), Err(ListFault::NotAList));
    assert_eq!(read_optional_list(&block, "mixed"), Err(ListFault::EntryNotAString));
    let mixed = block.array_at("mixed").expect("an array");
    assert_eq!(keep_strings(mixed), ["a"]);
    assert_eq!(read_strings(mixed), None);
}

#[test]
fn classpath_entries_that_are_no_strings_are_passed_over() {
    let config = json(r#"{"classpath": {"compile": ["/a.jar", 1, "/b.jar"], "other": "x"}}"#);
    assert_eq!(classpath_bucket(&config, "compile"), ["/a.jar", "/b.jar"]);
    assert!(classpath_bucket(&config, "other").is_empty());
}

#[test]
fn a_stored_value_is_found_and_others_are_left_alone() {
    let mut map: SortedMap<Json> = SortedMap::new();
    for (key, text) in [("b", "1"), ("a", "2"), ("c", "3"), ("b", "4")] {
        let value = parse_json(text).expect("well-formed JSON");
        map.insert(key.to_owned(), value);
    }
    let found = |key: &str| map.get(key).and_then(|value| value.as_i64());
    assert_eq!(found("a"), Some(2));
    assert_eq!(found("b"), Some(4));
    assert_eq!(found("c"), Some(3));
    assert_eq!(found("d"), None);
    assert_eq!(map.len(), 3);
}

#[test]
fn pascal_case_joins_words_and_is_stable() {
    let samples = ["", "_", "debug", "my_type", "_a__b_", "aB", "1st_place", "été_x"];
    for a in samples {
        for b in samples {
            assert_eq!(
                to_pascal_case(&format!("{a}_{b}")),
                to_pascal_case(a) + &to_pascal_case(b)
            );
        }
        let once = to_pascal_case(a);
        assert!(!once.contains('_'), "{once}");
        assert_eq!(to_pascal_case(&once), once);
    }
    assert_eq!(to_pascal_case("_a__b_"), "AB");
}

#[test]
fn a_file_name_follows_the_last_slash() {
    for (path, name) in [("/a/b.jar", "b.jar"), ("b.jar", "b.jar"), ("/a/", ""), ("", ""), ("/", "")] {
        assert_eq!(file_name_of(path), name);
    }
}
