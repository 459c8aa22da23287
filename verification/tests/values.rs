//! Texts, maps and JSON values.

use nixit::compare::{align, canonicalize, covers, is_matched, sort_key};
use nixit::json::{json_string_list, put, Json, Number};
use nixit::keymap::KeyMap;
use nixit::order::{value_standing, Standing};
use nixit::pairing::pairs_up;
use nixit::rulesets::{diff, display_value, string_list};
use nixit::text::{
    before, characters, holds, is_blank, is_empty, join, number_text, position, same, same_list,
    same_set, text_of, trim, truth_text,
};

fn json(text: &str) -> Json {
    Json::parse(text).expect("a JSON text")
}

fn strings(items: &[&str]) -> Vec<String> {
    items.iter().map(|item| item.to_string()).collect()
}

#[test]
fn texts_are_ordered_by_code_point() {
    assert!(before("a", "b"));
    assert!(before("a", "ab"));
    assert!(before("", "a"));
    assert!(!before("a", "a"));
    assert!(before("Z", "a"));
    assert!(before("z", "\u{e9}"));
    assert!(before("\u{ffff}", "\u{10000}"));
}

#[test]
fn texts_are_compared_and_trimmed() {
    assert!(same("a\u{301}", "a\u{301}"));
    assert!(!same("\u{e1}", "a\u{301}"));
    assert!(is_empty(""));
    assert!(!is_empty(" "));
    assert!(is_blank("\u{a0}\u{3000}\t\r\n \u{2029}"));
    assert!(!is_blank("\u{200b}"));
    assert_eq!(trim("\u{85} a b \u{1680}"), "a b");
    assert_eq!(trim("  "), "");
    let chars = characters("a/b/c");
    assert_eq!(position(&chars, '/'), 1);
    assert_eq!(position(&chars, '#'), 5);
    assert_eq!(text_of(&chars, 2, 5), "b/c");
}

#[test]
fn numbers_and_truths_are_written_out() {
    assert_eq!(number_text(0), "0");
    assert_eq!(number_text(1090), "1090");
    assert_eq!(number_text(u64::MAX), "18446744073709551615");
    assert_eq!(truth_text(true), "true");
    assert_eq!(truth_text(false), "false");
}

#[test]
fn lists_are_joined_and_compared() {
    assert_eq!(join(&strings(&["a", "b", "c"]), ", "), "a, b, c");
    assert_eq!(join(&strings(&["a"]), ", "), "a");
    assert_eq!(join(&Vec::new(), ", "), "");
    assert!(holds(&strings(&["a", "b"]), "b"));
    assert!(!holds(&strings(&["a", "b"]), "c"));
    assert!(same_set(&strings(&["a", "b", "a"]), &strings(&["b", "a"])));
    assert!(!same_set(&strings(&["a"]), &strings(&["a", "b"])));
    assert!(!same_list(&strings(&["a", "b"]), &strings(&["b", "a"])));
    assert!(same_list(&strings(&["a", "b"]), &strings(&["a", "b"])));
}

#[test]
fn maps_keep_their_keys_in_order() {
    let mut map = KeyMap::new();
    map.insert("b".to_string(), 1);
    map.insert("a".to_string(), 2);
    map.insert("c".to_string(), 3);
    map.insert("b".to_string(), 4);
    assert_eq!(map.len(), 3);
    assert_eq!(map.get("b"), Some(&4));
    assert_eq!(map.get("d"), None);
    assert!(map.contains_key("a"));
    let keys: Vec<&str> = map.entries.iter().map(|entry| entry.0.as_str()).collect();
    assert_eq!(keys, ["a", "b", "c"]);
}

#[test]
fn json_is_read_and_written() {
    let text = r#"{"z":[1,-2,1.5,1e300,-0.0,true,null,"\"é"],"a":{"b":{}},"z2":18446744073709551615}"#;
    let value = json(text);
    assert_eq!(
        value.to_text(),
        "{\"a\":{\"b\":{}},\"z\":[1,-2,1.5,1e+300,-0.0,true,null,\"\\\"\u{e9}\"],\"z2\":18446744073709551615}"
    );
    assert!(Json::parse("{").is_none());
    assert!(Json::parse("").is_none());
    assert_eq!(value.get("z2").unwrap().as_u64(), Some(u64::MAX));
    let items = value.get("z").unwrap().as_array().unwrap();
    assert_eq!(items[1].as_u64(), None);
    assert_eq!(items[2].as_u64(), None);
    assert!(matches!(&items[1], Json::Number(Number::NegInt(-2))));
    match &items[3] {
        Json::Number(Number::Float(float)) => assert_eq!(float.notation(), "1e+300"),
        other => panic!("{other:?}"),
    }
    assert_eq!(items[7].as_str(), Some("\"\u{e9}"));
    assert!(value.as_str().is_none());
    assert!(value.as_array().is_none());
    assert!(items[0].get("a").is_none());
    assert_eq!(value.clone().to_text(), value.to_text());
    assert_eq!(Json::of(&value.value()).to_text(), value.to_text());
}

#[test]
fn later_entries_win_in_a_written_object() {
    let map = KeyMap {
        entries: vec![
            ("b".to_string(), Json::Bool(true)),
            ("a".to_string(), Json::Null),
            ("b".to_string(), Json::Bool(false)),
        ],
    };
    assert_eq!(Json::Object(map).to_text(), r#"{"a":null,"b":false}"#);
    let mut map = KeyMap::new();
    put(&mut map, "b", Json::Bool(true));
    put(&mut map, "a", json_string_list(&strings(&["x"])));
    assert_eq!(Json::Object(map).to_text(), r#"{"a":["x"],"b":true}"#);
}

#[test]
fn sort_keys_name_the_kind() {
    assert_eq!(sort_key(&json(r#"{"type":"deletion","context":"c"}"#)), "0:deletion");
    assert_eq!(sort_key(&json(r#"{"context":"build"}"#)), "1:build");
    assert_eq!(sort_key(&json(r#"{"actor_type":"Team","actor_id":7}"#)), "2:Team:7");
    assert_eq!(sort_key(&json(r#"{"actor_type":"Team","actor_id":-7}"#)), "2:Team:0");
    assert_eq!(sort_key(&json(r#""main""#)), "3:main");
    assert_eq!(sort_key(&json(r#"{"type":1}"#)), r#"{"type":1}"#);
    assert_eq!(sort_key(&json("[2, 1]")), "[2,1]");
}

#[test]
fn arrays_are_put_in_order() {
    let value = json(r#"{"a":["b","a",{"type":"t","list":[2,1]}],"b":1}"#);
    let once = canonicalize(&value);
    assert_eq!(once.to_text(), r#"{"a":[{"list":[1,2],"type":"t"},"a","b"],"b":1}"#);
    assert_eq!(canonicalize(&once).to_text(), once.to_text());
}

#[test]
fn items_with_one_key_are_ordered_by_what_they_hold() {
    let ordered = r#"[{"type":"s"},{"n":1,"type":"t"},{"n":2,"type":"t"}]"#;
    let value = json(r#"[{"type":"t","n":2},{"type":"s"},{"type":"t","n":1}]"#);
    assert_eq!(canonicalize(&value).to_text(), ordered);
    let value = json(r#"[{"type":"t","n":1},{"type":"t","n":2},{"type":"s"}]"#);
    assert_eq!(canonicalize(&value).to_text(), ordered);
    // The lists inside are put in order first.
    let value = json(r#"[{"type":"t","l":[3,1]},{"type":"t","l":[2,1]}]"#);
    assert_eq!(
        canonicalize(&value).to_text(),
        r#"[{"l":[1,2],"type":"t"},{"l":[1,3],"type":"t"}]"#
    );
}

#[test]
fn values_are_ordered_by_kind_and_content() {
    let values: Vec<Json> = [
        "null", "false", "true", "-3", "2", "10", "1.5", "2.5", r#""a""#, r#""ab""#, r#""b""#,
        "[]", "[1]", "[1,2]", "[2]", "{}", r#"{"a":1}"#, r#"{"a":1,"b":0}"#, r#"{"a":2}"#,
        r#"{"b":0}"#,
    ]
    .iter()
    .map(|text| json(text))
    .collect();
    for (i, a) in values.iter().enumerate() {
        for (j, b) in values.iter().enumerate() {
            let expected = if i < j {
                Standing::Before
            } else if i == j {
                Standing::Same
            } else {
                Standing::After
            };
            assert_eq!(value_standing(a, b), expected, "{} {}", a.to_text(), b.to_text());
        }
    }
}

#[test]
fn coverage_ignores_what_was_not_declared() {
    let live = json(r#"{"a":{"b":1,"c":2},"d":[{"e":1,"f":2}]}"#);
    assert!(covers(&json(r#"{"a":{"b":1}}"#), &live));
    assert!(covers(&json(r#"{"d":[{"e":1}]}"#), &live));
    assert!(covers(&json("{}"), &live));
    assert!(covers(&live, &live));
    assert!(!covers(&json(r#"{"a":{"b":2}}"#), &live));
    assert!(!covers(&json(r#"{"x":null}"#), &live));
    assert!(!covers(&json(r#"{"d":[]}"#), &live));
    assert!(!covers(&json(r#"{"a":[]}"#), &live));
    assert!(covers(&json("[0.0]"), &json("[-0.0]")));
    assert!(!covers(&json("1"), &json("1.0")));
}

#[test]
fn matching_pairs_items_one_to_one() {
    let matched = |desired: &str, live: &str| is_matched(&json(desired), &json(live));
    assert!(matched("[1,2,2]", "[2,1,2]"));
    assert!(!matched("[1,2,2]", "[2,1,1]"));
    assert!(!matched("[1]", "[1,1]"));
    assert!(matched(r#"{"a":[[1,2],[3]]}"#, r#"{"a":[[3],[2,1]],"b":0}"#));
    // The first item fits both; the second fits only the first of them.
    assert!(matched(r#"[{"x":1},{"y":1}]"#, r#"[{"x":1,"y":1},{"x":1}]"#));
    assert!(matched(r#"[{},{"x":1},{"y":1}]"#, r#"[{"x":1,"y":1},{"x":1},{}]"#));
    assert!(!matched(r#"[{},{"x":1},{"y":1}]"#, r#"[{"x":1,"y":1},{},{}]"#));
    assert!(!matched("[]", "{}"));
    assert!(!matched("null", "false"));
    // What is covered item by item is matched.
    assert!(covers(&json(r#"[{"x":1},2]"#), &json(r#"[{"x":1,"y":2},2]"#)));
    assert!(matched(r#"[{"x":1},2]"#, r#"[{"x":1,"y":2},2]"#));
    // Many alike, and one that is missing.
    let many = vec!["{}"; 40].join(",");
    assert!(!matched(&format!(r#"[{many},{{"x":1}}]"#), &format!("[{many},{{}}]")));
    assert!(matched(&format!(r#"[{many},{{"x":1}}]"#), &format!(r#"[{{"x":1}},{many}]"#)));
}

#[test]
fn lists_that_match_read_as_declared() {
    let desired = json(r#"{"a":[1,{"x":1}],"b":[1,2],"c":{"d":["p","q"]},"e":[1]}"#);
    let live = json(r#"{"a":[{"x":1,"y":2},1],"b":[2,3],"c":{"d":["q","p"],"z":[2,1]},"e":1}"#);
    assert_eq!(
        align(&desired, &live).to_text(),
        r#"{"a":[1,{"x":1}],"b":[2,3],"c":{"d":["p","q"],"z":[2,1]},"e":1}"#
    );
}

#[test]
fn pairs_may_have_to_move_on() {
    let table = |lines: &[&[bool]]| -> Vec<Vec<bool>> {
        lines.iter().map(|line| line.to_vec()).collect()
    };
    assert!(pairs_up(&table(&[])));
    assert!(pairs_up(&table(&[&[true, true], &[true, false]])));
    assert!(!pairs_up(&table(&[&[false, true], &[false, true]])));
    assert!(pairs_up(&table(&[
        &[true, true, false],
        &[true, false, true],
        &[true, false, false],
    ])));
    assert!(!pairs_up(&table(&[
        &[true, true, false],
        &[true, true, false],
        &[true, true, false],
    ])));
}

#[test]
fn differences_name_the_path() {
    let desired = json(r#"{"a":{"b":"x","c":[1]},"d":null,"e":true}"#);
    let live = json(r#"{"a":{"b":"y","c":[1]},"d":{"n":1.5}}"#);
    let mut changes = Vec::new();
    diff("s", "", &desired, &live, &mut changes);
    let shown: Vec<(String, Option<String>, String)> =
        changes.into_iter().map(|change| (change.field, change.from, change.to)).collect();
    assert_eq!(
        shown,
        [
            ("a.b".to_string(), Some("y".to_string()), "x".to_string()),
            ("d".to_string(), Some("{\"n\":1.5}".to_string()), "null".to_string()),
            ("e".to_string(), None, "true".to_string()),
        ]
    );
    let mut none = Vec::new();
    diff("s", "", &desired, &desired, &mut none);
    assert!(none.is_empty());
}

#[test]
fn values_are_shown() {
    assert_eq!(display_value(&json(r#""a b""#)), "a b");
    assert_eq!(display_value(&json("null")), "null");
    assert_eq!(display_value(&json(r#"["a"]"#)), r#"["a"]"#);
    assert_eq!(string_list(&json(r#"["a",1,"b"]"#)), Some(strings(&["a", "b"])));
    assert_eq!(string_list(&json(r#""a""#)), None);
}
