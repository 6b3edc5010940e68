use llmconduit::collections::{TextMap, TextSet};
use llmconduit::digest::digest_text;
use llmconduit::duplicate::Duplicate;
use llmconduit::ids::{fresh_id, fresh_ids, item_id};
use llmconduit::json::{
    find_entry, parse_json, parse_object, render_json, set_entry, Decimal, Json, JsonMap,
    JsonNumber,
};
use llmconduit::models::responses::LocalShellExecAction;
use llmconduit::text::{chars_of, decimal_text, join, lines_of};

#[test]
fn json_is_read_and_written() {
    let value = parse_json(r#" {"b": [1, -2, 2.50, "x\n", null, true], "a": {}, "b2": 1e2} "#)
        .expect("JSON");
    assert_eq!(
        render_json(&value),
        r#"{"a":{},"b":[1,-2,2.5,"x\n",null,true],"b2":100.0}"#
    );
    assert_eq!(render_json(&value.duplicate()), render_json(&value));
    assert!(parse_json("{").is_err());
    assert_eq!(parse_object("{}"), Ok(Vec::new()));
    assert!(parse_object("1").is_err());
}

#[test]
fn later_entries_of_an_object_count() {
    let mut entries: JsonMap = vec![
        ("a".to_string(), Json::Bool(false)),
        ("a".to_string(), Json::Bool(true)),
    ];
    assert_eq!(find_entry(&entries, "a"), Some(&Json::Bool(true)));
    set_entry(&mut entries, "a".to_string(), Json::Null);
    set_entry(&mut entries, "b".to_string(), Json::Bool(true));
    assert_eq!(render_json(&Json::Object(entries)), r#"{"a":null,"b":true}"#);
}

#[test]
fn numbers_are_integers_or_decimals() {
    let number = |text: &str| parse_json(text).expect("number");
    assert_eq!(number("18446744073709551615").as_u64(), Some(u64::MAX));
    assert_eq!(number("18446744073709551615").as_i64(), None);
    assert_eq!(number("-1").as_i64(), Some(-1));
    assert_eq!(number("-1").as_u64(), None);
    assert_eq!(number("1.0").as_i64(), None);
    assert!(matches!(number("1.0"), Json::Num(JsonNumber::Decimal(_))));
    assert!(matches!(number("1"), Json::Num(JsonNumber::Unsigned(1))));
    assert!(Decimal::new(serde_json::Number::from(1u64)).is_none());
    assert!(Decimal::new(serde_json::Number::from_f64(1.5).expect("finite")).is_some());
}

#[test]
fn maps_are_in_the_order_of_their_keys() {
    let mut map: TextMap<u64> = TextMap::new();
    for (key, value) in [("b", 2), ("a", 1), ("ä", 4), ("B", 3)] {
        map.insert(key.to_string(), value);
    }
    let keys: Vec<&str> = (0..map.len()).map(|index| map.key_at(index).as_str()).collect();
    assert_eq!(keys, vec!["B", "a", "b", "ä"]);
    assert_eq!(map.get("a"), Some(&1));
    assert_eq!(map.find("A"), Some(&1));
    assert_eq!(map.find("B"), Some(&3));
    assert_eq!(map.remove("b"), Some(2));
    assert_eq!(map.remove("b"), None);
    assert!(!map.contains_key("b"));
    let mut set = TextSet::new();
    set.insert("x".to_string());
    assert!(set.contains("x") && !set.contains("y"));
}

#[test]
fn digests_are_hexadecimal() {
    assert_eq!(
        digest_text("abc"),
        "ba7816bf8f01cfea414140de5dae2223b00361a396177a9cb410ff61f20015ad"
    );
}

#[test]
fn fresh_ids_have_the_shape_of_a_uuid() {
    let id = fresh_id();
    assert_eq!(id.len(), 32);
    assert!(id.chars().all(|c| c.is_ascii_digit() || ('a'..='f').contains(&c)));
    let ids = fresh_ids(3);
    assert_eq!(ids.len(), 3);
    assert_ne!(ids[0], ids[1]);
    assert_eq!(item_id("rsn", "1"), "rsn_1");
}

#[test]
fn texts_are_taken_apart_and_put_together() {
    for text in ["", "a", "a\n", "a\r\nb", "\n\n", "a\rb\r\n", "x\n\r\n"] {
        let expected: Vec<String> = text.lines().map(str::to_string).collect();
        assert_eq!(lines_of(text), expected, "{text:?}");
    }
    assert_eq!(chars_of("aä€"), vec!['a', 'ä', '€']);
    let parts = vec!["a".to_string(), "b".to_string()];
    assert_eq!(join(&parts, ", "), "a, b");
    assert_eq!(join(&parts, ""), "ab");
    assert_eq!(decimal_text(0), "0");
    assert_eq!(decimal_text(usize::MAX), usize::MAX.to_string());
}

fn shell_call(text: &str) -> Result<LocalShellExecAction, String> {
    LocalShellExecAction::from_json(&parse_json(text).expect("JSON"))
}

#[test]
fn shell_calls_are_read_from_objects_and_arrays() {
    let mut env = TextMap::new();
    env.insert("A".to_string(), "1".to_string());
    let whole = LocalShellExecAction {
        command: vec!["ls".to_string(), "-l".to_string()],
        timeout_ms: Some(7),
        working_directory: Some("/tmp".to_string()),
        env: Some(env),
        user: None,
    };
    assert_eq!(shell_call(r#"[["ls", "-l"], 7, "/tmp", {"A": "1"}, null]"#), Ok(whole));
    let named = shell_call(
        r#"{"user": null, "env": {"A": "1"}, "other": 1, "working_directory": "/tmp",
            "timeout_ms": 7, "command": ["ls", "-l"]}"#,
    );
    assert_eq!(named, shell_call(r#"[["ls", "-l"], 7, "/tmp", {"A": "1"}, null]"#));
    let bare = shell_call(r#"{"command": []}"#).expect("call");
    assert_eq!((bare.command.len(), bare.timeout_ms, bare.env), (0, None, None));
}

#[test]
fn broken_shell_calls_are_explained() {
    for (text, message) in [
        ("null", "invalid type: null, expected struct LocalShellExecAction"),
        ("true", "invalid type: boolean `true`, expected struct LocalShellExecAction"),
        ("-3", "invalid type: integer `-3`, expected struct LocalShellExecAction"),
        ("1.5", "invalid type: floating point `1.5`, expected struct LocalShellExecAction"),
        (r#""a\"b""#, r#"invalid type: string "a\"b", expected struct LocalShellExecAction"#),
        ("{}", "missing field `command`"),
        ("[]", "invalid length 0, expected struct LocalShellExecAction with 5 elements"),
        (r#"[["ls"]]"#, "invalid length 1, expected struct LocalShellExecAction with 5 elements"),
        ("[[], null, null, null, null, 1]", "invalid length 6, expected fewer elements in array"),
        (r#"{"timeout_ms": "x"}"#, r#"invalid type: string "x", expected u64"#),
        (r#"{"command": [], "timeout_ms": -1}"#, "invalid value: integer `-1`, expected u64"),
        (r#"{"user": 1, "env": [], "command": []}"#, "invalid type: sequence, expected a map"),
        (
            r#"{"command": [], "env": {"b": {}, "a": 2, "A": "x"}}"#,
            "invalid type: integer `2`, expected a string",
        ),
    ] {
        assert_eq!(shell_call(text), Err(message.to_string()), "{text}");
    }
}

#[test]
fn shell_call_fields_are_read_as_serde_json_reads_them() {
    let values = [
        "null", "true", "1", "-1", "1.5", "1e300", "18446744073709551615", "18446744073709551616",
        r#""x\ny""#, "[]", r#"["a"]"#, r#"["a", 1, null]"#, "{}", r#"{"k": "v"}"#,
        r#"{"z": 1, "k": false}"#,
    ];
    for value in values {
        let real: serde_json::Value = serde_json::from_str(value).expect("JSON");
        let field = |name: &str| {
            let text = match name {
                "command" => format!(r#"{{"command": {value}}}"#),
                _ => format!(r#"{{"command": [], "{name}": {value}}}"#),
            };
            shell_call(&text).err()
        };
        let command = serde_json::from_value::<Vec<String>>(real.clone());
        assert_eq!(field("command"), command.err().map(|err| err.to_string()), "{value}");
        let timeout = serde_json::from_value::<Option<u64>>(real.clone());
        assert_eq!(field("timeout_ms"), timeout.err().map(|err| err.to_string()), "{value}");
        let text = serde_json::from_value::<Option<String>>(real.clone());
        let message = text.err().map(|err| err.to_string());
        assert_eq!(field("user"), message, "{value}");
        assert_eq!(field("working_directory"), message, "{value}");
        let env = serde_json::from_value::<Option<std::collections::BTreeMap<String, String>>>(real);
        assert_eq!(field("env"), env.err().map(|err| err.to_string()), "{value}");
    }
}
