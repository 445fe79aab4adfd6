use frama_c_mcp::json::Json;
use frama_c_mcp::order::{insert_sorted, lt, push_distinct, sort_unique};
use frama_c_mcp::paths::{
    below, is_absolute, join_path, normalize, path_components, path_from, path_name,
};
use frama_c_mcp::text::{
    decimal_text, ends_with, int_text, join, lines, parse_u32, parse_u64, rsplit_once, same_ignoring_case,
    split_char, split_once, to_ascii_lowercase, trim, trim_end_char, trim_prefix, words,
};

fn j(s: &str) -> Json {
    Json::parse(s).unwrap()
}

fn v(items: &[&str]) -> Vec<String> {
    items.iter().map(|s| s.to_string()).collect()
}

#[test]
fn json_text_and_parsing_agree() {
    let text = r#"{"b":[1,-2,1.5,true,null],"a":{"x":"é\n\"q\""}}"#;
    assert_eq!(j(text).to_text(), text);
    assert!(Json::parse("{").is_err());
    assert!(Json::parse("").is_err());
    assert_eq!(Json::parse("nul").unwrap_err(), "EOF while parsing a value at line 1 column 3");
}

#[test]
fn a_repeated_key_keeps_its_place_and_its_last_value() {
    assert_eq!(j(r#"{"a":1,"b":2,"a":3}"#).to_text(), r#"{"a":3,"b":2}"#);
    let put = Json::object().with("a", Json::num(1)).with("b", Json::num(2)).with("a", Json::num(3));
    assert_eq!(put.to_text(), r#"{"a":3,"b":2}"#);
    let twice = Json::Object(vec![("a".to_string(), Json::num(1)), ("a".to_string(), Json::num(2))]);
    assert_eq!(twice.to_text(), r#"{"a":2}"#);
}

#[test]
fn pretty_text_is_indented() {
    assert_eq!(j(r#"{"a":[1]}"#).to_pretty(), "{\n  \"a\": [\n    1\n  ]\n}");
}

#[test]
fn taking_a_key_out_moves_the_last_entry_into_its_place() {
    assert_eq!(j(r#"{"a":1,"b":2,"c":3}"#).without("a").to_text(), r#"{"c":3,"b":2}"#);
    assert_eq!(j(r#"{"a":1}"#).without("b").to_text(), r#"{"a":1}"#);
}

#[test]
fn fields_are_read_by_their_kind() {
    let v = j(r#"{"s":"x","n":7,"m":-7,"f":2.5,"b":false,"l":[1],"o":{"i":1}}"#);
    assert_eq!(v.text("s"), Some("x"));
    assert_eq!(v.text("n"), None);
    assert_eq!(v.nat_at("n"), Some(7));
    assert_eq!(v.nat_at("m"), None);
    assert_eq!(v.int_at("m"), Some(-7));
    assert_eq!(v.nat_at("f"), None);
    assert_eq!(v.int_at("f"), None);
    assert_eq!(v.flag("b"), Some(false));
    assert_eq!(v.list("l").unwrap().len(), 1);
    assert_eq!(v.at("o", "i").unwrap().as_nat(), Some(1));
    assert!(v.at("s", "i").is_none());
    assert!(v.get("missing").is_none());
    assert!(j("null").is_null());
    assert!(!j("[]").is_object());
    assert_eq!(j("18446744073709551615").as_nat(), Some(u64::MAX));
    assert_eq!(j("9223372036854775808").as_int(), None);
}

#[test]
fn equality_ignores_the_order_of_keys_only() {
    assert!(j(r#"{"a":1,"b":2}"#).same(&j(r#"{"b":2,"a":1}"#)));
    assert!(!j("[1,2]").same(&j("[2,1]")));
    assert!(j("1.5").same(&j("1.50")));
    assert!(!j("1").same(&j("1.0")));
}

#[test]
fn values_survive_the_way_through_serde_json() {
    let text = r#"{"a":[1,{"b":-3}],"c":0.25}"#;
    let there = j(text).to_value();
    assert_eq!(there["a"][1]["b"], serde_json::Value::from(-3));
    assert_eq!(Json::from_value(&there).to_text(), text);
}

#[test]
fn a_copy_is_equal() {
    let v = j(r#"{"a":[1,"x",null,{"b":1.5}]}"#);
    assert_eq!(v.copy().to_text(), v.to_text());
}

#[test]
fn texts_are_split_and_joined() {
    assert_eq!(split_once("a:b:c", ":"), Some(("a".to_string(), "b:c".to_string())));
    assert_eq!(rsplit_once("a:b:c", ":"), Some(("a:b".to_string(), "c".to_string())));
    assert_eq!(split_once("abc", ":"), None);
    assert_eq!(split_char("a,,b", ','), v(&["a", "", "b"]));
    assert_eq!(split_char("", ','), v(&[""]));
    assert_eq!(lines("a\r\nb\n\nc"), v(&["a", "b", "", "c"]));
    assert_eq!(lines("a\n"), v(&["a"]));
    assert_eq!(lines(""), v(&[]));
    assert_eq!(words("  a \t b\u{a0}c "), v(&["a", "b", "c"]));
    assert_eq!(join(&v(&["a", "b"]), ", "), "a, b");
    assert_eq!(join(&v(&[]), ", "), "");
}

#[test]
fn joined_pieces_come_apart() {
    for parts in [v(&["a"]), v(&["a", "b", "c"]), v(&["", "x", ""])] {
        assert_eq!(split_char(&join(&parts, "_"), '_'), parts);
    }
}

#[test]
fn texts_are_trimmed_and_folded() {
    assert_eq!(trim(" \u{2003}a b\n"), "a b");
    assert_eq!(trim_end_char("a::", ':'), "a");
    assert_eq!(trim_prefix("xxa", "x"), "a");
    assert_eq!(to_ascii_lowercase("ÀB"), "Àb");
    assert!(same_ignoring_case("VaLiD", "valid"));
    assert!(ends_with("abc", "bc"));
    assert!(ends_with("abc", ""));
}

#[test]
fn numbers_are_written_and_read_back() {
    for n in [0u64, 7, 10, 123456789, u64::MAX] {
        assert_eq!(decimal_text(n), n.to_string());
        assert_eq!(parse_u64(&decimal_text(n)), Some(n));
    }
    assert_eq!(int_text(-42), "-42");
    assert_eq!(int_text(i64::MIN), i64::MIN.to_string());
    assert_eq!(parse_u64("+5"), Some(5));
    assert_eq!(parse_u64("18446744073709551616"), None);
    assert_eq!(parse_u64(""), None);
    assert_eq!(parse_u64("+"), None);
    assert_eq!(parse_u64("1 "), None);
    assert_eq!(parse_u32("4294967295"), Some(u32::MAX));
    assert_eq!(parse_u32("4294967296"), None);
}

#[test]
fn texts_are_ordered_and_sorted() {
    assert!(lt("a", "b"));
    assert!(lt("a", "aa"));
    assert!(!lt("b", "a"));
    assert!(lt("Z", "a"));
    assert_eq!(sort_unique(&v(&["b", "a", "b"])), v(&["a", "b"]));
    let mut list = v(&["a", "c"]);
    insert_sorted(&mut list, "b".to_string());
    assert_eq!(list, v(&["a", "b", "c"]));
    push_distinct(&mut list, "b".to_string());
    push_distinct(&mut list, "d".to_string());
    assert_eq!(list, v(&["a", "b", "c", "d"]));
}

#[test]
fn paths_are_joined_and_taken_apart() {
    assert!(is_absolute("/a"));
    assert_eq!(join_path("a", "b"), "a/b");
    assert_eq!(join_path("a/", "b"), "a/b");
    assert_eq!(join_path("", "b"), "b");
    assert_eq!(join_path("a", "/b"), "/b");
    assert_eq!(path_name("/a/b/c.c", 0), Some("c.c".to_string()));
    assert_eq!(path_name("/a/b/c.c", 1), Some("b".to_string()));
    assert_eq!(path_name("/a/..", 0), None);
    assert_eq!(path_name("/", 0), None);
    for path in ["/a//b/./c/", "a/b", "./a", "", "/", ".", "a/../b"] {
        let std: Vec<String> = std::path::Path::new(path)
            .components()
            .map(|c| c.as_os_str().to_string_lossy().into_owned())
            .collect();
        assert_eq!(path_components(path), std, "{path}");
        let collected: std::path::PathBuf = std::path::Path::new(path).components().collect();
        assert_eq!(path_from(&path_components(path)), collected.to_string_lossy(), "{path}");
    }
}

#[test]
fn paths_made_of_names_are_made_of_these_names() {
    for parts in [v(&["/", "a", "b"]), v(&["a", "b"]), v(&["/"]), v(&[])] {
        assert_eq!(path_components(&path_from(&parts)), parts);
    }
}

#[test]
fn steps_upwards_are_taken() {
    assert_eq!(normalize(&v(&["/", "a", "..", "b"])), Some(v(&["/", "b"])));
    assert_eq!(normalize(&v(&["/", ".."])), None);
    assert_eq!(normalize(&v(&[".", "a"])), Some(v(&["a"])));
    assert_eq!(normalize(&v(&[".."])), None);
    assert!(below(&v(&["/", "a", "b"]), &v(&["/", "a"])));
    assert!(!below(&v(&["/", "ab"]), &v(&["/", "a"])));
    assert!(!below(&v(&["/"]), &v(&["/", "a"])));
}

#[test]
fn a_name_leads_one_step_down() {
    for base in ["", "/", "a", "a/", "a//", "./", ".", "..", "/a/.", "./a"] {
        let mut expected = path_components(base);
        expected.push("x-1".to_string());
        assert_eq!(path_components(&join_path(base, "x-1")), expected);
    }
}
