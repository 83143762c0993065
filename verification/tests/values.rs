//! Texts and JSON values.

use lol_lcu::json::{copy_items, first_text_of, json_eq, parse, Json, Number};
use lol_lcu::text::{
    contains, i64_text, join, lines, parse_u16, sort_strings, starts_with, str_eq,
    strings_eq, strip_prefix, text_before, to_chars, u64_text,
};

fn strings(v: &[&str]) -> Vec<String> {
    v.iter().map(|s| s.to_string()).collect()
}

#[test]
fn prefixes_and_infixes() {
    assert!(starts_with("CHEST_generic", "CHEST_"));
    assert!(!starts_with("CHES", "CHEST_"));
    assert!(contains("CURRENCY_champion_faceoff", "champion_faceoff"));
    assert!(contains("任意", ""));
    assert!(!contains("abc", "abcd"));
    assert_eq!(strip_prefix("--app-port=12", "--app-port=").as_deref(), Some("12"));
    assert_eq!(strip_prefix("--app", "--app-port="), None);
    assert!(str_eq("评分", "评分"));
    assert!(!str_eq("评分", "评"));
    assert_eq!(to_chars("a评"), vec!['a', '评']);
}

#[test]
fn pieces_are_joined() {
    assert_eq!(join(&strings(&["a", "b", "c"]), " / "), "a / b / c");
    assert_eq!(join(&strings(&[]), " / "), "");
    assert!(strings_eq(&strings(&["a"]), &strings(&["a"])));
    assert!(!strings_eq(&strings(&["a"]), &strings(&["a", ""])));
}

#[test]
fn lines_end_at_breaks() {
    for s in ["", "a", "a\nb", "a\r\nb\n", "\n\n", "a\rb\r", "x\n\ny\r\n", "\r\n", "end\r"] {
        let expected: Vec<String> = s.lines().map(|l| l.to_string()).collect();
        assert_eq!(lines(s), expected, "{:?}", s);
    }
}

#[test]
fn numbers_in_words() {
    assert_eq!(u64_text(0), "0");
    assert_eq!(u64_text(u64::MAX), "18446744073709551615");
    assert_eq!(i64_text(-45), "-45");
    assert_eq!(i64_text(i64::MIN), "-9223372036854775808");
    assert_eq!(i64_text(i64::MAX), "9223372036854775807");
}

#[test]
fn ports_are_read() {
    for s in ["0", "65535", "65536", "", "+", "-", "+8", "-0", "-1", "00012", "12a", " 1", "99999999999"] {
        assert_eq!(parse_u16(s), s.parse::<u16>().ok(), "{:?}", s);
    }
}

#[test]
fn texts_are_sorted() {
    let v = strings(&["b", "a", "", "ab", "评", "a"]);
    let mut expected = v.clone();
    expected.sort();
    assert_eq!(sort_strings(&v), expected);
    assert!(text_before("a", "ab"));
    assert!(!text_before("b", "ab"));
}

#[test]
fn json_is_read() {
    let v = parse("{\"a\": [1, -2, 0.5, true, null, \"x\"], \"b\": {\"c\": 7}}").unwrap();
    let a = v.get_array("a").unwrap();
    assert_eq!(a.len(), 6);
    assert_eq!(a[0].as_u64(), Some(1));
    assert_eq!(a[0].as_i64(), Some(1));
    assert_eq!(a[1].as_i64(), Some(-2));
    assert_eq!(a[1].as_u64(), None);
    assert_eq!(a[2].as_i64(), None);
    assert!(matches!(a[2], Json::Number(Number::Float(bits)) if bits == 0.5f64.to_bits()));
    assert_eq!(a[3].as_bool(), Some(true));
    assert!(matches!(a[4], Json::Null));
    assert_eq!(a[5].as_str(), Some("x"));
    assert_eq!(v.get("b").unwrap().get_i64("c"), Some(7));
    assert!(v.get("none").is_none());
    assert!(a[0].get("a").is_none());
    assert!(v.is_object() && a[5].is_string() && v.get("a").unwrap().is_array());
}

#[test]
fn the_later_of_two_members_counts() {
    let v = parse("{\"a\": 1, \"a\": 2}").unwrap();
    assert_eq!(v.get_i64("a"), Some(2));
    let w = Json::object().with("a", Json::whole(1)).with("a", Json::whole(2));
    assert_eq!(w.get_i64("a"), Some(2));
    assert!(json_eq(&v, &w));
}

#[test]
fn broken_json_is_an_error() {
    assert!(parse("{").is_err());
    assert!(parse("").is_err());
    let message = parse("[1,").unwrap_err();
    assert_eq!(message, "EOF while parsing a value at line 1 column 3");
}

#[test]
fn large_numbers_keep_their_kind() {
    let v = parse("[18446744073709551615, 9223372036854775808, -9223372036854775808]").unwrap();
    let a = v.as_array().unwrap();
    assert_eq!(a[0].as_u64(), Some(u64::MAX));
    assert_eq!(a[0].as_i64(), None);
    assert_eq!(a[1].as_i64(), None);
    assert_eq!(a[2].as_i64(), Some(i64::MIN));
}

#[test]
fn equality_of_values() {
    let a = parse("{\"x\": [1, {\"y\": \"z\"}], \"w\": null}").unwrap();
    let b = parse("{\"w\": null, \"x\": [1, {\"y\": \"z\"}]}").unwrap();
    let c = parse("{\"w\": null, \"x\": [1, {\"y\": \"q\"}]}").unwrap();
    assert!(json_eq(&a, &b));
    assert!(!json_eq(&a, &c));
    assert!(!json_eq(&parse("1").unwrap(), &parse("1.0").unwrap()));
    assert!(json_eq(&parse("0.0").unwrap(), &parse("-0.0").unwrap()));
    assert!(json_eq(&a, &a.copy()));
    let items = copy_items(a.get_array("x").unwrap());
    assert_eq!(items.len(), 2);
    assert!(json_eq(&items[1], &a.get_array("x").unwrap()[1]));
}

#[test]
fn values_are_built() {
    let v = Json::object()
        .with("s", Json::string("t"))
        .with("n", Json::whole(-3))
        .with("a", Json::array1(Json::whole(4)));
    assert!(json_eq(&v, &parse("{\"s\":\"t\",\"n\":-3,\"a\":[4]}").unwrap()));
    assert_eq!(v.get_number("n"), Some(Number::Negative(-3)));
}

#[test]
fn the_first_member_that_is_there_counts() {
    let v = parse("{\"name\": 5, \"alias\": \"x\"}").unwrap();
    assert_eq!(first_text_of(&v, "name", "alias", "default"), "default");
    let v = parse("{\"alias\": \"x\"}").unwrap();
    assert_eq!(first_text_of(&v, "name", "alias", "default"), "x");
    assert_eq!(first_text_of(&v, "p", "q", "default"), "default");
}
