use kimi_feishu::json::{first_string, value_as_string, Json, JsonObject};
use kimi_feishu::json_codec::{parse_bytes, parse_text, render_bytes, render_text, MAX_LEVELS};
use kimi_feishu::number::{decimal_text, parse_signed, parse_unsigned, signed_text};
use kimi_feishu::text::{is_blank, remove_all, starts_with, strip_end, trim};
use kimi_feishu::text_map::{map_of_pairs, TextMap};

#[test]
fn numbers_are_read_as_they_are_written() {
    for n in [0, 7, 10, 4_294_967_295, u64::MAX] {
        assert_eq!(decimal_text(n), format!("{n}"));
        assert_eq!(parse_unsigned(&decimal_text(n), u64::MAX), Some(n));
    }
    for n in [0, -1, i64::MIN, i64::MAX] {
        assert_eq!(signed_text(n), format!("{n}"));
        assert_eq!(parse_signed(&signed_text(n)), Some(n));
    }
}

#[test]
fn numbers_have_bounds_and_signs() {
    assert_eq!(parse_unsigned("007", 7), Some(7));
    assert_eq!(parse_unsigned("8", 7), None);
    assert_eq!(parse_unsigned("+5", 7), Some(5));
    assert_eq!(parse_unsigned("18446744073709551616", u64::MAX), None);
    for text in ["", "+", "-", "-0", " 1", "1 ", "1.0", "\u{663}", "++1"] {
        assert_eq!(parse_unsigned(text, u64::MAX), None, "{text}");
    }
    assert_eq!(parse_signed("-0"), Some(0));
    assert_eq!(parse_signed("+9223372036854775807"), Some(i64::MAX));
    assert_eq!(parse_signed("9223372036854775808"), None);
    assert_eq!(parse_signed("-9223372036854775808"), Some(i64::MIN));
    assert_eq!(parse_signed("-9223372036854775809"), None);
    for text in ["", "+", "-", "--1", "+-1"] {
        assert_eq!(parse_signed(text), None, "{text}");
    }
}

#[test]
fn white_space_is_trimmed() {
    let white = "\t\n\u{b}\u{c}\r \u{85}\u{a0}\u{1680}\u{2000}\u{200a}\u{2028}\u{2029}\u{202f}\u{205f}\u{3000}";
    assert_eq!(trim(white), "");
    assert!(is_blank(white));
    assert!(!is_blank("\u{200b}"));
    for text in ["", " a b ", "\u{3000}x\u{200b}", "x"] {
        assert_eq!(trim(text), text.trim());
        assert_eq!(trim(&trim(text)), trim(text));
    }
    assert_eq!(strip_end("a//b//", '/'), "a//b");
    assert_eq!(strip_end("//", '/'), "");
    assert_eq!(strip_end("/a", '/'), "/a");
}

#[test]
fn patterns_are_removed_from_the_left() {
    for (text, pattern) in [
        ("aaa", "aa"),
        ("aba", "aba"),
        ("abab", "ab"),
        ("aabb", "ab"),
        ("text", ""),
        ("", "x"),
        ("\u{e9}x\u{e9}", "\u{e9}"),
    ] {
        assert_eq!(remove_all(text, pattern), text.replace(pattern, ""));
    }
    assert!(starts_with("oc_1", "oc_"));
    assert!(!starts_with("oc", "oc_"));
}

#[test]
fn text_maps_keep_the_last_value() {
    let mut map = TextMap::new();
    map.insert("a".to_string(), "1".to_string());
    map.insert("a".to_string(), "2".to_string());
    map.merge_with(&map_of_pairs(&[("b", "3"), ("b", "4")]));
    assert_eq!(map.get("a"), Some(&"2".to_string()));
    assert_eq!(map.get("b"), Some(&"4".to_string()));
    assert_eq!(map.get("c"), None);
    map.insert("a".to_string(), "5".to_string());
    let expected = [("a".to_string(), "5".to_string()), ("b".to_string(), "4".to_string())];
    assert_eq!(*map.entries(), expected);
    assert_eq!(*map.copy().entries(), expected);
}

#[test]
fn scalars_are_texts_and_numbers() {
    for (text, expected) in [
        ("\"x \"", Some("x ")),
        ("\" \"", None),
        ("\"\"", None),
        ("12", Some("12")),
        ("-12", Some("-12")),
        ("1.50", Some("1.5")),
        ("1e3", Some("1000.0")),
        ("18446744073709551615", Some("18446744073709551615")),
        ("18446744073709551616", Some("1.8446744073709552e+19")),
        ("-0", Some("-0.0")),
        ("true", None),
        ("null", None),
        ("[1]", None),
        ("{}", None),
    ] {
        let value = parse_text(text).expect("a document");
        assert_eq!(value_as_string(&value).as_deref(), expected, "{text}");
    }
    let (blank, number) = (Json::text(" "), Json::Unsigned(3));
    assert_eq!(
        first_string(&[None, Some(&blank), Some(&number), Some(&Json::text("x"))]).as_deref(),
        Some("3")
    );
    assert_eq!(first_string(&[None, Some(&blank)]), None);
}

#[test]
fn documents_are_read_and_written() {
    let text = r#"{"b":[1,-2,2.5,"x\ny",true,null],"a":{}}"#;
    let value = parse_text(text).expect("a document");
    assert_eq!(
        render_text(&value).expect("a text"),
        r#"{"a":{},"b":[1,-2,2.5,"x\ny",true,null]}"#
    );
    assert_eq!(
        parse_bytes(text.as_bytes()).expect("a document"),
        value
    );
    assert_eq!(
        render_bytes(&value).expect("bytes"),
        render_text(&value).expect("a text").into_bytes()
    );
    assert_eq!(
        parse_text(r#"{"a":1,"a":2}"#).expect("a document").get("a"),
        Some(&Json::Unsigned(2))
    );
    for text in ["", "{", "plain", "1 2", "\"\\x\"", "NaN"] {
        assert_eq!(parse_text(text), None, "{text}");
        assert_eq!(parse_bytes(text.as_bytes()), None, "{text}");
    }
    assert_eq!(parse_bytes(b"\"\xff\""), None);
}

#[test]
fn objects_are_built_of_their_members() {
    let value = JsonObject::new()
        .with("a", Json::Bool(false))
        .with("a", Json::Null)
        .with("b", Json::optional_text(&Some("x".to_string())))
        .build();
    assert_eq!(render_text(&value).expect("a text"), r#"{"a":null,"b":"x"}"#);
    let name = || "x".to_string();
    let value_of_x = Json::Object(vec![
        (name(), Json::Bool(false)),
        ("y".to_string(), Json::Null),
        (name(), Json::Unsigned(1)),
        (name(), Json::Signed(-2)),
    ]);
    assert_eq!(value_of_x.get("x"), Some(&Json::Signed(-2)));
    assert_eq!(render_text(&value_of_x).expect("a text"), r#"{"x":-2,"y":null}"#);
    assert_eq!(value.get("c"), None);
    assert_eq!(Json::Unsigned(1).get("a"), None);
    assert_eq!(value.get("b").and_then(|it| it.as_text()), Some(&"x".to_string()));
    assert!(value.as_items().is_none());
    assert_eq!(Json::Array(vec![Json::Null]).as_items().map(Vec::len), Some(1));
}

#[test]
fn documents_can_be_read_back_up_to_a_depth() {
    let nested = |levels: usize| {
        let mut value = Json::Signed(i64::MIN);
        for _ in 0..levels {
            value = Json::Array(vec![value, Json::Unsigned(u64::MAX)]);
        }
        value
    };
    for levels in [0, 1, MAX_LEVELS] {
        let text = render_text(&nested(levels)).expect("a text");
        assert_eq!(parse_text(&text), Some(nested(levels)));
        assert_eq!(
            parse_bytes(&render_bytes(&nested(levels)).expect("bytes")),
            Some(nested(levels))
        );
    }
    let text = render_text(&nested(MAX_LEVELS + 1)).expect("a text");
    assert_eq!(parse_text(&text), None);
}
