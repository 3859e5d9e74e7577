//! JSON documents, texts, slugs, instants and identifiers.

use coord::json::{from_value, parse, read, to_pretty, to_text, to_value, Json, JsonObject, RAW_KEY};
use coord::slug::{decision_slug, escape, slugify, slugify_agent, task_slug};
use coord::store::Store;
use coord::text::{
    comes_before, contains, decimal_text, join_texts, pad_right, same, signed_decimal_text,
    split_lines, starts_with, take_chars, two_digit_text,
};
use coord::time::{elapsed_millis, parse_stamp, stamp_text, Timestamp, MAX_SECS, MIN_SECS, YEAR_0_SECS, YEAR_9999_SECS};
use coord::types::{id_text, parse_id, TaskState};

#[test]
fn objects_keep_their_keys_in_order() {
    let mut o = JsonObject::new();
    for (k, n) in [("b", 1), ("a", 2), ("c", 3), ("b", 4)] {
        o.insert(k.to_string(), Json::UInt(n));
    }
    assert_eq!(o.len(), 3);
    assert_eq!(o.at(0).key, "a");
    assert_eq!(o.at(1).key, "b");
    assert_eq!(o.get("b"), Some(&Json::UInt(4)));
    assert_eq!(o.get("z"), None);
    assert_eq!(
        to_text(&Json::Object(o)),
        r#"{"a":2,"b":4,"c":3}"#
    );
}

#[test]
fn documents_come_back_from_their_text() {
    let text = r#"{"a":[1,-2,true,null,"x\n"],"b":{"c":18446744073709551615},"f":1.5}"#;
    let j = parse(text).unwrap();
    assert_eq!(to_text(&j), text);
    assert_eq!(from_value(&to_value(&j)), j);
    assert_eq!(j.clone(), j);
    assert_eq!(j.get("b").unwrap().get_u64("c"), Some(u64::MAX));
    assert_eq!(
        j.get("a").unwrap().as_array().unwrap()[1],
        Json::Int(-2)
    );
    assert_eq!(j.get_str("f"), None);
    assert_eq!(j.get_str_or("f", "other"), "other");
    assert!(parse("{").is_none());
    assert!(parse("").is_none());
}

#[test]
fn numbers_keep_their_kind() {
    for (text, integer) in [("1", true), ("-1", true), ("1.0", false), ("2e3", false)] {
        let j = parse(text).unwrap();
        assert_eq!(matches!(j, Json::UInt(_) | Json::Int(_)), integer);
        assert_eq!(matches!(j, Json::Number(_)), !integer);
        assert_eq!(from_value(&to_value(&j)), j);
        assert_eq!(j.clone(), j);
    }
    assert_eq!(to_text(&parse("2.50").unwrap()), "2.5");
}

#[test]
fn some_objects_are_not_read_back() {
    let mut o = JsonObject::new();
    o.insert(RAW_KEY.to_string(), Json::Text("[1]".to_string()));
    let j = Json::Object(o);
    assert_ne!(parse(&to_text(&j)), Some(j));
    // Behind another key it is a member like any other.
    let mut o = JsonObject::new();
    o.insert("!".to_string(), Json::Null);
    o.insert(RAW_KEY.to_string(), Json::Text("[1]".to_string()));
    let j = Json::Object(o);
    assert_eq!(parse(&to_text(&j)), Some(j));
}

#[test]
fn reading_says_what_is_wrong() {
    assert_eq!(read("[1, 2]").unwrap(), parse("[1,2]").unwrap());
    assert_eq!(
        read("[1,").unwrap_err(),
        "EOF while parsing a value at line 1 column 3"
    );
}

#[test]
fn pretty_text_is_indented() {
    assert_eq!(
        to_pretty(&parse(r#"{"b":[],"a":{"k":1}}"#).unwrap()),
        "{\n  \"a\": {\n    \"k\": 1\n  },\n  \"b\": []\n}"
    );
}

#[test]
fn integers_are_read_in_range() {
    let j = parse(r#"{"n": -1, "z": 0, "f": 2.0, "big": 18446744073709551616}"#).unwrap();
    assert_eq!(j.get_u64("n"), None);
    assert_eq!(j.get_u64("z"), Some(0));
    assert_eq!(j.get_u64("f"), None);
    assert_eq!(j.get_u64("big"), None);
}

#[test]
fn slugs_are_exact() {
    for (s, slug) in [
        ("Hello, World!", "hello-world"),
        ("  --A--b  ", "a-b"),
        ("v1.1 stable", "v1-1-stable"),
        ("", "untitled"),
        ("???", "untitled"),
        ("ÄbcÖ", "bc"),
        ("already-a-slug", "already-a-slug"),
    ] {
        assert_eq!(slugify(s), slug);
        assert_eq!(slugify(&slugify(s)), slug);
    }
}

#[test]
fn task_slugs_begin_with_the_minute() {
    let mut store = Store::open(&Vec::new(), &Vec::new()).unwrap();
    let now = parse_stamp("2026-05-07T14:32:59Z").unwrap();
    let t = store
        .create_task_full_at(1, "bug: validate token", "bug", "high", Json::Null, now)
        .unwrap();
    assert_eq!(task_slug(&t), "2026-05-07-1432-bug-validate-token");
    assert_eq!(decision_slug(&t), "2026-05-07-bug-validate-token");
}

#[test]
fn agent_slugs_keep_version_numbers() {
    for (s, slug) in [
        ("feature-a-v1.2", "feature-a-v1.2"),
        ("Docker Build", "docker-build"),
        ("v1.1 stable", "v1.1-stable"),
        ("a..b", "a-b"),
        ("a. b", "a-b"),
        (".hidden.", "hidden"),
        ("../../etc", "etc"),
        ("...", "untitled"),
        ("", "untitled"),
    ] {
        assert_eq!(slugify_agent(s), slug);
        assert_eq!(slugify_agent(&slugify_agent(s)), slug);
    }
}

#[test]
fn texts_are_escaped_for_file_names() {
    assert_eq!(escape("feature-a-v1.2"), "feature-a-v1.2");
    assert_eq!(escape("A b"), "A%000020b");
    assert_eq!(escape("a/b%"), "a%00002fb%000025");
    assert_eq!(escape("→"), "%002192");
    assert_eq!(escape(""), "");
}

#[test]
fn texts_are_compared_and_searched() {
    assert!(same("→a", "→a") && !same("a", "b") && !same("a", "ab") && same("", ""));
    assert!(contains("hello", "ell") && contains("hello", "hello") && contains("hello", ""));
    assert!(contains("aab", "ab") && contains("", ""));
    assert!(!contains("hello", "elo") && !contains("lo", "hello") && !contains("", "a"));
}

#[test]
fn numbers_and_columns() {
    assert_eq!(decimal_text(0), "0");
    assert_eq!(decimal_text(u64::MAX), "18446744073709551615");
    assert_eq!(signed_decimal_text(-32_602), "-32602");
    assert_eq!(signed_decimal_text(i64::MIN), "-9223372036854775808");
    assert_eq!(two_digit_text(5), "05");
    assert_eq!(two_digit_text(59), "59");
    assert_eq!(pad_right("ab", 4), "ab  ");
    assert_eq!(pad_right("→→", 3), "→→ ");
    assert_eq!(pad_right("abcde", 4), "abcde");
    assert_eq!(take_chars("→abc", 2), "→a");
    assert!(starts_with("1970-01", "1970") && !starts_with("19", "1970"));
    assert!(comes_before("a", "b") && comes_before("a", "aa") && !comes_before("b", "b"));
    assert_eq!(
        join_texts(&vec!["a".to_string(), "b".to_string(), "c".to_string()], ", "),
        "a, b, c"
    );
    assert_eq!(split_lines("a\r\nb\n\nc"), vec!["a", "b", "", "c"]);
    assert!(split_lines("").is_empty());
    assert_eq!(split_lines("x\n"), vec!["x"]);
}

#[test]
fn instants_are_spelled_and_read() {
    let t = Timestamp::new(1_778_164_320, 123_000_000).unwrap();
    assert_eq!(stamp_text(&t), "2026-05-07T14:32:00.123+00:00");
    assert_eq!(parse_stamp("2026-05-07T16:32:00.123+02:00"), Some(t));
    assert_eq!(parse_stamp(&stamp_text(&t)), Some(t));
    assert_eq!(parse_stamp("2026-05-07"), None);
    assert_eq!(stamp_text(&Timestamp::epoch()), "1970-01-01T00:00:00+00:00");
    let leap = Timestamp::new(1_483_228_799, 1_500_000_000).unwrap();
    assert_eq!(parse_stamp(&stamp_text(&leap)), Some(leap));
}

#[test]
fn spellings_are_ordered_as_their_instants() {
    let mut at: Vec<Timestamp> = Vec::new();
    for (secs, nanos) in [
        (YEAR_0_SECS, 0),
        (-1, 999_999_999),
        (0, 0),
        (0, 1),
        (0, 1_000),
        (0, 1_001),
        (0, 1_000_000),
        (0, 120_000_000),
        (0, 120_000_001),
        (0, 120_001_000),
        (0, 999_000_000),
        (1, 0),
        (59, 999_999_999),
        (59, 1_000_000_000),
        (59, 1_500_000_000),
        (60, 0),
        (86_399, 1_999_999_999),
        (86_400, 0),
        (YEAR_9999_SECS, 999_999_999),
    ] {
        at.push(Timestamp::new(secs, nanos).unwrap());
    }
    for (i, a) in at.iter().enumerate() {
        for (j, b) in at.iter().enumerate() {
            assert_eq!(comes_before(&stamp_text(a), &stamp_text(b)), i < j);
            assert_eq!(a.is_before(b), i < j);
        }
    }
}

#[test]
fn instants_have_a_range() {
    assert!(Timestamp::new(MIN_SECS, 0).is_some());
    assert!(Timestamp::new(MAX_SECS, 999_999_999).is_some());
    assert!(Timestamp::new(MIN_SECS - 1, 0).is_none());
    assert!(Timestamp::new(MAX_SECS + 1, 0).is_none());
    assert!(Timestamp::new(0, 1_000_000_000).is_none());
    assert!(Timestamp::new(59, 1_000_000_000).is_some());
    assert!(Timestamp::new(59, 2_000_000_000).is_none());
    for secs in [MIN_SECS, MAX_SECS] {
        let t = Timestamp::new(secs, 0).unwrap();
        assert!(stamp_text(&t).ends_with("+00:00"));
    }
    let last = Timestamp::new(MAX_SECS, 0).unwrap();
    assert_eq!(last.plus_seconds(1), None);
    assert_eq!(
        Timestamp::new(59, 1_500_000_000).unwrap().plus_seconds(1),
        Timestamp::new(60, 500_000_000)
    );
}

#[test]
fn elapsed_time_is_in_whole_milliseconds() {
    let t = |s: i64, n: u32| Timestamp::new(s, n).unwrap();
    assert_eq!(elapsed_millis(&t(10, 0), &t(8, 500_000_000)), 1_500);
    assert_eq!(elapsed_millis(&t(8, 0), &t(10, 1)), -2_000);
    assert_eq!(elapsed_millis(&t(0, 1_999_999), &t(0, 0)), 1);
    assert_eq!(elapsed_millis(&t(0, 0), &t(0, 1_999_999)), -1);
}

#[test]
fn identifiers_are_spelled_and_read() {
    let id = 0x0123_4567_89ab_cdef_0123_4567_89ab_cdef;
    assert_eq!(id_text(id), "01234567-89ab-cdef-0123-456789abcdef");
    assert_eq!(parse_id(&id_text(id)), Some(id));
    assert_eq!(parse_id("01234567-89AB-CDEF-0123-456789ABCDEF"), Some(id));
    assert_eq!(parse_id("01234567"), None);
}

#[test]
fn fresh_identifiers_are_random_uuids() {
    let mut store = Store::open(&Vec::new(), &Vec::new()).unwrap();
    let a = store.create_task("a", Json::Null).unwrap();
    let b = store.create_task("b", Json::Null).unwrap();
    assert_ne!(a.id, b.id);
    for id in [a.id, b.id] {
        assert_eq!((id >> 76) & 0xf, 4);
        assert_eq!((id >> 62) & 0x3, 2);
    }
}

#[test]
fn state_names_are_their_own_inverse() {
    for s in [
        TaskState::Pending,
        TaskState::Claimed,
        TaskState::Completed,
        TaskState::Failed,
        TaskState::Cancelled,
    ] {
        assert_eq!(TaskState::parse(s.as_str()), Some(s));
    }
    assert_eq!(TaskState::parse("Pending"), None);
}
