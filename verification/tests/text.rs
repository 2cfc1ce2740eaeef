//! Text, numbers and the ordered map.

use oxmgr::numeric::{coord_u16, duration_millis, format_duration_compact};
use oxmgr::ordered_map::OrderedMap;
use oxmgr::text::{
    compare_text, decimal_text, join_texts, parse_unsigned, split_text, starts_with, strip_prefix,
    to_lower, trim, trim_leading, Rank,
};

#[test]
fn numbers_are_written_and_read() {
    for number in [0, 7, 10, 65_535, u64::MAX] {
        assert_eq!(decimal_text(number), format!("{number}"));
        assert_eq!(parse_unsigned(&format!("{number}")), Some(number));
    }
    for text in ["", "+", "-1", "1 ", "1.0", "18446744073709551616", "x"] {
        assert_eq!(parse_unsigned(text), text.parse::<u64>().ok(), "{text:?}");
    }
    assert_eq!(parse_unsigned("+12"), Some(12));
    assert_eq!(parse_unsigned("007"), Some(7));
}

#[test]
fn text_is_trimmed_lowered_and_split() {
    assert_eq!(trim(" \t a b\u{a0}\n"), "a b");
    assert_eq!(trim("\u{2003}\u{2003}"), "");
    assert_eq!(to_lower("OFF Ärger"), "off Ärger");
    assert_eq!(split_text("a,,b", ','), vec!["a", "", "b"]);
    assert_eq!(split_text("", ','), vec![""]);
    assert_eq!(join_texts(&["a".to_string(), "b".to_string()], ", "), "a, b");
    assert_eq!(strip_prefix("Bearer x", "Bearer "), Some("x".to_string()));
    assert_eq!(strip_prefix("Basic x", "Bearer "), None);
    assert!(starts_with("/api/x", "/api/"));
    assert_eq!(trim_leading("//a/b", '/'), "a/b");
}

#[test]
fn text_is_ordered_like_strings() {
    for (a, b) in [("a", "b"), ("", "a"), ("ab", "abc"), ("Z", "a"), ("é", "z")] {
        let expected = if a < b {
            Rank::Before
        } else if a == b {
            Rank::Same
        } else {
            Rank::After
        };
        assert_eq!(compare_text(a, b), expected, "{a:?} {b:?}");
    }
    assert_eq!(compare_text("same", "same"), Rank::Same);
}

#[test]
fn durations_are_compact() {
    assert_eq!(format_duration_compact(7_200), "2h 0m");
    assert_eq!(duration_millis(2, 5), 2_005);
    assert_eq!(duration_millis(u64::MAX, 999), u64::MAX);
    assert_eq!(coord_u16(70_000), u16::MAX);
    assert_eq!(coord_u16(12), 12);
}

#[test]
fn a_map_lists_its_keys_in_order() {
    let mut map: OrderedMap<String, u32> = OrderedMap::new();
    assert!(map.is_empty());
    for (key, value) in [("worker", 2), ("api", 1), ("batch", 3), ("api", 4)] {
        map.insert(key.to_string(), value);
    }
    assert_eq!(map.len(), 3);
    let keys: Vec<String> = (0..map.len()).map(|i| map.entry_at(i).0.clone()).collect();
    assert_eq!(keys, vec!["api", "batch", "worker"]);
    assert_eq!(map.get(&"api".to_string()), Some(&4));
    assert!(map.contains(&"batch".to_string()));
    assert_eq!(map.remove(&"batch".to_string()), Some(3));
    assert_eq!(map.remove(&"batch".to_string()), None);
    assert_eq!(map.len(), 2);
    assert_eq!(map.clone(), map);
}
