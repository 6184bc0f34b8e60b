use redis_pane_core::json::{json_shaped, pretty, valid_json};
use redis_pane_core::key::KeyName;
use redis_pane_core::score::{is_valid_zset_score, Score};
use redis_pane_core::state::loaded::{KeyKind, LoadedSet};
use redis_pane_core::state::status::{ScanState, ServerCondition, Source, Viewport};
use redis_pane_core::state::value::{BinaryValue, IndexedValue, StringValue, Value};
use redis_pane_core::state::view::{filter_matches, FilterMode, ListView, SortBy};
use redis_pane_core::text;

#[test]
fn a_name_is_shown_as_text_and_kept_as_bytes() {
    let name = KeyName::new(b"\xffk");
    assert_eq!(name.display(), "\u{fffd}k");
    assert_eq!(name.as_bytes(), b"\xffk");
    assert!(!name.is(&"\u{fffd}k".into()), "what it is shown as is another name");
    assert_eq!(KeyName::from("k"), "k");
    assert_eq!(KeyName::from(b"k".to_vec()), KeyName::from("k"));
}

#[test]
fn text_is_told_from_bytes() {
    assert!(text::is_utf8("é".as_bytes()));
    assert!(!text::is_utf8(&[0xc3]));
}

#[test]
fn numbers_are_written_in_groups_of_three() {
    let grouped = |n: u64| {
        let mut out = String::new();
        text::push_grouped(&mut out, n);
        out
    };
    assert_eq!(grouped(0), "0");
    assert_eq!(grouped(999), "999");
    assert_eq!(grouped(1_000), "1,000");
    assert_eq!(grouped(1_234_056), "1,234,056");
    let mut out = String::from("n=");
    text::push_decimal(&mut out, u64::MAX);
    assert_eq!(out, "n=18446744073709551615");
}

#[test]
fn lines_are_cut_and_put_together_again() {
    assert_eq!(text::split_lines("a\n\nb"), vec!["a", "", "b"]);
    assert_eq!(text::join_lines(&text::split_lines("a\n\nb")), "a\n\nb");
    assert_eq!(text::strip_line_breaks("a\r\nb\n"), "ab");
}

#[test]
fn a_string_is_wrapped_to_its_width() {
    let value = StringValue::new("abcdef\n\ngh", 4);
    assert_eq!(value.lines, vec!["abcd", "ef", "", "gh"]);
    let mut value = Value::Str(value);
    value.rewrap(2);
    assert_eq!(value.row_count(), 5);
    assert_eq!(value.measure(), "10 characters");
}

#[test]
fn a_value_says_how_much_of_it_there_is() {
    let whole = Value::List(IndexedValue {
        items: vec![b"a".to_vec()],
        total: 1,
    });
    assert_eq!(whole.window(), None);
    assert_eq!(whole.measure(), "1 items");
    let part = Value::List(IndexedValue {
        items: vec![b"a".to_vec()],
        total: 12_000,
    });
    assert_eq!(part.window(), Some(1));
    assert_eq!(part.measure(), "12,000 items");
    let binary = Value::Binary(BinaryValue {
        bytes: vec![0; 17],
    });
    assert_eq!(binary.row_count(), 2);
    assert_eq!(binary.kind(), KeyKind::String);
}

#[test]
fn json_is_told_from_text_and_laid_out() {
    for text in ["{}", " [1, -2.5e3, \"a\\u00e9\", null] ", "\"s\"", "0"] {
        assert!(valid_json(text), "{text}");
    }
    for text in ["", "{", "[1,]", "01", "{\"a\"}", "nul", "[1] x"] {
        assert!(!valid_json(text), "{text}");
    }
    assert!(json_shaped("{\"a\":1}"));
    assert!(!json_shaped("42"), "a number is no document");
    assert_eq!(
        pretty("{\"a\":[1,2],\"b\":{}}"),
        "{\n  \"a\": [\n    1,\n    2\n  ],\n  \"b\": {}\n}"
    );
}

#[test]
fn scores_are_decimal_or_infinite() {
    for score in ["1", "-2.5", "+.5", "3.", "1e10", "2E-3", "inf", "-Infinity"] {
        assert!(is_valid_zset_score(score), "{score}");
    }
    for score in ["", "nan", "1.2.3", "e5", ".", "1e", " 1", "0x10"] {
        assert!(!is_valid_zset_score(score), "{score}");
    }
    assert!(Score::parse("-inf").unwrap().is_infinite());
    assert!(!Score::parse("1e308").unwrap().is_infinite());
    assert_eq!(Score::parse("1.50").unwrap().literal(), "1.50");
    assert!(Score::parse("abc").is_none());
}

#[test]
fn a_filter_is_a_part_a_pattern_or_letters_in_order() {
    let glob = |pattern: &str, name: &str| {
        filter_matches(FilterMode::Glob, pattern.as_bytes(), name.as_bytes())
    };
    assert!(glob("", "anything"));
    assert!(glob("ser:8", "user:8812"));
    assert!(glob("user:*:session", "user:8812:session"));
    assert!(!glob("user:*:session", "user:8812:cart"));
    assert!(glob("k?", "k1"));
    assert!(!glob("k?", "k12"));
    assert!(filter_matches(FilterMode::Fuzzy, b"uss", b"user:session"));
    assert!(!filter_matches(FilterMode::Fuzzy, b"zz", b"user:session"));
}

#[test]
fn a_list_shows_exactly_what_passes_in_the_order_asked_for() {
    let mut keys = LoadedSet::default();
    for (i, name) in ["b:1", "a:2", "c:1", "a:1"].iter().enumerate() {
        keys.push(name.as_bytes());
        keys.set_size(i, 10 - i as u32);
    }
    let mut list = ListView::default();
    let names = |list: &ListView| -> Vec<String> {
        (0..list.len())
            .map(|row| keys.name_str(list.index_at(row).unwrap()).unwrap())
            .collect()
    };
    list.rebuild(&keys);
    assert_eq!(names(&list), vec!["b:1", "a:2", "c:1", "a:1"]);
    list.sort = SortBy::Name;
    list.rebuild(&keys);
    assert_eq!(names(&list), vec!["a:1", "a:2", "b:1", "c:1"]);
    list.filter = ":1".into();
    list.rebuild(&keys);
    assert_eq!(names(&list), vec!["a:1", "b:1", "c:1"]);
    assert_eq!(list.index_at(3), None);
}

#[test]
fn the_orders_come_round_again() {
    let mut sort = SortBy::Scan;
    let mut seen = vec![sort];
    for _ in 0..4 {
        sort = sort.next();
        assert!(!seen.contains(&sort));
        seen.push(sort);
    }
    assert_eq!(sort.next(), SortBy::Scan);
}

#[test]
fn the_loaded_set_stops_at_its_cap() {
    let mut keys = LoadedSet::with_cap(2);
    assert!(keys.is_empty());
    assert!(keys.push(b"a"));
    assert!(!keys.is_capped());
    assert!(keys.push(b"b"));
    assert!(keys.is_capped());
    assert!(!keys.push(b"c"));
    assert_eq!(keys.len(), 2);
    assert_eq!(keys.name(1), Some(b"b".as_slice()));
    assert_eq!(keys.name(2), None);
    keys.clear();
    assert!(keys.push(b"c"), "the cap is kept, the keys are not");
    assert_eq!(keys.name_str(0).as_deref(), Some("c"));
}

#[test]
fn metadata_belongs_to_its_key() {
    let mut keys = LoadedSet::default();
    keys.push(b"a");
    keys.push(b"b");
    keys.set_kind(1, KeyKind::Hash);
    keys.set_ttl(1, 90, 7);
    keys.set_size(1, 12);
    assert_eq!(
        (keys.kind(1), keys.ttl(1), keys.size(1)),
        (Some(KeyKind::Hash), Some(90), Some(12))
    );
    assert_eq!((keys.kind(0), keys.ttl(0), keys.size(0)), (None, None, None));
    keys.set_gone(1);
    assert!(keys.is_gone(1) && !keys.is_gone(0));
    assert_eq!(keys.kind(1), None, "a key that is gone has no type");
    assert_eq!(keys.ttl(1), Some(90), "but what was known of it stays");
    keys.set_kind(1, KeyKind::List);
    assert!(!keys.is_gone(1));
    keys.set_kind(9, KeyKind::List);
    assert_eq!(keys.kind(9), None);
}

#[test]
fn a_viewport_scrolls_no_further_than_it_must() {
    let at = |offset: usize, selected: usize| Viewport { offset, selected }.scrolled_to_selection(5);
    assert_eq!(at(0, 4).offset, 0);
    assert_eq!(at(0, 5).offset, 1);
    assert_eq!(at(7, 3).offset, 3);
    assert_eq!(at(7, 9).offset, 7);
    assert_eq!(
        Viewport {
            offset: 0,
            selected: 9
        }
        .scrolled_to_selection(0)
        .offset,
        9
    );
}

#[test]
fn the_chrome_says_how_things_stand() {
    assert_eq!(ScanState::Idle.readout(), "");
    assert_eq!(
        ScanState::Capped { at: 1_000 }.readout(),
        "stopped at 1,000 keys — narrow the filter"
    );
    assert_eq!(
        ScanState::Cancelled { scanned: 12 }.readout(),
        "cancelled at 12 keys"
    );
    assert_eq!(
        ScanState::Failed {
            error: "LOADING".into()
        }
        .readout(),
        "scan failed: LOADING"
    );
    assert_eq!(
        ServerCondition::Loading { percent: 43 }.readout(),
        "loading 43%"
    );
    assert_eq!(
        ServerCondition::Oom.readout(),
        "out of memory · writes rejected"
    );
    assert_eq!(Source::Url.label(), "from url");
    assert_eq!(Source::Flags.label(), "from flags");
}
