use redis_pane_core::command::Command;
use redis_pane_core::input::{KeyCode, KeyPress};
use redis_pane_core::key::KeyName;
use redis_pane_core::keymap::{Action, Keymap};
use redis_pane_core::layout::Pane;
use redis_pane_core::msg::Msg;
use redis_pane_core::score::Score;
use redis_pane_core::state::copy::{redis_cli_command, value_text, CopyWhat};
use redis_pane_core::state::loaded::{KeyKind, LoadedSet, TTL_NONE};
use redis_pane_core::state::open::OpenKey;
use redis_pane_core::state::session::State;
use redis_pane_core::state::status::{Connection, Environment, Link, Source, Tracking};
use redis_pane_core::state::value::{
    BinaryValue, IndexedValue, JsonValue, MemberValue, PairValue, ScoredValue, StreamValue,
    StringValue, Value,
};
use redis_pane_core::state::view::FilterMode;
use redis_pane_core::update::update;

fn many_keys() -> State {
    let mut keys = LoadedSet::default();
    let rows: &[(&str, KeyKind, i32, u32)] = &[
        ("user:8812:cart", KeyKind::ZSet, 720, 412),
        ("user:8812:profile", KeyKind::Json, TTL_NONE, 880),
        ("user:8812:session", KeyKind::Hash, 2_537, 2_150),
        ("user:8813:session", KeyKind::Hash, 3_400, 1_980),
        ("cart:91af3c9d2e", KeyKind::ZSet, 720, 1_153_434),
        ("feed:global:hot", KeyKind::List, TTL_NONE, 64_512),
    ];
    for (i, (name, kind, ttl, size)) in rows.iter().enumerate() {
        keys.push(name.as_bytes());
        keys.set_kind(i, *kind);
        keys.set_ttl(i, *ttl, 60);
        keys.set_size(i, *size);
    }
    let mut state = State {
        cols: 130,
        rows: 22,
        keys,
        link: Link::Up {
            version: "8.4.0".into(),
            tracking: Tracking::Armed,
        },
        connection: Connection {
            target: "cache-01:6379/0".into(),
            environment: Environment::Staging,
            source: Source::Profile("staging".into()),
        },
        ..State::default()
    };
    state.rebuild_list();
    state
}

fn opened(name: &str, value: Value, ttl: i32) -> State {
    let mut state = many_keys();
    let index = (0..state.keys.len())
        .find(|&i| state.keys.name_str(i).as_deref() == Some(name))
        .unwrap_or_else(|| {
            state.keys.push(name.as_bytes());
            state.keys.len() - 1
        });
    state.open = Some(OpenKey::new(
        Some(index),
        name.into(),
        value,
        ttl,
        2_150,
        60_000,
    ));
    state.rebuild_list();
    state.view.selected = state.open.as_ref().and_then(|open| open.row).unwrap_or(0);
    state
}

fn hash_value() -> Value {
    Value::Hash(PairValue {
        pairs: vec![
            ("id".into(), "8812".into()),
            ("device".into(), "ios/17.2".into()),
            ("region".into(), "eu-west-1".into()),
            ("plan".into(), "pro".into()),
            ("locale".into(), "fr-FR".into()),
        ],
        total: 5,
    })
}

fn press(state: State, c: char) -> (State, Vec<Command>) {
    update(state, Msg::Key(KeyPress::plain(KeyCode::Char(c))))
}

fn copied(cmds: Vec<Command>) -> (String, String) {
    match cmds.into_iter().next() {
        Some(Command::CopyToClipboard { text, label }) => (text, label),
        other => panic!("expected a copy, got {other:?}"),
    }
}

fn score(literal: &str) -> Score {
    Score::parse(literal).unwrap()
}

#[test]
fn fuzzy_mode_matches_characters_in_order() {
    let mut state = many_keys();
    state.list.mode = FilterMode::Fuzzy;
    state.list.filter = "u8812ses".into();
    state.rebuild_list();
    assert_eq!(state.list.len(), 1);
    assert_eq!(
        state
            .keys
            .name_str(state.list.index_at(0).unwrap())
            .unwrap(),
        "user:8812:session"
    );
}

#[test]
fn the_key_name_is_copyable_from_the_list_with_nothing_open() {
    let mut state = many_keys();
    state.open = None;
    let (_, cmds) = press(state, 'c');
    assert!(
        matches!(cmds.first(), Some(Command::CopyToClipboard { .. })),
        "a key name needs no open value"
    );
    assert_eq!(copied(cmds), ("user:8812:cart".into(), "key".into()));
}

#[test]
fn copying_a_value_with_nothing_open_says_so_instead_of_copying_nothing() {
    let mut state = many_keys();
    state.open = None;
    state.focus = Pane::Value;
    let (_, cmds) = press(state, 'c');
    assert_eq!(
        cmds,
        vec![Command::Notify {
            text: "nothing open to copy".into()
        }]
    );
}

#[test]
fn the_confirmation_fades_on_its_own() {
    let (state, _) = update(
        opened("k", hash_value(), 600),
        Msg::Copied {
            label: "key".into(),
            at_ms: 70_000,
        },
    );
    assert_eq!(state.notice_now(70_500), Some("copied key"));
    assert_eq!(state.notice_now(74_000), None, "gone by 4 seconds");
}

#[test]
fn the_command_uses_the_target_the_title_bar_is_showing() {
    let state = opened("k", hash_value(), 600);
    let open = state.open.as_ref().unwrap();
    let cmd = redis_cli_command(
        &state.connection.target,
        &open.name,
        open.value.as_ref().unwrap(),
    );
    assert!(cmd.contains("cache-01"), "{cmd}");
    assert_eq!(state.connection.target, "cache-01:6379/0");
}

#[test]
fn copying_a_value_is_not_affected_by_where_the_viewer_is_scrolled() {
    let mut state = opened("k", hash_value(), 600);
    state.open.as_mut().unwrap().offset = 3;
    let full = value_text(state.open.as_ref().unwrap().value.as_ref().unwrap(), 0);
    assert_eq!(full.lines().count(), 5);
}

#[test]
fn the_focused_pane_decides_what_is_copied() {
    let mut state = opened("user:8812:session", hash_value(), 600);
    state.focus = Pane::Keys;
    let (_, cmds) = press(state.clone(), 'c');
    assert_eq!(copied(cmds), ("user:8812:session".into(), "key".into()));

    state.focus = Pane::Value;
    let (_, cmds) = press(state.clone(), 'c');
    let (text, label) = copied(cmds);
    assert_eq!(label, "value");
    assert_eq!(text.lines().count(), 5);
    assert!(text.contains("device\tios/17.2"));

    let (_, cmds) = press(state, 'C');
    assert_eq!(
        copied(cmds),
        (
            "redis-cli -h cache-01 -p 6379 -n 0 HGETALL user:8812:session".into(),
            "redis-cli command".into()
        )
    );
}

#[test]
fn a_part_of_a_value_is_not_called_the_whole_of_it() {
    let items: Vec<Vec<u8>> = (0..500).map(|i| format!("item-{i}").into_bytes()).collect();
    let mut state = opened("l", Value::List(IndexedValue { items, total: 12_000 }), 600);
    state.focus = Pane::Value;
    let (_, cmds) = press(state, 'c');
    assert_eq!(copied(cmds).1, "value (500 of 12,000 items)");
}

#[test]
fn a_key_that_was_never_there_has_no_value_to_copy() {
    let mut state = many_keys();
    state.open = Some(OpenKey::gone(None, "k".into(), 0));
    state.focus = Pane::Value;
    for c in ['c', 'C'] {
        let (_, cmds) = press(state.clone(), c);
        assert_eq!(
            cmds,
            vec![Command::Notify {
                text: "gone — nothing to copy".into()
            }]
        );
    }
}

#[test]
fn every_type_has_its_text_and_its_command() {
    let name: KeyName = "k".into();
    let cases: Vec<(Value, &str, &str)> = vec![
        (Value::Str(StringValue::new("a\nb", 1)), "a\nb", "GET k"),
        (Value::Json(JsonValue::parse("{\"a\":1}")), "{\n  \"a\": 1\n}", "GET k"),
        (
            Value::List(IndexedValue {
                items: vec![b"x".to_vec(), b"y".to_vec()],
                total: 2,
            }),
            "x\ny",
            "LRANGE k 0 -1",
        ),
        (
            Value::PlainSet(MemberValue {
                members: vec![b"m".to_vec()],
                total: 1,
            }),
            "m",
            "SMEMBERS k",
        ),
        (
            Value::ZSet(ScoredValue {
                entries: vec![(b"m".to_vec(), score("2")), (b"n".to_vec(), score("3.5"))],
                total: 2,
            }),
            "m\t2\nn\t3.5",
            "ZRANGE k 0 -1 WITHSCORES",
        ),
        (
            Value::Stream(StreamValue {
                entries: vec![(
                    b"72000-0".to_vec(),
                    vec![
                        (b"order".to_vec(), b"1001".to_vec()),
                        (b"amount".to_vec(), b"17".to_vec()),
                    ],
                )],
                total: 1,
            }),
            "72000-0\t2s ago\torder=1001\tamount=17",
            "XREVRANGE k + -",
        ),
        (
            Value::Binary(BinaryValue {
                bytes: vec![0x61, 0xff],
            }),
            "a\u{fffd}",
            "GET k",
        ),
    ];
    for (value, text, command) in cases {
        assert_eq!(value_text(&value, 74_000), text);
        assert_eq!(
            redis_cli_command("cache-01:6379/0", &name, &value),
            format!("redis-cli -h cache-01 -p 6379 -n 0 {command}")
        );
    }
}

#[test]
fn a_stream_is_copied_with_the_age_its_entries_had_when_it_was_read() {
    let field = || vec![(b"f".to_vec(), b"v".to_vec())];
    let ids = ["73500-1", "10000-0", "90000-0", "0-1", "x-0", "", "18446744073709551616-0", "9000"];
    let value = Value::Stream(StreamValue {
        entries: ids.iter().map(|id| (id.as_bytes().to_vec(), field())).collect(),
        total: ids.len(),
    });
    let mut state = many_keys();
    state.open = Some(OpenKey::new(None, "s".into(), value, -1, 10, 74_000));
    state.focus = Pane::Value;
    let (_, cmds) = press(state, 'c');
    assert_eq!(
        copied(cmds).0.lines().collect::<Vec<_>>(),
        vec![
            "73500-1\tjust now\tf=v",
            "10000-0\t64s ago\tf=v",
            "90000-0\tjust now\tf=v",
            "0-1\t74s ago\tf=v",
            "x-0\t\tf=v",
            "\t\tf=v",
            "18446744073709551616-0\t\tf=v",
            "9000\t65s ago\tf=v",
        ]
    );
}

#[test]
fn a_name_that_a_shell_would_take_apart_is_quoted() {
    let value = Value::Str(StringValue::new("v", 40));
    let command = |name: &str| redis_cli_command("h:1/0", &name.into(), &value);
    assert_eq!(command("a b"), "redis-cli -h h -p 1 -n 0 GET 'a b'");
    assert_eq!(command("it's"), "redis-cli -h h -p 1 -n 0 GET 'it'\\''s'");
    assert_eq!(command(""), "redis-cli -h h -p 1 -n 0 GET ''");
    assert_eq!(
        redis_cli_command("h", &"k".into(), &value),
        "redis-cli -h h GET k"
    );
}

#[test]
fn what_can_be_copied_has_a_name() {
    assert_eq!(CopyWhat::Key.label(), "key");
    assert_eq!(CopyWhat::Value.label(), "value");
    assert_eq!(CopyWhat::Command.label(), "redis-cli command");
}

#[test]
fn a_rebound_copy_copies() {
    let mut keymap = Keymap::default();
    keymap.bind(Action::Copy, KeyPress::ctrl(KeyCode::Char('y')));
    let state = State {
        keymap,
        ..many_keys()
    };
    let (_, cmds) = update(
        state.clone(),
        Msg::Key(KeyPress::ctrl(KeyCode::Char('y'))),
    );
    assert_eq!(copied(cmds).0, "user:8812:cart");
    let (_, cmds) = press(state, 'c');
    assert!(cmds.is_empty(), "the key it was bound to before is free");
}
