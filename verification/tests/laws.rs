use redis_pane_core::command::{Command, ReadToken};
use redis_pane_core::input::{KeyCode, KeyPress, MouseAction};
use redis_pane_core::keymap::Action;
use redis_pane_core::layout::{layout, Pane, Rect, MIN_PANE_COLS};
use redis_pane_core::msg::{MetadataEntry, Msg};
use redis_pane_core::mutation::{Mutation, MutationOutcome, NotWritten};
use redis_pane_core::state::loaded::{KeyKind, LoadedSet};
use redis_pane_core::state::open::OpenKey;
use redis_pane_core::state::pending::PendingMutation;
use redis_pane_core::state::session::State;
use redis_pane_core::state::status::{Link, Liveness, ReadOnlyReason, ScanState, Tracking};
use redis_pane_core::state::tree::Row;
use redis_pane_core::state::value::{PairValue, StringValue, Value};
use redis_pane_core::update::confirm::confirm_key;
use redis_pane_core::update::keys::{group_prefix_at, parent_row};
use redis_pane_core::update::{update, Mode};

fn press(state: State, code: KeyCode) -> (State, Vec<Command>) {
    update(state, Msg::Key(KeyPress::plain(code)))
}

fn with_keys(names: &[&str]) -> State {
    let state = State {
        cols: 130,
        rows: 30,
        ..State::default()
    };
    let (state, _) = update(
        state,
        Msg::ScanStarted {
            estimated_total: names.len() as u64,
        },
    );
    let keys = names.iter().map(|name| name.as_bytes().to_vec()).collect();
    update(state, Msg::ScanBatch { keys }).0
}

fn string(text: &str) -> Value {
    Value::Str(StringValue::new(text, 80))
}

fn viewing(text: &str) -> State {
    let mut state = with_keys(&["k", "other"]);
    state.open = Some(OpenKey::new(Some(0), "k".into(), string(text), -1, 10, 0));
    state.focus = Pane::Value;
    state.rebuild_list();
    state
}

fn loaded(state: &State, name: &str, text: &str) -> Msg {
    Msg::ValueLoaded {
        token: state.read_token,
        index: None,
        name: name.into(),
        value: string(text),
        ttl_seconds: -1,
        size_bytes: 1,
        at_ms: 9_000,
    }
}

fn shown(state: &State) -> String {
    match &state.open.as_ref().unwrap().value {
        Some(Value::Str(value)) => value.text.clone(),
        other => panic!("expected a string, got {other:?}"),
    }
}

fn set_string() -> Mutation {
    Mutation::SetString {
        key: "k".into(),
        value: b"!v".to_vec(),
    }
}

fn staged() -> State {
    let (state, _) = press(viewing("v"), KeyCode::Char('e'));
    let (state, _) = press(state, KeyCode::Char('!'));
    let (state, _) = update(state, Msg::Key(KeyPress::ctrl(KeyCode::Char('s'))));
    assert!(state.confirm.is_some());
    state
}

#[test]
fn only_a_plain_y_carries_a_write_out() {
    for code in [KeyCode::Enter, KeyCode::Char('n'), KeyCode::Char('Y'), KeyCode::Tab] {
        let before = staged();
        let (after, cmds) = press(before.clone(), code);
        assert_eq!(after, before, "a stray key loses nothing");
        assert!(cmds.is_empty());
    }
    let (after, cmds) = update(staged(), Msg::Key(KeyPress::ctrl(KeyCode::Char('y'))));
    assert!(after.confirm.is_some() && cmds.is_empty());

    let (_, cmds) = press(staged(), KeyCode::Char('y'));
    assert_eq!(
        cmds,
        vec![Command::Execute {
            mutation: set_string(),
            index: None
        }]
    );
}

#[test]
fn a_session_that_does_not_write_says_so_and_why() {
    for (reason, word) in [
        (ReadOnlyReason::Environment, "environment"),
        (ReadOnlyReason::Replica, "replica"),
        (ReadOnlyReason::User, "user"),
    ] {
        let state = State {
            read_only: Some(reason),
            ..staged()
        };
        let (state, cmds) = press(state, KeyCode::Char('y'));
        assert_eq!(
            cmds,
            vec![Command::Notify {
                text: format!("read-only ({word}): not executed")
            }]
        );
        assert!(!state.open.unwrap().is_editing());
    }
}

#[test]
fn every_refusal_hands_the_text_back_and_says_why() {
    let cases = [
        (NotWritten::FieldGone, "field no longer exists"),
        (NotWritten::FieldExists, "field already exists"),
        (NotWritten::MemberExists, "member already exists"),
        (
            NotWritten::ElementMoved,
            "that element moved — the list changed underneath it, look again",
        ),
        (NotWritten::MemberGone, "member no longer exists"),
        (NotWritten::KeyGone, "key no longer exists"),
    ];
    for (why, words) in cases {
        let (state, _) = press(staged(), KeyCode::Char('y'));
        let (state, cmds) = update(
            state,
            Msg::MutationSettled {
                mutation: set_string(),
                index: None,
                result: Ok(MutationOutcome::NotWritten(why)),
                at_ms: 5,
            },
        );
        assert_eq!(
            state.error_text(),
            Some(format!("SET k: {words} — nothing written, edit kept").as_str())
        );
        let open = state.open.unwrap();
        assert_eq!(open.typing().unwrap().text(), b"!v");
        if why == NotWritten::KeyGone {
            assert_eq!(open.deleted_at_ms, Some(5));
            assert!(cmds.is_empty());
        } else {
            assert!(matches!(cmds.as_slice(), [Command::ReadKey { .. }]));
        }
    }
}

#[test]
fn a_removal_that_found_nothing_names_what_was_gone() {
    let cases = [
        (
            Mutation::DeleteHashField {
                key: "k".into(),
                field: b"f".to_vec(),
            },
            "HDEL k f: field already gone",
        ),
        (
            Mutation::DeleteSetMember {
                key: "k".into(),
                member: b"m".to_vec(),
            },
            "SREM k: member already gone",
        ),
        (
            Mutation::DeleteZSetMember {
                key: "k".into(),
                member: b"m".to_vec(),
            },
            "ZREM k: member already gone",
        ),
        (
            Mutation::DeleteListElement {
                key: "k".into(),
                index: 3,
                expected: b"e".to_vec(),
            },
            "LREM k 3: element already gone",
        ),
    ];
    for (mutation, words) in cases {
        let (state, cmds) = update(
            viewing("v"),
            Msg::MutationSettled {
                mutation,
                index: None,
                result: Ok(MutationOutcome::NothingToRemove),
                at_ms: 5,
            },
        );
        assert_eq!(state.notice_now(5), Some(words));
        assert!(matches!(cmds.as_slice(), [Command::ReadKey { .. }]));
    }
}

#[test]
fn what_is_typed_outlives_everything_but_keys() {
    let (state, _) = press(viewing("v"), KeyCode::Char('e'));
    let (state, _) = press(state, KeyCode::Char('!'));
    let token = state.read_token;
    let messages: Vec<Msg> = vec![
        loaded(&state, "k", "changed"),
        Msg::ValueGone {
            token,
            index: None,
            name: "k".into(),
            at_ms: 1,
        },
        Msg::Failed {
            command: "c".into(),
            detail: "d".into(),
            at_ms: 2,
        },
        Msg::MutationSettled {
            mutation: set_string(),
            index: None,
            result: Ok(MutationOutcome::Done),
            at_ms: 3,
        },
        Msg::ConnectionLost,
        Msg::Invalidated,
        Msg::ScanStarted { estimated_total: 1 },
        Msg::Resized { cols: 40, rows: 10 },
        Msg::Mouse(MouseAction::ScrollDown { col: 0, row: 3 }),
        Msg::Copied {
            label: "key".into(),
            at_ms: 4,
        },
    ];
    let mut state = state;
    for msg in messages {
        (state, _) = update(state, msg);
        assert_eq!(
            state.open.as_ref().unwrap().typing().unwrap().text(),
            b"!v"
        );
    }
}

#[test]
fn the_screen_does_not_change_under_an_edit() {
    let (state, _) = press(viewing("v"), KeyCode::Char('e'));
    let msg = loaded(&state, "k", "changed");
    let (state, _) = update(state, msg);
    assert_eq!(shown(&state), "v");
    assert!(state.open.as_ref().unwrap().pending.is_some());
    let (state, _) = press(state, KeyCode::Esc);
    let (state, cmds) = press(state, KeyCode::Char('r'));
    assert_eq!(shown(&state), "changed", "held, not lost");
    assert!(cmds.is_empty());
}

#[test]
fn a_write_of_ones_own_is_read_back_at_once() {
    let (state, _) = press(staged(), KeyCode::Char('y'));
    let (state, cmds) = update(
        state,
        Msg::MutationSettled {
            mutation: set_string(),
            index: None,
            result: Ok(MutationOutcome::Done),
            at_ms: 1,
        },
    );
    assert!(matches!(cmds.as_slice(), [Command::ReadKey { .. }]));
    assert!(state.open_pending.as_ref().unwrap().own_write);
    let msg = loaded(&state, "k", "!v");
    let (state, _) = update(state, msg);
    assert_eq!(shown(&state), "!v");
    assert!(state.open.unwrap().editor().is_none());
}

#[test]
fn a_reply_to_an_older_read_changes_nothing() {
    let before = viewing("v");
    let old = ReadToken {
        number: before.read_token.number + 7,
    };
    let (after, cmds) = update(
        before.clone(),
        Msg::ValueLoaded {
            token: old,
            index: Some(0),
            name: "k".into(),
            value: string("other"),
            ttl_seconds: 5,
            size_bytes: 5,
            at_ms: 5,
        },
    );
    assert_eq!(after, before);
    assert!(cmds.is_empty());
    let (after, _) = update(
        before.clone(),
        Msg::ValueGone {
            token: old,
            index: Some(0),
            name: "k".into(),
            at_ms: 5,
        },
    );
    assert_eq!(after, before);
    let (after, _) = update(before.clone(), Msg::ReadIssued { token: old, at_ms: 5 });
    assert_eq!(after, before);
}

#[test]
fn tokens_are_never_used_twice_in_a_row() {
    let token = ReadToken { number: u64::MAX };
    assert_eq!(token.next(), ReadToken { number: 0 });
    assert_eq!(ReadToken::default().next(), ReadToken { number: 1 });
}

#[test]
fn every_read_arms_exactly_if_the_link_can() {
    for (tracking, arms) in [
        (Tracking::Unsupported, false),
        (Tracking::Available, true),
        (Tracking::Armed, true),
        (Tracking::Consumed, true),
    ] {
        let state = State {
            link: Link::Up {
                version: "8".into(),
                tracking,
            },
            ..viewing("v")
        };
        let (state, cmds) = press(state, KeyCode::Char('r'));
        match cmds.as_slice() {
            [Command::ReadKey { arm, token, .. }] => {
                assert_eq!(*arm, arms);
                assert_eq!(*token, state.read_token);
            }
            other => panic!("expected a read, got {other:?}"),
        }
    }
}

#[test]
fn an_arming_that_arrives_late_makes_nothing_live() {
    let (state, _) = update(viewing("v"), Msg::ConnectionLost);
    let (state, _) = update(state, Msg::TrackingArmed);
    assert_eq!(state.liveness(), Liveness::Disconnected);
    let (state, _) = update(
        state,
        Msg::Connected {
            version: "8".into(),
            tracking_supported: false,
        },
    );
    let (state, _) = update(state, Msg::TrackingArmed);
    assert_eq!(state.liveness(), Liveness::Manual);
}

#[test]
fn keys_past_the_cap_are_refused_and_the_cap_is_remembered() {
    let state = State {
        keys: LoadedSet::with_cap(2),
        ..State::default()
    };
    let keys = vec![b"a".to_vec(), b"b".to_vec(), b"c".to_vec()];
    let (state, cmds) = update(state, Msg::ScanBatch { keys });
    assert_eq!(state.keys.len(), 2);
    assert_eq!(state.scan, ScanState::Capped { at: 2 });
    assert_eq!(cmds, vec![Command::CancelScan]);
    let (state, _) = update(state, Msg::ScanComplete);
    assert_eq!(state.scan, ScanState::Capped { at: 2 });
}

#[test]
fn the_open_key_finds_its_place_again_after_a_rescan() {
    let state = viewing("v");
    let (state, _) = update(state, Msg::ScanStarted { estimated_total: 2 });
    assert_eq!(state.open.as_ref().unwrap().index, None);
    let keys = vec![b"other".to_vec(), b"k".to_vec()];
    let (state, _) = update(state, Msg::ScanBatch { keys });
    assert_eq!(state.open.as_ref().unwrap().index, Some(1));
    assert_eq!(state.open.as_ref().unwrap().row, Some(1));
}

#[test]
fn a_tombstone_never_lands_on_another_key() {
    let state = viewing("v");
    let token = state.read_token;
    let (state, _) = update(
        state,
        Msg::ValueGone {
            token,
            index: Some(1),
            name: "k".into(),
            at_ms: 5,
        },
    );
    assert!(!state.keys.is_gone(1), "row 1 is another key");
    assert_eq!(shown(&state), "v", "the last value stays");
}

#[test]
fn panes_that_disagree_ask_the_server() {
    let (state, cmds) = update(
        viewing("v"),
        Msg::MetadataBatch {
            entries: vec![],
            gone: vec![0],
            at_ms: 1_000,
        },
    );
    assert!(matches!(cmds.as_slice(), [Command::ReadKey { .. }]));
    assert!(state.keys.is_gone(0));

    let mut state = viewing("v");
    state.open.as_mut().unwrap().deleted_at_ms = Some(1);
    let entry = MetadataEntry {
        index: 0,
        kind: KeyKind::String,
        ttl_seconds: 7,
        size_bytes: 8,
    };
    let (state, cmds) = update(
        state,
        Msg::MetadataBatch {
            entries: vec![entry],
            gone: vec![],
            at_ms: 1_000,
        },
    );
    assert!(matches!(cmds.as_slice(), [Command::ReadKey { .. }]));
    assert_eq!(state.keys.ttl(0), Some(7));

    let (_, cmds) = update(
        viewing("v"),
        Msg::MetadataBatch {
            entries: vec![entry],
            gone: vec![1],
            at_ms: 1_000,
        },
    );
    assert!(cmds.is_empty(), "they agree");
}

#[test]
fn a_nested_group_folds_and_unfolds_from_its_own_row() {
    let mut state = with_keys(&["a:b:1", "a:b:2", "a:c:1", "z"]);
    state.tree_mode = true;
    state.rebuild_list();
    let before = state.clone();
    for row in 0..state.tree.len() {
        if let Some(Row::Group { expanded, .. }) = state.tree.row(row) {
            assert!(expanded);
            let mut state = before.clone();
            state.view.selected = row;
            let prefix = group_prefix_at(&state, row).unwrap();
            let (state, _) = press(state, KeyCode::Left);
            assert_eq!(state.view.selected, row);
            assert!(state.tree.len() < before.tree.len());
            assert_eq!(group_prefix_at(&state, row), Some(prefix));
            let (state, _) = press(state, KeyCode::Right);
            assert_eq!(state.view.selected, row);
            assert_eq!(state.tree, before.tree);
            assert_eq!(state.list, before.list);
        }
    }
    assert_eq!(group_prefix_at(&before, 0).as_deref(), Some("a:"));
    assert_eq!(group_prefix_at(&before, 1).as_deref(), Some("a:b:"));
}

#[test]
fn the_palette_offers_and_performs_every_action_by_name() {
    let state = viewing("v");
    let (direct, direct_cmds) = press(state.clone(), KeyCode::Char('r'));
    let (mut state, _) = update(state, Msg::Key(KeyPress::ctrl(KeyCode::Char('k'))));
    for c in "refresh".chars() {
        (state, _) = press(state, KeyCode::Char(c));
    }
    assert_eq!(
        state.palette.as_ref().unwrap().highlighted(),
        Some(Action::Refetch)
    );
    let (chosen, cmds) = press(state, KeyCode::Enter);
    assert_eq!((chosen, cmds), (direct, direct_cmds));
}

#[test]
fn enter_stages_like_its_key_except_in_a_string() {
    let mut state = viewing("v");
    state.open = Some(OpenKey::new(
        Some(0),
        "k".into(),
        Value::Hash(PairValue {
            pairs: vec![(b"f".to_vec(), b"v".to_vec())],
            total: 1,
        }),
        -1,
        10,
        0,
    ));
    state.open.as_mut().unwrap().cursor_active = true;
    let (state, _) = press(state, KeyCode::Char('e'));
    let (state, _) = press(state, KeyCode::Char('!'));
    let by_enter = press(state.clone(), KeyCode::Enter);
    let by_key = update(state, Msg::Key(KeyPress::ctrl(KeyCode::Char('s'))));
    assert_eq!(by_enter, by_key);
    assert!(matches!(
        by_enter.0.confirm,
        Some(PendingMutation::SetHashField { .. })
    ));

    let (state, _) = press(viewing("v"), KeyCode::Char('e'));
    let (state, _) = press(state, KeyCode::Enter);
    assert!(state.confirm.is_none());
    assert_eq!(state.open.unwrap().typing().unwrap().text(), b"\nv");
}

#[test]
fn the_palette_waits_behind_everything_else_that_takes_keys() {
    let (state, _) = update(
        viewing("v"),
        Msg::Key(KeyPress::ctrl(KeyCode::Char('k'))),
    );
    assert_eq!(redis_pane_core::update::mode(&state), Mode::Palette);
    let state = State {
        filtering: true,
        ..state
    };
    assert_eq!(redis_pane_core::update::mode(&state), Mode::Filtering);
}

#[test]
fn a_filter_that_captures_stays_on_screen() {
    let mut state = viewing("v");
    state.filtering = true;
    let (state, _) = update(state, Msg::Resized { cols: 40, rows: 20 });
    assert_eq!(state.focus, Pane::Keys);
    let (state, _) = update(state, Msg::Paste("o\nth\r".into()));
    assert_eq!(state.list.filter, "oth");
    assert_eq!(state.list.len(), 1);
}

#[test]
fn a_paste_goes_where_the_keys_go() {
    let (state, _) = press(viewing("v"), KeyCode::Char('e'));
    let (state, _) = update(state, Msg::Paste("a\nb".into()));
    assert_eq!(state.open.unwrap().typing().unwrap().text(), b"a\nbv");

    let (state, _) = press(viewing("v"), KeyCode::Char('t'));
    let (state, _) = update(state, Msg::Paste("6\n0".into()));
    let open = state.open.as_ref().unwrap();
    assert_eq!(open.typing().unwrap().text(), b"", "not into the text box");

    let before = viewing("v");
    let (after, cmds) = update(before.clone(), Msg::Paste("x".into()));
    assert_eq!(after, before);
    assert!(cmds.is_empty());
}

#[test]
fn no_edit_begins_where_none_can() {
    let says = |state: State| match press(state, KeyCode::Char('e')).1.as_slice() {
        [Command::Notify { text }] => text.clone(),
        other => panic!("expected a notice, got {other:?}"),
    };
    let mut state = viewing("v");
    state.focus = Pane::Keys;
    assert_eq!(says(state), "Tab to the value pane to edit");
    let mut state = with_keys(&["k"]);
    assert_eq!(says(state.clone()), "open a key first");
    state.focus = Pane::Value;
    assert_eq!(says(state), "nothing open to edit");
    let mut state = viewing("v");
    state.open.as_mut().unwrap().deleted_at_ms = Some(1);
    assert_eq!(says(state), "gone — nothing to edit");
    let (state, _) = press(staged(), KeyCode::Char('y'));
    assert_eq!(says(state), "still saving the last edit");
}

#[test]
fn the_divider_follows_the_pointer() {
    let state = viewing("v");
    let area = Rect::new(0, 0, state.cols, state.rows);
    let plan = layout(area, state.focus, state.split_adjust);
    let divider = plan.value.unwrap().x - 1;
    let (state, _) = update(
        state,
        Msg::Mouse(MouseAction::Down {
            col: divider,
            row: plan.keys.y,
        }),
    );
    for col in [60, 33, MIN_PANE_COLS] {
        let (state, _) = update(state.clone(), Msg::Mouse(MouseAction::Drag { col, row: 5 }));
        let plan = layout(area, state.focus, state.split_adjust);
        assert_eq!(plan.keys.width, col);
        let value = plan.value.unwrap();
        assert_eq!(plan.keys.width + 1 + value.width, state.cols);
    }
    let (state, _) = update(state, Msg::Mouse(MouseAction::Drag { col: 3, row: 5 }));
    let plan = layout(area, state.focus, state.split_adjust);
    assert_eq!(plan.keys.width, MIN_PANE_COLS, "neither pane disappears");
}

#[test]
fn an_answer_leaves_another_staged_write_alone() {
    let delete = |index: usize, name: &str| PendingMutation::DeleteKey {
        index,
        name: name.into(),
    };
    for code in [KeyCode::Char('y'), KeyCode::Esc] {
        let mut state = viewing("v");
        state.confirm = Some(delete(1, "other"));
        let (after, _) = confirm_key(state, delete(0, "k"), KeyPress::plain(code));
        assert_eq!(after.confirm, Some(delete(1, "other")));
        let mut state = viewing("v");
        state.confirm = Some(delete(0, "k"));
        let (after, _) = press(state, code);
        assert_eq!(after.confirm, None);
    }
}

#[test]
fn names_are_cut_at_a_separator_of_any_width() {
    let mut state = with_keys(&["a→b→1", "a→b→2", "a→c", "x:y"]);
    state.tree.separator = '→';
    state.tree_mode = true;
    state.rebuild_list();
    let prefixes: Vec<Option<String>> = (0..state.tree.len())
        .map(|row| group_prefix_at(&state, row))
        .collect();
    assert_eq!(
        prefixes,
        vec![
            Some("a→".to_string()),
            Some("a→b→".to_string()),
            None,
            None,
            None,
            None
        ]
    );
    state.view.selected = 1;
    let (state, _) = press(state, KeyCode::Left);
    assert_eq!(state.tree.len(), 4);
    assert_eq!(group_prefix_at(&state, 1).as_deref(), Some("a→b→"));
}

#[test]
fn every_key_starts_with_the_prefix_of_each_group_above_it() {
    let mut state = with_keys(&["a:b:1", "a:b:2", "a:", ":x", "z", "a::b", "ä:ö:ü"]);
    state.tree_mode = true;
    state.rebuild_list();
    for row in 0..state.tree.len() {
        match state.tree.row(row) {
            Some(Row::Key { index, .. }) => {
                let name = state.keys.name_str(index).unwrap();
                let mut at = row;
                while let Some(parent) = parent_row(&state, at) {
                    assert!(name.starts_with(&group_prefix_at(&state, parent).unwrap()));
                    at = parent;
                }
                assert_eq!(group_prefix_at(&state, row), None);
            }
            _ => assert!(group_prefix_at(&state, row).unwrap().ends_with(':')),
        }
    }
}

#[test]
fn an_expanded_group_is_stepped_into_and_stays_expanded() {
    let mut state = with_keys(&["a:b:1", "a:b:2", "z"]);
    state.tree_mode = true;
    state.rebuild_list();
    let before = state.clone();
    let (state, _) = press(state, KeyCode::Right);
    assert_eq!(state.view.selected, 1);
    assert_eq!(parent_row(&state, 1), Some(0));
    assert_eq!(state.tree, before.tree);
}

#[test]
fn a_page_of_keys_stands_behind_those_before_it_in_its_order() {
    let state = State {
        keys: LoadedSet::with_cap(4),
        ..State::default()
    };
    let first = vec![b"q".to_vec(), b"b".to_vec()];
    let (state, _) = update(state, Msg::ScanBatch { keys: first });
    let second = vec![b"z".to_vec(), b"a".to_vec(), b"m".to_vec()];
    let (state, cmds) = update(state, Msg::ScanBatch { keys: second });
    let names: Vec<String> = (0..state.keys.len())
        .map(|i| state.keys.name_str(i).unwrap())
        .collect();
    assert_eq!(names, vec!["q", "b", "z", "a"]);
    assert_eq!(cmds, vec![Command::CancelScan]);
}

#[test]
fn a_read_is_the_next_one_and_the_one_that_is_waited_for() {
    let before = viewing("v");
    let (state, cmds) = press(before.clone(), KeyCode::Char('r'));
    assert_eq!(state.read_token, before.read_token.next());
    let asked = state.open_pending.as_ref().unwrap();
    assert_eq!(
        cmds,
        vec![Command::ReadKey {
            key: "k".into(),
            index: asked.index,
            token: asked.token,
            arm: state.read_arms_tracking(),
        }]
    );
    assert_eq!(asked.token, state.read_token);
    assert_eq!(asked.issued_at_ms, None);
    let token = state.read_token;
    let (state, cmds) = press(state, KeyCode::Char('?'));
    assert!(cmds.is_empty());
    assert_eq!(state.read_token, token);
}
