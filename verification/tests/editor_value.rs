use redis_pane_core::command::Command;
use redis_pane_core::input::{KeyCode, KeyPress};
use redis_pane_core::layout::Pane;
use redis_pane_core::msg::Msg;
use redis_pane_core::mutation::{Mutation, MutationOutcome, NotWritten};
use redis_pane_core::state::open::{EditPhase, OpenKey};
use redis_pane_core::state::pending::PendingMutation;
use redis_pane_core::state::session::State;
use redis_pane_core::state::status::ReadOnlyReason;
use redis_pane_core::state::value::{JsonValue, PairValue, StringValue, Value};
use redis_pane_core::update::update;

fn open_with_string(text: &str) -> State {
    let value = Value::Str(StringValue::new(text, 80));
    let mut state = State {
        cols: 130,
        rows: 40,
        focus: Pane::Value,
        open: Some(OpenKey::new(Some(0), "k".into(), value, -1, 10, 0)),
        ..State::default()
    };
    state.keys.push(b"k");
    state.rebuild_list();
    state
}

fn open_with_json(text: &str) -> State {
    let value = Value::Json(JsonValue::parse(text));
    let mut state = State {
        cols: 130,
        rows: 40,
        focus: Pane::Value,
        open: Some(OpenKey::new(Some(0), "k".into(), value, -1, 10, 0)),
        ..State::default()
    };
    state.keys.push(b"k");
    state.rebuild_list();
    state
}

fn type_text(mut s: State, text: &str) -> State {
    for c in text.chars() {
        (s, _) = update(s, Msg::Key(KeyPress::plain(KeyCode::Char(c))));
    }
    s
}

#[test]
fn e_opens_a_buffer_holding_the_raw_text_not_the_wrapped_display_lines() {
    let text = "x".repeat(200);
    let s = open_with_string(&text);
    let (s, cmds) = update(s, Msg::Key(KeyPress::plain(KeyCode::Char('e'))));
    assert!(
        s.open.as_ref().unwrap().is_editing(),
        "the edit guard must be up immediately"
    );
    let editor = s.open.as_ref().unwrap().editor().unwrap();
    assert_eq!(editor.text(), text.into_bytes());
    assert!(cmds.is_empty(), "opening the editor emits no command");
}

#[test]
fn e_opens_json_with_pretty_printed_lines_and_was_json_set() {
    let s = open_with_json("{\"a\":1}");
    let (s, _) = update(s, Msg::Key(KeyPress::plain(KeyCode::Char('e'))));
    let editor = s.open.as_ref().unwrap().editor().unwrap();
    assert!(editor.was_json());
    assert_eq!(editor.text(), b"{\n  \"a\": 1\n}");
}

#[test]
fn typing_undo_and_redo_change_text() {
    let s = open_with_string("old");
    let (s, _) = update(s, Msg::Key(KeyPress::plain(KeyCode::Char('e'))));
    let s = type_text(s, "!");
    assert_eq!(s.open.as_ref().unwrap().editor().unwrap().text(), b"!old");
    let (s, _) = update(s, Msg::Key(KeyPress::ctrl(KeyCode::Char('z'))));
    assert_eq!(s.open.as_ref().unwrap().editor().unwrap().text(), b"old");
    let (s, _) = update(s, Msg::Key(KeyPress::ctrl(KeyCode::Char('y'))));
    assert_eq!(s.open.as_ref().unwrap().editor().unwrap().text(), b"!old");
}

#[test]
fn enter_still_inserts_a_newline_for_a_plain_string_value() {
    let s = open_with_string("old");
    let (s, _) = update(s, Msg::Key(KeyPress::plain(KeyCode::Char('e'))));
    let (s, cmds) = update(s, Msg::Key(KeyPress::plain(KeyCode::Enter)));
    assert!(cmds.is_empty());
    let text = s.open.as_ref().unwrap().editor().unwrap().text();
    assert_eq!(text.len(), 4, "one newline byte inserted into \"old\"");
    assert_eq!(text.iter().filter(|&&b| b == b'\n').count(), 1);
    assert!(s.confirm.is_none(), "Enter never stages a String edit");
}

#[test]
fn enter_still_inserts_a_newline_for_a_json_value() {
    let s = open_with_json("{\"a\":1}");
    let (s, _) = update(s, Msg::Key(KeyPress::plain(KeyCode::Char('e'))));
    let before = s.open.as_ref().unwrap().editor().unwrap().text();
    let (s, cmds) = update(s, Msg::Key(KeyPress::plain(KeyCode::Enter)));
    assert!(cmds.is_empty());
    assert!(s.confirm.is_none());
    let after = s.open.as_ref().unwrap().editor().unwrap().text();
    assert_eq!(after.len(), before.len() + 1, "one newline byte inserted");
    assert_eq!(
        after.iter().filter(|&&b| b == b'\n').count(),
        before.iter().filter(|&&b| b == b'\n').count() + 1
    );
}

#[test]
fn e_on_a_collection_or_binary_value_refuses_with_a_notice_not_a_panic() {
    let hash = Value::Hash(PairValue {
        pairs: vec![("f".into(), "v".into())],
        total: 1,
    });
    let mut s = State {
        focus: Pane::Value,
        open: Some(OpenKey::new(Some(0), "k".into(), hash, -1, 10, 0)),
        ..State::default()
    };
    s.keys.push(b"k");
    s.rebuild_list();
    let (s, cmds) = update(s, Msg::Key(KeyPress::plain(KeyCode::Char('e'))));
    let open = s.open.unwrap();
    assert!(!open.is_editing());
    assert!(open.editor().is_none());
    assert!(matches!(cmds.as_slice(), [Command::Notify { .. }]));
}

#[test]
fn ctrl_s_with_no_change_closes_the_buffer_silently() {
    let s = open_with_string("old");
    let (s, _) = update(s, Msg::Key(KeyPress::plain(KeyCode::Char('e'))));
    let (s, cmds) = update(s, Msg::Key(KeyPress::ctrl(KeyCode::Char('s'))));
    let open = s.open.unwrap();
    assert!(!open.is_editing());
    assert!(open.editor().is_none());
    assert!(s.confirm.is_none());
    assert!(cmds.is_empty());
}

#[test]
fn ctrl_s_with_a_change_stages_set_string_and_keeps_editing() {
    let s = open_with_string("old");
    let (s, _) = update(s, Msg::Key(KeyPress::plain(KeyCode::Char('e'))));
    let s = type_text(s, "!");
    let (s, cmds) = update(s, Msg::Key(KeyPress::ctrl(KeyCode::Char('s'))));
    assert!(
        s.open.as_ref().unwrap().is_editing(),
        "still mid-edit at preview"
    );
    assert!(
        matches!(
            s.open.as_ref().unwrap().edit,
            EditPhase::Staged(_)
        ),
        "staged, still on screen under the dialog"
    );
    assert!(cmds.is_empty(), "staging emits no command of its own");
    match &s.confirm {
        Some(PendingMutation::SetString {
            name,
            old,
            new,
            was_json,
        }) => {
            assert_eq!(name.as_bytes(), b"k");
            assert_eq!(old, b"old");
            assert_eq!(new, b"!old");
            assert!(!was_json);
        }
        other => panic!("expected a staged SetString, got {other:?}"),
    }
    assert_eq!(
        s.confirm.as_ref().unwrap().command_text(),
        "SET k !old KEEPTTL XX",
        "keeps the TTL, and never recreates a key that is gone"
    );

    let (_, cmds) = update(s, Msg::Key(KeyPress::plain(KeyCode::Char('y'))));
    assert_eq!(
        cmds,
        vec![Command::Execute {
            mutation: Mutation::SetString {
                key: "k".into(),
                value: b"!old".to_vec()
            },
            index: None,
        }]
    );
}

fn staged_text(s: &State) -> Option<(Vec<u8>, bool)> {
    let open = s.open.as_ref()?;
    let editor = open.editor()?;
    Some((editor.text(), open.typing().is_none()))
}

#[test]
fn a_staged_buffer_stays_on_screen_until_read_back_but_takes_no_input() {
    let s = open_with_string("old");
    let (s, _) = update(s, Msg::Key(KeyPress::plain(KeyCode::Char('e'))));
    let s = type_text(s, "!");
    let (s, _) = update(s, Msg::Key(KeyPress::ctrl(KeyCode::Char('s'))));
    assert_eq!(
        staged_text(&s),
        Some((b"!old".to_vec(), true)),
        "under the dialog"
    );
    let (s, _) = update(s, Msg::Key(KeyPress::plain(KeyCode::Char('y'))));
    let (s, _) = update(s, Msg::Paste("zz".to_string()));
    assert_eq!(
        staged_text(&s),
        Some((b"!old".to_vec(), true)),
        "while the SET is in flight: still shown, never typed into"
    );
}

#[test]
fn esc_at_the_dialog_drops_the_staged_buffer() {
    let s = open_with_string("old");
    let (s, _) = update(s, Msg::Key(KeyPress::plain(KeyCode::Char('e'))));
    let s = type_text(s, "!");
    let (s, _) = update(s, Msg::Key(KeyPress::ctrl(KeyCode::Char('s'))));
    let (s, _) = update(s, Msg::Key(KeyPress::plain(KeyCode::Esc)));
    let open = s.open.unwrap();
    assert!(!open.is_editing());
    assert!(open.editor().is_none());
}

#[test]
fn e_while_the_last_edit_is_still_saving_is_refused_with_a_notice() {
    let s = open_with_string("old");
    let (s, _) = update(s, Msg::Key(KeyPress::plain(KeyCode::Char('e'))));
    let s = type_text(s, "!");
    let (s, _) = update(s, Msg::Key(KeyPress::ctrl(KeyCode::Char('s'))));
    let (s, _) = update(s, Msg::Key(KeyPress::plain(KeyCode::Char('y'))));
    let (s, cmds) = update(s, Msg::Key(KeyPress::plain(KeyCode::Char('e'))));
    assert!(matches!(cmds.as_slice(), [Command::Notify { .. }]));
    assert_eq!(staged_text(&s), Some((b"!old".to_vec(), true)));
}

#[test]
fn a_key_gone_under_the_dialog_closes_it_and_hands_the_edit_back() {
    let s = open_with_string("old");
    let (s, _) = update(s, Msg::Key(KeyPress::plain(KeyCode::Char('e'))));
    let s = type_text(s, "!");
    let (s, _) = update(s, Msg::Key(KeyPress::ctrl(KeyCode::Char('s'))));
    let token = s.read_token;
    let (s, cmds) = update(
        s,
        Msg::ValueGone {
            token,
            index: None,
            name: "k".into(),
            at_ms: 9_000,
        },
    );
    assert!(cmds.is_empty(), "nothing to write to, so nothing is sent");
    assert!(s.confirm.is_none(), "the dialog closes at once");
    assert!(s.notice.is_some());
    let open = s.open.as_ref().unwrap();
    assert_eq!(open.deleted_at_ms, Some(9_000));
    assert!(open.is_editing(), "the buffer is open again");
    assert_eq!(staged_text(&s), Some((b"!old".to_vec(), false)));
    let s = type_text(s, "?");
    assert_eq!(
        staged_text(&s),
        Some((b"!?old".to_vec(), false)),
        "typed into again"
    );
}

#[test]
fn a_key_gone_with_the_set_in_flight_leaves_its_reply_to_decide() {
    let s = open_with_string("old");
    let (s, _) = update(s, Msg::Key(KeyPress::plain(KeyCode::Char('e'))));
    let s = type_text(s, "!");
    let (s, _) = update(s, Msg::Key(KeyPress::ctrl(KeyCode::Char('s'))));
    let (s, _) = update(s, Msg::Key(KeyPress::plain(KeyCode::Char('y'))));
    let token = s.read_token;
    let (s, _) = update(
        s,
        Msg::ValueGone {
            token,
            index: None,
            name: "k".into(),
            at_ms: 9_000,
        },
    );
    assert_eq!(
        staged_text(&s),
        Some((b"!old".to_vec(), true)),
        "the SET is already sent"
    );
    let (s, cmds) = update(
        s,
        Msg::MutationSettled {
            mutation: Mutation::SetString {
                key: "k".into(),
                value: b"!old".to_vec(),
            },
            index: None,
            result: Ok(MutationOutcome::NotWritten(NotWritten::KeyGone)),
            at_ms: 9_100,
        },
    );
    assert!(cmds.is_empty(), "never retried");
    assert_eq!(staged_text(&s), Some((b"!old".to_vec(), false)));
    assert!(s.open.as_ref().unwrap().is_editing());
}

#[test]
fn a_set_that_finds_the_key_gone_tombstones_it_and_hands_the_edit_back() {
    let s = open_with_string("old");
    let (s, _) = update(s, Msg::Key(KeyPress::plain(KeyCode::Char('e'))));
    let s = type_text(s, "!");
    let (s, _) = update(s, Msg::Key(KeyPress::ctrl(KeyCode::Char('s'))));
    let (s, _) = update(s, Msg::Key(KeyPress::plain(KeyCode::Char('y'))));
    let (s, cmds) = update(
        s,
        Msg::MutationSettled {
            mutation: Mutation::SetString {
                key: "k".into(),
                value: b"!old".to_vec(),
            },
            index: None,
            result: Ok(MutationOutcome::NotWritten(NotWritten::KeyGone)),
            at_ms: 9_100,
        },
    );
    assert!(cmds.is_empty(), "never retried, never recreated");
    let open = s.open.as_ref().unwrap();
    assert_eq!(open.deleted_at_ms, Some(9_100));
    assert!(open.is_editing());
    assert_eq!(staged_text(&s), Some((b"!old".to_vec(), false)));
    let (text, _) = s.error.as_ref().unwrap();
    assert!(text.contains("nothing written, edit kept"), "{text}");

    let (s, _) = update(s, Msg::Key(KeyPress::plain(KeyCode::Esc)));
    let open = s.open.unwrap();
    assert!(open.editor().is_none(), "Esc still discards it");
    assert!(!open.is_editing());
}

#[test]
fn a_key_gone_after_the_write_landed_drops_the_staged_buffer() {
    let s = open_with_string("old");
    let (s, _) = update(s, Msg::Key(KeyPress::plain(KeyCode::Char('e'))));
    let s = type_text(s, "!");
    let (s, _) = update(s, Msg::Key(KeyPress::ctrl(KeyCode::Char('s'))));
    let (s, _) = update(s, Msg::Key(KeyPress::plain(KeyCode::Char('y'))));
    let (s, _) = update(
        s,
        Msg::MutationSettled {
            mutation: Mutation::SetString {
                key: "k".into(),
                value: b"!old".to_vec(),
            },
            index: None,
            result: Ok(MutationOutcome::Done),
            at_ms: 9_000,
        },
    );
    let token = s.read_token;
    let (s, _) = update(
        s,
        Msg::ValueGone {
            token,
            index: None,
            name: "k".into(),
            at_ms: 9_100,
        },
    );
    let open = s.open.unwrap();
    assert!(open.editor().is_none());
    assert!(!open.is_editing());
}

#[test]
fn value_set_key_gone_for_a_key_no_longer_open_touches_nothing() {
    let s = open_with_string("old");
    let (s, cmds) = update(
        s,
        Msg::MutationSettled {
            mutation: Mutation::SetString {
                key: "some other key".into(),
                value: b"!old".to_vec(),
            },
            index: None,
            result: Ok(MutationOutcome::NotWritten(NotWritten::KeyGone)),
            at_ms: 9_000,
        },
    );
    assert!(cmds.is_empty());
    assert!(s.error.is_none());
    assert!(s.open.unwrap().deleted_at_ms.is_none());
}

#[test]
fn was_json_is_carried_from_the_pre_edit_value_not_guessed_from_the_new_text() {
    let s = open_with_json("{\"a\":1}");
    let (s, _) = update(s, Msg::Key(KeyPress::plain(KeyCode::Char('e'))));
    let s = type_text(s, "x");
    let (s, _) = update(s, Msg::Key(KeyPress::ctrl(KeyCode::Char('s'))));
    let Some(PendingMutation::SetString { was_json, .. }) = &s.confirm else {
        panic!("expected a staged SetString");
    };
    assert!(*was_json);
    assert_eq!(s.confirm.as_ref().unwrap().json_warning(), Some(true));
}

#[test]
fn esc_discards_the_buffer_with_nothing_staged() {
    let s = open_with_string("old");
    let (s, _) = update(s, Msg::Key(KeyPress::plain(KeyCode::Char('e'))));
    let s = type_text(s, "!");
    let (s, cmds) = update(s, Msg::Key(KeyPress::plain(KeyCode::Esc)));
    let open = s.open.unwrap();
    assert!(!open.is_editing());
    assert!(open.editor().is_none());
    assert!(cmds.is_empty());
    assert!(s.confirm.is_none());
}

#[test]
fn while_the_editor_is_open_a_value_loaded_for_that_key_is_held_not_applied() {
    let s = open_with_string("old");
    let (s, _) = update(s, Msg::Key(KeyPress::plain(KeyCode::Char('e'))));
    let token = s.read_token;
    let (s, _) = update(
        s,
        Msg::ValueLoaded {
            token,
            index: Some(0),
            name: "k".into(),
            value: Value::Str(StringValue::new(
                "from the server",
                80,
            )),
            ttl_seconds: -1,
            size_bytes: 10,
            at_ms: 1_000,
        },
    );
    let open = s.open.unwrap();
    assert_eq!(
        open.value,
        Some(Value::Str(
            StringValue::new("old", 80)
        )),
        "the screen must not change under an open editor"
    );
    assert!(open.pending.is_some(), "held for later instead");
    assert!(
        open.editor().is_some(),
        "and the buffer itself is untouched"
    );
}

#[test]
fn a_stray_key_at_the_confirm_dialog_keeps_it_up() {
    let s = open_with_string("old");
    let (s, _) = update(s, Msg::Key(KeyPress::plain(KeyCode::Char('e'))));
    let s = type_text(s, "!");
    let (s, _) = update(s, Msg::Key(KeyPress::ctrl(KeyCode::Char('s'))));
    assert!(s.confirm.is_some());
    let (s, cmds) = update(s, Msg::Key(KeyPress::plain(KeyCode::Char('c'))));
    assert!(s.confirm.is_some(), "the dialog must still be up");
    assert!(cmds.is_empty());
}

#[test]
fn esc_at_the_confirm_dialog_clears_editing_with_nothing_sent() {
    let s = open_with_string("old");
    let (s, _) = update(s, Msg::Key(KeyPress::plain(KeyCode::Char('e'))));
    let s = type_text(s, "!");
    let (s, _) = update(s, Msg::Key(KeyPress::ctrl(KeyCode::Char('s'))));
    let (s, cmds) = update(s, Msg::Key(KeyPress::plain(KeyCode::Esc)));
    assert!(!s.open.unwrap().is_editing());
    assert!(cmds.is_empty());
    assert!(s.confirm.is_none());
}

#[test]
fn a_failed_write_ends_the_edit() {
    let s = open_with_string("old");
    let (s, _) = update(s, Msg::Key(KeyPress::plain(KeyCode::Char('e'))));
    let s = type_text(s, "!");
    let (s, _) = update(s, Msg::Key(KeyPress::ctrl(KeyCode::Char('s'))));
    let (s, _) = update(s, Msg::Key(KeyPress::plain(KeyCode::Char('y'))));
    assert!(s.open.as_ref().unwrap().is_editing());
    let (s, _) = update(
        s,
        Msg::MutationSettled {
            mutation: Mutation::SetString {
                key: "k".into(),
                value: b"!old".to_vec(),
            },
            index: None,
            result: Err("READONLY You can't write against a read only replica.".into()),
            at_ms: 0,
        },
    );
    let (text, _) = s.error.as_ref().unwrap();
    assert!(text.starts_with("SET k: READONLY"), "{text}");
    let open = s.open.unwrap();
    assert!(
        !open.is_editing(),
        "the edit guard does not outlive the write"
    );
    assert!(open.editor().is_none());
}

#[test]
fn an_unrelated_failure_never_ends_an_edit_being_typed() {
    let s = open_with_string("old");
    let (s, _) = update(s, Msg::Key(KeyPress::plain(KeyCode::Char('e'))));
    let s = type_text(s, "!");
    let (s, _) = update(
        s,
        Msg::Failed {
            command: "fetching metadata".into(),
            detail: "timed out".into(),
            at_ms: 0,
        },
    );
    assert!(s.error.is_some(), "the failure is still shown");
    let open = s.open.as_ref().unwrap();
    assert!(open.is_editing(), "the guard still holds");
    assert_eq!(open.typing().unwrap().text(), b"!old");
}

#[test]
fn a_paste_while_editing_inserts_once() {
    let s = open_with_string("old");
    let (s, _) = update(s, Msg::Key(KeyPress::plain(KeyCode::Char('e'))));
    let (s, _) = update(s, Msg::Paste("!!!".to_string()));
    assert_eq!(s.open.as_ref().unwrap().editor().unwrap().text(), b"!!!old");
}

#[test]
fn value_set_clears_editing_before_minting_the_refetch() {
    let s = open_with_string("old");
    let (s, _) = update(s, Msg::Key(KeyPress::plain(KeyCode::Char('e'))));
    let s = type_text(s, "!");
    let (s, _) = update(s, Msg::Key(KeyPress::ctrl(KeyCode::Char('s'))));
    let (s, _) = update(s, Msg::Key(KeyPress::plain(KeyCode::Char('y'))));
    assert!(
        s.open.as_ref().unwrap().is_editing(),
        "still true until ValueSet"
    );

    let (s, cmds) = update(
        s,
        Msg::MutationSettled {
            mutation: Mutation::SetString {
                key: "k".into(),
                value: b"!old".to_vec(),
            },
            index: None,
            result: Ok(MutationOutcome::Done),
            at_ms: 5_000,
        },
    );
    assert!(!s.open.as_ref().unwrap().is_editing());
    assert!(
        matches!(cmds.as_slice(), [Command::ReadKey { .. }]),
        "the reply, not this message, is what the Viewer will show"
    );
}

#[test]
fn value_set_for_a_key_no_longer_open_touches_nothing() {
    let s = open_with_string("old");
    let (s, cmds) = update(
        s,
        Msg::MutationSettled {
            mutation: Mutation::SetString {
                key: "some other key".into(),
                value: b"!old".to_vec(),
            },
            index: None,
            result: Ok(MutationOutcome::Done),
            at_ms: 5_000,
        },
    );
    assert!(!s.open.unwrap().is_editing(), "was never true here");
    assert!(cmds.is_empty());
}

#[test]
fn e_opens_the_editor_on_the_line_under_the_viewer_cursor() {
    let mut s = open_with_json(r#"{"a":1,"b":2}"#);
    s.open.as_mut().unwrap().cursor = 2;
    let (s, _) = update(s, Msg::Key(KeyPress::plain(KeyCode::Char('e'))));
    let editor = s.open.as_ref().unwrap().editor().unwrap();
    assert_eq!(editor.cursor(), (2, 0));
}

#[test]
fn the_refetch_after_a_confirmed_write_lands_even_with_the_cursor_off_the_top() {
    let mut s = open_with_json(r#"{"a":1,"b":2}"#);
    let open = s.open.as_mut().unwrap();
    open.cursor = 2;
    open.at_rest = false;
    let (s, _) = update(s, Msg::Key(KeyPress::plain(KeyCode::Char('e'))));
    let s = type_text(s, "x");
    let (s, _) = update(s, Msg::Key(KeyPress::ctrl(KeyCode::Char('s'))));
    let (s, _) = update(s, Msg::Key(KeyPress::plain(KeyCode::Char('y'))));
    let (s, cmds) = update(
        s,
        Msg::MutationSettled {
            mutation: Mutation::SetString {
                key: "k".into(),
                value: b"!old".to_vec(),
            },
            index: None,
            result: Ok(MutationOutcome::Done),
            at_ms: 5_000,
        },
    );
    let [Command::ReadKey { token, .. }] = cmds.as_slice() else {
        panic!("expected a Refetch, got {cmds:?}");
    };
    let written = Value::Str(StringValue::new("new", 40));
    let (s, _) = update(
        s,
        Msg::ValueLoaded {
            token: *token,
            index: None,
            name: "k".into(),
            value: written.clone(),
            ttl_seconds: -1,
            size_bytes: 3,
            at_ms: 5_100,
        },
    );
    let open = s.open.as_ref().unwrap();
    assert_eq!(open.value.as_ref(), Some(&written), "not held");
    assert!(open.pending.is_none());
    assert_eq!(open.cursor, 0, "clamped to the shorter value");
    assert!(
        open.editor().is_none(),
        "the read replaced the staged buffer"
    );
}

#[test]
fn read_only_mode_does_not_refuse_at_e_only_at_y() {
    let s = State {
        read_only: Some(ReadOnlyReason::Environment),
        ..open_with_string("old")
    };
    let (s, cmds) = update(s, Msg::Key(KeyPress::plain(KeyCode::Char('e'))));
    assert!(
        s.open.as_ref().unwrap().editor().is_some(),
        "opening is never refused"
    );
    assert!(cmds.is_empty());
    let s = type_text(s, "!");
    let (s, _) = update(s, Msg::Key(KeyPress::ctrl(KeyCode::Char('s'))));
    assert!(s.confirm.is_some(), "the preview is composed anyway");
    let (_, cmds) = update(s, Msg::Key(KeyPress::plain(KeyCode::Char('y'))));
    assert!(
        !cmds.iter().any(|c| matches!(
            c,
            Command::Execute {
                mutation: Mutation::SetString { .. },
                ..
            }
        )),
        "but nothing was actually sent to the server"
    );
}

#[test]
fn e_in_the_keys_pane_gives_the_notice_and_does_not_open() {
    let mut s = open_with_string("old");
    s.focus = Pane::Keys;
    let (s, cmds) = update(s, Msg::Key(KeyPress::plain(KeyCode::Char('e'))));
    let open = s.open.as_ref().unwrap();
    assert!(open.editor().is_none());
    assert!(!open.is_editing());
    assert!(
        matches!(cmds.as_slice(), [Command::Notify { text }] if text == "Tab to the value pane to edit")
    );
}

fn open_with_hash_for_gating() -> State {
    let value = Value::Hash(PairValue {
        pairs: vec![("f".into(), "v".into())],
        total: 1,
    });
    let mut state = State {
        cols: 130,
        rows: 40,
        focus: Pane::Value,
        open: Some(OpenKey::new(Some(0), "k".into(), value, -1, 10, 0)),
        ..State::default()
    };
    state.keys.push(b"k");
    state.rebuild_list();
    state
}

#[test]
fn a_in_the_keys_pane_gives_the_notice_and_does_not_open() {
    let mut s = open_with_hash_for_gating();
    s.focus = Pane::Keys;
    let (s, cmds) = update(s, Msg::Key(KeyPress::plain(KeyCode::Char('a'))));
    assert!(s.open.as_ref().unwrap().editor().is_none());
    assert!(
        matches!(cmds.as_slice(), [Command::Notify { text }] if text == "Tab to the value pane to edit")
    );
}

#[test]
fn e_with_nothing_open_in_the_keys_pane_says_open_a_key_first() {
    let s = State {
        focus: Pane::Keys,
        ..State::default()
    };
    let (_, cmds) = update(s, Msg::Key(KeyPress::plain(KeyCode::Char('e'))));
    assert!(
        matches!(cmds.as_slice(), [Command::Notify { text }] if text == "open a key first")
    );
}

#[test]
fn e_with_nothing_open_in_the_value_pane_says_nothing_open_to_edit() {
    let s = State {
        focus: Pane::Value,
        ..State::default()
    };
    let (_, cmds) = update(s, Msg::Key(KeyPress::plain(KeyCode::Char('e'))));
    assert!(
        matches!(cmds.as_slice(), [Command::Notify { text }] if text == "nothing open to edit")
    );
}

#[test]
fn e_and_a_refuse_a_key_confirmed_gone_before_it_ever_loaded() {
    let mut s = State {
        focus: Pane::Value,
        ..State::default()
    };
    s.open = Some(OpenKey::gone(None, "k".into(), 0));
    let (s, cmds) = update(s, Msg::Key(KeyPress::plain(KeyCode::Char('e'))));
    assert!(
        matches!(cmds.as_slice(), [Command::Notify { text }] if text == "gone — nothing to edit")
    );
    let (_, cmds) = update(s, Msg::Key(KeyPress::plain(KeyCode::Char('a'))));
    assert!(
        matches!(cmds.as_slice(), [Command::Notify { text }] if text == "gone — nothing to edit")
    );
}
