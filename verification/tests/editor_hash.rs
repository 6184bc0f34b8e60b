use redis_pane_core::command::{Command, ReadToken};
use redis_pane_core::input::{KeyCode, KeyPress};
use redis_pane_core::layout::Pane;
use redis_pane_core::msg::Msg;
use redis_pane_core::mutation::{Mutation, MutationOutcome, NotWritten};
use redis_pane_core::state::editor::{EditTarget, FieldPart};
use redis_pane_core::state::open::OpenKey;
use redis_pane_core::state::pending::PendingMutation;
use redis_pane_core::state::session::State;
use redis_pane_core::state::status::ReadOnlyReason;
use redis_pane_core::state::value::{PairValue, Value};
use redis_pane_core::update::update;

fn open_with_hash(pairs: &[(&str, &str)], total: usize) -> State {
    let value = Value::Hash(PairValue {
        pairs: pairs
            .iter()
            .map(|(f, v)| (f.as_bytes().to_vec(), v.as_bytes().to_vec()))
            .collect(),
        total,
    });
    let mut state = State {
        cols: 130,
        rows: 40,
        focus: Pane::Value,
        open: Some(OpenKey::new(Some(0), "k".into(), value, -1, 10, 0)),
        ..State::default()
    };
    state.keys.push(b"k");
    state.rebuild_list();
    state
}

fn with_cursor(mut s: State, row: usize) -> State {
    let open = s.open.as_mut().unwrap();
    open.cursor_active = true;
    open.cursor = row;
    s
}

fn type_text(mut s: State, text: &str) -> State {
    for c in text.chars() {
        (s, _) = update(s, Msg::Key(KeyPress::plain(KeyCode::Char(c))));
    }
    s
}

#[test]
fn e_without_a_cursor_gives_the_notice() {
    let s = open_with_hash(&[("f", "v")], 1);
    let (s, cmds) = update(s, Msg::Key(KeyPress::plain(KeyCode::Char('e'))));
    assert!(!s.open.unwrap().is_editing());
    assert!(
        matches!(cmds.as_slice(), [Command::Notify { text }] if text == "Enter to pick a field")
    );
}

#[test]
fn e_on_a_row_opens_the_raw_field_value_not_reformatted_json() {
    let s = with_cursor(open_with_hash(&[("a", "1"), ("b", "{\"x\":1}")], 2), 1);
    let (s, cmds) = update(s, Msg::Key(KeyPress::plain(KeyCode::Char('e'))));
    assert!(cmds.is_empty());
    let open = s.open.as_ref().unwrap();
    assert!(open.is_editing());
    let editor = open.editor().unwrap();
    assert_eq!(editor.text(), b"{\"x\":1}", "raw, not pretty-printed");
    assert!(
        editor.was_json(),
        "still classified, for the dialog's warning"
    );
    assert!(matches!(
        editor.target(),
        EditTarget::HashField { field } if field == "b"
    ));
}

#[test]
fn a_numeric_field_edited_into_text_stages_with_no_json_warning() {
    let s = with_cursor(open_with_hash(&[("id", "8812")], 1), 0);
    let (s, _) = update(s, Msg::Key(KeyPress::plain(KeyCode::Char('e'))));
    assert!(
        !s.open.as_ref().unwrap().editor().unwrap().was_json(),
        "a bare number is not JSON-shaped"
    );
    let s = type_text(s, "x");
    let (s, _) = update(s, Msg::Key(KeyPress::ctrl(KeyCode::Char('s'))));
    assert_eq!(
        s.confirm.as_ref().unwrap().json_warning(),
        None,
        "the question must not even arise for a field that was never JSON-shaped"
    );
}

#[test]
fn a_json_object_field_edited_into_something_invalid_warns() {
    let s = with_cursor(open_with_hash(&[("f", "{\"a\":1}")], 1), 0);
    let (s, _) = update(s, Msg::Key(KeyPress::plain(KeyCode::Char('e'))));
    assert!(s.open.as_ref().unwrap().editor().unwrap().was_json());
    let s = type_text(s, "x");
    let (s, _) = update(s, Msg::Key(KeyPress::ctrl(KeyCode::Char('s'))));
    assert_eq!(s.confirm.as_ref().unwrap().json_warning(), Some(true));
}

#[test]
fn ctrl_s_stages_set_hash_field_with_the_right_field_old_new_and_command_text() {
    let s = with_cursor(open_with_hash(&[("f", "old")], 1), 0);
    let (s, _) = update(s, Msg::Key(KeyPress::plain(KeyCode::Char('e'))));
    let s = type_text(s, "!");
    let (s, cmds) = update(s, Msg::Key(KeyPress::ctrl(KeyCode::Char('s'))));
    assert!(cmds.is_empty());
    match &s.confirm {
        Some(PendingMutation::SetHashField {
            name,
            field,
            old,
            new,
            was_json,
        }) => {
            assert_eq!(name.as_bytes(), b"k");
            assert_eq!(field, b"f");
            assert_eq!(old, b"old");
            assert_eq!(new, b"!old");
            assert!(!was_json);
        }
        other => panic!("expected a staged SetHashField, got {other:?}"),
    }
    assert_eq!(s.confirm.as_ref().unwrap().command_text(), "HSET k f");
    assert_eq!(
        s.confirm.as_ref().unwrap().guard_text().as_deref(),
        Some("only if the field still exists · keeps its TTL")
    );
    let (_, cmds) = update(s, Msg::Key(KeyPress::plain(KeyCode::Char('y'))));
    assert_eq!(
        cmds,
        vec![Command::Execute {
            mutation: Mutation::SetHashField {
                key: "k".into(),
                field: b"f".to_vec(),
                value: b"!old".to_vec()
            },
            index: None,
        }]
    );
}

#[test]
fn enter_stages_an_existing_hash_field_exactly_like_ctrl_s() {
    let s = with_cursor(open_with_hash(&[("f", "old")], 1), 0);
    let (s, _) = update(s, Msg::Key(KeyPress::plain(KeyCode::Char('e'))));
    let s = type_text(s, "!");
    let (s, cmds) = update(s, Msg::Key(KeyPress::plain(KeyCode::Enter)));
    assert!(cmds.is_empty(), "Enter only opens the confirm dialog");
    match &s.confirm {
        Some(PendingMutation::SetHashField {
            name, field, new, ..
        }) => {
            assert_eq!(name.as_bytes(), b"k");
            assert_eq!(field, b"f");
            assert_eq!(new, b"!old");
        }
        other => panic!("expected a staged SetHashField, got {other:?}"),
    }
    assert!(
        !cmds.iter().any(|c| matches!(c, Command::Execute { .. })),
        "Enter must never itself execute a write"
    );
    let (_, cmds) = update(s, Msg::Key(KeyPress::plain(KeyCode::Char('y'))));
    assert_eq!(
        cmds,
        vec![Command::Execute {
            mutation: Mutation::SetHashField {
                key: "k".into(),
                field: b"f".to_vec(),
                value: b"!old".to_vec()
            },
            index: None,
        }],
        "the write Enter staged is identical to the one Ctrl-S would have"
    );
}

#[test]
fn ctrl_s_with_no_change_to_a_hash_field_closes_silently() {
    let s = with_cursor(open_with_hash(&[("f", "v")], 1), 0);
    let (s, _) = update(s, Msg::Key(KeyPress::plain(KeyCode::Char('e'))));
    let (s, cmds) = update(s, Msg::Key(KeyPress::ctrl(KeyCode::Char('s'))));
    let open = s.open.unwrap();
    assert!(!open.is_editing());
    assert!(open.editor().is_none());
    assert!(s.confirm.is_none());
    assert!(cmds.is_empty());
}

#[test]
fn a_opens_a_buffer_on_the_name_part() {
    let s = open_with_hash(&[("f", "v")], 1);
    let (s, cmds) = update(s, Msg::Key(KeyPress::plain(KeyCode::Char('a'))));
    assert!(cmds.is_empty());
    let open = s.open.as_ref().unwrap();
    assert!(
        open.is_editing(),
        "the edit guard is up from the moment the form opens"
    );
    let editor = open.editor().unwrap();
    assert_eq!(editor.active_part(), Some(FieldPart::Name));
    assert_eq!(editor.field_name(), Some(""));
    assert_eq!(editor.text(), b"", "the value side starts empty too");
}

#[test]
fn typing_and_backspace_edit_the_name() {
    let s = open_with_hash(&[("f", "v")], 1);
    let (s, _) = update(s, Msg::Key(KeyPress::plain(KeyCode::Char('a'))));
    let s = type_text(s, "new");
    assert_eq!(
        s.open.as_ref().unwrap().editor().unwrap().field_name(),
        Some("new")
    );
    let (s, _) = update(s, Msg::Key(KeyPress::plain(KeyCode::Backspace)));
    assert_eq!(
        s.open.as_ref().unwrap().editor().unwrap().field_name(),
        Some("ne")
    );
}

#[test]
fn enter_on_an_empty_name_does_nothing() {
    let s = open_with_hash(&[("f", "v")], 1);
    let (s, _) = update(s, Msg::Key(KeyPress::plain(KeyCode::Char('a'))));
    let (s, cmds) = update(s, Msg::Key(KeyPress::plain(KeyCode::Enter)));
    assert!(cmds.is_empty());
    let editor = s.open.as_ref().unwrap().editor().unwrap();
    assert_eq!(
        editor.active_part(),
        Some(FieldPart::Name),
        "still on the name part"
    );
}

#[test]
fn enter_moves_to_the_value_part_then_ctrl_s_stages_add_hash_field() {
    let s = open_with_hash(&[("f", "v")], 1);
    let (s, _) = update(s, Msg::Key(KeyPress::plain(KeyCode::Char('a'))));
    let s = type_text(s, "new");
    let (s, cmds) = update(s, Msg::Key(KeyPress::plain(KeyCode::Enter)));
    assert!(cmds.is_empty());
    assert_eq!(
        s.open.as_ref().unwrap().editor().unwrap().active_part(),
        Some(FieldPart::Value),
        "Enter moved to the value part"
    );

    let s = type_text(s, "value");
    let (s, cmds) = update(s, Msg::Key(KeyPress::ctrl(KeyCode::Char('s'))));
    assert!(cmds.is_empty());
    match &s.confirm {
        Some(PendingMutation::AddHashField { name, field, value }) => {
            assert_eq!(name.as_bytes(), b"k");
            assert_eq!(field, b"new");
            assert_eq!(value, b"value");
        }
        other => panic!("expected a staged AddHashField, got {other:?}"),
    }
    assert_eq!(s.confirm.as_ref().unwrap().command_text(), "HSETNX k new");
    assert_eq!(
        s.confirm.as_ref().unwrap().guard_text().as_deref(),
        Some("only if the key still exists · never overwrites a field")
    );
}

#[test]
fn enter_on_the_value_part_stages_add_hash_field_instead_of_a_newline() {
    let s = open_with_hash(&[("f", "v")], 1);
    let (s, _) = update(s, Msg::Key(KeyPress::plain(KeyCode::Char('a'))));
    let s = type_text(s, "new");
    let (s, _) = update(s, Msg::Key(KeyPress::plain(KeyCode::Enter)));
    let s = type_text(s, "value");
    let (s, cmds) = update(s, Msg::Key(KeyPress::plain(KeyCode::Enter)));
    assert!(cmds.is_empty(), "Enter only opens the confirm dialog");
    match &s.confirm {
        Some(PendingMutation::AddHashField { name, field, value }) => {
            assert_eq!(name.as_bytes(), b"k");
            assert_eq!(field, b"new");
            assert_eq!(value, b"value");
        }
        other => panic!("expected a staged AddHashField, got {other:?}"),
    }
}

#[test]
fn down_also_moves_to_the_value_part() {
    let s = open_with_hash(&[("f", "v")], 1);
    let (s, _) = update(s, Msg::Key(KeyPress::plain(KeyCode::Char('a'))));
    let s = type_text(s, "new");
    let (s, _) = update(s, Msg::Key(KeyPress::plain(KeyCode::Down)));
    assert_eq!(
        s.open.as_ref().unwrap().editor().unwrap().active_part(),
        Some(FieldPart::Value)
    );
}

#[test]
fn up_on_the_values_top_row_returns_to_the_name_keeping_the_value_text() {
    let s = open_with_hash(&[("f", "v")], 1);
    let (s, _) = update(s, Msg::Key(KeyPress::plain(KeyCode::Char('a'))));
    let s = type_text(s, "new");
    let (s, _) = update(s, Msg::Key(KeyPress::plain(KeyCode::Enter)));
    let s = type_text(s, "fr");
    let (s, _) = update(s, Msg::Key(KeyPress::plain(KeyCode::Up)));
    let editor = s.open.as_ref().unwrap().editor().unwrap();
    assert_eq!(editor.active_part(), Some(FieldPart::Name));
    assert_eq!(editor.text(), b"fr", "the value text is kept");
    assert_eq!(editor.field_name(), Some("new"));
}

#[test]
fn up_inside_a_multiline_value_moves_up_a_line_and_stays_in_the_value_part() {
    let s = open_with_hash(&[("f", "v")], 1);
    let (s, _) = update(s, Msg::Key(KeyPress::plain(KeyCode::Char('a'))));
    let s = type_text(s, "new");
    let (s, _) = update(s, Msg::Key(KeyPress::plain(KeyCode::Enter)));
    let (s, _) = update(s, Msg::Paste("line1\nline2".to_string()));
    let (s, _) = update(s, Msg::Key(KeyPress::plain(KeyCode::Up)));
    let editor = s.open.as_ref().unwrap().editor().unwrap();
    assert_eq!(
        editor.active_part(),
        Some(FieldPart::Value),
        "moved up a line, not out of the value part"
    );
    assert_eq!(editor.text(), b"line1\nline2");
    let (s, _) = update(s, Msg::Key(KeyPress::plain(KeyCode::Up)));
    let editor = s.open.as_ref().unwrap().editor().unwrap();
    assert_eq!(editor.active_part(), Some(FieldPart::Name));
    assert_eq!(editor.text(), b"line1\nline2", "still kept");
}

#[test]
fn ctrl_s_from_the_name_part_stages_with_an_empty_value() {
    let s = open_with_hash(&[("f", "v")], 1);
    let (s, _) = update(s, Msg::Key(KeyPress::plain(KeyCode::Char('a'))));
    let s = type_text(s, "new");
    let (s, cmds) = update(s, Msg::Key(KeyPress::ctrl(KeyCode::Char('s'))));
    assert!(cmds.is_empty());
    match &s.confirm {
        Some(PendingMutation::AddHashField { name, field, value }) => {
            assert_eq!(name.as_bytes(), b"k");
            assert_eq!(field, b"new");
            assert!(value.is_empty(), "Redis allows an empty field value");
        }
        other => panic!("expected a staged AddHashField, got {other:?}"),
    }
}

#[test]
fn esc_from_the_name_part_discards_and_clears_editing() {
    let s = open_with_hash(&[("f", "v")], 1);
    let (s, _) = update(s, Msg::Key(KeyPress::plain(KeyCode::Char('a'))));
    let s = type_text(s, "new");
    let (s, _) = update(s, Msg::Key(KeyPress::plain(KeyCode::Esc)));
    let open = s.open.unwrap();
    assert!(open.editor().is_none());
    assert!(!open.is_editing());
}

#[test]
fn esc_from_the_value_part_discards_and_clears_editing() {
    let s = open_with_hash(&[("f", "v")], 1);
    let (s, _) = update(s, Msg::Key(KeyPress::plain(KeyCode::Char('a'))));
    let s = type_text(s, "new");
    let (s, _) = update(s, Msg::Key(KeyPress::plain(KeyCode::Enter)));
    let s = type_text(s, "value");
    let (s, _) = update(s, Msg::Key(KeyPress::plain(KeyCode::Esc)));
    let open = s.open.unwrap();
    assert!(open.editor().is_none());
    assert!(!open.is_editing());
}

#[test]
fn a_paste_into_the_name_strips_newlines() {
    let s = open_with_hash(&[("f", "v")], 1);
    let (s, _) = update(s, Msg::Key(KeyPress::plain(KeyCode::Char('a'))));
    let (s, _) = update(s, Msg::Paste("new\r\nfield\n".into()));
    assert_eq!(
        s.open.as_ref().unwrap().editor().unwrap().field_name(),
        Some("newfield")
    );
}

#[test]
fn a_shown_duplicate_name_blocks_enter_down_and_ctrl_s() {
    let s = open_with_hash(&[("dup", "v")], 1);
    let (s, _) = update(s, Msg::Key(KeyPress::plain(KeyCode::Char('a'))));
    let s = type_text(s, "dup");

    let (s, _) = update(s, Msg::Key(KeyPress::plain(KeyCode::Enter)));
    assert_eq!(
        s.open.as_ref().unwrap().editor().unwrap().active_part(),
        Some(FieldPart::Name),
        "Enter blocked"
    );
    let (s, _) = update(s, Msg::Key(KeyPress::plain(KeyCode::Down)));
    assert_eq!(
        s.open.as_ref().unwrap().editor().unwrap().active_part(),
        Some(FieldPart::Name),
        "Down blocked too"
    );
    let (s, cmds) = update(s, Msg::Key(KeyPress::ctrl(KeyCode::Char('s'))));
    assert!(cmds.is_empty());
    assert!(s.confirm.is_none(), "⌃S blocked too");
}

#[test]
fn removing_a_character_unblocks_a_duplicate_name() {
    let s = open_with_hash(&[("dup", "v")], 1);
    let (s, _) = update(s, Msg::Key(KeyPress::plain(KeyCode::Char('a'))));
    let s = type_text(s, "dup");
    let (s, _) = update(s, Msg::Key(KeyPress::plain(KeyCode::Backspace)));
    let (s, _) = update(s, Msg::Key(KeyPress::plain(KeyCode::Enter)));
    assert_eq!(
        s.open.as_ref().unwrap().editor().unwrap().active_part(),
        Some(FieldPart::Value),
        "no longer a duplicate, so Enter advances"
    );
}

#[test]
fn d_in_the_value_pane_stages_delete_hash_field_and_marks_the_last_field() {
    let s = with_cursor(open_with_hash(&[("f", "v")], 1), 0);
    let (s, cmds) = update(s, Msg::Key(KeyPress::plain(KeyCode::Char('d'))));
    assert!(cmds.is_empty());
    match &s.confirm {
        Some(PendingMutation::DeleteHashField {
            name,
            field,
            last_field,
        }) => {
            assert_eq!(name.as_bytes(), b"k");
            assert_eq!(field, b"f");
            assert!(*last_field);
        }
        other => panic!("expected a staged DeleteHashField, got {other:?}"),
    }
    assert_eq!(s.confirm.as_ref().unwrap().command_text(), "HDEL k f");
}

#[test]
fn d_with_more_than_one_field_left_is_not_marked_as_the_last() {
    let s = with_cursor(open_with_hash(&[("a", "1"), ("b", "2")], 2), 0);
    let (s, _) = update(s, Msg::Key(KeyPress::plain(KeyCode::Char('d'))));
    match &s.confirm {
        Some(PendingMutation::DeleteHashField { last_field, .. }) => assert!(!last_field),
        other => panic!("expected a staged DeleteHashField, got {other:?}"),
    }
}

#[test]
fn d_without_a_cursor_in_the_value_pane_gives_the_notice() {
    let s = open_with_hash(&[("f", "v")], 1);
    let (s, cmds) = update(s, Msg::Key(KeyPress::plain(KeyCode::Char('d'))));
    assert!(s.confirm.is_none());
    assert!(
        matches!(cmds.as_slice(), [Command::Notify { text }] if text == "Enter to pick a field")
    );
}

#[test]
fn d_in_the_keys_pane_still_stages_delete_key() {
    let mut s = open_with_hash(&[("f", "v")], 1);
    s.focus = Pane::Keys;
    let (s, _) = update(s, Msg::Key(KeyPress::plain(KeyCode::Char('d'))));
    assert!(matches!(s.confirm, Some(PendingMutation::DeleteKey { .. })));
}

#[test]
fn read_only_refuses_all_three_hash_mutations_at_confirm() {
    let mutations = [
        PendingMutation::SetHashField {
            name: b"k".to_vec().into(),
            field: b"f".to_vec(),
            old: b"o".to_vec(),
            new: b"n".to_vec(),
            was_json: false,
        },
        PendingMutation::AddHashField {
            name: b"k".to_vec().into(),
            field: b"f".to_vec(),
            value: b"v".to_vec(),
        },
        PendingMutation::DeleteHashField {
            name: b"k".to_vec().into(),
            field: b"f".to_vec(),
            last_field: false,
        },
    ];
    for mutation in mutations {
        let s = State {
            read_only: Some(ReadOnlyReason::User),
            confirm: Some(mutation.clone()),
            ..State::default()
        };
        let (s, cmds) = update(s, Msg::Key(KeyPress::plain(KeyCode::Char('y'))));
        assert!(s.confirm.is_none(), "{mutation:?}");
        assert!(
            matches!(cmds.as_slice(), [Command::Notify { text }] if text.contains("read-only")),
            "{mutation:?}"
        );
    }
}

#[test]
fn not_written_field_gone_hands_the_buffer_back_and_refetches() {
    let s = with_cursor(open_with_hash(&[("f", "old")], 1), 0);
    let (s, _) = update(s, Msg::Key(KeyPress::plain(KeyCode::Char('e'))));
    let s = type_text(s, "!");
    let (s, _) = update(s, Msg::Key(KeyPress::ctrl(KeyCode::Char('s'))));
    let (s, _) = update(s, Msg::Key(KeyPress::plain(KeyCode::Char('y'))));
    let (s, cmds) = update(
        s,
        Msg::MutationSettled {
            mutation: Mutation::SetHashField {
                key: "k".into(),
                field: b"f".to_vec(),
                value: b"!old".to_vec(),
            },
            index: None,
            result: Ok(MutationOutcome::NotWritten(NotWritten::FieldGone)),
            at_ms: 5_000,
        },
    );
    assert!(matches!(cmds.as_slice(), [Command::ReadKey { .. }]));
    let open = s.open.as_ref().unwrap();
    assert!(
        open.is_editing(),
        "held — the buffer is open again"
    );
    let editor = open.editor().unwrap();
    assert_eq!(editor.text(), b"!old");
    assert!(open.typing().is_some(), "typing again, not staged");
    let (text, _) = s.error.as_ref().unwrap();
    assert!(text.contains("HSET k f"), "{text}");
    assert!(text.contains("field no longer exists"), "{text}");
    assert!(text.contains("edit kept"), "{text}");
}

#[test]
fn not_written_field_exists_names_hsetnx_and_hands_the_buffer_back() {
    let s = open_with_hash(&[("f", "v")], 1);
    let (s, _) = update(s, Msg::Key(KeyPress::plain(KeyCode::Char('a'))));
    let s = type_text(s, "new");
    let (s, _) = update(s, Msg::Key(KeyPress::plain(KeyCode::Enter)));
    let s = type_text(s, "value");
    let (s, _) = update(s, Msg::Key(KeyPress::ctrl(KeyCode::Char('s'))));
    let (s, _) = update(s, Msg::Key(KeyPress::plain(KeyCode::Char('y'))));
    let (s, cmds) = update(
        s,
        Msg::MutationSettled {
            mutation: Mutation::AddHashField {
                key: "k".into(),
                field: b"new".to_vec(),
                value: b"value".to_vec(),
            },
            index: None,
            result: Ok(MutationOutcome::NotWritten(NotWritten::FieldExists)),
            at_ms: 5_000,
        },
    );
    assert!(matches!(cmds.as_slice(), [Command::ReadKey { .. }]));
    let (text, _) = s.error.as_ref().unwrap();
    assert!(text.contains("HSETNX k new"), "{text}");
    assert!(text.contains("field already exists"), "{text}");
}

#[test]
fn not_written_key_gone_tombstones_and_hands_the_hash_edit_back() {
    let s = with_cursor(open_with_hash(&[("f", "old")], 1), 0);
    let (s, _) = update(s, Msg::Key(KeyPress::plain(KeyCode::Char('e'))));
    let s = type_text(s, "!");
    let (s, _) = update(s, Msg::Key(KeyPress::ctrl(KeyCode::Char('s'))));
    let (s, _) = update(s, Msg::Key(KeyPress::plain(KeyCode::Char('y'))));
    let (s, cmds) = update(
        s,
        Msg::MutationSettled {
            mutation: Mutation::SetHashField {
                key: "k".into(),
                field: b"f".to_vec(),
                value: b"!old".to_vec(),
            },
            index: None,
            result: Ok(MutationOutcome::NotWritten(NotWritten::KeyGone)),
            at_ms: 6_000,
        },
    );
    assert!(cmds.is_empty(), "never retried, never recreated");
    let open = s.open.as_ref().unwrap();
    assert_eq!(open.deleted_at_ms, Some(6_000));
    assert!(open.is_editing(), "the buffer is open again");
    assert_eq!(open.editor().unwrap().text(), b"!old");
    let (text, _) = s.error.as_ref().unwrap();
    assert!(text.contains("HSET k f"), "{text}");
    assert!(text.contains("key no longer exists"), "{text}");
}

#[test]
fn key_gone_under_a_staged_set_hash_field_dialog_closes_and_hands_the_buffer_back() {
    let s = with_cursor(open_with_hash(&[("f", "old")], 1), 0);
    let (s, _) = update(s, Msg::Key(KeyPress::plain(KeyCode::Char('e'))));
    let s = type_text(s, "!");
    let (s, _) = update(s, Msg::Key(KeyPress::ctrl(KeyCode::Char('s'))));
    assert!(s.confirm.is_some());
    let token = s.read_token;
    let (s, _) = update(
        s,
        Msg::ValueGone {
            token,
            index: None,
            name: "k".into(),
            at_ms: 7_000,
        },
    );
    assert!(s.confirm.is_none());
    assert!(s.notice.is_some());
    let open = s.open.as_ref().unwrap();
    assert_eq!(open.deleted_at_ms, Some(7_000));
    assert!(open.is_editing());
    let editor = open.editor().unwrap();
    assert_eq!(editor.text(), b"!old");
    assert!(open.typing().is_some(), "typing again, not staged");
}

#[test]
fn key_gone_under_a_staged_add_hash_field_dialog_closes_and_hands_the_buffer_back() {
    let s = open_with_hash(&[("f", "v")], 1);
    let (s, _) = update(s, Msg::Key(KeyPress::plain(KeyCode::Char('a'))));
    let s = type_text(s, "new");
    let (s, _) = update(s, Msg::Key(KeyPress::plain(KeyCode::Enter)));
    let s = type_text(s, "value");
    let (s, _) = update(s, Msg::Key(KeyPress::ctrl(KeyCode::Char('s'))));
    assert!(s.confirm.is_some());
    let token = s.read_token;
    let (s, _) = update(
        s,
        Msg::ValueGone {
            token,
            index: None,
            name: "k".into(),
            at_ms: 7_000,
        },
    );
    assert!(s.confirm.is_none());
    let open = s.open.as_ref().unwrap();
    assert_eq!(open.deleted_at_ms, Some(7_000));
    assert_eq!(open.editor().unwrap().text(), b"value");
}

#[test]
fn key_gone_under_a_staged_delete_hash_field_dialog_simply_closes() {
    let s = with_cursor(open_with_hash(&[("f", "v")], 1), 0);
    let (s, _) = update(s, Msg::Key(KeyPress::plain(KeyCode::Char('d'))));
    assert!(s.confirm.is_some());
    let token = s.read_token;
    let (s, _) = update(
        s,
        Msg::ValueGone {
            token,
            index: None,
            name: "k".into(),
            at_ms: 7_000,
        },
    );
    assert!(s.confirm.is_none());
    assert!(s.notice.is_some());
    let open = s.open.as_ref().unwrap();
    assert_eq!(open.deleted_at_ms, Some(7_000));
    assert!(open.editor().is_none(), "delete never had a buffer");
}

#[test]
fn a_delete_hash_field_hdel_returning_false_is_a_notice_not_an_error() {
    let s = open_with_hash(&[("f", "v")], 1);
    let (s, cmds) = update(
        s,
        Msg::MutationSettled {
            mutation: Mutation::DeleteHashField {
                key: "k".into(),
                field: b"f".to_vec(),
            },
            index: None,
            result: Ok(MutationOutcome::NothingToRemove),
            at_ms: 5_000,
        },
    );
    assert!(matches!(cmds.as_slice(), [Command::ReadKey { .. }]));
    assert!(s.error.is_none(), "not an error");
    let (text, _) = s.notice.as_ref().unwrap();
    assert!(text.contains("HDEL k f"), "{text}");
    assert!(text.contains("already gone"), "{text}");
}

#[test]
fn an_update_arriving_while_a_field_is_edited_is_held() {
    let s = with_cursor(open_with_hash(&[("f", "old")], 1), 0);
    let (s, _) = update(s, Msg::Key(KeyPress::plain(KeyCode::Char('e'))));
    assert!(s.open.as_ref().unwrap().is_editing());
    let (s, _) = update(
        s,
        Msg::ValueLoaded {
            token: ReadToken::default(),
            index: Some(0),
            name: "k".into(),
            value: Value::Hash(PairValue {
                pairs: vec![("f".into(), "changed-under-the-editor".into())],
                total: 1,
            }),
            ttl_seconds: -1,
            size_bytes: 10,
            at_ms: 9_000,
        },
    );
    let open = s.open.as_ref().unwrap();
    assert!(open.pending.is_some(), "held, not applied");
    assert_eq!(
        open.editor().unwrap().text(),
        b"old",
        "the buffer is never touched"
    );
}

#[test]
fn the_cursor_is_clamped_after_a_delete_reads_back_fewer_fields() {
    let s = with_cursor(open_with_hash(&[("a", "1"), ("b", "2")], 2), 1);
    let (s, _) = update(s, Msg::Key(KeyPress::plain(KeyCode::Char('d'))));
    let (s, cmds) = update(s, Msg::Key(KeyPress::plain(KeyCode::Char('y'))));
    assert_eq!(
        cmds,
        vec![Command::Execute {
            mutation: Mutation::DeleteHashField {
                key: "k".into(),
                field: b"b".to_vec()
            },
            index: None,
        }]
    );
    let (s, _) = update(
        s,
        Msg::MutationSettled {
            mutation: Mutation::DeleteHashField {
                key: "k".into(),
                field: b"b".to_vec(),
            },
            index: None,
            result: Ok(MutationOutcome::Done),
            at_ms: 9_000,
        },
    );
    let token = s.read_token;
    let (s, _) = update(
        s,
        Msg::ValueLoaded {
            token,
            index: Some(0),
            name: "k".into(),
            value: Value::Hash(PairValue {
                pairs: vec![("a".into(), "1".into())],
                total: 1,
            }),
            ttl_seconds: -1,
            size_bytes: 5,
            at_ms: 9_100,
        },
    );
    assert_eq!(
        s.open.as_ref().unwrap().cursor,
        0,
        "clamped once the row it was on disappeared"
    );
}
