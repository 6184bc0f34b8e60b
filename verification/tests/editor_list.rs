use redis_pane_core::command::{Command, ReadToken};
use redis_pane_core::input::{KeyCode, KeyPress};
use redis_pane_core::layout::Pane;
use redis_pane_core::msg::Msg;
use redis_pane_core::mutation::{Mutation, MutationOutcome, NotWritten};
use redis_pane_core::state::editor::EditTarget;
use redis_pane_core::state::open::OpenKey;
use redis_pane_core::state::pending::PendingMutation;
use redis_pane_core::state::session::State;
use redis_pane_core::state::status::ReadOnlyReason;
use redis_pane_core::state::value::{IndexedValue, ListEnd, Value};
use redis_pane_core::update::update;

fn open_with_list(items: &[&str], total: usize) -> State {
    let value = Value::List(IndexedValue {
        items: items.iter().map(|i| i.as_bytes().to_vec()).collect(),
        total,
    });
    let mut state = State {
        cols: 130,
        rows: 40,
        focus: Pane::Value,
        open: Some(OpenKey::new(Some(0), "k".into(), value, -1, 10, 0)),
        ..State::default()
    };
    state.keys.push(b"k");
    state.rebuild_list();
    state
}

fn with_cursor(mut s: State, row: usize) -> State {
    let open = s.open.as_mut().unwrap();
    open.cursor_active = true;
    open.cursor = row;
    s
}

fn type_text(mut s: State, text: &str) -> State {
    for c in text.chars() {
        (s, _) = update(s, Msg::Key(KeyPress::plain(KeyCode::Char(c))));
    }
    s
}

#[test]
fn e_without_a_cursor_on_a_list_gives_the_pick_an_element_notice() {
    let s = open_with_list(&["alpha"], 1);
    let (s, cmds) = update(s, Msg::Key(KeyPress::plain(KeyCode::Char('e'))));
    assert!(!s.open.unwrap().is_editing());
    assert!(
        matches!(cmds.as_slice(), [Command::Notify { text }] if text == "Enter to pick an element"),
        "{cmds:?}"
    );
}

#[test]
fn e_on_a_list_row_opens_the_raw_element_keyed_on_its_index() {
    let s = with_cursor(open_with_list(&["alpha", "beta", "gamma"], 3), 1);
    let (s, cmds) = update(s, Msg::Key(KeyPress::plain(KeyCode::Char('e'))));
    assert!(cmds.is_empty());
    let open = s.open.as_ref().unwrap();
    assert!(open.is_editing(), "the edit guard is up immediately");
    let editor = open.editor().unwrap();
    assert_eq!(editor.target(), &EditTarget::ListElement { index: 1 });
    assert_eq!(editor.text(), b"beta");
    assert_eq!(editor.field_name(), None, "an element has no field name");
    assert_eq!(editor.active_part(), None, "no FIELD/VALUE split");
}

#[test]
fn e_on_a_binary_list_row_gives_d4s_notice_instead_of_a_buffer() {
    let value = Value::List(IndexedValue {
        items: vec![vec![0xff, 0x80]],
        total: 1,
    });
    let mut s = State {
        cols: 130,
        rows: 40,
        focus: Pane::Value,
        open: Some(OpenKey::new(Some(0), "k".into(), value, -1, 10, 0)),
        ..State::default()
    };
    s.keys.push(b"k");
    s.rebuild_list();
    let s = with_cursor(s, 0);
    let (s, cmds) = update(s, Msg::Key(KeyPress::plain(KeyCode::Char('e'))));
    let open = s.open.unwrap();
    assert!(!open.is_editing());
    assert!(open.editor().is_none());
    assert!(
        matches!(cmds.as_slice(), [Command::Notify { text }] if text == "binary elements aren't editable here yet"),
        "{cmds:?}"
    );
}

#[test]
fn e_in_the_keys_pane_with_a_list_open_gives_the_tab_notice() {
    let mut s = open_with_list(&["alpha"], 1);
    s.focus = Pane::Keys;
    let (s, cmds) = update(s, Msg::Key(KeyPress::plain(KeyCode::Char('e'))));
    assert!(s.open.as_ref().unwrap().editor().is_none());
    assert!(
        matches!(cmds.as_slice(), [Command::Notify { text }] if text == "Tab to the value pane to edit")
    );
}

#[test]
fn a_in_the_keys_pane_with_a_list_open_gives_the_tab_notice() {
    let mut s = open_with_list(&["alpha"], 1);
    s.focus = Pane::Keys;
    let (s, cmds) = update(s, Msg::Key(KeyPress::plain(KeyCode::Char('a'))));
    assert!(s.open.as_ref().unwrap().editor().is_none());
    assert!(
        matches!(cmds.as_slice(), [Command::Notify { text }] if text == "Tab to the value pane to edit")
    );
}

#[test]
fn d_without_a_cursor_on_a_list_gives_the_pick_an_element_notice() {
    let s = open_with_list(&["alpha"], 1);
    let (s, cmds) = update(s, Msg::Key(KeyPress::plain(KeyCode::Char('d'))));
    assert!(s.confirm.is_none());
    assert!(
        matches!(cmds.as_slice(), [Command::Notify { text }] if text == "Enter to pick an element")
    );
}

#[test]
fn a_opens_a_single_part_buffer_defaulting_to_tail_with_no_cursor_needed() {
    let s = open_with_list(&["alpha"], 1);
    let (s, cmds) = update(s, Msg::Key(KeyPress::plain(KeyCode::Char('a'))));
    assert!(cmds.is_empty());
    let open = s.open.as_ref().unwrap();
    assert!(open.is_editing(), "the edit guard is up immediately");
    let editor = open.editor().unwrap();
    assert_eq!(
        editor.target(),
        &EditTarget::NewListElement { end: ListEnd::Tail }
    );
    assert_eq!(editor.active_part(), None, "no FIELD/VALUE split");
    assert_eq!(editor.field_name(), None);
    assert_eq!(editor.text(), b"");
}

#[test]
fn tab_toggles_head_and_tail_while_the_add_form_is_open() {
    let s = open_with_list(&["alpha"], 1);
    let (s, _) = update(s, Msg::Key(KeyPress::plain(KeyCode::Char('a'))));
    assert_eq!(
        s.open.as_ref().unwrap().editor().unwrap().target(),
        &EditTarget::NewListElement { end: ListEnd::Tail }
    );
    let (s, cmds) = update(s, Msg::Key(KeyPress::plain(KeyCode::Tab)));
    assert!(cmds.is_empty(), "toggling emits no command");
    assert_eq!(
        s.open.as_ref().unwrap().editor().unwrap().target(),
        &EditTarget::NewListElement { end: ListEnd::Head },
        "one Tab flips to Head"
    );
    let (s, _) = update(s, Msg::Key(KeyPress::plain(KeyCode::Tab)));
    assert_eq!(
        s.open.as_ref().unwrap().editor().unwrap().target(),
        &EditTarget::NewListElement { end: ListEnd::Tail },
        "a second Tab flips back to Tail"
    );
}

#[test]
fn tab_does_not_toggle_an_existing_elements_edit() {
    let s = with_cursor(open_with_list(&["alpha"], 1), 0);
    let (s, _) = update(s, Msg::Key(KeyPress::plain(KeyCode::Char('e'))));
    let before = s.open.as_ref().unwrap().editor().unwrap().text();
    let (s, _) = update(s, Msg::Key(KeyPress::plain(KeyCode::Tab)));
    let after = s.open.as_ref().unwrap().editor().unwrap().text();
    assert!(
        after.len() > before.len(),
        "Tab still inserts (spaces, per `insert_tab`), it just does not toggle an end"
    );
    assert_eq!(
        s.open.as_ref().unwrap().editor().unwrap().target(),
        &EditTarget::ListElement { index: 0 },
        "target unchanged — there is no end on this variant to toggle"
    );
}

#[test]
fn typing_and_ctrl_s_stage_add_list_element_at_the_tail_by_default() {
    let s = open_with_list(&["alpha"], 1);
    let (s, _) = update(s, Msg::Key(KeyPress::plain(KeyCode::Char('a'))));
    let s = type_text(s, "beta");
    let (s, cmds) = update(s, Msg::Key(KeyPress::ctrl(KeyCode::Char('s'))));
    assert!(cmds.is_empty());
    match &s.confirm {
        Some(PendingMutation::AddListElement { name, end, value }) => {
            assert_eq!(name.as_bytes(), b"k");
            assert_eq!(*end, ListEnd::Tail);
            assert_eq!(value, b"beta");
        }
        other => panic!("expected a staged AddListElement, got {other:?}"),
    }
    assert_eq!(s.confirm.as_ref().unwrap().command_text(), "RPUSH k");
    assert_eq!(
        s.confirm.as_ref().unwrap().guard_text().as_deref(),
        Some("only if the key still exists")
    );
    let (_, cmds) = update(s, Msg::Key(KeyPress::plain(KeyCode::Char('y'))));
    assert_eq!(
        cmds,
        vec![Command::Execute {
            mutation: Mutation::AddListElement {
                key: "k".into(),
                end: ListEnd::Tail,
                value: b"beta".to_vec(),
            },
            index: None,
        }]
    );
}

#[test]
fn tab_then_ctrl_s_stages_add_list_element_at_the_head() {
    let s = open_with_list(&["alpha"], 1);
    let (s, _) = update(s, Msg::Key(KeyPress::plain(KeyCode::Char('a'))));
    let (s, _) = update(s, Msg::Key(KeyPress::plain(KeyCode::Tab)));
    let s = type_text(s, "beta");
    let (s, _) = update(s, Msg::Key(KeyPress::ctrl(KeyCode::Char('s'))));
    match &s.confirm {
        Some(PendingMutation::AddListElement { end, .. }) => assert_eq!(*end, ListEnd::Head),
        other => panic!("expected a staged AddListElement, got {other:?}"),
    }
    assert_eq!(s.confirm.as_ref().unwrap().command_text(), "LPUSH k");
}

#[test]
fn enter_stages_add_list_element_exactly_like_ctrl_s() {
    let s = open_with_list(&["alpha"], 1);
    let (s, _) = update(s, Msg::Key(KeyPress::plain(KeyCode::Char('a'))));
    let s = type_text(s, "beta");
    let (s, cmds) = update(s, Msg::Key(KeyPress::plain(KeyCode::Enter)));
    assert!(cmds.is_empty(), "Enter only opens the confirm dialog");
    assert!(matches!(
        s.confirm,
        Some(PendingMutation::AddListElement { .. })
    ));
}

#[test]
fn ctrl_s_on_an_untouched_empty_buffer_still_stages_an_empty_element() {
    let s = open_with_list(&["alpha"], 1);
    let (s, _) = update(s, Msg::Key(KeyPress::plain(KeyCode::Char('a'))));
    let (s, _) = update(s, Msg::Key(KeyPress::ctrl(KeyCode::Char('s'))));
    match &s.confirm {
        Some(PendingMutation::AddListElement { value, .. }) => assert!(value.is_empty()),
        other => panic!("expected a staged AddListElement, got {other:?}"),
    }
}

#[test]
fn the_header_names_which_end_the_add_form_is_pointed_at() {
    let s = open_with_list(&["alpha"], 1);
    let (s, _) = update(s, Msg::Key(KeyPress::plain(KeyCode::Char('a'))));
    let currency = s.open.as_ref().unwrap().currency(true, 0);
    assert!(currency.contains("tail"), "{currency}");
    let (s, _) = update(s, Msg::Key(KeyPress::plain(KeyCode::Tab)));
    let currency = s.open.as_ref().unwrap().currency(true, 0);
    assert!(currency.contains("head"), "{currency}");
}

#[test]
fn ctrl_s_stages_set_list_element_with_the_expected_bytes_and_index() {
    let s = with_cursor(open_with_list(&["alpha", "beta"], 2), 1);
    let (s, _) = update(s, Msg::Key(KeyPress::plain(KeyCode::Char('e'))));
    let s = type_text(s, "!");
    let (s, cmds) = update(s, Msg::Key(KeyPress::ctrl(KeyCode::Char('s'))));
    assert!(cmds.is_empty());
    match &s.confirm {
        Some(PendingMutation::SetListElement {
            name,
            index,
            old,
            new,
            was_json,
        }) => {
            assert_eq!(name.as_bytes(), b"k");
            assert_eq!(*index, 1);
            assert_eq!(old, b"beta");
            assert_eq!(new, b"!beta");
            assert!(!was_json);
        }
        other => panic!("expected a staged SetListElement, got {other:?}"),
    }
    assert_eq!(s.confirm.as_ref().unwrap().command_text(), "LSET k 1");
    assert_eq!(
        s.confirm.as_ref().unwrap().guard_text().as_deref(),
        Some("only if that element is still there · index 1")
    );
    let (_, cmds) = update(s, Msg::Key(KeyPress::plain(KeyCode::Char('y'))));
    assert_eq!(
        cmds,
        vec![Command::Execute {
            mutation: Mutation::SetListElement {
                key: "k".into(),
                index: 1,
                expected: b"beta".to_vec(),
                value: b"!beta".to_vec(),
            },
            index: None,
        }]
    );
}

#[test]
fn a_json_element_edited_into_something_invalid_warns() {
    let s = with_cursor(open_with_list(&["{\"a\":1}"], 1), 0);
    let (s, _) = update(s, Msg::Key(KeyPress::plain(KeyCode::Char('e'))));
    assert!(s.open.as_ref().unwrap().editor().unwrap().was_json());
    let s = type_text(s, "x");
    let (s, cmds) = update(s, Msg::Key(KeyPress::ctrl(KeyCode::Char('s'))));
    assert!(cmds.is_empty());
    assert_eq!(s.confirm.as_ref().unwrap().json_warning(), Some(true));
}

#[test]
fn d_in_the_value_pane_stages_delete_list_element_and_marks_the_last_element() {
    let s = with_cursor(open_with_list(&["only"], 1), 0);
    let (s, cmds) = update(s, Msg::Key(KeyPress::plain(KeyCode::Char('d'))));
    assert!(cmds.is_empty());
    match &s.confirm {
        Some(PendingMutation::DeleteListElement {
            name,
            index,
            element,
            last_element,
        }) => {
            assert_eq!(name.as_bytes(), b"k");
            assert_eq!(*index, 0);
            assert_eq!(element, b"only");
            assert!(*last_element);
        }
        other => panic!("expected a staged DeleteListElement, got {other:?}"),
    }
    assert_eq!(s.confirm.as_ref().unwrap().command_text(), "LREM k 0");
}

#[test]
fn d_with_more_than_one_element_left_is_not_marked_as_the_last() {
    let s = with_cursor(open_with_list(&["x", "y"], 2), 0);
    let (s, _) = update(s, Msg::Key(KeyPress::plain(KeyCode::Char('d'))));
    match &s.confirm {
        Some(PendingMutation::DeleteListElement { last_element, .. }) => {
            assert!(!last_element);
        }
        other => panic!("expected a staged DeleteListElement, got {other:?}"),
    }
}

#[test]
fn d_removes_the_row_the_cursor_is_actually_on_not_the_first_match() {
    let s = with_cursor(open_with_list(&["x", "y", "x", "z"], 4), 2);
    let (s, _) = update(s, Msg::Key(KeyPress::plain(KeyCode::Char('d'))));
    match &s.confirm {
        Some(PendingMutation::DeleteListElement { index, element, .. }) => {
            assert_eq!(*index, 2);
            assert_eq!(element, b"x");
        }
        other => panic!("expected a staged DeleteListElement, got {other:?}"),
    }
}

#[test]
fn d_in_the_keys_pane_still_stages_delete_key_with_a_list_open() {
    let mut s = open_with_list(&["a"], 1);
    s.focus = Pane::Keys;
    let (s, _) = update(s, Msg::Key(KeyPress::plain(KeyCode::Char('d'))));
    assert!(matches!(s.confirm, Some(PendingMutation::DeleteKey { .. })));
}

#[test]
fn confirming_a_delete_list_element_issues_lrem() {
    let s = with_cursor(open_with_list(&["only"], 1), 0);
    let (s, _) = update(s, Msg::Key(KeyPress::plain(KeyCode::Char('d'))));
    let (_, cmds) = update(s, Msg::Key(KeyPress::plain(KeyCode::Char('y'))));
    assert_eq!(
        cmds,
        vec![Command::Execute {
            mutation: Mutation::DeleteListElement {
                key: "k".into(),
                index: 0,
                expected: b"only".to_vec(),
            },
            index: None,
        }]
    );
}

#[test]
fn a_long_lists_total_past_the_window_does_not_change_what_e_does_to_a_row_inside_it() {
    let items: Vec<String> = (0..500).map(|i| format!("item-{i}")).collect();
    let refs: Vec<&str> = items.iter().map(String::as_str).collect();
    let s = with_cursor(open_with_list(&refs, 12_000), 499);
    let (s, _) = update(s, Msg::Key(KeyPress::plain(KeyCode::Char('e'))));
    let editor = s.open.as_ref().unwrap().editor().unwrap();
    assert_eq!(editor.target(), &EditTarget::ListElement { index: 499 });
    assert_eq!(editor.text(), b"item-499");
}

#[test]
fn a_long_lists_total_past_the_window_does_not_change_what_d_does_to_a_row_inside_it() {
    let items: Vec<String> = (0..500).map(|i| format!("item-{i}")).collect();
    let refs: Vec<&str> = items.iter().map(String::as_str).collect();
    let s = with_cursor(open_with_list(&refs, 12_000), 250);
    let (s, _) = update(s, Msg::Key(KeyPress::plain(KeyCode::Char('d'))));
    match &s.confirm {
        Some(PendingMutation::DeleteListElement {
            index,
            element,
            last_element,
            ..
        }) => {
            assert_eq!(*index, 250);
            assert_eq!(element, b"item-250");
            assert!(
                !last_element,
                "12,000 items total — nowhere near the list's last element"
            );
        }
        other => panic!("expected a staged DeleteListElement, got {other:?}"),
    }
}

#[test]
fn read_only_refuses_all_three_list_mutations_at_confirm_not_at_the_keypress() {
    let mutations = [
        PendingMutation::SetListElement {
            name: b"k".to_vec().into(),
            index: 0,
            old: b"old".to_vec(),
            new: b"new".to_vec(),
            was_json: false,
        },
        PendingMutation::AddListElement {
            name: b"k".to_vec().into(),
            end: ListEnd::Tail,
            value: b"m".to_vec(),
        },
        PendingMutation::DeleteListElement {
            name: b"k".to_vec().into(),
            index: 0,
            element: b"m".to_vec(),
            last_element: false,
        },
    ];
    for mutation in mutations {
        let s = State {
            read_only: Some(ReadOnlyReason::User),
            confirm: Some(mutation.clone()),
            ..State::default()
        };
        let (s, cmds) = update(s, Msg::Key(KeyPress::plain(KeyCode::Char('y'))));
        assert!(s.confirm.is_none(), "{mutation:?}");
        assert!(
            matches!(cmds.as_slice(), [Command::Notify { text }] if text.contains("read-only")),
            "{mutation:?}"
        );
    }
}

#[test]
fn read_only_mode_does_not_refuse_e_on_a_list_only_at_y() {
    let s = State {
        read_only: Some(ReadOnlyReason::Environment),
        ..with_cursor(open_with_list(&["alpha"], 1), 0)
    };
    let (s, cmds) = update(s, Msg::Key(KeyPress::plain(KeyCode::Char('e'))));
    assert!(
        s.open.as_ref().unwrap().editor().is_some(),
        "opening is never refused"
    );
    assert!(cmds.is_empty());
    let s = type_text(s, "!");
    let (s, _) = update(s, Msg::Key(KeyPress::ctrl(KeyCode::Char('s'))));
    assert!(s.confirm.is_some(), "the preview is composed anyway");
    let (_, cmds) = update(s, Msg::Key(KeyPress::plain(KeyCode::Char('y'))));
    assert!(
        !cmds.iter().any(|c| matches!(
            c,
            Command::Execute {
                mutation: Mutation::SetListElement { .. },
                ..
            }
        )),
        "but nothing was actually sent to the server"
    );
}

#[test]
fn not_written_element_moved_names_lset_and_hands_the_buffer_back() {
    let s = with_cursor(open_with_list(&["alpha", "beta"], 2), 1);
    let (s, _) = update(s, Msg::Key(KeyPress::plain(KeyCode::Char('e'))));
    let s = type_text(s, "!");
    let (s, _) = update(s, Msg::Key(KeyPress::ctrl(KeyCode::Char('s'))));
    let (s, _) = update(s, Msg::Key(KeyPress::plain(KeyCode::Char('y'))));
    let (s, cmds) = update(
        s,
        Msg::MutationSettled {
            mutation: Mutation::SetListElement {
                key: "k".into(),
                index: 1,
                expected: b"beta".to_vec(),
                value: b"!beta".to_vec(),
            },
            index: None,
            result: Ok(MutationOutcome::NotWritten(NotWritten::ElementMoved)),
            at_ms: 5_000,
        },
    );
    assert!(matches!(cmds.as_slice(), [Command::ReadKey { .. }]));
    let (text, _) = s.error.as_ref().unwrap();
    assert!(text.contains("LSET k 1"), "{text}");
    assert!(
        text.contains("that element moved — the list changed underneath it, look again"),
        "{text}"
    );
    let open = s.open.as_ref().unwrap();
    assert!(
        open.is_editing(),
        "held — the buffer is open again"
    );
    assert_eq!(open.editor().unwrap().text(), b"!beta");
}

#[test]
fn not_written_key_gone_tombstones_and_hands_the_list_edit_back() {
    let s = with_cursor(open_with_list(&["alpha"], 1), 0);
    let (s, _) = update(s, Msg::Key(KeyPress::plain(KeyCode::Char('e'))));
    let s = type_text(s, "!");
    let (s, _) = update(s, Msg::Key(KeyPress::ctrl(KeyCode::Char('s'))));
    let (s, _) = update(s, Msg::Key(KeyPress::plain(KeyCode::Char('y'))));
    let (s, cmds) = update(
        s,
        Msg::MutationSettled {
            mutation: Mutation::SetListElement {
                key: "k".into(),
                index: 0,
                expected: b"alpha".to_vec(),
                value: b"!alpha".to_vec(),
            },
            index: None,
            result: Ok(MutationOutcome::NotWritten(NotWritten::KeyGone)),
            at_ms: 6_000,
        },
    );
    assert!(cmds.is_empty(), "never retried, never recreated");
    let open = s.open.as_ref().unwrap();
    assert_eq!(open.deleted_at_ms, Some(6_000));
    assert!(open.is_editing(), "the buffer is open again");
    assert_eq!(open.editor().unwrap().text(), b"!alpha");
}

#[test]
fn key_gone_under_a_staged_set_list_element_dialog_closes_and_hands_the_buffer_back() {
    let s = with_cursor(open_with_list(&["alpha"], 1), 0);
    let (s, _) = update(s, Msg::Key(KeyPress::plain(KeyCode::Char('e'))));
    let s = type_text(s, "!");
    let (s, _) = update(s, Msg::Key(KeyPress::ctrl(KeyCode::Char('s'))));
    assert!(s.confirm.is_some());
    let token = s.read_token;
    let (s, _) = update(
        s,
        Msg::ValueGone {
            token,
            index: None,
            name: "k".into(),
            at_ms: 7_000,
        },
    );
    assert!(
        s.confirm.is_none(),
        "the compiler-enforced `dialog_up` match in \
         `staged_edit_found_key_gone` must recognize SetListElement"
    );
    let open = s.open.as_ref().unwrap();
    assert_eq!(open.deleted_at_ms, Some(7_000));
    assert_eq!(open.editor().unwrap().text(), b"!alpha");
}

#[test]
fn key_gone_under_a_staged_add_list_element_dialog_closes_and_hands_the_buffer_back() {
    let s = open_with_list(&["alpha"], 1);
    let (s, _) = update(s, Msg::Key(KeyPress::plain(KeyCode::Char('a'))));
    let s = type_text(s, "beta");
    let (s, _) = update(s, Msg::Key(KeyPress::ctrl(KeyCode::Char('s'))));
    assert!(s.confirm.is_some());
    let token = s.read_token;
    let (s, _) = update(
        s,
        Msg::ValueGone {
            token,
            index: None,
            name: "k".into(),
            at_ms: 7_000,
        },
    );
    assert!(s.confirm.is_none());
    let open = s.open.as_ref().unwrap();
    assert_eq!(open.deleted_at_ms, Some(7_000));
    assert_eq!(open.editor().unwrap().text(), b"beta");
}

#[test]
fn key_gone_under_a_staged_delete_list_element_dialog_simply_closes() {
    let s = with_cursor(open_with_list(&["a"], 1), 0);
    let (s, _) = update(s, Msg::Key(KeyPress::plain(KeyCode::Char('d'))));
    assert!(s.confirm.is_some());
    let token = s.read_token;
    let (s, _) = update(
        s,
        Msg::ValueGone {
            token,
            index: None,
            name: "k".into(),
            at_ms: 7_000,
        },
    );
    assert!(s.confirm.is_none());
    assert!(s.notice.is_some());
    let open = s.open.as_ref().unwrap();
    assert_eq!(open.deleted_at_ms, Some(7_000));
    assert!(open.editor().is_none(), "delete never had a buffer");
}

#[test]
fn an_update_arriving_while_the_list_edit_is_open_is_held() {
    let s = with_cursor(open_with_list(&["alpha", "beta"], 2), 1);
    let (s, _) = update(s, Msg::Key(KeyPress::plain(KeyCode::Char('e'))));
    let s = type_text(s, "!");
    assert!(s.open.as_ref().unwrap().is_editing());
    let (s, _) = update(
        s,
        Msg::ValueLoaded {
            token: ReadToken::default(),
            index: Some(0),
            name: "k".into(),
            value: Value::List(IndexedValue {
                items: vec![b"alpha".to_vec(), b"changed-under-the-editor".to_vec()],
                total: 2,
            }),
            ttl_seconds: -1,
            size_bytes: 10,
            at_ms: 9_000,
        },
    );
    let open = s.open.as_ref().unwrap();
    assert!(open.pending.is_some(), "held, not applied");
    assert_eq!(
        open.editor().unwrap().text(),
        b"!beta",
        "the buffer is never touched"
    );
}

#[test]
fn an_update_arriving_while_the_list_add_form_is_open_is_held() {
    let s = open_with_list(&["alpha"], 1);
    let (s, _) = update(s, Msg::Key(KeyPress::plain(KeyCode::Char('a'))));
    let s = type_text(s, "beta");
    assert!(s.open.as_ref().unwrap().is_editing());
    let (s, _) = update(
        s,
        Msg::ValueLoaded {
            token: ReadToken::default(),
            index: Some(0),
            name: "k".into(),
            value: Value::List(IndexedValue {
                items: vec![b"alpha".to_vec(), b"changed-under-the-editor".to_vec()],
                total: 2,
            }),
            ttl_seconds: -1,
            size_bytes: 10,
            at_ms: 9_000,
        },
    );
    let open = s.open.as_ref().unwrap();
    assert!(open.pending.is_some(), "held, not applied");
    assert_eq!(
        open.editor().unwrap().text(),
        b"beta",
        "the buffer is never touched"
    );
}
