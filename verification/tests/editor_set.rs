use redis_pane_core::command::{Command, ReadToken};
use redis_pane_core::input::{KeyCode, KeyPress};
use redis_pane_core::layout::Pane;
use redis_pane_core::msg::Msg;
use redis_pane_core::mutation::{Mutation, MutationOutcome, NotWritten};
use redis_pane_core::state::editor::EditTarget;
use redis_pane_core::state::open::OpenKey;
use redis_pane_core::state::pending::PendingMutation;
use redis_pane_core::state::session::State;
use redis_pane_core::state::status::ReadOnlyReason;
use redis_pane_core::state::value::{MemberValue, Value};
use redis_pane_core::update::update;

fn open_with_set(members: &[&str], total: usize) -> State {
    let value = Value::PlainSet(MemberValue {
        members: members.iter().map(|m| m.as_bytes().to_vec()).collect(),
        total,
    });
    let mut state = State {
        cols: 130,
        rows: 40,
        focus: Pane::Value,
        open: Some(OpenKey::new(Some(0), "k".into(), value, -1, 10, 0)),
        ..State::default()
    };
    state.keys.push(b"k");
    state.rebuild_list();
    state
}

fn with_cursor(mut s: State, row: usize) -> State {
    let open = s.open.as_mut().unwrap();
    open.cursor_active = true;
    open.cursor = row;
    s
}

fn type_text(mut s: State, text: &str) -> State {
    for c in text.chars() {
        (s, _) = update(s, Msg::Key(KeyPress::plain(KeyCode::Char(c))));
    }
    s
}

#[test]
fn e_without_a_cursor_on_a_set_gives_the_pick_a_member_notice() {
    let s = open_with_set(&["alpha"], 1);
    let (s, cmds) = update(s, Msg::Key(KeyPress::plain(KeyCode::Char('e'))));
    assert!(!s.open.unwrap().is_editing());
    assert!(
        matches!(cmds.as_slice(), [Command::Notify { text }] if text == "Enter to pick a member"),
        "{cmds:?}"
    );
}

#[test]
fn e_on_a_set_row_refuses_with_d1s_notice_not_a_buffer() {
    let s = with_cursor(open_with_set(&["alpha"], 1), 0);
    let (s, cmds) = update(s, Msg::Key(KeyPress::plain(KeyCode::Char('e'))));
    let open = s.open.unwrap();
    assert!(!open.is_editing());
    assert!(open.editor().is_none());
    assert!(
        matches!(
            cmds.as_slice(),
            [Command::Notify { text }]
                if text == "a member can't be edited in place — remove it, then add the new one"
        ),
        "{cmds:?}"
    );
}

#[test]
fn e_on_a_binary_set_row_gives_d4s_notice_instead() {
    let value = Value::PlainSet(MemberValue {
        members: vec![vec![0xff, 0x80]],
        total: 1,
    });
    let mut s = State {
        cols: 130,
        rows: 40,
        focus: Pane::Value,
        open: Some(OpenKey::new(Some(0), "k".into(), value, -1, 10, 0)),
        ..State::default()
    };
    s.keys.push(b"k");
    s.rebuild_list();
    let s = with_cursor(s, 0);
    let (s, cmds) = update(s, Msg::Key(KeyPress::plain(KeyCode::Char('e'))));
    assert!(!s.open.unwrap().is_editing());
    assert!(
        matches!(cmds.as_slice(), [Command::Notify { text }] if text == "binary members aren't editable here yet"),
        "{cmds:?}"
    );
}

#[test]
fn e_in_the_keys_pane_with_a_set_open_gives_the_tab_notice() {
    let mut s = open_with_set(&["alpha"], 1);
    s.focus = Pane::Keys;
    let (_, cmds) = update(s, Msg::Key(KeyPress::plain(KeyCode::Char('e'))));
    assert!(
        matches!(cmds.as_slice(), [Command::Notify { text }] if text == "Tab to the value pane to edit")
    );
}

#[test]
fn a_in_the_keys_pane_with_a_set_open_gives_the_tab_notice() {
    let mut s = open_with_set(&["alpha"], 1);
    s.focus = Pane::Keys;
    let (s, cmds) = update(s, Msg::Key(KeyPress::plain(KeyCode::Char('a'))));
    assert!(s.open.as_ref().unwrap().editor().is_none());
    assert!(
        matches!(cmds.as_slice(), [Command::Notify { text }] if text == "Tab to the value pane to edit")
    );
}

#[test]
fn d_without_a_cursor_on_a_set_gives_the_pick_a_member_notice() {
    let s = open_with_set(&["alpha"], 1);
    let (s, cmds) = update(s, Msg::Key(KeyPress::plain(KeyCode::Char('d'))));
    assert!(s.confirm.is_none());
    assert!(
        matches!(cmds.as_slice(), [Command::Notify { text }] if text == "Enter to pick a member")
    );
}

#[test]
fn a_opens_a_single_part_buffer_with_no_cursor_needed() {
    let s = open_with_set(&["alpha"], 1);
    let (s, cmds) = update(s, Msg::Key(KeyPress::plain(KeyCode::Char('a'))));
    assert!(cmds.is_empty());
    let open = s.open.as_ref().unwrap();
    assert!(open.is_editing(), "the edit guard is up immediately");
    let editor = open.editor().unwrap();
    assert_eq!(editor.target(), &EditTarget::NewSetMember);
    assert_eq!(editor.active_part(), None, "no FIELD/VALUE split");
    assert_eq!(editor.field_name(), None);
    assert_eq!(editor.text(), b"");
}

#[test]
fn typing_and_ctrl_s_stage_add_set_member() {
    let s = open_with_set(&["alpha"], 1);
    let (s, _) = update(s, Msg::Key(KeyPress::plain(KeyCode::Char('a'))));
    let s = type_text(s, "beta");
    let (s, cmds) = update(s, Msg::Key(KeyPress::ctrl(KeyCode::Char('s'))));
    assert!(cmds.is_empty());
    match &s.confirm {
        Some(PendingMutation::AddSetMember { name, member }) => {
            assert_eq!(name.as_bytes(), b"k");
            assert_eq!(member, b"beta");
        }
        other => panic!("expected a staged AddSetMember, got {other:?}"),
    }
    assert_eq!(s.confirm.as_ref().unwrap().command_text(), "SADD k");
    assert_eq!(
        s.confirm.as_ref().unwrap().guard_text().as_deref(),
        Some("only if the key still exists · never duplicates a member")
    );
    let (_, cmds) = update(s, Msg::Key(KeyPress::plain(KeyCode::Char('y'))));
    assert_eq!(
        cmds,
        vec![Command::Execute {
            mutation: Mutation::AddSetMember {
                key: "k".into(),
                member: b"beta".to_vec(),
            },
            index: None,
        }]
    );
}

#[test]
fn enter_stages_add_set_member_exactly_like_ctrl_s() {
    let s = open_with_set(&["alpha"], 1);
    let (s, _) = update(s, Msg::Key(KeyPress::plain(KeyCode::Char('a'))));
    let s = type_text(s, "beta");
    let (s, cmds) = update(s, Msg::Key(KeyPress::plain(KeyCode::Enter)));
    assert!(cmds.is_empty(), "Enter only opens the confirm dialog");
    match &s.confirm {
        Some(PendingMutation::AddSetMember { name, member }) => {
            assert_eq!(name.as_bytes(), b"k");
            assert_eq!(member, b"beta");
        }
        other => panic!("expected a staged AddSetMember, got {other:?}"),
    }
    let (_, cmds) = update(s, Msg::Key(KeyPress::plain(KeyCode::Char('y'))));
    assert_eq!(
        cmds,
        vec![Command::Execute {
            mutation: Mutation::AddSetMember {
                key: "k".into(),
                member: b"beta".to_vec(),
            },
            index: None,
        }],
        "the write Enter staged is identical to the one Ctrl-S would have"
    );
}

#[test]
fn a_shown_duplicate_member_blocks_enter_exactly_as_it_blocks_ctrl_s() {
    let s = open_with_set(&["dup"], 1);
    let (s, _) = update(s, Msg::Key(KeyPress::plain(KeyCode::Char('a'))));
    let s = type_text(s, "dup");
    let (s, cmds) = update(s, Msg::Key(KeyPress::plain(KeyCode::Enter)));
    assert!(cmds.is_empty());
    assert!(s.confirm.is_none(), "Enter blocked");
    assert!(
        s.open.as_ref().unwrap().is_editing(),
        "the buffer stays open, not discarded"
    );
}

#[test]
fn ctrl_s_on_an_untouched_empty_buffer_still_stages_an_empty_member() {
    let s = open_with_set(&["alpha"], 1);
    let (s, _) = update(s, Msg::Key(KeyPress::plain(KeyCode::Char('a'))));
    let (s, _) = update(s, Msg::Key(KeyPress::ctrl(KeyCode::Char('s'))));
    match &s.confirm {
        Some(PendingMutation::AddSetMember { member, .. }) => assert!(member.is_empty()),
        other => panic!("expected a staged AddSetMember, got {other:?}"),
    }
}

#[test]
fn a_shown_duplicate_member_blocks_ctrl_s() {
    let s = open_with_set(&["dup"], 1);
    let (s, _) = update(s, Msg::Key(KeyPress::plain(KeyCode::Char('a'))));
    let s = type_text(s, "dup");
    let (s, cmds) = update(s, Msg::Key(KeyPress::ctrl(KeyCode::Char('s'))));
    assert!(cmds.is_empty());
    assert!(s.confirm.is_none(), "⌃S blocked");
    assert!(
        s.open.as_ref().unwrap().is_editing(),
        "the buffer stays open, not discarded"
    );
}

#[test]
fn removing_a_character_unblocks_a_duplicate_member() {
    let s = open_with_set(&["dup"], 1);
    let (s, _) = update(s, Msg::Key(KeyPress::plain(KeyCode::Char('a'))));
    let s = type_text(s, "dup");
    let (s, _) = update(s, Msg::Key(KeyPress::plain(KeyCode::Backspace)));
    let (s, cmds) = update(s, Msg::Key(KeyPress::ctrl(KeyCode::Char('s'))));
    assert!(cmds.is_empty());
    assert!(s.confirm.is_some(), "no longer blocked");
}

#[test]
fn a_non_duplicate_member_stages_fine() {
    let s = open_with_set(&["alpha", "beta"], 2);
    let (s, _) = update(s, Msg::Key(KeyPress::plain(KeyCode::Char('a'))));
    let s = type_text(s, "gamma");
    let (s, cmds) = update(s, Msg::Key(KeyPress::ctrl(KeyCode::Char('s'))));
    assert!(cmds.is_empty());
    assert!(matches!(
        s.confirm,
        Some(PendingMutation::AddSetMember { .. })
    ));
}

#[test]
fn d_in_the_value_pane_stages_delete_set_member_and_marks_the_last_member() {
    let s = with_cursor(open_with_set(&["only"], 1), 0);
    let (s, cmds) = update(s, Msg::Key(KeyPress::plain(KeyCode::Char('d'))));
    assert!(cmds.is_empty());
    match &s.confirm {
        Some(PendingMutation::DeleteSetMember {
            name,
            member,
            last_member,
        }) => {
            assert_eq!(name.as_bytes(), b"k");
            assert_eq!(member, b"only");
            assert!(*last_member);
        }
        other => panic!("expected a staged DeleteSetMember, got {other:?}"),
    }
    assert_eq!(s.confirm.as_ref().unwrap().command_text(), "SREM k");
}

#[test]
fn d_with_more_than_one_member_left_is_not_marked_as_the_last() {
    let s = with_cursor(open_with_set(&["a", "b"], 2), 0);
    let (s, _) = update(s, Msg::Key(KeyPress::plain(KeyCode::Char('d'))));
    match &s.confirm {
        Some(PendingMutation::DeleteSetMember { last_member, .. }) => assert!(!last_member),
        other => panic!("expected a staged DeleteSetMember, got {other:?}"),
    }
}

#[test]
fn d_in_the_keys_pane_still_stages_delete_key_with_a_set_open() {
    let mut s = open_with_set(&["a"], 1);
    s.focus = Pane::Keys;
    let (s, _) = update(s, Msg::Key(KeyPress::plain(KeyCode::Char('d'))));
    assert!(matches!(s.confirm, Some(PendingMutation::DeleteKey { .. })));
}

#[test]
fn confirming_a_delete_set_member_issues_srem() {
    let s = with_cursor(open_with_set(&["only"], 1), 0);
    let (s, _) = update(s, Msg::Key(KeyPress::plain(KeyCode::Char('d'))));
    let (_, cmds) = update(s, Msg::Key(KeyPress::plain(KeyCode::Char('y'))));
    assert_eq!(
        cmds,
        vec![Command::Execute {
            mutation: Mutation::DeleteSetMember {
                key: "k".into(),
                member: b"only".to_vec(),
            },
            index: None,
        }]
    );
}

#[test]
fn read_only_refuses_both_set_mutations_at_confirm_not_at_the_keypress() {
    let mutations = [
        PendingMutation::AddSetMember {
            name: b"k".to_vec().into(),
            member: b"m".to_vec(),
        },
        PendingMutation::DeleteSetMember {
            name: b"k".to_vec().into(),
            member: b"m".to_vec(),
            last_member: false,
        },
    ];
    for mutation in mutations {
        let s = State {
            read_only: Some(ReadOnlyReason::User),
            confirm: Some(mutation.clone()),
            ..State::default()
        };
        let (s, cmds) = update(s, Msg::Key(KeyPress::plain(KeyCode::Char('y'))));
        assert!(s.confirm.is_none(), "{mutation:?}");
        assert!(
            matches!(cmds.as_slice(), [Command::Notify { text }] if text.contains("read-only")),
            "{mutation:?}"
        );
    }
}

#[test]
fn read_only_mode_does_not_refuse_a_on_a_set_only_at_y() {
    let s = State {
        read_only: Some(ReadOnlyReason::Environment),
        ..open_with_set(&["alpha"], 1)
    };
    let (s, cmds) = update(s, Msg::Key(KeyPress::plain(KeyCode::Char('a'))));
    assert!(
        s.open.as_ref().unwrap().editor().is_some(),
        "opening the add form is never refused"
    );
    assert!(cmds.is_empty());
    let s = type_text(s, "beta");
    let (s, _) = update(s, Msg::Key(KeyPress::ctrl(KeyCode::Char('s'))));
    assert!(s.confirm.is_some(), "the preview is composed anyway");
    let (_, cmds) = update(s, Msg::Key(KeyPress::plain(KeyCode::Char('y'))));
    assert!(
        !cmds.iter().any(|c| matches!(
            c,
            Command::Execute {
                mutation: Mutation::AddSetMember { .. },
                ..
            }
        )),
        "but nothing was actually sent to the server"
    );
}

#[test]
fn not_written_member_exists_names_sadd_and_hands_the_buffer_back() {
    let s = open_with_set(&["alpha"], 1);
    let (s, _) = update(s, Msg::Key(KeyPress::plain(KeyCode::Char('a'))));
    let s = type_text(s, "beta");
    let (s, _) = update(s, Msg::Key(KeyPress::ctrl(KeyCode::Char('s'))));
    let (s, _) = update(s, Msg::Key(KeyPress::plain(KeyCode::Char('y'))));
    let (s, cmds) = update(
        s,
        Msg::MutationSettled {
            mutation: Mutation::AddSetMember {
                key: "k".into(),
                member: b"beta".to_vec(),
            },
            index: None,
            result: Ok(MutationOutcome::NotWritten(NotWritten::MemberExists)),
            at_ms: 5_000,
        },
    );
    assert!(matches!(cmds.as_slice(), [Command::ReadKey { .. }]));
    let (text, _) = s.error.as_ref().unwrap();
    assert!(text.contains("SADD k"), "{text}");
    assert!(text.contains("member already exists"), "{text}");
    let open = s.open.as_ref().unwrap();
    assert!(
        open.is_editing(),
        "held — the buffer is open again"
    );
    assert_eq!(open.editor().unwrap().text(), b"beta");
}

#[test]
fn not_written_key_gone_tombstones_and_hands_the_set_add_back() {
    let s = open_with_set(&["alpha"], 1);
    let (s, _) = update(s, Msg::Key(KeyPress::plain(KeyCode::Char('a'))));
    let s = type_text(s, "beta");
    let (s, _) = update(s, Msg::Key(KeyPress::ctrl(KeyCode::Char('s'))));
    let (s, _) = update(s, Msg::Key(KeyPress::plain(KeyCode::Char('y'))));
    let (s, cmds) = update(
        s,
        Msg::MutationSettled {
            mutation: Mutation::AddSetMember {
                key: "k".into(),
                member: b"beta".to_vec(),
            },
            index: None,
            result: Ok(MutationOutcome::NotWritten(NotWritten::KeyGone)),
            at_ms: 6_000,
        },
    );
    assert!(cmds.is_empty(), "never retried, never recreated");
    let open = s.open.as_ref().unwrap();
    assert_eq!(open.deleted_at_ms, Some(6_000));
    assert!(open.is_editing(), "the buffer is open again");
    assert_eq!(open.editor().unwrap().text(), b"beta");
}

#[test]
fn key_gone_under_a_staged_add_set_member_dialog_closes_and_hands_the_buffer_back() {
    let s = open_with_set(&["alpha"], 1);
    let (s, _) = update(s, Msg::Key(KeyPress::plain(KeyCode::Char('a'))));
    let s = type_text(s, "beta");
    let (s, _) = update(s, Msg::Key(KeyPress::ctrl(KeyCode::Char('s'))));
    assert!(s.confirm.is_some());
    let token = s.read_token;
    let (s, _) = update(
        s,
        Msg::ValueGone {
            token,
            index: None,
            name: "k".into(),
            at_ms: 7_000,
        },
    );
    assert!(s.confirm.is_none());
    let open = s.open.as_ref().unwrap();
    assert_eq!(open.deleted_at_ms, Some(7_000));
    assert_eq!(open.editor().unwrap().text(), b"beta");
}

#[test]
fn key_gone_under_a_staged_delete_set_member_dialog_simply_closes() {
    let s = with_cursor(open_with_set(&["a"], 1), 0);
    let (s, _) = update(s, Msg::Key(KeyPress::plain(KeyCode::Char('d'))));
    assert!(s.confirm.is_some());
    let token = s.read_token;
    let (s, _) = update(
        s,
        Msg::ValueGone {
            token,
            index: None,
            name: "k".into(),
            at_ms: 7_000,
        },
    );
    assert!(s.confirm.is_none());
    assert!(s.notice.is_some());
    let open = s.open.as_ref().unwrap();
    assert_eq!(open.deleted_at_ms, Some(7_000));
    assert!(open.editor().is_none(), "delete never had a buffer");
}

#[test]
fn a_delete_set_member_srem_returning_zero_says_member_not_field() {
    let s = open_with_set(&["a"], 1);
    let (s, cmds) = update(
        s,
        Msg::MutationSettled {
            mutation: Mutation::DeleteSetMember {
                key: "k".into(),
                member: b"a".to_vec(),
            },
            index: None,
            result: Ok(MutationOutcome::NothingToRemove),
            at_ms: 5_000,
        },
    );
    assert!(matches!(cmds.as_slice(), [Command::ReadKey { .. }]));
    assert!(s.error.is_none(), "not an error");
    let (text, _) = s.notice.as_ref().unwrap();
    assert!(text.contains("SREM k"), "{text}");
    assert!(text.contains("member already gone"), "{text}");
    assert!(!text.contains("field"), "{text}");
}

#[test]
fn an_update_arriving_while_the_set_add_form_is_open_is_held() {
    let s = open_with_set(&["alpha"], 1);
    let (s, _) = update(s, Msg::Key(KeyPress::plain(KeyCode::Char('a'))));
    let s = type_text(s, "beta");
    assert!(s.open.as_ref().unwrap().is_editing());
    let (s, _) = update(
        s,
        Msg::ValueLoaded {
            token: ReadToken::default(),
            index: Some(0),
            name: "k".into(),
            value: Value::PlainSet(MemberValue {
                members: vec![b"alpha".to_vec(), b"changed-under-the-editor".to_vec()],
                total: 2,
            }),
            ttl_seconds: -1,
            size_bytes: 10,
            at_ms: 9_000,
        },
    );
    let open = s.open.as_ref().unwrap();
    assert!(open.pending.is_some(), "held, not applied");
    assert_eq!(
        open.editor().unwrap().text(),
        b"beta",
        "the buffer is never touched"
    );
}
