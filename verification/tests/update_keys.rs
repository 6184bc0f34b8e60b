use redis_pane_core::command::Command;
use redis_pane_core::input::{KeyCode, KeyPress};
use redis_pane_core::keymap::{Action, Keymap};
use redis_pane_core::layout::{Pane, SPLIT_STEP};
use redis_pane_core::msg::Msg;
use redis_pane_core::state::editor::{EditBuffer, EditTarget};
use redis_pane_core::state::open::{EditPhase, OpenKey};
use redis_pane_core::state::pending::PendingMutation;
use redis_pane_core::state::session::State;
use redis_pane_core::state::status::{Environment, Link, ReadOnlyReason, Source};
use redis_pane_core::state::value::{PairValue, StringValue, Value};
use redis_pane_core::update::{Mode, mode, update};

#[test]
fn resize_updates_dimensions_and_emits_nothing() {
    let (s, cmds) = update(
        State::default(),
        Msg::Resized {
            cols: 118,
            rows: 29,
        },
    );
    assert_eq!((s.cols, s.rows), (118, 29));
    assert!(cmds.is_empty());
}

#[test]
fn quit_sets_the_flag_and_asks_the_shell_to_exit() {
    let (s, cmds) = update(State::default(), Msg::Quit);
    assert!(s.quitting);
    assert_eq!(cmds, vec![Command::Quit]);
}

#[test]
fn read_completion_records_the_clock_reading_it_was_given() {
    let (s, _) = update(State::default(), Msg::ReadCompleted { at_ms: 9_000 });
    assert_eq!(s.last_read_ms, Some(9_000));
}

#[test]
fn update_is_pure_same_input_same_output() {
    let a = update(State::default(), Msg::Resized { cols: 80, rows: 24 });
    let b = update(State::default(), Msg::Resized { cols: 80, rows: 24 });
    assert_eq!(a, b);
}

#[test]
fn q_quits() {
    let (s, cmds) = update(
        State::default(),
        Msg::Key(KeyPress::plain(KeyCode::Char('q'))),
    );
    assert!(s.quitting);
    assert_eq!(cmds, vec![Command::Quit]);
}

#[test]
fn ctrl_c_quits() {
    let (s, cmds) = update(
        State::default(),
        Msg::Key(KeyPress::ctrl(KeyCode::Char('c'))),
    );
    assert!(s.quitting);
    assert_eq!(cmds, vec![Command::Quit]);
}

#[test]
fn ctrl_q_is_not_q() {
    let (s, cmds) = update(
        State::default(),
        Msg::Key(KeyPress::ctrl(KeyCode::Char('q'))),
    );
    assert!(!s.quitting);
    assert!(cmds.is_empty());
}

#[test]
fn an_unbound_key_changes_nothing() {
    let before = State::default();
    let (after, cmds) = update(
        before.clone(),
        Msg::Key(KeyPress::plain(KeyCode::Char('z'))),
    );
    assert_eq!(before, after);
    assert!(cmds.is_empty());
}

#[test]
fn question_mark_toggles_the_help_overlay_and_esc_closes_it() {
    let (s, _) = update(
        State::default(),
        Msg::Key(KeyPress::plain(KeyCode::Char('?'))),
    );
    assert!(s.help_open);
    let (s, _) = update(s, Msg::Key(KeyPress::plain(KeyCode::Esc)));
    assert!(!s.help_open);
}

fn viewing() -> State {
    State {
        cols: 130,
        rows: 40,
        focus: Pane::Value,
        open: Some(OpenKey::new(
            Some(0),
            "k".into(),
            Value::Str(StringValue::new("v", 40)),
            -1,
            10,
            0,
        )),
        ..State::default()
    }
}

fn press_r(state: State) -> Vec<Command> {
    update(state, Msg::Key(KeyPress::plain(KeyCode::Char('r')))).1
}

#[test]
fn r_in_the_viewer_asks_for_a_refetch_which_is_the_only_read_path() {
    assert!(matches!(
        press_r(viewing()).as_slice(),
        [Command::ReadKey { .. }]
    ));
}

#[test]
fn r_in_the_keys_pane_rescans_the_keyspace() {
    let state = State {
        cols: 130,
        rows: 40,
        ..State::default()
    };
    assert_eq!(
        press_r(state),
        vec![Command::StartScan { pattern: None }],
        "with no key open, the keys pane is what `r` acts on"
    );
}

fn dropped_link() -> Link {
    Link::Reconnecting {
        attempt: 1,
        retry_in_ms: Some(4_000),
    }
}

#[test]
fn r_reconnects_immediately_while_disconnected_regardless_of_pane() {
    let keys_pane = State {
        cols: 130,
        rows: 40,
        link: dropped_link(),
        ..State::default()
    };
    assert_eq!(
        press_r(keys_pane),
        vec![Command::Reconnect { after_ms: 0 }],
        "keys pane focused, but there is nothing to rescan without a link"
    );

    let viewer = State {
        link: dropped_link(),
        ..viewing()
    };
    assert_eq!(
        press_r(viewer),
        vec![Command::Reconnect { after_ms: 0 }],
        "Viewer focused, but there is nothing to refetch without a link"
    );
}

#[test]
fn r_follows_focus_at_every_width_not_merely_whether_a_key_is_open() {
    for cols in [60u16, 130] {
        let focused_value = State { cols, ..viewing() };
        assert!(
            matches!(
                press_r(focused_value.clone()).as_slice(),
                [Command::ReadKey { .. }]
            ),
            "at {cols} columns, a focused Viewer owns `r`"
        );

        let focused_keys = State {
            focus: Pane::Keys,
            ..focused_value
        };
        assert_eq!(
            press_r(focused_keys),
            vec![Command::StartScan { pattern: None }],
            "at {cols} columns, an open-but-unfocused key must not own `r`"
        );
    }
}

#[test]
fn t_follows_focus_tree_in_the_keys_pane_ttl_in_the_viewer() {
    let mut before_tree = State {
        focus: Pane::Keys,
        ..viewing()
    };
    assert!(!before_tree.tree_mode);
    let (after_tree, cmds) = update(
        before_tree.clone(),
        Msg::Key(KeyPress::plain(KeyCode::Char('t'))),
    );
    assert!(
        after_tree.tree_mode,
        "t in the keys pane still toggles the tree with a key open"
    );
    assert!(cmds.is_empty());
    assert!(
        after_tree.open.as_ref().unwrap().editor().is_none(),
        "no TTL buffer was opened"
    );
    before_tree.tree_mode = true;

    let (after_ttl, cmds) = update(viewing(), Msg::Key(KeyPress::plain(KeyCode::Char('t'))));
    assert!(
        !after_ttl.tree_mode,
        "t in the value pane must not touch tree mode"
    );
    assert!(cmds.is_empty(), "opening the TTL editor emits no command");
    assert!(
        after_ttl.open.as_ref().unwrap().is_editing(),
        "t in the value pane opens the TTL editor"
    );
    assert!(matches!(
        after_ttl.open.as_ref().unwrap().editor().unwrap().target(),
        EditTarget::Ttl { .. }
    ));
}

#[test]
fn tab_moves_focus_between_the_panes_and_r_follows_it() {
    let tab = |s: State| update(s, Msg::Key(KeyPress::plain(KeyCode::Tab))).0;

    let s = viewing();
    assert_eq!(s.focus, Pane::Value, "opening a key focuses it");

    let s = tab(s);
    assert_eq!(s.focus, Pane::Keys);
    assert_eq!(
        press_r(s.clone()),
        vec![Command::StartScan { pattern: None }],
        "Tab back to the list must make `r` rescan, without closing the key"
    );
    assert!(s.open.is_some(), "and without closing the key");

    let s = tab(s);
    assert_eq!(s.focus, Pane::Value, "Tab cycles back");
}

#[test]
fn tab_does_not_focus_a_viewer_with_nothing_in_it() {
    let s = State {
        cols: 60,
        rows: 40,
        ..State::default()
    };
    let (s, _) = update(s, Msg::Key(KeyPress::plain(KeyCode::Tab)));
    assert_eq!(s.focus, Pane::Keys);
    assert_eq!(press_r(s), vec![Command::StartScan { pattern: None }]);
}

#[test]
fn widen_and_narrow_move_the_split_by_one_step() {
    let state = viewing();
    let (state, cmds) = update(state, Msg::Key(KeyPress::ctrl(KeyCode::Right)));
    assert!(cmds.is_empty(), "a plain state mutation, no command needed");
    assert_eq!(state.split_adjust, SPLIT_STEP as i16);

    let (state, _) = update(state, Msg::Key(KeyPress::ctrl(KeyCode::Left)));
    assert_eq!(state.split_adjust, 0, "back where it started");

    let (state, _) = update(state, Msg::Key(KeyPress::ctrl(KeyCode::Left)));
    assert_eq!(
        state.split_adjust,
        -(SPLIT_STEP as i16)
    );
}

#[test]
fn resizing_below_seventy_columns_does_nothing() {
    let state = State {
        cols: 60,
        rows: 40,
        ..State::default()
    };
    let (state, _) = update(state, Msg::Key(KeyPress::ctrl(KeyCode::Right)));
    assert_eq!(state.split_adjust, 0);
}

#[test]
fn the_adjustment_survives_moving_around_the_app() {
    let mut state = viewing();
    (state, _) = update(state, Msg::Key(KeyPress::ctrl(KeyCode::Right)));
    let widened = state.split_adjust;
    assert_ne!(widened, 0);

    (state, _) = update(state, Msg::Key(KeyPress::plain(KeyCode::Tab)));
    (state, _) = update(state, Msg::Key(KeyPress::plain(KeyCode::Down)));
    assert_eq!(state.split_adjust, widened, "untouched by ordinary use");
}

#[test]
fn ctrl_r_toggles_read_only_but_a_replica_cannot_be_lifted() {
    let (s, _) = update(
        State::default(),
        Msg::Key(KeyPress::ctrl(KeyCode::Char('r'))),
    );
    assert_eq!(s.read_only, Some(ReadOnlyReason::User));
    let (s, _) = update(s, Msg::Key(KeyPress::ctrl(KeyCode::Char('r'))));
    assert_eq!(s.read_only, None);
    let replica = State {
        read_only: Some(ReadOnlyReason::Replica),
        ..State::default()
    };
    let (s, _) = update(replica, Msg::Key(KeyPress::ctrl(KeyCode::Char('r'))));
    assert_eq!(s.read_only, Some(ReadOnlyReason::Replica));
}

#[test]
fn a_rebound_key_takes_effect_in_update_not_just_in_the_hint() {
    let mut keymap = Keymap::default();
    keymap.bind(Action::Quit, KeyPress::ctrl(KeyCode::Char('x')));
    let state = State {
        keymap,
        ..State::default()
    };
    let (s, cmds) = update(state, Msg::Key(KeyPress::ctrl(KeyCode::Char('x'))));
    assert!(s.quitting);
    assert_eq!(cmds, vec![Command::Quit]);
}

#[test]
fn prod_and_unknown_are_read_only_by_default_local_and_staging_are_not() {
    assert!(Environment::Prod.read_only_by_default());
    assert!(Environment::Unknown.read_only_by_default());
    assert!(!Environment::Local.read_only_by_default());
    assert!(!Environment::Staging.read_only_by_default());
}

#[test]
fn source_labels_name_where_the_target_came_from() {
    assert_eq!(Source::Default.label(), "from default");
    assert_eq!(
        Source::Profile("staging".into()).label(),
        "from profile staging"
    );
}

fn open_with_live_editor() -> State {
    let value = Value::Hash(PairValue {
        pairs: vec![("f".into(), "v".into())],
        total: 1,
    });
    let mut open = OpenKey::new(Some(0), "k".into(), value, -1, 0, 0);
    open.edit = EditPhase::Typing(EditBuffer::new_hash_field());
    State {
        open: Some(open),
        ..State::default()
    }
}

#[test]
fn confirm_outranks_a_live_editor() {
    let mut s = open_with_live_editor();
    s.confirm = Some(PendingMutation::DeleteKey {
        index: 0,
        name: "k".into(),
    });
    assert_eq!(mode(&s), Mode::Confirm);
}

#[test]
fn editor_outranks_the_filter() {
    let mut s = open_with_live_editor();
    s.filtering = true;
    assert_eq!(mode(&s), Mode::Editing);
}

#[test]
fn filter_alone_is_filtering() {
    let s = State {
        filtering: true,
        ..State::default()
    };
    assert_eq!(mode(&s), Mode::Filtering);
}

#[test]
fn bare_state_is_normal() {
    assert_eq!(mode(&State::default()), Mode::Normal);
}
