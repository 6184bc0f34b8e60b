use redis_pane_core::command::Command;
use redis_pane_core::input::{KeyCode, KeyPress};
use redis_pane_core::msg::Msg;
use redis_pane_core::state::open::OpenKey;
use redis_pane_core::state::session::State;
use redis_pane_core::state::value::{MemberValue, Value};
use redis_pane_core::update::update;

fn open_with(n: usize) -> State {
    let value = Value::PlainSet(MemberValue {
        members: (0..n).map(|i| format!("m{i}").into_bytes()).collect(),
        total: n,
    });
    let mut state = State {
        cols: 130,
        rows: 40,
        open: Some(OpenKey::new(Some(0), "k".into(), value, -1, 10, 0)),
        ..State::default()
    };
    state.open.as_mut().unwrap().cursor_active = true;
    state
}

fn press(state: State, code: KeyCode) -> (State, Vec<Command>) {
    update(state, Msg::Key(KeyPress::plain(code)))
}

#[test]
fn page_down_moves_by_twenty_rows_and_clamps_at_the_end() {
    let (state, _) = press(open_with(100), KeyCode::PageDown);
    assert_eq!(state.open.unwrap().cursor, 20);
}

#[test]
fn page_down_past_the_end_clamps_rather_than_overshooting() {
    let (state, _) = press(open_with(10), KeyCode::PageDown);
    assert_eq!(state.open.unwrap().cursor, 9, "clamped to the last row");
}

#[test]
fn page_up_moves_back_and_clamps_at_zero() {
    let mut state = open_with(100);
    state.open.as_mut().unwrap().cursor = 25;
    let (state, _) = press(state, KeyCode::PageUp);
    assert_eq!(state.open.as_ref().unwrap().cursor, 5);

    let (state, _) = press(state, KeyCode::PageUp);
    assert_eq!(state.open.unwrap().cursor, 0, "clamped, not negative");
}

#[test]
fn home_jumps_to_the_top_in_one_keystroke() {
    let mut state = open_with(500);
    state.open.as_mut().unwrap().cursor = 300;
    let (state, _) = press(state, KeyCode::Home);
    assert_eq!(state.open.unwrap().cursor, 0);
}

#[test]
fn end_jumps_to_the_last_row_in_one_keystroke() {
    let (state, _) = press(open_with(500), KeyCode::End);
    assert_eq!(state.open.unwrap().cursor, 499);
}

#[test]
fn jumping_away_from_the_top_means_updates_are_announced_not_applied() {
    let (state, _) = press(open_with(500), KeyCode::End);
    assert!(!state.open.unwrap().may_apply());
}

#[test]
fn jumping_back_to_the_top_does_not_by_itself_restore_at_rest() {
    let mut state = open_with(500);
    state.open.as_mut().unwrap().cursor = 300;
    state.open.as_mut().unwrap().at_rest = false;
    let (state, _) = press(state, KeyCode::Home);
    let open = state.open.unwrap();
    assert_eq!(open.cursor, 0);
    assert!(!open.at_rest);
}

#[test]
fn movement_with_nothing_open_does_nothing() {
    let (state, cmds) = press(State::default(), KeyCode::PageDown);
    assert!(state.open.is_none());
    assert!(cmds.is_empty());
}
