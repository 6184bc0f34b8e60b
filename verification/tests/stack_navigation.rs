use redis_pane_core::command::Command;
use redis_pane_core::input::{KeyCode, KeyPress};
use redis_pane_core::layout::Pane;
use redis_pane_core::msg::Msg;
use redis_pane_core::state::loaded::LoadedSet;
use redis_pane_core::state::session::State;
use redis_pane_core::update::update;

fn browsing() -> State {
    let mut keys = LoadedSet::default();
    keys.push(b"k1");
    keys.push(b"k2");
    let mut state = State {
        keys,
        rows: 30,
        ..State::default()
    };
    state.rebuild_list();
    state
}

#[test]
fn opening_a_key_pushes_into_value_view() {
    let state = browsing();
    assert_eq!(state.focus, Pane::Keys);
    let (state, cmds) = update(state, Msg::Key(KeyPress::plain(KeyCode::Char('l'))));
    assert_eq!(state.focus, Pane::Value);
    assert!(matches!(cmds.first(), Some(Command::ReadKey { .. })));
}

#[test]
fn esc_pops_back_to_keys_from_value_view() {
    let state = browsing();
    let (state, _) = update(state, Msg::Key(KeyPress::plain(KeyCode::Char('l'))));
    assert_eq!(state.focus, Pane::Value);

    let (state, cmds) = update(state, Msg::Key(KeyPress::plain(KeyCode::Esc)));
    assert_eq!(state.focus, Pane::Keys);
    assert!(
        cmds.is_empty(),
        "popping the stack is not itself a scan cancellation"
    );
}

#[test]
fn esc_closes_help_before_popping_the_value_view() {
    let mut state = browsing();
    (state, _) = update(state, Msg::Key(KeyPress::plain(KeyCode::Char('l'))));
    state.help_open = true;

    let (state, _) = update(state, Msg::Key(KeyPress::plain(KeyCode::Esc)));
    assert!(!state.help_open);
    assert_eq!(
        state.focus,
        Pane::Value,
        "one Esc closes one thing, not two"
    );
}

#[test]
fn esc_pops_the_value_view_before_cancelling_an_unrelated_scan() {
    let mut state = browsing();
    (state, _) = update(state, Msg::Key(KeyPress::plain(KeyCode::Char('l'))));
    (state, _) = update(
        state,
        Msg::ScanStarted {
            estimated_total: 10,
        },
    );
    assert!(state.scan.is_running());

    let (state, cmds) = update(state, Msg::Key(KeyPress::plain(KeyCode::Esc)));
    assert_eq!(state.focus, Pane::Keys);
    assert!(
        cmds.is_empty(),
        "the scan must still be running, not cancelled by this Esc"
    );
    assert!(state.scan.is_running());
}

#[test]
fn opening_a_key_at_a_wide_terminal_is_harmless() {
    let state = browsing();
    let (state, _) = update(state, Msg::Key(KeyPress::plain(KeyCode::Char('l'))));
    assert_eq!(state.focus, Pane::Value);
}
