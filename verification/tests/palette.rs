use redis_pane_core::command::Command;
use redis_pane_core::input::{KeyCode, KeyPress};
use redis_pane_core::keymap::{Action, all_actions};
use redis_pane_core::msg::Msg;
use redis_pane_core::state::session::State;
use redis_pane_core::update::update;

fn press(state: State, code: KeyCode) -> (State, Vec<Command>) {
    update(state, Msg::Key(KeyPress::plain(code)))
}

#[test]
fn ctrl_k_opens_the_palette_with_every_action_listed() {
    let (state, cmds) = update(
        State::default(),
        Msg::Key(KeyPress::ctrl(KeyCode::Char('k'))),
    );
    let palette = state.palette.expect("Ctrl-K opens the Palette");
    assert_eq!(palette.matches, all_actions());
    assert_eq!(palette.query, "");
    assert!(cmds.is_empty(), "opening is a plain state change, no I/O");
}

#[test]
fn esc_closes_the_palette_without_dispatching_anything() {
    let (state, _) = update(
        State::default(),
        Msg::Key(KeyPress::ctrl(KeyCode::Char('k'))),
    );
    let (state, cmds) = press(state, KeyCode::Esc);
    assert!(state.palette.is_none());
    assert!(cmds.is_empty());
    assert!(!state.quitting);
}

#[test]
fn typing_narrows_the_match_list() {
    let (state, _) = update(
        State::default(),
        Msg::Key(KeyPress::ctrl(KeyCode::Char('k'))),
    );
    let (state, _) = press(state, KeyCode::Char('q'));
    let (state, _) = press(state, KeyCode::Char('u'));
    let (state, _) = press(state, KeyCode::Char('i'));
    let (state, _) = press(state, KeyCode::Char('t'));
    let palette = state.palette.unwrap();
    assert_eq!(palette.query, "quit");
    assert_eq!(palette.matches, vec![Action::Quit]);
}

#[test]
fn backspace_widens_the_match_list_back_out() {
    let (state, _) = update(
        State::default(),
        Msg::Key(KeyPress::ctrl(KeyCode::Char('k'))),
    );
    let (state, _) = press(state, KeyCode::Char('q'));
    let (state, _) = press(state, KeyCode::Backspace);
    let palette = state.palette.unwrap();
    assert_eq!(palette.query, "");
    assert_eq!(palette.matches, all_actions());
}

#[test]
fn up_and_down_move_the_selection() {
    let (state, _) = update(
        State::default(),
        Msg::Key(KeyPress::ctrl(KeyCode::Char('k'))),
    );
    let (state, _) = press(state, KeyCode::Down);
    assert_eq!(state.palette.as_ref().unwrap().selected, 1);
    let (state, _) = press(state, KeyCode::Up);
    assert_eq!(state.palette.as_ref().unwrap().selected, 0);
}

#[test]
fn palette_enter_matches_the_direct_keypress_exactly() {
    let start = State::default();

    let direct = update(start.clone(), Msg::Key(KeyPress::ctrl(KeyCode::Char('r'))));

    let (opened, _) = update(start, Msg::Key(KeyPress::ctrl(KeyCode::Char('k'))));
    let (typed, _) = press(opened, KeyCode::Char('r'));
    let (typed, _) = press(typed, KeyCode::Char('e'));
    let (typed, _) = press(typed, KeyCode::Char('a'));
    let (typed, _) = press(typed, KeyCode::Char('d'));
    let (typed, _) = press(typed, KeyCode::Char('o'));
    let (typed, _) = press(typed, KeyCode::Char('n'));
    let (typed, _) = press(typed, KeyCode::Char('l'));
    let (typed, _) = press(typed, KeyCode::Char('y'));
    assert_eq!(
        typed.palette.as_ref().unwrap().highlighted(),
        Some(Action::ToggleReadOnly),
        "\"readonly\" must fuzzy-match down to ToggleReadOnly"
    );
    let via_palette = press(typed, KeyCode::Enter);

    assert_eq!(
        via_palette, direct,
        "the Palette's Enter must produce exactly what Ctrl-R produces"
    );
}

#[test]
fn enter_on_an_empty_match_list_does_nothing() {
    let (state, _) = update(
        State::default(),
        Msg::Key(KeyPress::ctrl(KeyCode::Char('k'))),
    );
    let (state, _) = press(state, KeyCode::Char('z'));
    let (state, _) = press(state, KeyCode::Char('z'));
    let (state, _) = press(state, KeyCode::Char('z'));
    let (state, _) = press(state, KeyCode::Char('z'));
    assert!(state.palette.as_ref().unwrap().matches.is_empty());
    let (state, cmds) = press(state, KeyCode::Enter);
    assert!(
        state.palette.is_none(),
        "Enter still closes the Palette even with nothing to run"
    );
    assert!(cmds.is_empty());
}

#[test]
fn quit_from_the_palette_actually_quits() {
    let (state, _) = update(
        State::default(),
        Msg::Key(KeyPress::ctrl(KeyCode::Char('k'))),
    );
    let (state, _) = press(state, KeyCode::Char('q'));
    let (state, _) = press(state, KeyCode::Char('u'));
    let (state, _) = press(state, KeyCode::Char('i'));
    let (state, _) = press(state, KeyCode::Char('t'));
    let (state, cmds) = press(state, KeyCode::Enter);
    assert!(state.quitting);
    assert_eq!(cmds, vec![Command::Quit]);
    assert!(state.palette.is_none());
}
