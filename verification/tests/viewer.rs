use redis_pane_core::command::ReadToken;
use redis_pane_core::input::{KeyCode, KeyPress};
use redis_pane_core::layout::Pane;
use redis_pane_core::msg::Msg;
use redis_pane_core::state::open::OpenKey;
use redis_pane_core::state::session::State;
use redis_pane_core::state::value::{StringValue, Value};
use redis_pane_core::update::update;

fn viewing() -> State {
    State {
        cols: 130,
        rows: 40,
        focus: Pane::Value,
        open: Some(OpenKey::new(
            Some(0),
            "k".into(),
            Value::Str(StringValue::new("v", 40)),
            -1,
            10,
            0,
        )),
        ..State::default()
    }
}

#[test]
fn a_string_is_wrapped_to_its_pane_and_rewrapped_when_the_pane_changes() {
    let first_row = |s: &State| match &s.open.as_ref().unwrap().value {
        Some(Value::Str(v)) => v.lines[0].chars().count(),
        other => panic!("expected a string, got {other:?}"),
    };
    let state = State {
        cols: 130,
        rows: 40,
        ..State::default()
    };
    let token = state.read_token;
    let (state, _) = update(
        state,
        Msg::ValueLoaded {
            token,
            index: None,
            name: "k".into(),
            value: Value::Str(StringValue::new(&"x".repeat(500), usize::MAX)),
            ttl_seconds: -1,
            size_bytes: 500,
            at_ms: 0,
        },
    );
    let wide = state.value_wrap_width();
    assert_eq!(first_row(&state), wide, "wrapped to the pane on arrival");

    let (state, _) = update(state, Msg::Resized { cols: 90, rows: 40 });
    let narrow = state.value_wrap_width();
    assert!(narrow < wide);
    assert_eq!(
        first_row(&state),
        narrow,
        "and again when the terminal narrows"
    );
}

#[test]
fn a_held_update_is_applied_before_either_pane_gets_a_say() {
    let mut state = viewing();
    state.open.as_mut().unwrap().at_rest = false;
    let (state, _) = update(
        state,
        Msg::ValueLoaded {
            token: ReadToken::default(),
            index: Some(0),
            name: "k".into(),
            value: Value::Str(StringValue::new(
                "v2", 40,
            )),
            ttl_seconds: -1,
            size_bytes: 11,
            at_ms: 1_000,
        },
    );
    assert!(state.open.as_ref().unwrap().pending.is_some(), "held");
    let (state, cmds) = update(state, Msg::Key(KeyPress::plain(KeyCode::Char('r'))));
    assert!(cmds.is_empty(), "no read is asked for");
    assert!(state.open.as_ref().unwrap().pending.is_none(), "applied");
}
