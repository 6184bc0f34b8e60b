use redis_pane_core::command::{Command, ReadToken};
use redis_pane_core::input::{KeyCode, KeyPress};
use redis_pane_core::msg::Msg;
use redis_pane_core::state::session::State;
use redis_pane_core::state::value::{StringValue, Value};
use redis_pane_core::update::update;

fn browsing(n: usize) -> State {
    let mut state = State {
        cols: 130,
        rows: 30,
        ..State::default()
    };
    (state, _) = update(
        state,
        Msg::ScanStarted {
            estimated_total: n as u64,
        },
    );
    let keys = (0..n).map(|i| format!("k:{i}").into_bytes()).collect();
    let (state, _) = update(state, Msg::ScanBatch { keys });
    state
}

#[test]
fn opening_a_key_names_it_as_the_pending_read() {
    let mut state = browsing(10);
    state.view.selected = 3;
    let (state, cmds) = update(state, Msg::Key(KeyPress::plain(KeyCode::Right)));
    let Some(&Command::ReadKey { token, .. }) = cmds.first() else {
        panic!("expected an open, got {cmds:?}");
    };
    let pending = state.open_pending.expect("a read was just issued");
    assert_eq!(pending.name, "k:3");
    assert_eq!(pending.token, token);
}

#[test]
fn a_landed_value_clears_the_pending_read() {
    let mut state = browsing(10);
    state.view.selected = 3;
    let (state, cmds) = update(state, Msg::Key(KeyPress::plain(KeyCode::Right)));
    let Some(&Command::ReadKey { token, .. }) = cmds.first() else {
        panic!("expected an open, got {cmds:?}");
    };
    let (state, _) = update(
        state,
        Msg::ValueLoaded {
            token,
            index: Some(3),
            name: "k:3".into(),
            value: Value::Str(StringValue::new("v", 40)),
            ttl_seconds: -1,
            size_bytes: 64,
            at_ms: 1_000,
        },
    );
    assert!(state.open_pending.is_none());
}

#[test]
fn a_gone_reply_clears_the_pending_read_too() {
    let mut state = browsing(10);
    state.view.selected = 3;
    let (state, cmds) = update(state, Msg::Key(KeyPress::plain(KeyCode::Right)));
    let Some(&Command::ReadKey { token, .. }) = cmds.first() else {
        panic!("expected an open, got {cmds:?}");
    };
    let (state, _) = update(
        state,
        Msg::ValueGone {
            token,
            index: Some(3),
            name: "k:3".into(),
            at_ms: 1_000,
        },
    );
    assert!(state.open_pending.is_none());
}

#[test]
fn a_superseded_reply_does_not_clear_the_current_pending_read() {
    let mut state = browsing(10);
    state.view.selected = 3;
    let (mut state, cmds) = update(state, Msg::Key(KeyPress::plain(KeyCode::Right)));
    let Some(&Command::ReadKey { token: stale, .. }) = cmds.first() else {
        panic!("expected an open");
    };
    state.view.selected = 5;
    let (state, cmds) = update(state, Msg::Key(KeyPress::plain(KeyCode::Right)));
    let Some(&Command::ReadKey { token: current, .. }) = cmds.first() else {
        panic!("expected an open");
    };
    let (state, _) = update(
        state,
        Msg::ValueLoaded {
            token: stale,
            index: Some(3),
            name: "k:3".into(),
            value: Value::Str(StringValue::new("three", 40)),
            ttl_seconds: -1,
            size_bytes: 5,
            at_ms: 2_000,
        },
    );
    let pending = state.open_pending.expect("the current read is still out");
    assert_eq!(pending.token, current);
    assert_eq!(pending.name, "k:5");
}

#[test]
fn a_failed_read_clears_the_pending_indicator() {
    let mut state = browsing(10);
    state.view.selected = 3;
    let (state, _) = update(state, Msg::Key(KeyPress::plain(KeyCode::Right)));
    assert!(state.open_pending.is_some());
    let (state, _) = update(
        state,
        Msg::Failed {
            command: "reading k:3".into(),
            detail: "WRONGTYPE".into(),
            at_ms: 1_000,
        },
    );
    assert!(state.open_pending.is_none());
}

#[test]
fn a_lost_connection_clears_the_pending_indicator() {
    let mut state = browsing(10);
    state.view.selected = 3;
    let (state, _) = update(state, Msg::Key(KeyPress::plain(KeyCode::Right)));
    assert!(state.open_pending.is_some());
    let (state, _) = update(state, Msg::ConnectionLost);
    assert!(state.open_pending.is_none());
}

#[test]
fn a_manual_refetch_names_the_open_key_as_the_pending_read() {
    let mut state = browsing(10);
    state.view.selected = 3;
    let (state, cmds) = update(state, Msg::Key(KeyPress::plain(KeyCode::Right)));
    let Some(&Command::ReadKey { token, .. }) = cmds.first() else {
        panic!("expected an open, got {cmds:?}");
    };
    let (mut state, _) = update(
        state,
        Msg::ValueLoaded {
            token,
            index: Some(3),
            name: "k:3".into(),
            value: Value::Str(StringValue::new("v", 40)),
            ttl_seconds: -1,
            size_bytes: 64,
            at_ms: 1_000,
        },
    );
    state.view.selected = 7;
    let (state, cmds) = update(state, Msg::Key(KeyPress::plain(KeyCode::Char('r'))));
    let Some(&Command::ReadKey { token, .. }) = cmds.first() else {
        panic!("expected a refetch, got {cmds:?}");
    };
    let pending = state.open_pending.expect("a refetch was just issued");
    assert_eq!(pending.name, "k:3", "the Open key, not row 7");
    assert_eq!(pending.token, token);
}

#[test]
fn a_pending_read_starts_unstamped() {
    let mut state = browsing(10);
    state.view.selected = 3;
    let (state, _) = update(state, Msg::Key(KeyPress::plain(KeyCode::Right)));
    assert_eq!(state.open_pending.unwrap().issued_at_ms, None);
}

#[test]
fn read_issued_stamps_the_matching_pending_read() {
    let mut state = browsing(10);
    state.view.selected = 3;
    let (state, cmds) = update(state, Msg::Key(KeyPress::plain(KeyCode::Right)));
    let Some(&Command::ReadKey { token, .. }) = cmds.first() else {
        panic!("expected an open, got {cmds:?}");
    };
    let (state, _) = update(
        state,
        Msg::ReadIssued {
            token,
            at_ms: 5_000,
        },
    );
    assert_eq!(state.open_pending.unwrap().issued_at_ms, Some(5_000));
}

#[test]
fn read_issued_for_a_superseded_token_is_ignored() {
    let mut state = browsing(10);
    state.view.selected = 3;
    let (mut state, cmds) = update(state, Msg::Key(KeyPress::plain(KeyCode::Right)));
    let Some(&Command::ReadKey { token: stale, .. }) = cmds.first() else {
        panic!("expected an open");
    };
    state.view.selected = 5;
    let (state, cmds) = update(state, Msg::Key(KeyPress::plain(KeyCode::Right)));
    let Some(&Command::ReadKey { token: current, .. }) = cmds.first() else {
        panic!("expected an open");
    };
    let (state, _) = update(
        state,
        Msg::ReadIssued {
            token: stale,
            at_ms: 5_000,
        },
    );
    let pending = state.open_pending.expect("the current read is still out");
    assert_eq!(pending.token, current);
    assert_eq!(
        pending.issued_at_ms, None,
        "a stamp for a superseded read must not land on the current one"
    );
}

#[test]
fn read_issued_with_nothing_pending_does_nothing() {
    let (state, _) = update(
        State::default(),
        Msg::ReadIssued {
            token: ReadToken::default(),
            at_ms: 5_000,
        },
    );
    assert!(state.open_pending.is_none());
}
