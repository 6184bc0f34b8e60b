use redis_pane_core::command::{Command, ReadToken};
use redis_pane_core::input::{KeyCode, KeyPress};
use redis_pane_core::layout::Pane;
use redis_pane_core::msg::{MetadataEntry, Msg};
use redis_pane_core::render::hint_bar;
use redis_pane_core::state::loaded::{KeyKind, TTL_NONE};
use redis_pane_core::state::open::{OpenKey, ReadOutcome};
use redis_pane_core::state::session::State;
use redis_pane_core::state::status::{Attachment, Link, Tracking};
use redis_pane_core::state::value::{PairValue, StringValue, Value};
use redis_pane_core::update::update;

const RAW: &[u8] = b"\xff\xfe:session";

#[test]
fn a_deleted_open_key_is_badged_in_the_list_as_well_as_the_viewer() {
    let state = browsing(10);
    let (state, _) = update(
        state,
        Msg::ValueLoaded {
            token: ReadToken::default(),
            index: Some(3),
            name: "k:3".into(),
            value: Value::Str(StringValue::new("v", 40)),
            ttl_seconds: -1,
            size_bytes: 64,
            at_ms: 1_000,
        },
    );
    assert_eq!(state.keys.kind(3), Some(KeyKind::String));
    assert!(!state.keys.is_gone(3));

    let (state, _) = update(
        state,
        Msg::ValueGone {
            token: ReadToken::default(),
            index: Some(3),
            name: "k:3".into(),
            at_ms: 2_000,
        },
    );
    assert!(
        state.open.as_ref().unwrap().deleted_at_ms.is_some(),
        "the Viewer knows"
    );
    assert!(state.keys.is_gone(3), "and so must the row it came from");
    assert!(!state.keys.is_gone(2), "its neighbours are untouched");
}

#[test]
fn a_key_that_comes_back_stops_saying_gone() {
    let mut state = browsing(10);
    state.keys.set_gone(3);
    let (state, _) = update(
        state,
        Msg::ValueLoaded {
            token: ReadToken::default(),
            index: Some(3),
            name: "k:3".into(),
            value: Value::Hash(PairValue::default()),
            ttl_seconds: 90,
            size_bytes: 128,
            at_ms: 3_000,
        },
    );
    assert!(
        !state.keys.is_gone(3),
        "a value came back, so the key is there"
    );
    assert_eq!(
        state.keys.kind(3),
        Some(KeyKind::Hash),
        "and the row is right at once, not a placeholder until the next scroll"
    );
    assert_eq!(state.keys.ttl(3), Some(90));
    assert_eq!(state.keys.size(3), Some(128));
}

fn browsing(n: usize) -> State {
    let mut state = State {
        cols: 130,
        rows: 30,
        ..State::default()
    };
    (state, _) = update(
        state,
        Msg::ScanStarted {
            estimated_total: n as u64,
        },
    );
    let keys = (0..n).map(|i| format!("k:{i}").into_bytes()).collect();
    let (state, _) = update(state, Msg::ScanBatch { keys });
    state
}

#[test]
fn a_key_that_is_not_utf8_is_refetched_and_tombstoned_by_its_exact_bytes() {

    let mut state = State {
        cols: 130,
        rows: 30,
        link: Link::Up {
            version: "8.4.0".into(),
            tracking: Tracking::Available,
        },
        ..State::default()
    };
    (state, _) = update(state, Msg::ScanStarted { estimated_total: 1 });
    (state, _) = update(
        state,
        Msg::ScanBatch {
            keys: vec![RAW.to_vec()],
        },
    );

    let (state, cmds) = update(state, Msg::Key(KeyPress::plain(KeyCode::Right)));
    let Some(Command::ReadKey {
        key, token, index, ..
    }) = cmds.into_iter().next()
    else {
        panic!("expected an open");
    };
    assert_eq!(key.as_bytes(), RAW);
    let (state, _) = update(
        state,
        Msg::ValueLoaded {
            token,
            index,
            name: key,
            value: Value::Str(StringValue::new("v", 40)),
            ttl_seconds: -1,
            size_bytes: 1,
            at_ms: 1_000,
        },
    );
    assert_eq!(state.open.as_ref().unwrap().name.as_bytes(), RAW);
    assert!(
        state.keys.kind(0).is_some(),
        "the row learned its type, so the name guard matched"
    );

    let (state, cmds) = update(state, Msg::Invalidated);
    let Some(Command::ReadKey {
        key,
        token,
        index,
        arm,
    }) = cmds.into_iter().next()
    else {
        panic!("expected a refetch");
    };
    assert_eq!(
        key.as_bytes(),
        RAW,
        "refetched by its bytes, not its display text"
    );
    assert!(arm, "and armed for that same key");

    let (state, _) = update(
        state,
        Msg::ValueGone {
            token,
            index,
            name: key,
            at_ms: 2_000,
        },
    );
    assert!(
        state.keys.is_gone(0),
        "the tombstone lands on the right row"
    );
}

#[test]
fn a_reply_from_a_superseded_read_never_reaches_the_viewer() {
    let mut state = browsing(10);
    state.view.selected = 3;
    let (mut state, cmds) = update(state, Msg::Key(KeyPress::plain(KeyCode::Right)));
    let Some(&Command::ReadKey { token: slow, .. }) = cmds.first() else {
        panic!("expected an open, got {cmds:?}");
    };
    state.view.selected = 5;
    let (state, cmds) = update(state, Msg::Key(KeyPress::plain(KeyCode::Right)));
    let Some(&Command::ReadKey { token: fast, .. }) = cmds.first() else {
        panic!("expected an open, got {cmds:?}");
    };
    assert_ne!(slow, fast, "two reads, two identities");

    let (state, _) = update(
        state,
        Msg::ValueLoaded {
            token: fast,
            index: Some(5),
            name: "k:5".into(),
            value: Value::Str(StringValue::new("five", 40)),
            ttl_seconds: -1,
            size_bytes: 4,
            at_ms: 1_000,
        },
    );
    let (state, _) = update(
        state,
        Msg::ValueLoaded {
            token: slow,
            index: Some(3),
            name: "k:3".into(),
            value: Value::Str(StringValue::new("three", 40)),
            ttl_seconds: -1,
            size_bytes: 5,
            at_ms: 2_000,
        },
    );

    assert_eq!(
        state.open.as_ref().unwrap().name,
        "k:5",
        "the last key asked for is the key on screen"
    );
    assert!(
        state.keys.kind(3).is_none(),
        "and the superseded reply wrote nothing anywhere"
    );
}

#[test]
fn a_superseded_gone_reply_does_not_bury_the_key_that_is_open_now() {
    let mut state = browsing(10);
    state.view.selected = 3;
    let (mut state, cmds) = update(state, Msg::Key(KeyPress::plain(KeyCode::Right)));
    let Some(&Command::ReadKey { token: doomed, .. }) = cmds.first() else {
        panic!("expected an open");
    };
    state.view.selected = 5;
    let (state, cmds) = update(state, Msg::Key(KeyPress::plain(KeyCode::Right)));
    let Some(&Command::ReadKey { token: current, .. }) = cmds.first() else {
        panic!("expected an open");
    };
    let (state, _) = update(
        state,
        Msg::ValueLoaded {
            token: current,
            index: Some(5),
            name: "k:5".into(),
            value: Value::Str(StringValue::new("five", 40)),
            ttl_seconds: -1,
            size_bytes: 4,
            at_ms: 1_000,
        },
    );
    let (state, _) = update(
        state,
        Msg::ValueGone {
            token: doomed,
            index: Some(3),
            name: "k:3".into(),
            at_ms: 2_000,
        },
    );
    assert!(
        state.open.as_ref().unwrap().deleted_at_ms.is_none(),
        "the open key is alive and must not be badged as deleted"
    );
    assert!(!state.keys.is_gone(5), "nor may its row be tombstoned");
}

#[test]
fn opening_a_gone_key_never_misattributes_it_to_the_key_that_was_already_open() {
    let mut state = browsing(10);
    state.view.selected = 3;
    let (state, cmds) = update(state, Msg::Key(KeyPress::plain(KeyCode::Right)));
    let Some(&Command::ReadKey { token, .. }) = cmds.first() else {
        panic!("expected an open");
    };
    let (mut state, _) = update(
        state,
        Msg::ValueLoaded {
            token,
            index: Some(3),
            name: "k:3".into(),
            value: Value::Str(StringValue::new("v", 40)),
            ttl_seconds: -1,
            size_bytes: 1,
            at_ms: 1_000,
        },
    );
    state.view.selected = 5;
    let (state, cmds) = update(state, Msg::Key(KeyPress::plain(KeyCode::Right)));
    let Some(&Command::ReadKey { token, .. }) = cmds.first() else {
        panic!("expected an open");
    };
    let (state, _) = update(
        state,
        Msg::ValueGone {
            token,
            index: Some(5),
            name: "k:5".into(),
            at_ms: 2_000,
        },
    );

    let open = state.open.as_ref().unwrap();
    assert_eq!(
        open.name, "k:5",
        "the pane must name the key just asked for"
    );
    assert!(open.value.is_none(), "nothing was ever read for it");
    assert!(open.deleted_at_ms.is_some());
    assert!(state.keys.is_gone(5), "B's own row is correctly tombstoned");
    assert!(
        !state.keys.is_gone(3),
        "A is alive and must not be falsely marked gone in the keys pane"
    );
}

#[test]
fn opening_a_gone_key_from_a_cold_start_is_not_a_silent_no_op() {
    let mut state = browsing(10);
    assert!(state.open.is_none());

    state.view.selected = 2;
    let (state, cmds) = update(state, Msg::Key(KeyPress::plain(KeyCode::Right)));
    let Some(&Command::ReadKey { token, .. }) = cmds.first() else {
        panic!("expected an open");
    };
    let (state, _) = update(
        state,
        Msg::ValueGone {
            token,
            index: Some(2),
            name: "k:2".into(),
            at_ms: 1_000,
        },
    );

    let open = state
        .open
        .as_ref()
        .expect("the keypress must produce something");
    assert_eq!(open.name, "k:2");
    assert!(open.value.is_none());
    assert!(state.keys.is_gone(2));
}

#[test]
fn refetching_an_already_gone_key_that_is_still_gone_is_idempotent() {
    let mut state = browsing(10);
    state.view.selected = 4;
    let (state, cmds) = update(state, Msg::Key(KeyPress::plain(KeyCode::Right)));
    let Some(&Command::ReadKey { token, .. }) = cmds.first() else {
        panic!("expected an open");
    };
    let (state, _) = update(
        state,
        Msg::ValueGone {
            token,
            index: Some(4),
            name: "k:4".into(),
            at_ms: 1_000,
        },
    );
    let (state, cmds) = update(state, Msg::Key(KeyPress::plain(KeyCode::Char('r'))));
    let Some(&Command::ReadKey { token, .. }) = cmds.first() else {
        panic!("expected a refetch, got {cmds:?}");
    };
    let (state, _) = update(
        state,
        Msg::ValueGone {
            token,
            index: Some(4),
            name: "k:4".into(),
            at_ms: 2_000,
        },
    );
    let open = state.open.unwrap();
    assert_eq!(open.name, "k:4");
    assert!(open.value.is_none());
    assert!(open.deleted_at_ms.is_some());
}

#[test]
fn a_gone_key_that_comes_back_is_reported_as_updated_not_unchanged() {
    let mut open = OpenKey::gone(Some(0), "k".into(), 0);
    assert!(open.value.is_none());
    open.absorb(Value::Str(StringValue::new("v", 40)), -1, 4, 1_000);

    assert_eq!(open.value, Some(Value::Str(StringValue::new("v", 40))));
    assert!(open.deleted_at_ms.is_none(), "no longer gone");
    assert!(matches!(open.last_read, ReadOutcome::Updated { .. }));
}

#[test]
fn a_rescan_takes_the_open_keys_index_and_a_later_batch_gives_it_back() {
    let mut state = browsing(10);
    state.view.selected = 3;
    let (state, cmds) = update(state, Msg::Key(KeyPress::plain(KeyCode::Right)));
    let Some(&Command::ReadKey { token, .. }) = cmds.first() else {
        panic!("expected an open");
    };
    let (state, _) = update(
        state,
        Msg::ValueLoaded {
            token,
            index: Some(3),
            name: "k:3".into(),
            value: Value::Str(StringValue::new("v", 40)),
            ttl_seconds: -1,
            size_bytes: 1,
            at_ms: 1_000,
        },
    );
    assert_eq!(state.open.as_ref().unwrap().index, Some(3));
    assert_eq!(state.open.as_ref().unwrap().row, Some(3));

    let (state, _) = update(
        state,
        Msg::ScanStarted {
            estimated_total: 10,
        },
    );
    assert_eq!(
        state.open.as_ref().unwrap().index,
        None,
        "the number means nothing until the key is seen again"
    );
    assert_eq!(state.open.as_ref().unwrap().row, None);
    assert_eq!(
        state.attachment(),
        Some(Attachment::DetachedOffList),
        "and the Viewer says so rather than pointing at a row"
    );
    let keys = ["k:7", "k:3", "k:1"]
        .iter()
        .map(|k| k.as_bytes().to_vec())
        .collect();
    let (state, _) = update(state, Msg::ScanBatch { keys });
    assert_eq!(
        state.open.as_ref().unwrap().index,
        Some(1),
        "re-resolved by name, at wherever it landed this time"
    );
}

#[test]
fn a_value_reply_never_writes_metadata_onto_a_renumbered_row() {
    let mut state = browsing(10);
    state.view.selected = 3;
    let (state, cmds) = update(state, Msg::Key(KeyPress::plain(KeyCode::Right)));
    let Some(&Command::ReadKey { token, .. }) = cmds.first() else {
        panic!("expected an open");
    };
    let (state, _) = update(state, Msg::ScanStarted { estimated_total: 4 });
    let keys = ["a", "b", "c", "somebody-else"]
        .iter()
        .map(|k| k.as_bytes().to_vec())
        .collect();
    let (state, _) = update(state, Msg::ScanBatch { keys });

    let (state, _) = update(
        state,
        Msg::ValueLoaded {
            token,
            index: Some(3),
            name: "k:3".into(),
            value: Value::Hash(PairValue::default()),
            ttl_seconds: 90,
            size_bytes: 128,
            at_ms: 1_000,
        },
    );
    assert!(
        state.keys.kind(3).is_none(),
        "row 3 is `somebody-else` now and knows nothing about k:3"
    );
    assert_eq!(
        state.open.as_ref().unwrap().name,
        "k:3",
        "the Viewer still took the value, which was never in doubt"
    );
}

#[test]
fn attachment_distinguishes_on_the_cursor_from_elsewhere_from_nowhere() {
    let mut state = browsing(10);
    assert_eq!(state.attachment(), None, "nothing open, no question to ask");

    state.view.selected = 3;
    let (state, cmds) = update(state, Msg::Key(KeyPress::plain(KeyCode::Right)));
    let Some(&Command::ReadKey { token, .. }) = cmds.first() else {
        panic!("expected an open");
    };
    let (mut state, _) = update(
        state,
        Msg::ValueLoaded {
            token,
            index: Some(3),
            name: "k:3".into(),
            value: Value::Str(StringValue::new("v", 40)),
            ttl_seconds: -1,
            size_bytes: 1,
            at_ms: 1_000,
        },
    );
    assert_eq!(state.attachment(), Some(Attachment::Attached));

    state.view.selected = 1;
    assert_eq!(
        state.attachment(),
        Some(Attachment::Detached { rows: 2 }),
        "two rows below the cursor"
    );

    state.list.filter = "k:9".into();
    state.rebuild_list();
    assert_eq!(
        state.attachment(),
        Some(Attachment::DetachedOffList),
        "filtered away, so there is no row to point at"
    );
}

#[test]
fn r_in_the_keys_pane_rescans_even_with_an_update_waiting_in_the_viewer() {
    let mut state = browsing(10);
    state.view.selected = 3;
    let (state, cmds) = update(state, Msg::Key(KeyPress::plain(KeyCode::Right)));
    let Some(&Command::ReadKey { token, .. }) = cmds.first() else {
        panic!("expected an open");
    };
    let (mut state, _) = update(
        state,
        Msg::ValueLoaded {
            token,
            index: Some(3),
            name: "k:3".into(),
            value: Value::Str(StringValue::new("v1", 40)),
            ttl_seconds: -1,
            size_bytes: 2,
            at_ms: 1_000,
        },
    );
    {
        let open = state.open.as_mut().unwrap();
        open.offset = 3;
        open.at_rest = false;
    }
    let token = state.read_token;
    let (mut state, _) = update(
        state,
        Msg::ValueLoaded {
            token,
            index: Some(3),
            name: "k:3".into(),
            value: Value::Str(StringValue::new("v2", 40)),
            ttl_seconds: -1,
            size_bytes: 2,
            at_ms: 2_000,
        },
    );
    assert!(state.open.as_ref().unwrap().pending.is_some(), "held");

    state.focus = Pane::Keys;
    let (state, cmds) = update(state, Msg::Key(KeyPress::plain(KeyCode::Char('r'))));
    assert!(
        matches!(cmds.as_slice(), [Command::StartScan { .. }]),
        "the hint says `r rescan`, so `r` rescans: {cmds:?}"
    );
    assert!(
        state.open.as_ref().unwrap().pending.is_some(),
        "and the held update is still held, untouched by a keys-pane key"
    );
}

#[test]
fn a_key_that_comes_back_makes_the_viewer_go_and_ask() {
    let mut state = browsing(10);
    state.view.selected = 3;
    let (state, cmds) = update(state, Msg::Key(KeyPress::plain(KeyCode::Right)));
    let Some(&Command::ReadKey { token, .. }) = cmds.first() else {
        panic!("expected an open");
    };
    let (state, _) = update(
        state,
        Msg::ValueLoaded {
            token,
            index: Some(3),
            name: "k:3".into(),
            value: Value::Str(StringValue::new("v", 40)),
            ttl_seconds: -1,
            size_bytes: 1,
            at_ms: 1_000,
        },
    );
    let token = state.read_token;
    let (state, _) = update(
        state,
        Msg::ValueGone {
            token,
            index: Some(3),
            name: "k:3".into(),
            at_ms: 2_000,
        },
    );
    assert!(state.keys.is_gone(3), "both panes agree it is gone");
    let (state, cmds) = update(
        state,
        Msg::MetadataBatch {
            entries: vec![MetadataEntry {
                index: 3,
                kind: KeyKind::String,
                ttl_seconds: -1,
                size_bytes: 64,
            }],
            gone: Vec::new(),
            at_ms: 1_000,
        },
    );
    assert!(
        matches!(cmds.as_slice(), [Command::ReadKey { .. }]),
        "the panes disagree, so ask the server rather than guess: {cmds:?}"
    );
    assert!(
        state.open.as_ref().unwrap().deleted_at_ms.is_some(),
        "and the badge stays until the answer arrives — no guessing either way"
    );
}

#[test]
fn a_row_that_goes_makes_the_viewer_go_and_ask_too() {
    let mut state = browsing(10);
    state.view.selected = 3;
    let (state, cmds) = update(state, Msg::Key(KeyPress::plain(KeyCode::Right)));
    let Some(&Command::ReadKey { token, .. }) = cmds.first() else {
        panic!("expected an open");
    };
    let (state, _) = update(
        state,
        Msg::ValueLoaded {
            token,
            index: Some(3),
            name: "k:3".into(),
            value: Value::Str(StringValue::new("v", 40)),
            ttl_seconds: -1,
            size_bytes: 1,
            at_ms: 1_000,
        },
    );
    let (_, cmds) = update(
        state,
        Msg::MetadataBatch {
            entries: Vec::new(),
            gone: vec![3],
            at_ms: 1_000,
        },
    );
    assert!(
        matches!(cmds.as_slice(), [Command::ReadKey { .. }]),
        "{cmds:?}"
    );
}

fn narrow_viewing() -> State {
    let mut state = browsing(10);
    state.cols = 60;
    let (state, _) = update(state, Msg::Key(KeyPress::plain(KeyCode::Right)));
    assert_eq!(state.focus, Pane::Value, "→ pushes onto the value");
    assert!(
        !state.keys_pane_visible(),
        "and the list is off screen there"
    );
    state
}

#[test]
fn slash_cannot_open_an_invisible_keystroke_sink() {
    let state = narrow_viewing();
    let (state, _) = update(state, Msg::Key(KeyPress::plain(KeyCode::Char('/'))));
    assert!(
        !state.filtering,
        "no capture may start while the pane that would show it is not drawn"
    );
    let (_, cmds) = update(state, Msg::Key(KeyPress::plain(KeyCode::Char('q'))));
    assert_eq!(cmds, vec![Command::Quit]);
}

#[test]
fn the_key_list_does_not_move_while_it_is_off_screen() {
    let state = narrow_viewing();
    let before = state.view.selected;
    let (state, _) = update(state, Msg::Key(KeyPress::plain(KeyCode::Down)));
    let (state, _) = update(state, Msg::Key(KeyPress::plain(KeyCode::End)));
    assert_eq!(state.view.selected, before, "the cursor stayed put");
}

#[test]
fn the_value_does_not_scroll_while_it_is_off_screen() {
    let mut state = browsing(10);
    state.cols = 60;
    state.open = Some(OpenKey::new(
        Some(0),
        "k".into(),
        Value::Str(StringValue::new("v", 40)),
        -1,
        10,
        0,
    ));
    assert!(
        !state.value_pane_visible(),
        "the list is what is drawn here"
    );
    let (state, _) = update(state, Msg::Key(KeyPress::ctrl(KeyCode::Down)));
    assert_eq!(state.open.as_ref().unwrap().offset, 0);
}

#[test]
fn nothing_is_gated_while_both_panes_are_on_screen() {
    let state = browsing(10);
    let (mut state, _) = update(state, Msg::Key(KeyPress::plain(KeyCode::Right)));
    assert_eq!(state.focus, Pane::Value);
    assert!(state.keys_pane_visible() && state.value_pane_visible());

    let before = state.view.selected;
    (state, _) = update(state, Msg::Key(KeyPress::plain(KeyCode::Down)));
    assert_ne!(
        state.view.selected, before,
        "the list still moves from the Viewer at two-pane widths"
    );
    let (state, _) = update(state, Msg::Key(KeyPress::plain(KeyCode::Char('/'))));
    assert!(state.filtering, "and `/` still filters");
}

#[test]
fn narrowing_the_terminal_keeps_an_open_filter_where_it_can_be_seen() {
    let state = browsing(10);
    let (mut state, _) = update(state, Msg::Key(KeyPress::plain(KeyCode::Right)));
    (state, _) = update(state, Msg::Key(KeyPress::plain(KeyCode::Char('/'))));
    assert!(state.filtering);

    let (state, _) = update(state, Msg::Resized { cols: 60, rows: 30 });
    assert!(state.filtering, "the filter is still being typed");
    assert!(
        state.keys_pane_visible(),
        "so the pane showing it must be the one on screen"
    );
}

#[test]
fn only_the_visible_window_is_ever_requested() {
    let state = browsing(10_000);
    let indices = state.rows_needing_metadata();
    assert_eq!(indices.len(), state.visible_rows());
    assert!(
        indices.iter().all(|i| *i < state.visible_rows()),
        "requested a row nobody can see"
    );
}

#[test]
fn arriving_metadata_lands_on_the_right_rows() {
    let state = browsing(100);
    let (state, _) = update(
        state,
        Msg::MetadataBatch {
            entries: vec![MetadataEntry {
                index: 2,
                kind: KeyKind::Hash,
                ttl_seconds: 2_537,
                size_bytes: 2_150,
            }],
            gone: Vec::new(),
            at_ms: 1_000,
        },
    );
    assert_eq!(state.keys.kind(2), Some(KeyKind::Hash));
    assert_eq!(state.keys.ttl(2), Some(2_537));
    assert_eq!(state.keys.size(2), Some(2_150));
    assert_eq!(state.keys.kind(1), None, "its neighbours are untouched");
}

#[test]
fn rows_that_already_have_metadata_are_not_requested_again() {
    let state = browsing(100);
    let entries = (0..state.visible_rows())
        .map(|i| MetadataEntry {
            index: i,
            kind: KeyKind::String,
            ttl_seconds: TTL_NONE,
            size_bytes: 10,
        })
        .collect();
    let (state, _) = update(
        state,
        Msg::MetadataBatch {
            entries,
            gone: Vec::new(),
            at_ms: 1_000,
        },
    );
    assert!(
        state.rows_needing_metadata().is_empty(),
        "the visible window is fully known, so nothing more is owed"
    );
}

#[test]
fn scrolling_asks_for_what_scrolling_revealed() {
    let state = browsing(10_000);
    let entries = (0..state.visible_rows())
        .map(|i| MetadataEntry {
            index: i,
            kind: KeyKind::String,
            ttl_seconds: TTL_NONE,
            size_bytes: 10,
        })
        .collect();
    let (state, _) = update(
        state,
        Msg::MetadataBatch {
            entries,
            gone: Vec::new(),
            at_ms: 1_000,
        },
    );
    let (state, cmds) = update(state, Msg::Key(KeyPress::plain(KeyCode::PageDown)));
    let Some(Command::FetchMetadata { indices }) = cmds.first() else {
        panic!("scrolling into unknown rows must ask for them, got {cmds:?}");
    };
    assert!(!indices.is_empty());
    assert!(
        indices.iter().all(|i| state.keys.kind(*i).is_none()),
        "already-known rows must not be re-fetched"
    );
}

#[test]
fn navigation_is_clamped_to_the_loaded_set() {
    let state = browsing(5);
    let (state, _) = update(state, Msg::Key(KeyPress::plain(KeyCode::End)));
    assert_eq!(state.view.selected, 4);
    let (state, _) = update(state, Msg::Key(KeyPress::plain(KeyCode::Down)));
    assert_eq!(state.view.selected, 4, "cannot walk off the end");
    let (state, _) = update(state, Msg::Key(KeyPress::plain(KeyCode::Home)));
    assert_eq!(state.view.selected, 0);
    let (state, _) = update(state, Msg::Key(KeyPress::plain(KeyCode::Up)));
    assert_eq!(state.view.selected, 0, "nor off the start");
}

#[test]
fn navigating_an_empty_keyspace_does_nothing_rather_than_panicking() {
    let (state, cmds) = update(State::default(), Msg::Key(KeyPress::plain(KeyCode::Down)));
    assert_eq!(state.view.selected, 0);
    assert!(cmds.is_empty());
}

fn selected_name(state: &State) -> Option<String> {
    state
        .selected_key()
        .and_then(|i| state.keys.name_str(i))
}

fn open_filter(state: State) -> State {
    let (state, _) = update(state, Msg::Key(KeyPress::plain(KeyCode::Char('/'))));
    assert!(state.filtering);
    state
}

fn type_filter(state: State, text: &str) -> State {
    let mut state = state;
    for c in text.chars() {
        (state, _) = update(state, Msg::Key(KeyPress::plain(KeyCode::Char(c))));
    }
    state
}

#[test]
fn typing_a_narrower_filter_keeps_the_selected_key_selected() {
    let mut state = browsing(10);
    for _ in 0..5 {
        (state, _) = update(state, Msg::Key(KeyPress::plain(KeyCode::Down)));
    }
    assert_eq!(selected_name(&state).as_deref(), Some("k:5"));

    let state = type_filter(open_filter(state), "5");
    assert_eq!(
        selected_name(&state).as_deref(),
        Some("k:5"),
        "the only match is the key that was already selected"
    );
}

#[test]
fn typing_a_filter_the_selected_key_fails_falls_back_to_the_top() {
    let mut state = browsing(10);
    for _ in 0..5 {
        (state, _) = update(state, Msg::Key(KeyPress::plain(KeyCode::Down)));
    }
    assert_eq!(selected_name(&state).as_deref(), Some("k:5"));
    let state = type_filter(open_filter(state), "k:1");
    assert_eq!(state.view.selected, 0, "nothing to stick to but the top");
    assert_eq!(selected_name(&state).as_deref(), Some("k:1"));
}

#[test]
fn backspacing_the_filter_keeps_the_selected_key_selected() {
    let mut state = browsing(10);
    for _ in 0..5 {
        (state, _) = update(state, Msg::Key(KeyPress::plain(KeyCode::Down)));
    }
    let state = type_filter(open_filter(state), "5");
    assert_eq!(selected_name(&state).as_deref(), Some("k:5"));

    let (state, _) = update(state, Msg::Key(KeyPress::plain(KeyCode::Backspace)));
    assert_eq!(
        selected_name(&state).as_deref(),
        Some("k:5"),
        "widening the filter must not relocate the cursor to an unrelated row"
    );
}

#[test]
fn clearing_the_filter_with_esc_keeps_the_selected_key_selected() {
    let mut state = browsing(10);
    for _ in 0..5 {
        (state, _) = update(state, Msg::Key(KeyPress::plain(KeyCode::Down)));
    }
    let state = type_filter(open_filter(state), "5");
    assert_eq!(selected_name(&state).as_deref(), Some("k:5"));

    let (state, _) = update(state, Msg::Key(KeyPress::plain(KeyCode::Esc)));
    assert!(!state.filtering, "Esc also exits filter capture");
    assert_eq!(
        selected_name(&state).as_deref(),
        Some("k:5"),
        "clearing the filter must not relocate the cursor to an unrelated row"
    );
}

#[test]
fn the_selected_key_stays_selected_across_a_filter_change_in_tree_mode() {
    let mut state = browsing(10);
    state.tree_mode = true;
    state.rebuild_list();
    for _ in 0..5 {
        (state, _) = update(state, Msg::Key(KeyPress::plain(KeyCode::Down)));
    }
    let name = selected_name(&state).expect("landed on a key, not a group header");
    let digit = name.strip_prefix("k:").expect("browsing() names are k:N");

    let state = type_filter(open_filter(state), digit);
    assert_eq!(selected_name(&state).as_deref(), Some(name.as_str()));

    let (state, _) = update(state, Msg::Key(KeyPress::plain(KeyCode::Esc)));
    assert_eq!(
        selected_name(&state).as_deref(),
        Some(name.as_str()),
        "tree mode must relocate the selected key too, not just the flat list"
    );
}

#[test]
fn the_hint_bar_explains_filter_capture_while_it_is_open() {
    let state = browsing(10);
    assert!(
        !hint_bar(&state).contains("clear & exit"),
        "the generic hint bar applies outside filter capture"
    );

    let state = open_filter(state);
    assert!(
        hint_bar(&state).contains("clear & exit"),
        "the filter hint must say what Esc does, since nothing else does"
    );
}
