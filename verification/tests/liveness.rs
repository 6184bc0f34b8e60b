use redis_pane_core::command::{Command, ReadToken};
use redis_pane_core::input::{KeyCode, KeyPress};
use redis_pane_core::msg::Msg;
use redis_pane_core::state::open::OpenKey;
use redis_pane_core::state::session::State;
use redis_pane_core::state::status::{Link, Liveness, Tracking};
use redis_pane_core::state::value::{StringValue, Value};
use redis_pane_core::update::update;

fn viewing() -> State {
    State {
        open: Some(OpenKey::new(
            Some(0),
            "k".into(),
            Value::Str(StringValue::new("v", 40)),
            -1,
            1,
            0,
        )),
        ..State::default()
    }
}

fn connected(tracking_supported: bool) -> State {
    let (s, _) = update(
        viewing(),
        Msg::Connected {
            version: "8.4.0".into(),
            tracking_supported,
        },
    );
    s
}

fn armed() -> State {
    let (s, _) = update(connected(true), Msg::TrackingArmed);
    s
}

#[test]
fn a_fresh_connection_is_not_live_until_tracking_is_armed() {
    let s = connected(true);
    assert_eq!(
        s.liveness(),
        Liveness::Manual,
        "connected is not the same as live"
    );
    assert_eq!(armed().liveness(), Liveness::Live);
}

#[test]
fn connecting_emits_a_refetch_which_is_the_only_thing_that_arms() {
    let (_, cmds) = update(
        viewing(),
        Msg::Connected {
            version: "8.4.0".into(),
            tracking_supported: true,
        },
    );
    assert!(matches!(cmds.as_slice(), [Command::ReadKey { .. }]));
}

#[test]
fn a_reconnect_drops_liveness_and_does_not_get_it_back_for_free() {
    let live = armed();
    assert_eq!(live.liveness(), Liveness::Live);

    let (dropped, _) = update(live, Msg::ConnectionLost);
    assert_eq!(dropped.liveness(), Liveness::Disconnected);
    let (back, cmds) = update(
        dropped,
        Msg::Connected {
            version: "8.4.0".into(),
            tracking_supported: true,
        },
    );
    assert_ne!(
        back.liveness(),
        Liveness::Live,
        "reconnected but not re-armed"
    );
    assert!(matches!(cmds.as_slice(), [Command::ReadKey { .. }]));

    let (rearmed, _) = update(back, Msg::TrackingArmed);
    assert_eq!(rearmed.liveness(), Liveness::Live);
}

#[test]
fn an_invalidation_consumes_the_arming_and_forces_a_refetch() {
    let (after, cmds) = update(armed(), Msg::Invalidated);
    assert!(matches!(cmds.as_slice(), [Command::ReadKey { .. }]));

    let (rearmed, _) = update(after, Msg::TrackingArmed);
    assert_eq!(rearmed.liveness(), Liveness::Live);
}

#[test]
fn a_server_that_refuses_tracking_degrades_to_manual_and_never_claims_live() {
    let s = connected(false);
    assert_eq!(s.liveness(), Liveness::Manual);
    let (s, _) = update(s, Msg::TrackingArmed);
    assert_eq!(s.liveness(), Liveness::Manual);
}

#[test]
fn liveness_is_derived_and_disconnected_always_wins() {
    for start in [connected(true), armed(), connected(false)] {
        let (s, _) = update(start, Msg::ConnectionLost);
        assert_eq!(s.liveness(), Liveness::Disconnected);
    }
}

#[test]
fn backoff_is_scheduled_visibly_rather_than_waited_out_silently() {
    let (s, cmds) = update(armed(), Msg::ConnectionLost);
    assert!(matches!(s.link, Link::Reconnecting { .. }));
    assert_eq!(cmds, vec![Command::Reconnect { after_ms: 0 }]);

    let (s, cmds) = update(
        s,
        Msg::ReconnectScheduled {
            attempt: 3,
            retry_in_ms: 4_000,
        },
    );
    assert_eq!(
        s.link,
        Link::Reconnecting {
            attempt: 3,
            retry_in_ms: Some(4_000)
        }
    );
    assert_eq!(cmds, vec![Command::Reconnect { after_ms: 4_000 }]);
}

#[test]
fn connecting_with_nothing_open_issues_no_read() {
    let (s, cmds) = update(
        State::default(),
        Msg::Connected {
            version: "8.4.0".into(),
            tracking_supported: true,
        },
    );
    assert!(cmds.is_empty(), "{cmds:?}");
    assert_eq!(s.read_token, ReadToken::default());
}

#[test]
fn every_read_arms_exactly_when_the_connection_tracks() {
    let up = |tracking| Link::Up {
        version: "8.4.0".into(),
        tracking,
    };
    let cases = [
        (up(Tracking::Available), true),
        (up(Tracking::Armed), true),
        (up(Tracking::Consumed), true),
        (up(Tracking::Unsupported), false),
        (
            Link::Reconnecting {
                attempt: 1,
                retry_in_ms: None,
            },
            false,
        ),
        (Link::Connecting, false),
    ];
    for (link, arm) in cases {
        let state = State {
            link: link.clone(),
            ..viewing()
        };
        let (_, cmds) = update(state, Msg::Invalidated);
        assert!(
            matches!(cmds.as_slice(), [Command::ReadKey { arm: a, .. }] if *a == arm),
            "refetch under {link:?}: {cmds:?}"
        );
        let mut state = State {
            cols: 130,
            rows: 40,
            link: link.clone(),
            ..State::default()
        };
        state.keys.push(b"other");
        state.rebuild_list();
        let (_, cmds) = update(state, Msg::Key(KeyPress::plain(KeyCode::Right)));
        assert!(
            matches!(cmds.as_slice(), [Command::ReadKey { arm: a, .. }] if *a == arm),
            "open under {link:?}: {cmds:?}"
        );
    }
}

#[test]
fn live_appears_only_where_tracking_is_armed_or_mid_refetch() {
    let cases = [
        (Link::Connecting, Liveness::Disconnected),
        (
            Link::Reconnecting {
                attempt: 1,
                retry_in_ms: None,
            },
            Liveness::Disconnected,
        ),
        (
            Link::Up {
                version: "8.4.0".into(),
                tracking: Tracking::Unsupported,
            },
            Liveness::Manual,
        ),
        (
            Link::Up {
                version: "8.4.0".into(),
                tracking: Tracking::Available,
            },
            Liveness::Manual,
        ),
        (
            Link::Up {
                version: "8.4.0".into(),
                tracking: Tracking::Armed,
            },
            Liveness::Live,
        ),
        (
            Link::Up {
                version: "8.4.0".into(),
                tracking: Tracking::Consumed,
            },
            Liveness::Live,
        ),
    ];
    for (link, expected) in cases {
        let state = State {
            link: link.clone(),
            ..State::default()
        };
        assert_eq!(state.liveness(), expected, "for {link:?}");
    }
}
