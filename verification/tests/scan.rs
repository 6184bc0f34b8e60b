use redis_pane_core::command::Command;
use redis_pane_core::input::{KeyCode, KeyPress};
use redis_pane_core::msg::Msg;
use redis_pane_core::state::loaded::LoadedSet;
use redis_pane_core::state::session::State;
use redis_pane_core::state::status::ScanState;
use redis_pane_core::update::update;

fn started(estimated_total: u64) -> State {
    let base = State {
        rows: 30,
        ..State::default()
    };
    let (s, _) = update(base, Msg::ScanStarted { estimated_total });
    s
}

fn batch(n: usize, from: usize) -> Vec<Vec<u8>> {
    (from..from + n)
        .map(|i| format!("k:{i}").into_bytes())
        .collect()
}

#[test]
fn a_scan_starts_empty_and_reports_progress_against_an_estimate() {
    let s = started(180_000);
    assert!(s.keys.is_empty());
    assert_eq!(
        s.scan,
        ScanState::Running {
            scanned: 0,
            estimated_total: 180_000
        }
    );

    let (s, cmds) = update(
        s,
        Msg::ScanBatch {
            keys: batch(500, 0),
        },
    );
    assert_eq!(s.keys.len(), 500);
    assert_eq!(s.scan.readout(), "scanning 500 of ~180,000");
    let Some(Command::FetchMetadata { indices }) = cmds.first() else {
        panic!("expected a metadata request, got {cmds:?}");
    };
    assert_eq!(
        indices.len(),
        s.visible_rows(),
        "500 keys arrived, but only the visible window is fetched"
    );
}

#[test]
fn batches_accumulate_so_results_render_as_they_arrive() {
    let mut s = started(1_000);
    for i in 0..4 {
        (s, _) = update(
            s,
            Msg::ScanBatch {
                keys: batch(250, i * 250),
            },
        );
    }
    assert_eq!(s.keys.len(), 1_000);
    assert_eq!(s.keys.name_str(0).unwrap(), "k:0");
    assert_eq!(s.keys.name_str(999).unwrap(), "k:999");
}

#[test]
fn starting_a_new_scan_discards_the_previous_one() {
    let (s, _) = update(started(10), Msg::ScanBatch { keys: batch(5, 0) });
    assert_eq!(s.keys.len(), 5);
    let (s, _) = update(
        s,
        Msg::ScanStarted {
            estimated_total: 10,
        },
    );
    assert!(
        s.keys.is_empty(),
        "a filter change must not append to stale results"
    );
}

#[test]
fn reaching_the_cap_stops_the_scan_and_says_so() {
    let mut s = State {
        keys: LoadedSet::with_cap(600),
        ..State::default()
    };
    (s, _) = update(
        s,
        Msg::ScanStarted {
            estimated_total: 10_000,
        },
    );
    let (s, cmds) = update(
        s,
        Msg::ScanBatch {
            keys: batch(1_000, 0),
        },
    );

    assert_eq!(
        cmds,
        vec![Command::CancelScan],
        "the shell must be told to stop"
    );
    assert_eq!(s.keys.len(), 600);
    assert!(s.keys.is_capped());
    assert_eq!(s.scan, ScanState::Capped { at: 600 });
    assert!(s.scan.readout().contains("narrow the filter"));
}

#[test]
fn a_completion_arriving_after_the_cap_does_not_erase_it() {
    let mut s = State {
        keys: LoadedSet::with_cap(10),
        ..State::default()
    };
    (s, _) = update(
        s,
        Msg::ScanStarted {
            estimated_total: 100,
        },
    );
    (s, _) = update(s, Msg::ScanBatch { keys: batch(50, 0) });
    assert!(matches!(s.scan, ScanState::Capped { .. }));

    let (s, _) = update(s, Msg::ScanComplete);
    assert!(
        matches!(s.scan, ScanState::Capped { .. }),
        "the cap is the story"
    );

    let mut s2 = State {
        keys: LoadedSet::with_cap(10),
        ..State::default()
    };
    (s2, _) = update(
        s2,
        Msg::ScanStarted {
            estimated_total: 100,
        },
    );
    (s2, _) = update(s2, Msg::ScanBatch { keys: batch(50, 0) });
    let (s2, _) = update(s2, Msg::ScanCancelled);
    assert!(matches!(s2.scan, ScanState::Capped { .. }));
}

#[test]
fn completing_normally_reports_the_total() {
    let (s, _) = update(
        started(700),
        Msg::ScanBatch {
            keys: batch(700, 0),
        },
    );
    let (s, _) = update(s, Msg::ScanComplete);
    assert_eq!(s.scan, ScanState::Complete { total: 700 });
    assert_eq!(s.scan.readout(), "700 keys");
}

#[test]
fn esc_cancels_an_in_flight_scan() {
    let s = started(10_000);
    let (_, cmds) = update(s, Msg::Key(KeyPress::plain(KeyCode::Esc)));
    assert_eq!(cmds, vec![Command::CancelScan]);
}

#[test]
fn esc_closes_help_first_and_leaves_the_scan_alone() {
    let mut s = started(10_000);
    s.help_open = true;
    let (s, cmds) = update(s, Msg::Key(KeyPress::plain(KeyCode::Esc)));
    assert!(!s.help_open);
    assert!(cmds.is_empty());
    assert!(s.scan.is_running());
}

#[test]
fn esc_with_nothing_in_flight_does_nothing() {
    let (_, cmds) = update(State::default(), Msg::Key(KeyPress::plain(KeyCode::Esc)));
    assert!(cmds.is_empty());
}

#[test]
fn a_failed_scan_keeps_what_it_had_and_names_the_error() {
    let (s, _) = update(started(100), Msg::ScanBatch { keys: batch(30, 0) });
    let (s, _) = update(
        s,
        Msg::ScanFailed {
            error: "LOADING".into(),
        },
    );
    assert_eq!(s.keys.len(), 30, "partial results are still worth showing");
    assert!(s.scan.readout().contains("LOADING"));
}
