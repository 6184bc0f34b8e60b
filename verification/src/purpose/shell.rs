//! The session around the panes: the link to the server, the traversal of the
//! keys, what is said to the reader, the palette and the pointer.

use vstd::prelude::*;

use crate::command::{CommandView, ReadToken};
use crate::input::{KeyCode, KeyPress, MouseAction};
use crate::keymap::Action;
use crate::layout::{self, Rect};
use crate::msg::{MetadataEntry, Msg};
use crate::purpose::{self, list, value};
use crate::state::loaded::{KeyRow, LoadedView};
use crate::state::open::OpenView;
use crate::state::palette::{self, PaletteView};
use crate::state::session::StateView;
use crate::state::status::{
    Environment, LinkView, PendingReadView, ReadOnlyReason, ScanView, ServerCondition, Tracking,
};
use crate::text;
use crate::update::scan;

verus! {

// ── The link ────────────────────────────────────────────────────────────────

/// A connection is up, with the version of the server, and not live: tracking is
/// only available, or not even that. Where it is, the Open key is read, which
/// asks for tracking.
pub proof fn a_connection_reads_the_open_key(
    s: StateView,
    version: String,
    tracking_supported: bool,
)
    ensures
        ({
            let (after, commands) = s.updated(Msg::Connected { version, tracking_supported });
            &&& after.link == (LinkView::Up {
                version: version@,
                tracking: if tracking_supported {
                    Tracking::Available
                } else {
                    Tracking::Unsupported
                },
            })
            &&& s.open is None || !tracking_supported ==> {
                &&& commands.len() == 0
                &&& after == (StateView { link: after.link, ..s })
            }
            &&& s.open is Some && tracking_supported ==> {
                &&& commands.len() == 1
                &&& list::asks_for(
                    StateView { link: after.link, ..s },
                    after,
                    commands,
                    s.open->0.name,
                    s.open->0.index,
                    false,
                )
                &&& commands[0]->ReadKey_arm
                &&& after == (StateView {
                    link: after.link,
                    read_token: after.read_token,
                    open_pending: after.open_pending,
                    ..s
                })
            }
        }),
{
}

/// A lost connection is tried again at once, and no read is waited for; one that
/// is put off is tried again when it is said.
pub proof fn a_lost_connection_is_tried_again(s: StateView, attempt: u32, retry_in_ms: u64)
    ensures
        s.updated(Msg::ConnectionLost).0 == (StateView {
            open_pending: None,
            link: LinkView::Reconnecting { attempt: 1, retry_in_ms: None },
            ..s
        }),
        s.updated(Msg::ConnectionLost).1 == seq![CommandView::Reconnect { after_ms: 0 }],
        s.updated(Msg::ReconnectScheduled { attempt, retry_in_ms }).0 == (StateView {
            link: LinkView::Reconnecting { attempt, retry_in_ms: Some(retry_in_ms) },
            ..s
        }),
        s.updated(Msg::ReconnectScheduled { attempt, retry_in_ms }).1 == seq![
            CommandView::Reconnect { after_ms: retry_in_ms },
        ],
{
}

/// An accepted arming makes a link that can track live. A push from the server
/// uses it up, and the Open key is read again.
pub proof fn an_arming_is_used_up_by_a_push(s: StateView)
    ensures
        ({
            let (after, commands) = s.updated(Msg::TrackingArmed);
            &&& commands.len() == 0
            &&& after == (StateView { link: after.link, ..s })
            &&& after.link == (match s.link {
                LinkView::Up { version, tracking } => if tracking == Tracking::Unsupported {
                    s.link
                } else {
                    LinkView::Up { version, tracking: Tracking::Armed }
                },
                other => other,
            })
        }),
        ({
            let (after, commands) = s.updated(Msg::Invalidated);
            &&& after.link == (match s.link {
                LinkView::Up { version, tracking } => if tracking == Tracking::Armed {
                    LinkView::Up { version, tracking: Tracking::Consumed }
                } else {
                    s.link
                },
                other => other,
            })
            &&& s.open is None ==> commands.len() == 0 && after == (StateView {
                link: after.link,
                ..s
            })
            &&& s.open is Some ==> {
                &&& list::asks_for(s, after, commands, s.open->0.name, s.open->0.index, false)
                &&& after == (StateView {
                    link: after.link,
                    read_token: after.read_token,
                    open_pending: after.open_pending,
                    ..s
                })
            }
        }),
{
}

/// What the server says of writing outranks the reader; where it says nothing a
/// replica's guard falls back to that of the environment, and any other stays.
pub proof fn the_server_guards_against_writes(
    s: StateView,
    read_only: Option<ReadOnlyReason>,
    condition: Option<ServerCondition>,
)
    ensures
        ({
            let (after, commands) = s.updated(Msg::ServerState { read_only, condition });
            let guarded = s.connection.environment == Environment::Prod || s.connection.environment
                == Environment::Unknown;
            &&& commands.len() == 0
            &&& after.condition == condition
            &&& after == (StateView { read_only: after.read_only, condition, ..s })
            &&& read_only is Some ==> after.read_only == read_only
            &&& read_only is None && s.read_only != Some(ReadOnlyReason::Replica)
                ==> after.read_only == s.read_only
            &&& read_only is None && s.read_only == Some(ReadOnlyReason::Replica)
                ==> after.read_only == (if guarded {
                Some(ReadOnlyReason::Environment)
            } else {
                None
            })
        }),
{
}

// ── What is said ────────────────────────────────────────────────────────────

/// What is told to the reader is told as it is, with its time, and changes
/// nothing else. A failure also ends the wait for a read and an edit that is not
/// being typed.
pub proof fn what_is_said_is_shown(
    s: StateView,
    said: String,
    detail: String,
    at_ms: u64,
    token: ReadToken,
)
    ensures
        s.updated(Msg::Noticed { text: said, at_ms }).0 == (StateView {
            notice: Some((said@, at_ms)),
            ..s
        }),
        s.updated(Msg::Noticed { text: said, at_ms }).1.len() == 0,
        s.updated(Msg::Copied { label: said, at_ms }).0 == (StateView {
            notice: Some(("copied "@ + said@, at_ms)),
            ..s
        }),
        s.updated(Msg::Copied { label: said, at_ms }).1.len() == 0,
        s.updated(Msg::ReadCompleted { at_ms }).0 == (StateView { last_read_ms: Some(at_ms), ..s }),
        s.updated(Msg::ReadCompleted { at_ms }).1.len() == 0,
        s.updated(Msg::Quit).0 == (StateView { quitting: true, ..s }),
        s.updated(Msg::Quit).1 == seq![CommandView::Quit],
        s.updated(Msg::ReadIssued { token, at_ms }).1.len() == 0,
        s.updated(Msg::ReadIssued { token, at_ms }).0 == (StateView {
            open_pending: if s.open_pending is Some && s.open_pending->0.token == token {
                Some(PendingReadView { issued_at_ms: Some(at_ms), ..s.open_pending->0 })
            } else {
                s.open_pending
            },
            ..s
        }),
        ({
            let (after, commands) = s.updated(Msg::Failed { command: said, detail, at_ms });
            let kept = if purpose::is_typing(s) {
                s
            } else {
                purpose::writes::without_edit(s)
            };
            &&& commands.len() == 0
            &&& after == (StateView {
                open_pending: None,
                error: Some((said@ + ": "@ + detail@, at_ms)),
                ..kept
            })
        }),
{
}

// ── The traversal ───────────────────────────────────────────────────────────

/// A traversal begins with no keys, as many as the cap allows to come; the Open
/// key stays open, without a place among them.
pub proof fn a_traversal_begins_with_no_keys(s: StateView, estimated_total: u64)
    ensures
        ({
            let (after, commands) = s.updated(Msg::ScanStarted { estimated_total });
            &&& commands.len() == 0
            &&& after.keys.rows.len() == 0
            &&& after.keys.arena.len() == 0
            &&& after.keys.cap == s.keys.cap
            &&& after.scan == (ScanView::Running { scanned: 0, estimated_total })
            &&& purpose::draws_the_keys(after)
            &&& after.list.filter == s.list.filter
            &&& after.list.mode == s.list.mode
            &&& after.tree.collapsed == s.tree.collapsed
            &&& after == (StateView {
                keys: after.keys,
                scan: after.scan,
                list: after.list,
                tree: after.tree,
                view: after.view,
                open: after.open,
                ..s
            })
            &&& s.open is Some <==> after.open is Some
            &&& s.open is Some ==> after.open->0 == (OpenView {
                index: None,
                row: after.open->0.row,
                ..s.open->0
            })
        }),
{
    reveal(purpose::draws_the_keys);
}

/// The ends of a traversal say how many keys there are; one that the cap ended
/// already stays so. A failure is shown.
pub proof fn a_traversal_ends_with_its_count(s: StateView, error: String)
    ensures
        s.updated(Msg::ScanComplete).1.len() == 0,
        s.updated(Msg::ScanCancelled).1.len() == 0,
        s.updated(Msg::ScanFailed { error }).1.len() == 0,
        s.updated(Msg::ScanComplete).0 == (StateView {
            scan: if s.scan is Capped {
                s.scan
            } else {
                ScanView::Complete { total: s.keys.rows.len() as u64 }
            },
            ..s
        }),
        s.updated(Msg::ScanCancelled).0 == (StateView {
            scan: if s.scan is Capped {
                s.scan
            } else {
                ScanView::Cancelled { scanned: s.keys.rows.len() as u64 }
            },
            ..s
        }),
        s.updated(Msg::ScanFailed { error }).0 == (StateView {
            scan: ScanView::Failed { error: error@ },
            ..s
        }),
{
}

/// A page of keys comes behind those there are, as far as there is room. If all
/// of it fits, the list shows it under the filter and in the order that there
/// is, and what is not known of the keys on screen is asked for; otherwise the
/// traversal is stopped and says where.
pub proof fn a_page_is_listed(s: StateView, keys: Vec<Vec<u8>>)
    requires
        s.keys.wf(),
        s.keys.rows.len() <= s.keys.cap,
        s.keys.arena.len() + scan::total_len(text::byte_strings(keys@), 0) <= usize::MAX,
    ensures
        ({
            let (after, commands) = s.updated(Msg::ScanBatch { keys });
            let names = text::byte_strings(keys@);
            let room = s.keys.cap - s.keys.rows.len();
            &&& names.len() <= room ==> {
                &&& after.keys.names() == s.keys.names() + names
                &&& purpose::draws_the_keys(after)
                &&& purpose::asks_about_the_unknown(after, commands)
                &&& purpose::cursor_stays_on_its_key(s, after)
                &&& purpose::open_key_knows_its_row(after)
                &&& after.list.filter == s.list.filter
                &&& after.list.mode == s.list.mode
                &&& after.tree.collapsed == s.tree.collapsed
                &&& s.scan is Running ==> after.scan == (ScanView::Running {
                    scanned: after.keys.rows.len() as u64,
                    estimated_total: s.scan->estimated_total,
                })
                &&& !(s.scan is Running) ==> after.scan == s.scan
            }
            &&& names.len() > room ==> {
                &&& after.keys.names() == s.keys.names() + names.take(room)
                &&& after.scan == (ScanView::Capped { at: s.keys.cap })
                &&& commands == seq![CommandView::CancelScan]
                &&& after.list == s.list
                &&& after.tree == s.tree
                &&& after.view == s.view
            }
            &&& after == (StateView {
                keys: after.keys,
                open: after.open,
                scan: after.scan,
                list: after.list,
                tree: after.tree,
                view: after.view,
                ..s
            })
            &&& s.open is Some <==> after.open is Some
            &&& s.open is Some ==> after.open->0 == (OpenView {
                index: after.open->0.index,
                row: after.open->0.row,
                ..s.open->0
            })
        }),
{
    let names = text::byte_strings(keys@);
    scan::a_page_comes_behind_the_keys(s, names);
    loading_keeps_the_rest(s, names, s.looking_for(), 0);
    scan::loading_keeps_to_the_cap(s, names, s.looking_for(), 0);
    assert(names.take(names.len() as int) =~= names);
    reveal(purpose::draws_the_keys);
    let (after, commands) = s.updated(Msg::ScanBatch { keys });
    list::what_is_asked_is_on_screen(after);
    let loaded = s.loading(names, s.looking_for(), 0).0;
    if names.len() <= s.keys.cap - s.keys.rows.len() {
        let counted = StateView { scan: after.scan, ..loaded };
        list::a_new_list_is_found_in(counted);
        assert(after == counted.rebuilt());
        reveal(purpose::cursor_stays_on_its_key);
        assert forall|row: int| #[trigger] purpose::key_on(counted, row) == purpose::key_on(
            s,
            row,
        ) by {}
    }
}

/// An Open key that has lost its place has it again once a key of its name is
/// taken in, and one that has a place keeps it.
pub proof fn the_open_key_is_found_again(s: StateView, keys: Vec<Vec<u8>>)
    requires
        s.keys.wf(),
        s.keys.rows.len() <= s.keys.cap,
        s.keys.arena.len() + scan::total_len(text::byte_strings(keys@), 0) <= usize::MAX,
        text::byte_strings(keys@).len() <= s.keys.cap - s.keys.rows.len(),
        s.open is Some,
    ensures
        ({
            let after = s.updated(Msg::ScanBatch { keys }).0;
            let names = text::byte_strings(keys@);
            let place = after.open->0.index;
            &&& s.open->0.index is Some ==> place == s.open->0.index
            &&& s.open->0.index is None && names.contains(s.open->0.name) ==> place is Some
                && after.keys.name(place->0 as int) == Some(s.open->0.name)
            &&& s.open->0.index is None && !names.contains(s.open->0.name) ==> place is None
        }),
{
    let names = text::byte_strings(keys@);
    scan::a_page_comes_behind_the_keys(s, names);
    scan::loading_keeps_to_the_cap(s, names, s.looking_for(), 0);
    if s.open->0.index is None {
        scan::the_open_key_finds_its_own_place(s, names, 0);
        a_wanted_key_is_placed(s, names, s.open->0.name, 0);
        assert(names.skip(0) =~= names);
    } else {
        an_unwanted_key_stays(s, names, 0);
    }
}

proof fn a_wanted_key_is_placed(s: StateView, names: Seq<Seq<u8>>, wanted: Seq<u8>, i: int)
    requires
        0 <= i <= names.len(),
        s.open is Some,
        s.keys.rows.len() + names.len() - i <= s.keys.cap,
    ensures
        ({
            let after = s.loading(names, Some(wanted), i).0;
            &&& after.open is Some
            &&& names.skip(i).contains(wanted) || s.open->0.index is Some
                ==> after.open->0.index is Some
            &&& !names.skip(i).contains(wanted) ==> after.open->0.index == s.open->0.index
        }),
    decreases names.len() - i,
{
    if i < names.len() {
        let one = s.with_key(names[i], Some(wanted));
        a_wanted_key_is_placed(one, names, wanted, i + 1);
        let here = names.skip(i);
        let rest = names.skip(i + 1);
        assert(here =~= seq![names[i]] + rest);
        assert(here[0] == names[i]);
        if rest.contains(wanted) {
            let k = rest.index_of(wanted);
            assert(here[k + 1] == wanted);
        }
        if here.contains(wanted) && names[i] != wanted {
            let k = here.index_of(wanted);
            assert(rest[k - 1] == wanted);
        }
    }
}

proof fn an_unwanted_key_stays(s: StateView, names: Seq<Seq<u8>>, i: int)
    ensures
        s.loading(names, None, i).0.open == s.open,
    decreases names.len() - i,
{
    if i < names.len() && !s.keys.is_full() {
        an_unwanted_key_stays(s.with_key(names[i], None), names, i + 1);
    }
}

/// Taking keys in changes nothing but the keys and the place of the Open key.
proof fn loading_keeps_the_rest(
    s: StateView,
    names: Seq<Seq<u8>>,
    wanted: Option<Seq<u8>>,
    i: int,
)
    ensures
        ({
            let after = s.loading(names, wanted, i).0;
            &&& after == (StateView { keys: after.keys, open: after.open, ..s })
            &&& s.open is Some <==> after.open is Some
            &&& s.open is Some ==> after.open->0 == (OpenView {
                index: after.open->0.index,
                ..s.open->0
            })
        }),
    decreases names.len() - i,
{
    if i < names.len() && !s.keys.is_full() {
        loading_keeps_the_rest(s.with_key(names[i], wanted), names, wanted, i + 1);
    }
}

/// What the server said about a key goes to that key's row: the last entry about
/// it counts, and a row that nothing is said about stays as it is. A key told
/// gone is gone, whatever an entry said.
pub proof fn metadata_goes_to_its_own_row(
    s: StateView,
    entries: Vec<MetadataEntry>,
    gone: Vec<usize>,
    at_ms: u64,
    row: int,
)
    requires
        0 <= row < s.keys.rows.len(),
    ensures
        ({
            let after = s.updated(Msg::MetadataBatch { entries, gone, at_ms }).0;
            let was = s.keys.rows[row];
            let is = after.keys.rows[row];
            let said = exists|k: int|
                0 <= k < entries@.len() && (#[trigger] entries@[k]).index == row;
            let dead = exists|k: int| 0 <= k < gone@.len() && #[trigger] gone@[k] == row;
            &&& after.keys.rows.len() == s.keys.rows.len()
            &&& after.keys.arena == s.keys.arena
            &&& after.keys.cap == s.keys.cap
            &&& after == (StateView {
                keys: after.keys,
                read_token: after.read_token,
                open_pending: after.open_pending,
                ..s
            })
            &&& !said && !dead ==> is == was
            &&& dead ==> is.gone && is.kind is None
            &&& said && !dead ==> exists|k: int|
                is_last_about(entries@, k, row) && is == row_told(
                    was,
                    #[trigger] entries@[k],
                    at_ms,
                )
        }),
{
    let e = entries@;
    let n = e.len() as int;
    let seconds = (at_ms / 1000) as u32;
    describing_goes_to_its_own_row(s.keys, e, at_ms, n, row);
    burying_goes_to_its_own_row(s.keys.described(e, seconds, n), gone@, gone@.len() as int, row);
    reveal(is_told);
}

/// Whether entry `k` is the last about row `row`.
pub open spec fn is_last_about(entries: Seq<MetadataEntry>, k: int, row: int) -> bool {
    &&& 0 <= k < entries.len()
    &&& entries[k].index == row
    &&& forall|j: int| k < j < entries.len() ==> (#[trigger] entries[j]).index != row
}

/// A row after what an entry said about it.
pub open spec fn row_told(was: KeyRow, entry: MetadataEntry, at_ms: u64) -> KeyRow {
    KeyRow {
        kind: Some(entry.kind),
        gone: false,
        ttl: Some(entry.ttl_seconds),
        ttl_read_at_s: (at_ms / 1000) as u32,
        size: Some(entry.size_bytes),
        ..was
    }
}

#[verifier::opaque]
spec fn is_told(
    keys: LoadedView,
    e: Seq<MetadataEntry>,
    at_ms: u64,
    n: int,
    row: int,
    is: KeyRow,
) -> bool {
    exists|k: int|
        0 <= k < n && (#[trigger] e[k]).index == row && is == row_told(keys.rows[row], e[k], at_ms)
            && forall|j: int| k < j < n ==> (#[trigger] e[j]).index != row
}

proof fn what_is_told_stays_told(
    keys: LoadedView,
    e: Seq<MetadataEntry>,
    at_ms: u64,
    n: int,
    row: int,
    is: KeyRow,
)
    requires
        0 < n <= e.len(),
        e[n - 1].index != row,
        is_told(keys, e, at_ms, n - 1, row, is),
    ensures
        is_told(keys, e, at_ms, n, row, is),
{
    reveal(is_told);
}

proof fn the_last_tells(
    keys: LoadedView,
    e: Seq<MetadataEntry>,
    at_ms: u64,
    n: int,
    row: int,
)
    requires
        0 < n <= e.len(),
        e[n - 1].index == row,
    ensures
        is_told(keys, e, at_ms, n, row, row_told(keys.rows[row], e[n - 1], at_ms)),
{
    reveal(is_told);
}

proof fn describing_goes_to_its_own_row(
    keys: LoadedView,
    e: Seq<MetadataEntry>,
    at_ms: u64,
    n: int,
    row: int,
)
    requires
        0 <= n <= e.len(),
        0 <= row < keys.rows.len(),
    ensures
        ({
            let after = keys.described(e, (at_ms / 1000) as u32, n);
            &&& after.rows.len() == keys.rows.len()
            &&& after.arena == keys.arena
            &&& after.cap == keys.cap
            &&& after.rows[row].offset == keys.rows[row].offset
            &&& after.rows[row].len == keys.rows[row].len
            &&& (forall|k: int| 0 <= k < n ==> (#[trigger] e[k]).index != row)
                ==> after.rows[row] == keys.rows[row]
            &&& (exists|k: int| 0 <= k < n && (#[trigger] e[k]).index == row) ==> is_told(
                keys,
                e,
                at_ms,
                n,
                row,
                after.rows[row],
            )
        }),
    decreases n,
{
    if n > 0 {
        describing_goes_to_its_own_row(keys, e, at_ms, n - 1, row);
        let before = keys.described(e, (at_ms / 1000) as u32, n - 1);
        let after = keys.described(e, (at_ms / 1000) as u32, n);
        if e[n - 1].index != row {
            assert(after.rows[row] == before.rows[row]);
            if exists|k: int| 0 <= k < n && (#[trigger] e[k]).index == row {
                what_is_told_stays_told(keys, e, at_ms, n, row, after.rows[row]);
            }
        } else {
            assert(after.rows[row] == row_told(keys.rows[row], e[n - 1], at_ms));
            the_last_tells(keys, e, at_ms, n, row);
        }
    }
}

proof fn burying_goes_to_its_own_row(keys: LoadedView, gone: Seq<usize>, n: int, row: int)
    requires
        0 <= n <= gone.len(),
        0 <= row < keys.rows.len(),
    ensures
        ({
            let after = keys.buried(gone, n);
            &&& after.rows.len() == keys.rows.len()
            &&& after.arena == keys.arena
            &&& after.cap == keys.cap
            &&& (forall|k: int| 0 <= k < n ==> #[trigger] gone[k] != row) ==> after.rows[row]
                == keys.rows[row]
            &&& (exists|k: int| 0 <= k < n && #[trigger] gone[k] == row) ==> after.rows[row].gone
                && after.rows[row].kind is None
        }),
    decreases n,
{
    if n > 0 {
        burying_goes_to_its_own_row(keys, gone, n - 1, row);
    }
}

/// The Open key is read again exactly where the list and the value pane then say
/// different things about it: the one that it is gone, the other that it is not.
pub proof fn panes_that_disagree_are_settled(
    s: StateView,
    entries: Vec<MetadataEntry>,
    gone: Vec<usize>,
    at_ms: u64,
)
    ensures
        ({
            let (after, commands) = s.updated(Msg::MetadataBatch { entries, gone, at_ms });
            let open = s.open->0;
            let placed = s.open is Some && open.index is Some;
            let alive = exists|k: int|
                0 <= k < entries@.len() && (#[trigger] entries@[k]).index == open.index->0;
            let dead = gone@.contains(open.index->0);
            let disagree = placed && (if open.deleted_at_ms is Some {
                alive
            } else {
                dead
            });
            &&& disagree ==> list::asks_for(s, after, commands, open.name, open.index, false)
            &&& !disagree ==> {
                &&& commands.len() == 0
                &&& after.read_token == s.read_token
                &&& after.open_pending == s.open_pending
            }
        }),
{
}

// ── The palette ─────────────────────────────────────────────────────────────

/// `Esc` closes the palette and does nothing else; `Enter` closes it and performs
/// the action under its cursor.
pub proof fn the_palette_performs_what_it_highlights(s: StateView, key: KeyPress)
    requires
        s.palette is Some,
        s.confirm is None,
        !purpose::is_typing(s),
        !s.filtering,
    ensures
        ({
            let (after, commands) = s.updated(Msg::Key(key));
            let palette = s.palette->0;
            let closed = StateView { palette: None, ..s };
            &&& key.code == KeyCode::Esc ==> after == closed && commands.len() == 0
            &&& key.code == KeyCode::Enter ==> {
                if palette.selected < palette.matches.len() {
                    (after, commands) == closed.performed(palette.matches[palette.selected as int])
                } else {
                    after == closed && commands.len() == 0
                }
            }
        }),
{
}

/// Typing in the palette makes the query longer at its end, Backspace shorter;
/// the list is then of the actions whose names the query asks for, in the order
/// of all actions, from the top. The arrows move the cursor by one, as far as
/// there are rows.
pub proof fn the_palette_follows_its_query(s: StateView, key: KeyPress)
    requires
        s.palette is Some,
        s.confirm is None,
        !purpose::is_typing(s),
        !s.filtering,
        key.code != KeyCode::Esc,
        key.code != KeyCode::Enter,
        s.palette->0.matches.len() <= usize::MAX,
    ensures
        ({
            let (after, commands) = s.updated(Msg::Key(key));
            let was = s.palette->0;
            let is = after.palette->0;
            let typed = key.code is Char && !key.ctrl && !key.alt;
            let last = was.matches.len() - 1;
            &&& commands.len() == 0
            &&& after.palette is Some
            &&& after == (StateView { palette: after.palette, ..s })
            &&& key.code == KeyCode::Backspace ==> is.query == (if was.query.len() == 0 {
                was.query
            } else {
                was.query.drop_last()
            })
            &&& typed ==> is.query == was.query.push(key.code->0)
            &&& typed || key.code == KeyCode::Backspace ==> {
                &&& is.matches == Action::all().filter(
                    |action: Action| palette::fuzzy(is.query, action.name()),
                )
                &&& is.selected == 0
            }
            &&& key.code == KeyCode::Down ==> is == (PaletteView { selected: is.selected, ..was })
                && (last >= 0 ==> is.selected == list::within(was.selected + 1, last))
            &&& key.code == KeyCode::Up ==> is == (PaletteView { selected: is.selected, ..was })
                && (last >= 0 ==> is.selected == list::within(was.selected - 1, last))
            &&& !typed && key.code != KeyCode::Backspace && key.code != KeyCode::Up && key.code
                != KeyCode::Down ==> is == was
        }),
{
    let is = s.updated(Msg::Key(key)).0.palette->0;
    assert(palette::asked_for(is.query) =~= (|action: Action| palette::fuzzy(
        is.query,
        action.name(),
    )));
}

/// Whether these places in a name hold the letters of a query, in either case,
/// from left to right.
pub open spec fn spells(query: Seq<char>, name: Seq<char>, at: Seq<int>) -> bool {
    &&& at.len() == query.len()
    &&& forall|i: int|
        0 <= i < at.len() ==> 0 <= #[trigger] at[i] < name.len() && text::lower(query[i])
            == text::lower(name[at[i]])
    &&& forall|i: int, j: int| 0 <= i < j < at.len() ==> #[trigger] at[i] < #[trigger] at[j]
}

/// A name is asked for if the letters of the query stand in it in that order.
pub proof fn a_spelled_name_is_asked_for(query: Seq<char>, name: Seq<char>, at: Seq<int>)
    requires
        spells(query, name, at),
    ensures
        palette::fuzzy(query, name),
    decreases name.len(),
{
    if query.len() > 0 {
        assert(at[0] < name.len());
        if at[0] == 0 || text::lower(query[0]) == text::lower(name[0]) {
            let rest = Seq::new((at.len() - 1) as nat, |i: int| at[i + 1] - 1);
            assert(spells(query.skip(1), name.skip(1), rest)) by {
                assert forall|i: int| 0 <= i < rest.len() implies 0 <= #[trigger] rest[i]
                    < name.skip(1).len() && text::lower(query.skip(1)[i]) == text::lower(
                    name.skip(1)[rest[i]],
                ) by {
                    assert(at[0] < at[i + 1]);
                    assert(0 <= at[i + 1] < name.len());
                }
                assert forall|i: int, j: int| 0 <= i < j < rest.len() implies #[trigger] rest[i]
                    < #[trigger] rest[j] by {
                    assert(at[i + 1] < at[j + 1]);
                }
            }
            a_spelled_name_is_asked_for(query.skip(1), name.skip(1), rest);
        } else {
            let back = Seq::new(at.len(), |i: int| at[i] - 1);
            assert(spells(query, name.skip(1), back)) by {
                assert forall|i: int| 0 <= i < back.len() implies 0 <= #[trigger] back[i]
                    < name.skip(1).len() && text::lower(query[i]) == text::lower(
                    name.skip(1)[back[i]],
                ) by {
                    if i > 0 {
                        assert(at[0] < at[i]);
                    }
                    assert(0 <= at[i] < name.len());
                }
                assert forall|i: int, j: int| 0 <= i < j < back.len() implies #[trigger] back[i]
                    < #[trigger] back[j] by {
                    assert(at[i] < at[j]);
                }
            }
            a_spelled_name_is_asked_for(query, name.skip(1), back);
        }
    }
}

/// And only then.
pub proof fn what_is_asked_for_is_spelled(query: Seq<char>, name: Seq<char>) -> (at: Seq<int>)
    requires
        palette::fuzzy(query, name),
    ensures
        spells(query, name, at),
    decreases name.len(),
{
    if query.len() == 0 {
        Seq::empty()
    } else if text::lower(query[0]) == text::lower(name[0]) {
        let rest = what_is_asked_for_is_spelled(query.skip(1), name.skip(1));
        let at = Seq::new(rest.len() + 1, |i: int| if i == 0 { 0 } else { rest[i - 1] + 1 });
        assert forall|i: int| 0 <= i < at.len() implies 0 <= #[trigger] at[i] < name.len()
            && text::lower(query[i]) == text::lower(name[at[i]]) by {
            if i > 0 {
                assert(0 <= rest[i - 1] < name.skip(1).len());
            }
        }
        assert forall|i: int, j: int| 0 <= i < j < at.len() implies #[trigger] at[i]
            < #[trigger] at[j] by {
            assert(0 <= rest[j - 1]);
            if i > 0 {
                assert(rest[i - 1] < rest[j - 1]);
            }
        }
        at
    } else {
        let back = what_is_asked_for_is_spelled(query, name.skip(1));
        let at = Seq::new(back.len(), |i: int| back[i] + 1);
        assert forall|i: int| 0 <= i < at.len() implies 0 <= #[trigger] at[i] < name.len()
            && text::lower(query[i]) == text::lower(name[at[i]]) by {
            assert(0 <= back[i] < name.skip(1).len());
        }
        assert forall|i: int, j: int| 0 <= i < j < at.len() implies #[trigger] at[i]
            < #[trigger] at[j] by {
            assert(back[i] < back[j]);
        }
        at
    }
}

// ── The pointer on the divider ──────────────────────────────────────────────

/// A held divider goes to the column under the pointer: the keys pane is as wide
/// as it would be, moved by as much, if sixteen bits can say so. What is open is
/// only wrapped anew.
pub proof fn a_held_divider_follows(s: StateView, col: u16, row: u16)
    requires
        s.resizing_split,
    ensures
        ({
            let (after, commands) = s.updated(Msg::Mouse(MouseAction::Drag { col, row }));
            let whole = Rect { x: 0, y: 0, width: s.cols, height: s.rows };
            let base = layout::plan(whole, s.focus, 0).keys.width;
            &&& commands.len() == 0
            &&& i16::MIN <= col - base <= i16::MAX ==> after.split_adjust == col - base
            &&& after == (StateView { split_adjust: after.split_adjust, open: after.open, ..s })
            &&& value::is_only_wrapped_anew(s, after)
        }),
{
}

} // verus!
