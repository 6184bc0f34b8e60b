//! The traversal of the keyspace: keys as they arrive, up to the one cap, and
//! the metadata fetched for those on screen.

use vstd::prelude::*;

use crate::command::{nothing, only, Command, CommandView};
use crate::key::KeyName;
use crate::msg::MetadataEntry;
use crate::state::loaded::LoadedView;
use crate::state::open::OpenView;
use crate::state::session::{State, StateView};
use crate::state::status::{ScanState, ScanView};
use crate::text;
use crate::update::keys::fetch_metadata;
use crate::update::reads::{self, epoch_secs, refetch};
use crate::update::Outcome;

verus! {

impl LoadedView {
    /// What the server said about the first `n` of these keys taken in.
    pub open spec fn described(
        self,
        entries: Seq<MetadataEntry>,
        read_at_s: u32,
        n: int,
    ) -> LoadedView
        decreases n,
    {
        if n <= 0 {
            self
        } else {
            let e = entries[n - 1];
            self.described(entries, read_at_s, n - 1).with_kind(e.index as int, e.kind).with_ttl(
                e.index as int,
                e.ttl_seconds,
                read_at_s,
            ).with_size(e.index as int, e.size_bytes)
        }
    }

    /// The first `n` of these keys told gone.
    pub open spec fn buried(self, gone: Seq<usize>, n: int) -> LoadedView
        decreases n,
    {
        if n <= 0 {
            self
        } else {
            self.buried(gone, n - 1).with_gone(gone[n - 1] as int)
        }
    }
}

/// Whether one of the entries is about key `index`.
pub open spec fn describes(entries: Seq<MetadataEntry>, index: usize) -> bool {
    exists|k: int| 0 <= k < entries.len() && (#[trigger] entries[k]).index == index
}

impl StateView {
    /// A traversal begun: the keys go, and the Open key keeps everything but
    /// its place among them.
    pub open spec fn scan_started(self, estimated_total: u64) -> StateView {
        let emptied = StateView {
            keys: self.keys.cleared(),
            open: match self.open {
                Some(open) => Some(OpenView { index: None, ..open }),
                None => None,
            },
            ..self
        };
        StateView {
            scan: ScanView::Running { scanned: 0, estimated_total },
            ..emptied.rebuilt()
        }
    }

    /// The name to watch for: that of an Open key that has lost its place.
    pub open spec fn looking_for(self) -> Option<Seq<u8>> {
        match self.open {
            Some(open) => if open.index is None {
                Some(open.name)
            } else {
                None
            },
            None => None,
        }
    }

    /// One more key. If it is the one watched for, the Open key has its place
    /// again.
    pub open spec fn with_key(self, name: Seq<u8>, wanted: Option<Seq<u8>>) -> StateView {
        StateView {
            keys: self.keys.with_key(name),
            open: match self.open {
                Some(open) => if wanted == Some(name) {
                    Some(OpenView { index: Some(self.keys.rows.len() as usize), ..open })
                } else {
                    Some(open)
                },
                None => None,
            },
            ..self
        }
    }

    /// The keys from the `i`th on taken in while there is room, and whether
    /// they did not all fit.
    pub open spec fn loading(
        self,
        names: Seq<Seq<u8>>,
        wanted: Option<Seq<u8>>,
        i: int,
    ) -> (StateView, bool)
        decreases names.len() - i,
    {
        if i >= names.len() {
            (self, false)
        } else if self.keys.is_full() {
            (self, true)
        } else {
            self.with_key(names[i], wanted).loading(names, wanted, i + 1)
        }
    }

    /// A page of keys. One that does not fit stops the traversal.
    pub open spec fn scan_batch(self, names: Seq<Seq<u8>>) -> Outcome {
        let (loaded, full) = self.loading(names, self.looking_for(), 0);
        if full {
            (
                StateView {
                    scan: ScanView::Capped { at: loaded.keys.rows.len() as usize },
                    ..loaded
                },
                seq![CommandView::CancelScan],
            )
        } else {
            let next = StateView {
                scan: match loaded.scan {
                    ScanView::Running { estimated_total, .. } => ScanView::Running {
                        scanned: loaded.keys.rows.len() as u64,
                        estimated_total,
                    },
                    other => other,
                },
                ..loaded
            }.rebuilt();
            (next, next.metadata_wanted())
        }
    }

    /// Whether the list and the value pane say different things about the Open
    /// key once these entries are taken in.
    pub open spec fn panes_disagree(self, entries: Seq<MetadataEntry>, gone: Seq<usize>) -> bool {
        match self.open {
            Some(open) => match open.index {
                Some(index) => if open.deleted_at_ms is Some {
                    describes(entries, index)
                } else {
                    gone.contains(index)
                },
                None => false,
            },
            None => false,
        }
    }

    /// Metadata taken in. Where the panes then disagree, the server is asked.
    pub open spec fn metadata_batch(
        self,
        entries: Seq<MetadataEntry>,
        gone: Seq<usize>,
        at_ms: u64,
    ) -> Outcome {
        let told = StateView {
            keys: self.keys.described(
                entries,
                reads::seconds_of(at_ms),
                entries.len() as int,
            ).buried(gone, gone.len() as int),
            ..self
        };
        if self.panes_disagree(entries, gone) {
            told.refetched()
        } else {
            told.unchanged()
        }
    }

    /// A traversal ended, unless the cap ended it already.
    pub open spec fn scan_ended(self, scan: ScanView) -> StateView {
        if self.scan is Capped {
            self
        } else {
            StateView { scan, ..self }
        }
    }
}

/// A traversal begins.
pub fn scan_started(state: State, estimated_total: u64) -> (r: (State, Vec<Command>))
    ensures
        r.0@ == state@.scan_started(estimated_total),
        Command::list(r.1@) == Seq::<CommandView>::empty(),
{
    let mut next = state;
    next.keys.clear();
    if let Some(open) = &mut next.open {
        open.index = None;
    }
    next.rebuild_list();
    next.scan = ScanState::Running { scanned: 0, estimated_total };
    (next, nothing())
}

fn is_wanted(wanted: &Option<KeyName>, name: &Vec<u8>) -> (r: bool)
    ensures
        r == (match *wanted {
            Some(wanted) => wanted@ == name@,
            None => false,
        }),
{
    match wanted {
        Some(wanted) => text::same_bytes(wanted.as_bytes(), name.as_slice()),
        None => false,
    }
}

fn load(state: &mut State, names: &Vec<Vec<u8>>, wanted: &Option<KeyName>) -> (full: bool)
    ensures
        (final(state)@, full) == old(state)@.loading(
            text::byte_strings(names@),
            wanted_view(*wanted),
            0,
        ),
{
    let ghost all = text::byte_strings(names@);
    let ghost sought = wanted_view(*wanted);
    let mut i: usize = 0;
    while i < names.len()
        invariant
            i <= names@.len(),
            all == text::byte_strings(names@),
            sought == wanted_view(*wanted),
            state@.loading(all, sought, i as int) == old(state)@.loading(all, sought, 0),
        decreases names@.len() - i,
    {
        let index: usize = state.keys.len();
        assert(all[i as int] == names@[i as int]@);
        if !state.keys.push(names[i].as_slice()) {
            return true;
        }
        if is_wanted(wanted, &names[i]) {
            if let Some(open) = &mut state.open {
                open.index = Some(index);
            }
        }
        i = i + 1;
    }
    false
}

/// The name that is watched for.
pub open spec fn wanted_view(wanted: Option<KeyName>) -> Option<Seq<u8>> {
    match wanted {
        Some(name) => Some(name@),
        None => None,
    }
}

/// Takes a page of keys in, and stops the traversal at the cap. Nothing else
/// adds to the Loaded set.
pub fn scan_batch(state: State, keys: Vec<Vec<u8>>) -> (r: (State, Vec<Command>))
    ensures
        r.0@ == state@.scan_batch(text::byte_strings(keys@)).0,
        Command::list(r.1@) == state@.scan_batch(text::byte_strings(keys@)).1,
{
    let wanted: Option<KeyName> = match &state.open {
        Some(open) => if open.index.is_none() {
            Some(open.name.clone())
        } else {
            None
        },
        None => None,
    };
    let mut next = state;
    if load(&mut next, &keys, &wanted) {
        next.scan = ScanState::Capped { at: next.keys.len() };
        return (next, only(Command::CancelScan));
    }
    let running: Option<u64> = match &next.scan {
        ScanState::Running { estimated_total, .. } => Some(*estimated_total),
        _ => None,
    };
    if let Some(estimated_total) = running {
        next.scan = ScanState::Running { scanned: next.keys.len() as u64, estimated_total };
    }
    next.rebuild_list();
    let commands = fetch_metadata(&next);
    (next, commands)
}

fn describe(state: &mut State, entries: &Vec<MetadataEntry>, read_at_s: u32)
    ensures
        final(state)@ == (StateView {
            keys: old(state)@.keys.described(entries@, read_at_s, entries@.len() as int),
            ..old(state)@
        }),
{
    let mut i: usize = 0;
    while i < entries.len()
        invariant
            i <= entries@.len(),
            state@ == (StateView {
                keys: old(state)@.keys.described(entries@, read_at_s, i as int),
                ..old(state)@
            }),
        decreases entries@.len() - i,
    {
        let e = entries[i];
        state.keys.set_kind(e.index, e.kind);
        state.keys.set_ttl(e.index, e.ttl_seconds, read_at_s);
        state.keys.set_size(e.index, e.size_bytes);
        i = i + 1;
    }
}

/// A key told gone keeps its row: taking it away would renumber everything
/// below it.
fn bury(state: &mut State, gone: &Vec<usize>)
    ensures
        final(state)@ == (StateView {
            keys: old(state)@.keys.buried(gone@, gone@.len() as int),
            ..old(state)@
        }),
{
    let mut i: usize = 0;
    while i < gone.len()
        invariant
            i <= gone@.len(),
            state@ == (StateView {
                keys: old(state)@.keys.buried(gone@, i as int),
                ..old(state)@
            }),
        decreases gone@.len() - i,
    {
        state.keys.set_gone(gone[i]);
        i = i + 1;
    }
}

fn describes_key(entries: &Vec<MetadataEntry>, index: usize) -> (r: bool)
    ensures
        r == describes(entries@, index),
{
    let mut i: usize = 0;
    while i < entries.len()
        invariant
            i <= entries@.len(),
            forall|k: int| 0 <= k < i ==> (#[trigger] entries@[k]).index != index,
        decreases entries@.len() - i,
    {
        if entries[i].index == index {
            return true;
        }
        i = i + 1;
    }
    false
}

fn lists(gone: &Vec<usize>, index: usize) -> (r: bool)
    ensures
        r == gone@.contains(index),
{
    let mut i: usize = 0;
    while i < gone.len()
        invariant
            i <= gone@.len(),
            forall|k: int| 0 <= k < i ==> #[trigger] gone@[k] != index,
        decreases gone@.len() - i,
    {
        if gone[i] == index {
            return true;
        }
        i = i + 1;
    }
    false
}

/// Takes metadata in. Where the list and the value pane then disagree about the
/// Open key, neither is believed: the key is read again.
pub fn metadata_batch(
    state: State,
    entries: Vec<MetadataEntry>,
    gone: Vec<usize>,
    at_ms: u64,
) -> (r: (State, Vec<Command>))
    ensures
        r.0@ == state@.metadata_batch(entries@, gone@, at_ms).0,
        Command::list(r.1@) == state@.metadata_batch(entries@, gone@, at_ms).1,
{
    let disagree: bool = match &state.open {
        Some(open) => match open.index {
            Some(index) => if open.deleted_at_ms.is_some() {
                describes_key(&entries, index)
            } else {
                lists(&gone, index)
            },
            None => false,
        },
        None => false,
    };
    let mut next = state;
    describe(&mut next, &entries, epoch_secs(at_ms));
    bury(&mut next, &gone);
    if disagree {
        let commands = refetch(&mut next);
        return (next, commands);
    }
    (next, nothing())
}

/// The traversal reached its end.
pub fn scan_complete(state: State) -> (r: (State, Vec<Command>))
    ensures
        r.0@ == state@.scan_ended(ScanView::Complete { total: state@.keys.rows.len() as u64 }),
        Command::list(r.1@) == Seq::<CommandView>::empty(),
{
    let mut next = state;
    if !next.scan.is_capped() {
        next.scan = ScanState::Complete { total: next.keys.len() as u64 };
    }
    (next, nothing())
}

/// The traversal was given up.
pub fn scan_cancelled(state: State) -> (r: (State, Vec<Command>))
    ensures
        r.0@ == state@.scan_ended(
            ScanView::Cancelled { scanned: state@.keys.rows.len() as u64 },
        ),
        Command::list(r.1@) == Seq::<CommandView>::empty(),
{
    let mut next = state;
    if !next.scan.is_capped() {
        next.scan = ScanState::Cancelled { scanned: next.keys.len() as u64 };
    }
    (next, nothing())
}

/// The traversal failed. What it brought stays.
pub fn scan_failed(state: State, error: String) -> (r: (State, Vec<Command>))
    ensures
        r.0@ == (StateView { scan: ScanView::Failed { error: error@ }, ..state@ }),
        Command::list(r.1@) == Seq::<CommandView>::empty(),
{
    let mut next = state;
    next.scan = ScanState::Failed { error };
    (next, nothing())
}

/// Loading keeps to the cap and drops nothing that fits: keys are only ever
/// added behind the others, and all of them are, unless the set is full.
pub proof fn loading_keeps_to_the_cap(
    s: StateView,
    names: Seq<Seq<u8>>,
    wanted: Option<Seq<u8>>,
    i: int,
)
    requires
        0 <= i <= names.len(),
        s.keys.rows.len() <= s.keys.cap,
    ensures
        ({
            let (after, full) = s.loading(names, wanted, i);
            &&& after.keys.rows.len() <= after.keys.cap
            &&& after.keys.cap == s.keys.cap
            &&& full ==> after.keys.rows.len() == s.keys.cap
            &&& !full ==> after.keys.rows.len() == s.keys.rows.len() + names.len() - i
            &&& after.keys.rows.take(s.keys.rows.len() as int) == s.keys.rows
        }),
    decreases names.len() - i,
{
    if i < names.len() && !s.keys.is_full() {
        let one = s.with_key(names[i], wanted);
        loading_keeps_to_the_cap(one, names, wanted, i + 1);
        let after = one.loading(names, wanted, i + 1).0;
        assert(after.keys.rows.take(s.keys.rows.len() as int) =~= after.keys.rows.take(
            one.keys.rows.len() as int,
        ).take(s.keys.rows.len() as int));
        assert(one.keys.rows.take(s.keys.rows.len() as int) =~= s.keys.rows);
    } else {
        assert(s.keys.rows.take(s.keys.rows.len() as int) =~= s.keys.rows);
    }
}

/// The names of the keys that fit stand behind those that were there, in the
/// order in which they came.
proof fn loading_appends_the_names(
    s: StateView,
    names: Seq<Seq<u8>>,
    wanted: Option<Seq<u8>>,
    i: int,
)
    requires
        0 <= i <= names.len(),
        s.keys.wf(),
        s.keys.arena.len() + total_len(names, i) <= usize::MAX,
    ensures
        ({
            let (after, full) = s.loading(names, wanted, i);
            let n = after.keys.rows.len() - s.keys.rows.len();
            &&& after.keys.wf()
            &&& 0 <= n <= names.len() - i
            &&& full == (n < names.len() - i)
            &&& after.keys.names() == s.keys.names() + names.subrange(i, i + n)
        }),
    decreases names.len() - i,
{
    if i < names.len() && !s.keys.is_full() {
        let one = s.with_key(names[i], wanted);
        crate::state::loaded::a_loaded_key_keeps_its_place(s.keys, names[i]);
        loading_appends_the_names(one, names, wanted, i + 1);
        let after = s.loading(names, wanted, i).0;
        let n = after.keys.rows.len() - s.keys.rows.len();
        assert(s.keys.names().push(names[i]) + names.subrange(i + 1, i + n) =~= s.keys.names()
            + names.subrange(i, i + n));
    } else {
        assert(s.keys.names() + names.subrange(i, i) =~= s.keys.names());
    }
}

/// A page of keys is taken in as far as there is room: the names afterwards are
/// those from before, followed in order by the first of the page, all of them
/// unless the cap is reached. One that did not fit as a whole stops the
/// traversal, which says so; otherwise what is not known of the keys on screen
/// is asked for.
pub proof fn a_page_comes_behind_the_keys(s: StateView, names: Seq<Seq<u8>>)
    requires
        s.keys.wf(),
        s.keys.rows.len() <= s.keys.cap,
        s.keys.arena.len() + total_len(names, 0) <= usize::MAX,
    ensures
        ({
            let (after, commands) = s.scan_batch(names);
            let room = s.keys.cap - s.keys.rows.len();
            let n = after.keys.rows.len() - s.keys.rows.len();
            &&& n == (if names.len() <= room {
                names.len() as int
            } else {
                room
            })
            &&& after.keys.wf()
            &&& after.keys.names() == s.keys.names() + names.take(n)
            &&& after.keys.rows.len() <= after.keys.cap
            &&& after.keys.cap == s.keys.cap
            &&& n < names.len() <==> commands == seq![CommandView::CancelScan]
            &&& n < names.len() ==> after.scan is Capped && after.scan->at
                == after.keys.rows.len()
            &&& n == names.len() ==> commands == after.metadata_wanted()
        }),
{
    let wanted = s.looking_for();
    let (loaded, full) = s.loading(names, wanted, 0);
    loading_keeps_to_the_cap(s, names, wanted, 0);
    loading_appends_the_names(s, names, wanted, 0);
    let (after, commands) = s.scan_batch(names);
    assert(after.keys == loaded.keys);
    let n = after.keys.rows.len() - s.keys.rows.len();
    assert(names.subrange(0, n) =~= names.take(n));
    if !full {
        assert(commands == after.metadata_wanted());
        if commands.len() > 0 {
            assert(commands[0] is FetchMetadata);
            assert(seq![CommandView::CancelScan][0] is CancelScan);
        } else {
            assert(seq![CommandView::CancelScan].len() == 1);
        }
    }
}

/// A traversal that the cap stopped says so from then on: neither its end nor
/// its cancellation claims more.
pub proof fn the_cap_is_not_forgotten(s: StateView, scan: ScanView)
    requires
        s.scan is Capped,
    ensures
        s.scan_ended(scan) == s,
{
}

/// A rescan takes the Open key's place away and gives back its own: whichever
/// place it has afterwards is that of a key with its name.
pub proof fn the_open_key_finds_its_own_place(
    s: StateView,
    names: Seq<Seq<u8>>,
    i: int,
)
    requires
        0 <= i <= names.len(),
        s.open is Some,
        s.open->0.index is Some ==> s.keys.name(s.open->0.index->0 as int) == Some(s.open->0.name),
        s.keys.wf(),
        s.keys.arena.len() + total_len(names, i) <= usize::MAX,
        s.keys.rows.len() + names.len() - i <= usize::MAX,
    ensures
        ({
            let after = s.loading(names, Some(s.open->0.name), i).0;
            &&& after.open is Some
            &&& after.open->0.name == s.open->0.name
            &&& after.open->0.index is Some ==> after.keys.name(after.open->0.index->0 as int)
                == Some(s.open->0.name)
        }),
    decreases names.len() - i,
{
    if i < names.len() && !s.keys.is_full() {
        let wanted = Some(s.open->0.name);
        let one = s.with_key(names[i], wanted);
        crate::state::loaded::a_loaded_key_keeps_its_place(s.keys, names[i]);
        the_open_key_finds_its_own_place(one, names, i + 1);
    }
}

/// How long the names from the `i`th on are together.
pub open spec fn total_len(names: Seq<Seq<u8>>, i: int) -> nat
    decreases names.len() - i,
{
    if i >= names.len() {
        0
    } else {
        names[i].len() + total_len(names, i + 1)
    }
}

} // verus!
