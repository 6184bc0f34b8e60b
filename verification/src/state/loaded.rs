//! The Loaded set: every key the traversal has brought back so far, up to one
//! cap, with what is known about each.
//!
//! The names stand one behind the other in a single arena, and a row says where
//! its name begins and how long it is.

use vstd::prelude::*;
use vstd::slice::slice_subrange;

use crate::text;

verus! {

/// The type of a key, as far as the reader is concerned.
#[derive(Clone, Copy, Debug, PartialEq, Eq, Structural)]
pub enum KeyKind {
    String,
    Hash,
    List,
    PlainSet,
    ZSet,
    Stream,
    Json,
}

/// The time to live that stands for "never expires".
pub const TTL_NONE: i32 = -1;

/// How many keys a session loads, where nothing else is said.
pub const DEFAULT_CAP: usize = 1_000_000;

/// One key: where its name stands in the arena, and its metadata so far.
#[derive(Clone, Copy, Debug, PartialEq, Eq)]
pub struct KeyRow {
    pub offset: usize,
    pub len: usize,
    pub kind: Option<KeyKind>,
    pub gone: bool,
    pub ttl: Option<i32>,
    pub ttl_read_at_s: u32,
    pub size: Option<u32>,
}

impl KeyRow {
    /// A key of which only the name is known.
    pub open spec fn bare(offset: usize, len: usize) -> KeyRow {
        KeyRow {
            offset,
            len,
            kind: None,
            gone: false,
            ttl: None,
            ttl_read_at_s: 0,
            size: None,
        }
    }
}

/// What a Loaded set holds.
#[verifier::ext_equal]
pub struct LoadedView {
    pub arena: Seq<u8>,
    pub rows: Seq<KeyRow>,
    pub cap: usize,
}

impl LoadedView {
    pub open spec fn slice(self, offset: int, len: int) -> Option<Seq<u8>> {
        if 0 <= offset && 0 <= len && offset + len <= self.arena.len() {
            Some(self.arena.subrange(offset, offset + len))
        } else {
            None
        }
    }

    /// The name of key `i`, where there is such a key.
    pub open spec fn name(self, i: int) -> Option<Seq<u8>> {
        if 0 <= i < self.rows.len() {
            self.slice(self.rows[i].offset as int, self.rows[i].len as int)
        } else {
            None
        }
    }

    /// The names of the keys, in the order in which they were loaded.
    pub open spec fn names(self) -> Seq<Seq<u8>> {
        Seq::new(self.rows.len(), |i: int| self.name(i)->0)
    }

    /// Whether every row's name lies in the arena.
    pub open spec fn wf(self) -> bool {
        forall|i: int|
            0 <= i < self.rows.len() ==> (#[trigger] self.rows[i]).offset + self.rows[i].len
                <= self.arena.len()
    }

    pub open spec fn is_full(self) -> bool {
        self.rows.len() >= self.cap
    }

    /// The set with one more key behind the others.
    pub open spec fn with_key(self, name: Seq<u8>) -> LoadedView {
        LoadedView {
            arena: self.arena + name,
            rows: self.rows.push(KeyRow::bare(self.arena.len() as usize, name.len() as usize)),
            cap: self.cap,
        }
    }

    pub open spec fn with_row(self, i: int, row: KeyRow) -> LoadedView {
        LoadedView { rows: self.rows.update(i, row), ..self }
    }

    pub open spec fn with_kind(self, i: int, kind: KeyKind) -> LoadedView {
        if 0 <= i < self.rows.len() {
            self.with_row(i, KeyRow { kind: Some(kind), gone: false, ..self.rows[i] })
        } else {
            self
        }
    }

    pub open spec fn with_ttl(self, i: int, ttl: i32, read_at_s: u32) -> LoadedView {
        if 0 <= i < self.rows.len() {
            self.with_row(i, KeyRow { ttl: Some(ttl), ttl_read_at_s: read_at_s, ..self.rows[i] })
        } else {
            self
        }
    }

    pub open spec fn with_size(self, i: int, size: u32) -> LoadedView {
        if 0 <= i < self.rows.len() {
            self.with_row(i, KeyRow { size: Some(size), ..self.rows[i] })
        } else {
            self
        }
    }

    /// Key `i` marked as deleted: it loses its type, and keeps the rest.
    pub open spec fn with_gone(self, i: int) -> LoadedView {
        if 0 <= i < self.rows.len() {
            self.with_row(i, KeyRow { kind: None, gone: true, ..self.rows[i] })
        } else {
            self
        }
    }

    pub open spec fn cleared(self) -> LoadedView {
        LoadedView { arena: Seq::empty(), rows: Seq::empty(), cap: self.cap }
    }

    pub open spec fn kind(self, i: int) -> Option<KeyKind> {
        if 0 <= i < self.rows.len() {
            self.rows[i].kind
        } else {
            None
        }
    }

    pub open spec fn gone(self, i: int) -> bool {
        0 <= i < self.rows.len() && self.rows[i].gone
    }
}

#[derive(Clone, Debug, PartialEq, Eq)]
pub struct LoadedSet {
    arena: Vec<u8>,
    rows: Vec<KeyRow>,
    cap: usize,
}

impl View for LoadedSet {
    type V = LoadedView;

    closed spec fn view(&self) -> LoadedView {
        LoadedView { arena: self.arena@, rows: self.rows@, cap: self.cap }
    }
}

impl Default for LoadedSet {
    fn default() -> (keys: LoadedSet)
        ensures
            keys@ == (LoadedView { arena: Seq::empty(), rows: Seq::empty(), cap: DEFAULT_CAP }),
    {
        LoadedSet::with_cap(DEFAULT_CAP)
    }
}

impl LoadedSet {
    /// An empty set that will hold `cap` keys and no more.
    pub fn with_cap(cap: usize) -> (keys: LoadedSet)
        ensures
            keys@ == (LoadedView { arena: Seq::empty(), rows: Seq::empty(), cap }),
    {
        LoadedSet { arena: Vec::new(), rows: Vec::new(), cap }
    }

    pub fn len(&self) -> (len: usize)
        ensures
            len == self@.rows.len(),
    {
        self.rows.len()
    }

    pub fn is_empty(&self) -> (empty: bool)
        ensures
            empty == (self@.rows.len() == 0),
    {
        self.rows.len() == 0
    }

    /// Whether the cap is reached.
    pub fn is_capped(&self) -> (capped: bool)
        ensures
            capped == self@.is_full(),
    {
        self.rows.len() >= self.cap
    }

    /// Adds a key, unless the cap is reached, and says whether it did.
    pub fn push(&mut self, name: &[u8]) -> (added: bool)
        ensures
            added == !old(self)@.is_full(),
            final(self)@ == if added {
                old(self)@.with_key(name@)
            } else {
                old(self)@
            },
    {
        if self.rows.len() >= self.cap {
            return false;
        }
        let row = KeyRow {
            offset: self.arena.len(),
            len: name.len(),
            kind: None,
            gone: false,
            ttl: None,
            ttl_read_at_s: 0,
            size: None,
        };
        self.arena.extend_from_slice(name);
        self.rows.push(row);
        assert(self.arena@ =~= old(self).arena@ + name@);
        true
    }

    pub fn clear(&mut self)
        ensures
            final(self)@ == old(self)@.cleared(),
    {
        self.arena.clear();
        self.rows.clear();
    }

    /// A part of the arena, where it lies within it.
    pub fn arena_slice(&self, offset: usize, len: usize) -> (bytes: Option<&[u8]>)
        ensures
            bytes is Some <==> self@.slice(offset as int, len as int) is Some,
            bytes is Some ==> bytes->0@ == self@.slice(offset as int, len as int)->0,
            bytes is Some ==> offset + len <= usize::MAX,
    {
        let total: usize = self.arena.len();
        if len > total || offset > total - len {
            return None;
        }
        Some(slice_subrange(self.arena.as_slice(), offset, offset + len))
    }

    /// The name of the key at `index`.
    pub fn name(&self, index: usize) -> (name: Option<&[u8]>)
        ensures
            name is Some <==> self@.name(index as int) is Some,
            name is Some ==> name->0@ == self@.name(index as int)->0,
            name is Some ==> self@.rows[index as int].offset + name->0@.len() <= usize::MAX,
    {
        if index < self.rows.len() {
            let row = self.rows[index];
            self.arena_slice(row.offset, row.len)
        } else {
            None
        }
    }

    /// The name of the key at `index`, as text to show.
    pub fn name_str(&self, index: usize) -> (name: Option<String>)
        ensures
            name is Some <==> self@.name(index as int) is Some,
            name is Some ==> name->0@ == text::shown(self@.name(index as int)->0),
    {
        match self.name(index) {
            Some(bytes) => Some(text::lossy_text(bytes)),
            None => None,
        }
    }

    /// Whether the key at `index` is called `name`.
    pub fn is_named(&self, index: usize, name: &[u8]) -> (same: bool)
        ensures
            same == (self@.name(index as int) == Some(name@)),
    {
        match self.name(index) {
            Some(bytes) => text::same_bytes(bytes, name),
            None => false,
        }
    }

    pub fn row(&self, index: usize) -> (row: Option<KeyRow>)
        ensures
            row == if index < self@.rows.len() {
                Some(self@.rows[index as int])
            } else {
                None
            },
    {
        if index < self.rows.len() {
            Some(self.rows[index])
        } else {
            None
        }
    }

    pub fn kind(&self, index: usize) -> (kind: Option<KeyKind>)
        ensures
            kind == self@.kind(index as int),
    {
        if index < self.rows.len() {
            self.rows[index].kind
        } else {
            None
        }
    }

    pub fn is_gone(&self, index: usize) -> (gone: bool)
        ensures
            gone == self@.gone(index as int),
    {
        index < self.rows.len() && self.rows[index].gone
    }

    /// The time to live last read, [`TTL_NONE`] for a key that never expires.
    pub fn ttl(&self, index: usize) -> (ttl: Option<i32>)
        ensures
            ttl == if index < self@.rows.len() {
                self@.rows[index as int].ttl
            } else {
                None
            },
    {
        if index < self.rows.len() {
            self.rows[index].ttl
        } else {
            None
        }
    }

    pub fn size(&self, index: usize) -> (size: Option<u32>)
        ensures
            size == if index < self@.rows.len() {
                self@.rows[index as int].size
            } else {
                None
            },
    {
        if index < self.rows.len() {
            self.rows[index].size
        } else {
            None
        }
    }

    /// Records the type of a key, which is thereby there.
    pub fn set_kind(&mut self, index: usize, kind: KeyKind)
        ensures
            final(self)@ == old(self)@.with_kind(index as int, kind),
    {
        if index < self.rows.len() {
            let row = self.rows[index];
            self.rows.set(index, KeyRow { kind: Some(kind), gone: false, ..row });
        }
    }

    pub fn set_ttl(&mut self, index: usize, ttl: i32, read_at_s: u32)
        ensures
            final(self)@ == old(self)@.with_ttl(index as int, ttl, read_at_s),
    {
        if index < self.rows.len() {
            let row = self.rows[index];
            self.rows.set(index, KeyRow { ttl: Some(ttl), ttl_read_at_s: read_at_s, ..row });
        }
    }

    pub fn set_size(&mut self, index: usize, size: u32)
        ensures
            final(self)@ == old(self)@.with_size(index as int, size),
    {
        if index < self.rows.len() {
            let row = self.rows[index];
            self.rows.set(index, KeyRow { size: Some(size), ..row });
        }
    }

    /// Records that a key is deleted. Its row, its last time to live and its
    /// last size stay.
    pub fn set_gone(&mut self, index: usize)
        ensures
            final(self)@ == old(self)@.with_gone(index as int),
    {
        if index < self.rows.len() {
            let row = self.rows[index];
            self.rows.set(index, KeyRow { kind: None, gone: true, ..row });
        }
    }
}

/// Loading a key leaves every earlier one under its index and its name, and
/// puts the new one behind them.
pub proof fn a_loaded_key_keeps_its_place(keys: LoadedView, name: Seq<u8>)
    requires
        keys.wf(),
        keys.arena.len() + name.len() <= usize::MAX,
    ensures
        keys.with_key(name).wf(),
        keys.with_key(name).name(keys.rows.len() as int) == Some(name),
        forall|i: int|
            0 <= i < keys.rows.len() ==> #[trigger] keys.with_key(name).name(i) == keys.name(i),
        keys.with_key(name).names() == keys.names().push(name),
{
    let after = keys.with_key(name);
    assert(after.arena.subrange(
        keys.arena.len() as int,
        (keys.arena.len() + name.len()) as int,
    ) =~= name);
    assert forall|i: int| 0 <= i < keys.rows.len() implies #[trigger] after.name(i) == keys.name(
        i,
    ) by {
        let row = keys.rows[i];
        assert(after.rows[i] == row);
        assert(after.arena.subrange(row.offset as int, row.offset + row.len)
            =~= keys.arena.subrange(row.offset as int, row.offset + row.len));
    }
    assert forall|i: int| 0 <= i < after.rows.len() implies (#[trigger] after.rows[i]).offset
        + after.rows[i].len <= after.arena.len() by {
        if i < keys.rows.len() {
            assert(after.rows[i] == keys.rows[i]);
        }
    }
    assert(after.names() =~= keys.names().push(name)) by {
        assert forall|i: int| 0 <= i < keys.rows.len() implies #[trigger] after.names()[i]
            == keys.names()[i] by {
            assert(after.name(i) == keys.name(i));
        }
    }
}

/// What is learnt about a key never changes a name: all of them stay in place,
/// and in the arena.
pub proof fn metadata_keeps_the_names(
    keys: LoadedView,
    i: int,
    kind: KeyKind,
    ttl: i32,
    read_at_s: u32,
    size: u32,
)
    requires
        keys.wf(),
    ensures
        keys.with_kind(i, kind).wf(),
        keys.with_ttl(i, ttl, read_at_s).wf(),
        keys.with_size(i, size).wf(),
        keys.with_gone(i).wf(),
        forall|j: int|
            #![trigger keys.name(j)]
            keys.with_kind(i, kind).name(j) == keys.name(j) && keys.with_ttl(
                i,
                ttl,
                read_at_s,
            ).name(j) == keys.name(j) && keys.with_size(i, size).name(j) == keys.name(j)
                && keys.with_gone(i).name(j) == keys.name(j),
{
}

} // verus!
