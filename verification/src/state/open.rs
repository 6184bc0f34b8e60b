//! The Open key: the one key whose value is on screen, what is known of it, and
//! where the reader is in it.

use vstd::prelude::*;
use vstd::utf8::*;

use crate::key::KeyName;
use crate::score::Score;
use crate::state::editor::{EditBuffer, EditTarget, EditView, TargetView};
use crate::state::loaded::TTL_NONE;
use crate::state::value::{self, ListEnd, Value, ValueView};
use crate::text;

verus! {

/// How far an edit of the Open key has come.
#[derive(Clone, Debug, PartialEq)]
pub enum EditPhase {
    /// Nothing is being edited.
    Idle,
    /// A buffer is open, and takes the keys.
    Typing(EditBuffer),
    /// A buffer is staged: shown, waiting for its write to settle.
    Staged(EditBuffer),
    /// The write landed; the buffer is shown until the value is read back.
    Landed(EditBuffer),
}

#[verifier::ext_equal]
pub enum PhaseView {
    Idle,
    Typing(EditView),
    Staged(EditView),
    Landed(EditView),
}

impl View for EditPhase {
    type V = PhaseView;

    open spec fn view(&self) -> PhaseView {
        match self {
            EditPhase::Idle => PhaseView::Idle,
            EditPhase::Typing(buffer) => PhaseView::Typing(buffer@),
            EditPhase::Staged(buffer) => PhaseView::Staged(buffer@),
            EditPhase::Landed(buffer) => PhaseView::Landed(buffer@),
        }
    }
}

impl PhaseView {
    /// The buffer that takes the keys.
    pub open spec fn typing(self) -> Option<EditView> {
        match self {
            PhaseView::Typing(buffer) => Some(buffer),
            _ => None,
        }
    }

    /// The buffer on screen, whether it takes keys or not.
    pub open spec fn editor(self) -> Option<EditView> {
        match self {
            PhaseView::Idle => None,
            PhaseView::Typing(buffer) => Some(buffer),
            PhaseView::Staged(buffer) => Some(buffer),
            PhaseView::Landed(buffer) => Some(buffer),
        }
    }

    /// Whether an edit is under way: no update may land underneath it.
    pub open spec fn is_editing(self) -> bool {
        self is Typing || self is Staged
    }

    pub open spec fn staged(self) -> PhaseView {
        match self {
            PhaseView::Typing(buffer) => PhaseView::Staged(buffer),
            _ => self,
        }
    }

    /// A buffer that no longer takes keys, handed back to be typed into.
    pub open spec fn unstaged(self) -> PhaseView {
        match self {
            PhaseView::Staged(buffer) => PhaseView::Typing(buffer),
            PhaseView::Landed(buffer) => PhaseView::Typing(buffer),
            _ => self,
        }
    }

    pub open spec fn landed(self) -> PhaseView {
        match self {
            PhaseView::Staged(buffer) => PhaseView::Landed(buffer),
            _ => self,
        }
    }

    /// A buffer whose write has landed put away.
    pub open spec fn settled(self) -> PhaseView {
        match self {
            PhaseView::Landed(_) => PhaseView::Idle,
            _ => self,
        }
    }
}

/// What the last read of the Open key brought.
#[derive(Clone, Copy, Debug, PartialEq, Eq, Structural)]
pub enum ReadOutcome {
    Opened,
    Unchanged { at_ms: u64 },
    Updated { at_ms: u64 },
}

/// A value that was read and is held until the reader asks for it.
#[derive(Clone, Debug, PartialEq, Eq)]
pub struct HeldUpdate {
    pub value: Value,
    pub ttl_seconds: i32,
    pub size_bytes: u32,
    pub at_ms: u64,
}

#[verifier::ext_equal]
pub struct HeldView {
    pub value: ValueView,
    pub ttl_seconds: i32,
    pub size_bytes: u32,
    pub at_ms: u64,
}

impl View for HeldUpdate {
    type V = HeldView;

    open spec fn view(&self) -> HeldView {
        HeldView {
            value: self.value@,
            ttl_seconds: self.ttl_seconds,
            size_bytes: self.size_bytes,
            at_ms: self.at_ms,
        }
    }
}

#[derive(Clone, Debug, PartialEq)]
pub struct OpenKey {
    /// Where the key stands in the Loaded set, while that is known.
    pub index: Option<usize>,
    /// The row of the key list it is on, if it is on one.
    pub row: Option<usize>,
    pub name: KeyName,
    /// The value last read; nothing for a key that was never there.
    pub value: Option<Value>,
    pub ttl_seconds: i32,
    pub size_bytes: u32,
    pub read_at_ms: u64,
    pub deleted_at_ms: Option<u64>,
    pub pending: Option<HeldUpdate>,
    /// Whether the reader is at rest, so that an update may land by itself.
    pub at_rest: bool,
    pub offset: usize,
    pub cursor: usize,
    pub cursor_active: bool,
    pub edit: EditPhase,
    pub last_read: ReadOutcome,
}

#[verifier::ext_equal]
pub struct OpenView {
    pub index: Option<usize>,
    pub row: Option<usize>,
    pub name: Seq<u8>,
    pub value: Option<ValueView>,
    pub ttl_seconds: i32,
    pub size_bytes: u32,
    pub read_at_ms: u64,
    pub deleted_at_ms: Option<u64>,
    pub pending: Option<HeldView>,
    pub at_rest: bool,
    pub offset: usize,
    pub cursor: usize,
    pub cursor_active: bool,
    pub edit: PhaseView,
    pub last_read: ReadOutcome,
}

impl View for OpenKey {
    type V = OpenView;

    open spec fn view(&self) -> OpenView {
        OpenView {
            index: self.index,
            row: self.row,
            name: self.name@,
            value: match self.value {
                Some(value) => Some(value@),
                None => None,
            },
            ttl_seconds: self.ttl_seconds,
            size_bytes: self.size_bytes,
            read_at_ms: self.read_at_ms,
            deleted_at_ms: self.deleted_at_ms,
            pending: match self.pending {
                Some(held) => Some(held@),
                None => None,
            },
            at_rest: self.at_rest,
            offset: self.offset,
            cursor: self.cursor,
            cursor_active: self.cursor_active,
            edit: self.edit@,
            last_read: self.last_read,
        }
    }
}

/// `at`, or the last of `rows` rows where it lies behind them.
pub open spec fn clamp_row(at: usize, rows: nat) -> usize {
    if at < rows {
        at
    } else if rows == 0 {
        0
    } else {
        (rows - 1) as usize
    }
}

/// Whether one of the pairs is called `field`.
pub open spec fn has_field(pairs: Seq<(Seq<u8>, Seq<u8>)>, field: Seq<u8>) -> bool {
    exists|i: int| 0 <= i < pairs.len() && (#[trigger] pairs[i]).0 == field
}

/// Whether one of the entries is for `member`.
pub open spec fn has_entry(entries: Seq<(Seq<u8>, Seq<char>)>, member: Seq<u8>) -> bool {
    exists|i: int| 0 <= i < entries.len() && (#[trigger] entries[i]).0 == member
}

impl OpenView {
    /// A key freshly read.
    pub open spec fn fresh(
        index: Option<usize>,
        name: Seq<u8>,
        value: ValueView,
        ttl_seconds: i32,
        size_bytes: u32,
        at_ms: u64,
    ) -> OpenView {
        OpenView {
            index,
            row: None,
            name,
            value: Some(value),
            ttl_seconds,
            size_bytes,
            read_at_ms: at_ms,
            deleted_at_ms: None,
            pending: None,
            at_rest: true,
            offset: 0,
            cursor: 0,
            cursor_active: false,
            edit: PhaseView::Idle,
            last_read: ReadOutcome::Opened,
        }
    }

    /// A key that turned out not to be there.
    pub open spec fn missing(index: Option<usize>, name: Seq<u8>, at_ms: u64) -> OpenView {
        OpenView {
            index,
            row: None,
            name,
            value: None,
            ttl_seconds: TTL_NONE,
            size_bytes: 0,
            read_at_ms: at_ms,
            deleted_at_ms: Some(at_ms),
            pending: None,
            at_rest: true,
            offset: 0,
            cursor: 0,
            cursor_active: false,
            edit: PhaseView::Idle,
            last_read: ReadOutcome::Opened,
        }
    }

    /// Whether an update may land without being asked for: the reader is at
    /// rest, and edits nothing.
    pub open spec fn may_apply(self) -> bool {
        self.at_rest && !self.edit.is_editing()
    }

    /// The key with `value` on screen. The cursor stays inside it, and a
    /// staged buffer whose write has landed gives way to it.
    pub open spec fn applied(
        self,
        value: ValueView,
        ttl_seconds: i32,
        size_bytes: u32,
        at_ms: u64,
    ) -> OpenView {
        OpenView {
            value: Some(value),
            ttl_seconds,
            size_bytes,
            read_at_ms: at_ms,
            deleted_at_ms: None,
            pending: None,
            offset: clamp_row(self.offset, value.rows()),
            cursor: clamp_row(self.cursor, value.rows()),
            edit: self.edit.settled(),
            last_read: if self.value == Some(value) {
                ReadOutcome::Unchanged { at_ms }
            } else {
                ReadOutcome::Updated { at_ms }
            },
            ..self
        }
    }

    /// The key after a read of it: the value lands if it may, and is held if
    /// not.
    pub open spec fn absorbed(
        self,
        value: ValueView,
        ttl_seconds: i32,
        size_bytes: u32,
        at_ms: u64,
    ) -> OpenView {
        if self.may_apply() {
            self.applied(value, ttl_seconds, size_bytes, at_ms)
        } else {
            OpenView {
                pending: Some(HeldView { value, ttl_seconds, size_bytes, at_ms }),
                ..self
            }
        }
    }

    /// The key with a held update let through.
    pub open spec fn caught_up(self) -> OpenView {
        match self.pending {
            Some(held) => self.applied(
                held.value,
                held.ttl_seconds,
                held.size_bytes,
                held.at_ms,
            ),
            None => self,
        }
    }

    pub open spec fn with_edit(self, edit: PhaseView) -> OpenView {
        OpenView { edit, ..self }
    }

    /// The key told gone: the value last read stays, nothing is held any more.
    pub open spec fn tombstoned(self, at_ms: u64) -> OpenView {
        OpenView { deleted_at_ms: Some(at_ms), pending: None, ..self }
    }

    /// Whether the field name being typed is one of the fields on screen.
    pub open spec fn hash_field_duplicate(self) -> bool {
        match (self.edit.editor(), self.value) {
            (Some(buffer), Some(ValueView::Hash { pairs, .. })) => match buffer.target {
                TargetView::NewHashField { field, .. } => has_field(pairs, encode_utf8(field)),
                _ => false,
            },
            _ => false,
        }
    }

    /// Whether the member being typed is one of the members on screen.
    pub open spec fn set_member_duplicate(self) -> bool {
        match (self.edit.editor(), self.value) {
            (Some(buffer), Some(ValueView::PlainSet { members, .. })) => {
                buffer.target is NewSetMember && members.contains(buffer.text())
            },
            _ => false,
        }
    }

    /// Whether the sorted-set member being typed is one of those on screen.
    pub open spec fn zset_member_duplicate(self) -> bool {
        match (self.edit.editor(), self.value) {
            (Some(buffer), Some(ValueView::ZSet { entries, .. })) => match buffer.target {
                TargetView::NewZSetMember { member, .. } => has_entry(entries, encode_utf8(member)),
                _ => false,
            },
            _ => false,
        }
    }

    /// How current the value on screen is, in words.
    pub open spec fn currency(self, live: bool, now_ms: u64) -> Seq<char> {
        match (self.deleted_at_ms, self.edit.editor(), self.pending) {
            (Some(at_ms), _, _) => "deleted "@ + text::ago(at_ms, now_ms),
            (None, Some(buffer), _) => match buffer.target {
                TargetView::NewListElement { end } => match end {
                    ListEnd::Head => "editing · adding at the head"@,
                    ListEnd::Tail => "editing · adding at the tail"@,
                },
                _ => "editing"@,
            },
            (None, None, Some(held)) => "changed "@ + text::ago(held.at_ms, now_ms),
            (None, None, None) => if live {
                "live"@
            } else {
                "read "@ + text::ago(self.read_at_ms, now_ms)
            },
        }
    }
}

fn clamped_row(at: usize, rows: usize) -> (r: usize)
    ensures
        r == clamp_row(at, rows as nat),
{
    if at < rows {
        at
    } else if rows == 0 {
        0
    } else {
        rows - 1
    }
}

fn list_holds(items: &Vec<Vec<u8>>, item: &[u8]) -> (r: bool)
    ensures
        r == text::byte_strings(items@).contains(item@),
{
    let ghost all = text::byte_strings(items@);
    let mut i: usize = 0;
    while i < items.len()
        invariant
            i <= items@.len(),
            all == text::byte_strings(items@),
            forall|j: int| 0 <= j < i ==> #[trigger] all[j] != item@,
        decreases items@.len() - i,
    {
        if text::same_bytes(items[i].as_slice(), item) {
            assert(all[i as int] == item@);
            return true;
        }
        i = i + 1;
    }
    false
}

fn pairs_hold(shown: &Vec<(Vec<u8>, Vec<u8>)>, field: &[u8]) -> (r: bool)
    ensures
        r == has_field(value::pairs_view(shown@), field@),
{
    let ghost pairs = value::pairs_view(shown@);
    let mut i: usize = 0;
    while i < shown.len()
        invariant
            i <= shown@.len(),
            pairs == value::pairs_view(shown@),
            forall|j: int| 0 <= j < i ==> (#[trigger] pairs[j]).0 != field@,
        decreases shown@.len() - i,
    {
        if text::same_bytes(shown[i].0.as_slice(), field) {
            assert(pairs[i as int].0 == field@);
            return true;
        }
        i = i + 1;
    }
    false
}

fn entries_hold(shown: &Vec<(Vec<u8>, Score)>, member: &[u8]) -> (r: bool)
    ensures
        r == has_entry(value::scored_view(shown@), member@),
{
    let ghost entries = value::scored_view(shown@);
    let mut i: usize = 0;
    while i < shown.len()
        invariant
            i <= shown@.len(),
            entries == value::scored_view(shown@),
            forall|j: int| 0 <= j < i ==> (#[trigger] entries[j]).0 != member@,
        decreases shown@.len() - i,
    {
        if text::same_bytes(shown[i].0.as_slice(), member) {
            assert(entries[i as int].0 == member@);
            return true;
        }
        i = i + 1;
    }
    false
}

impl OpenKey {
    pub fn new(
        index: Option<usize>,
        name: KeyName,
        value: Value,
        ttl_seconds: i32,
        size_bytes: u32,
        at_ms: u64,
    ) -> (open: OpenKey)
        ensures
            open@ == OpenView::fresh(index, name@, value@, ttl_seconds, size_bytes, at_ms),
    {
        OpenKey {
            index,
            row: None,
            name,
            value: Some(value),
            ttl_seconds,
            size_bytes,
            read_at_ms: at_ms,
            deleted_at_ms: None,
            pending: None,
            at_rest: true,
            offset: 0,
            cursor: 0,
            cursor_active: false,
            edit: EditPhase::Idle,
            last_read: ReadOutcome::Opened,
        }
    }

    /// A key that turned out not to be there.
    pub fn gone(index: Option<usize>, name: KeyName, at_ms: u64) -> (open: OpenKey)
        ensures
            open@ == OpenView::missing(index, name@, at_ms),
    {
        OpenKey {
            index,
            row: None,
            name,
            value: None,
            ttl_seconds: TTL_NONE,
            size_bytes: 0,
            read_at_ms: at_ms,
            deleted_at_ms: Some(at_ms),
            pending: None,
            at_rest: true,
            offset: 0,
            cursor: 0,
            cursor_active: false,
            edit: EditPhase::Idle,
            last_read: ReadOutcome::Opened,
        }
    }

    /// Whether an update may land without being asked for.
    pub fn may_apply(&self) -> (r: bool)
        ensures
            r == self@.may_apply(),
    {
        self.at_rest && !self.is_editing()
    }

    /// Puts `value` on screen.
    pub fn apply(&mut self, value: Value, ttl_seconds: i32, size_bytes: u32, at_ms: u64)
        ensures
            final(self)@ == old(self)@.applied(value@, ttl_seconds, size_bytes, at_ms),
    {
        let unchanged: bool = match &self.value {
            Some(shown) => shown.same(&value),
            None => false,
        };
        let rows: usize = value.row_count();
        self.last_read = if unchanged {
            ReadOutcome::Unchanged { at_ms }
        } else {
            ReadOutcome::Updated { at_ms }
        };
        self.value = Some(value);
        self.ttl_seconds = ttl_seconds;
        self.size_bytes = size_bytes;
        self.read_at_ms = at_ms;
        self.deleted_at_ms = None;
        self.pending = None;
        self.offset = clamped_row(self.offset, rows);
        self.cursor = clamped_row(self.cursor, rows);
        self.drop_staged_buffer();
    }

    /// Takes a read of this key in: the value lands if it may, and is held if
    /// not.
    pub fn absorb(&mut self, value: Value, ttl_seconds: i32, size_bytes: u32, at_ms: u64)
        ensures
            final(self)@ == old(self)@.absorbed(value@, ttl_seconds, size_bytes, at_ms),
    {
        if self.may_apply() {
            self.apply(value, ttl_seconds, size_bytes, at_ms);
        } else {
            self.pending = Some(HeldUpdate { value, ttl_seconds, size_bytes, at_ms });
        }
    }

    /// Lets a held update through.
    pub fn take_pending(&mut self)
        ensures
            final(self)@ == old(self)@.caught_up(),
    {
        let held = self.pending.take();
        if let Some(held) = held {
            self.apply(held.value, held.ttl_seconds, held.size_bytes, held.at_ms);
        }
    }

    /// The buffer that takes the keys.
    pub fn typing(&self) -> (buffer: Option<&EditBuffer>)
        ensures
            buffer is Some <==> self@.edit.typing() is Some,
            buffer is Some ==> buffer->0@ == self@.edit.typing()->0,
    {
        match &self.edit {
            EditPhase::Typing(buffer) => Some(buffer),
            _ => None,
        }
    }

    /// The buffer on screen, whether it takes keys or not.
    pub fn editor(&self) -> (buffer: Option<&EditBuffer>)
        ensures
            buffer is Some <==> self@.edit.editor() is Some,
            buffer is Some ==> buffer->0@ == self@.edit.editor()->0,
    {
        match &self.edit {
            EditPhase::Idle => None,
            EditPhase::Typing(buffer) => Some(buffer),
            EditPhase::Staged(buffer) => Some(buffer),
            EditPhase::Landed(buffer) => Some(buffer),
        }
    }

    /// Whether an edit is under way.
    pub fn is_editing(&self) -> (r: bool)
        ensures
            r == self@.edit.is_editing(),
    {
        match &self.edit {
            EditPhase::Typing(_) => true,
            EditPhase::Staged(_) => true,
            _ => false,
        }
    }

    pub fn begin_edit(&mut self, buffer: EditBuffer)
        ensures
            final(self)@ == old(self)@.with_edit(PhaseView::Typing(buffer@)),
    {
        self.edit = EditPhase::Typing(buffer);
    }

    pub fn end_edit(&mut self)
        ensures
            final(self)@ == old(self)@.with_edit(PhaseView::Idle),
    {
        self.edit = EditPhase::Idle;
    }

    fn take_edit(&mut self) -> (edit: EditPhase)
        ensures
            edit@ == old(self)@.edit,
            final(self)@ == old(self)@.with_edit(PhaseView::Idle),
    {
        let mut edit = EditPhase::Idle;
        std::mem::swap(&mut edit, &mut self.edit);
        edit
    }

    /// Stages the buffer that is being typed into.
    pub fn stage_edit(&mut self)
        ensures
            final(self)@ == old(self)@.with_edit(old(self)@.edit.staged()),
    {
        let edit = self.take_edit();
        self.edit = match edit {
            EditPhase::Typing(buffer) => EditPhase::Staged(buffer),
            edit => edit,
        };
    }

    /// Hands a staged buffer back to be typed into.
    pub fn unstage_buffer(&mut self)
        ensures
            final(self)@ == old(self)@.with_edit(old(self)@.edit.unstaged()),
    {
        let edit = self.take_edit();
        self.edit = match edit {
            EditPhase::Staged(buffer) => EditPhase::Typing(buffer),
            EditPhase::Landed(buffer) => EditPhase::Typing(buffer),
            edit => edit,
        };
    }

    /// The write landed: the guard goes, the staged buffer stays on screen
    /// until the value is read back.
    pub fn write_landed(&mut self)
        ensures
            final(self)@ == old(self)@.with_edit(old(self)@.edit.landed()),
    {
        let edit = self.take_edit();
        self.edit = match edit {
            EditPhase::Staged(buffer) => EditPhase::Landed(buffer),
            edit => edit,
        };
    }

    /// Puts a buffer away whose write has landed.
    pub fn drop_staged_buffer(&mut self)
        ensures
            final(self)@ == old(self)@.with_edit(old(self)@.edit.settled()),
    {
        let edit = self.take_edit();
        self.edit = match edit {
            EditPhase::Landed(_) => EditPhase::Idle,
            edit => edit,
        };
    }

    /// Whether the field name being typed is one of the fields on screen.
    pub fn hash_field_shown_duplicate(&self) -> (r: bool)
        ensures
            r == self@.hash_field_duplicate(),
    {
        match (self.editor(), &self.value) {
            (Some(buffer), Some(Value::Hash(shown))) => match buffer.target() {
                EditTarget::NewHashField { field, .. } => {
                    pairs_hold(&shown.pairs, field.as_str().as_bytes())
                },
                _ => false,
            },
            _ => false,
        }
    }

    /// Whether the member being typed is one of the members on screen.
    pub fn set_member_shown_duplicate(&self) -> (r: bool)
        ensures
            r == self@.set_member_duplicate(),
    {
        match (self.editor(), &self.value) {
            (Some(buffer), Some(Value::PlainSet(shown))) => match buffer.target() {
                EditTarget::NewSetMember => list_holds(
                    &shown.members,
                    buffer.text().as_slice(),
                ),
                _ => false,
            },
            _ => false,
        }
    }

    /// Whether the sorted-set member being typed is one of those on screen.
    pub fn zset_member_shown_duplicate(&self) -> (r: bool)
        ensures
            r == self@.zset_member_duplicate(),
    {
        match (self.editor(), &self.value) {
            (Some(buffer), Some(Value::ZSet(shown))) => match buffer.target() {
                EditTarget::NewZSetMember { member, .. } => {
                    entries_hold(&shown.entries, member.as_str().as_bytes())
                },
                _ => false,
            },
            _ => false,
        }
    }

    /// How current the value on screen is, in words.
    pub fn currency(&self, live: bool, now_ms: u64) -> (words: String)
        ensures
            words@ == self@.currency(live, now_ms),
    {
        if let Some(at_ms) = self.deleted_at_ms {
            let mut words = text::owned("deleted ");
            text::push_ago(&mut words, at_ms, now_ms);
            return words;
        }
        if let Some(buffer) = self.editor() {
            return match buffer.target() {
                EditTarget::NewListElement { end } => match end {
                    ListEnd::Head => text::owned("editing · adding at the head"),
                    ListEnd::Tail => text::owned("editing · adding at the tail"),
                },
                _ => text::owned("editing"),
            };
        }
        if let Some(held) = &self.pending {
            let mut words = text::owned("changed ");
            text::push_ago(&mut words, held.at_ms, now_ms);
            return words;
        }
        if live {
            text::owned("live")
        } else {
            let mut words = text::owned("read ");
            text::push_ago(&mut words, self.read_at_ms, now_ms);
            words
        }
    }
}

/// The screen does not change under an edit: whatever is read while a buffer is
/// open or staged, the value, the cursor and the buffer stay as they are.
pub proof fn an_edit_holds_updates_back(
    open: OpenView,
    value: ValueView,
    ttl_seconds: i32,
    size_bytes: u32,
    at_ms: u64,
)
    requires
        open.edit.is_editing(),
    ensures
        ({
            let after = open.absorbed(value, ttl_seconds, size_bytes, at_ms);
            &&& after.value == open.value
            &&& after.cursor == open.cursor
            &&& after.edit == open.edit
            &&& after.pending is Some
            &&& after.pending->0.value == value
        }),
{
}

/// A held update is never lost: letting it through puts on screen what landing
/// at once would have put there.
pub proof fn a_held_update_lands_when_asked_for(
    open: OpenView,
    value: ValueView,
    ttl_seconds: i32,
    size_bytes: u32,
    at_ms: u64,
)
    requires
        !open.may_apply(),
    ensures
        open.absorbed(value, ttl_seconds, size_bytes, at_ms).caught_up() == open.applied(
            value,
            ttl_seconds,
            size_bytes,
            at_ms,
        ),
{
}

/// After a value lands the cursor stands on one of its rows, if it has any.
pub proof fn the_cursor_stays_in_the_value(
    open: OpenView,
    value: ValueView,
    ttl_seconds: i32,
    size_bytes: u32,
    at_ms: u64,
)
    requires
        value.rows() <= usize::MAX,
    ensures
        ({
            let after = open.applied(value, ttl_seconds, size_bytes, at_ms);
            if value.rows() > 0 {
                after.cursor < value.rows()
            } else {
                after.cursor == 0
            }
        }),
{
}

} // verus!
