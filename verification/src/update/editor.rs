//! The inline editor: opening a buffer, the keys it takes, and staging what was
//! typed.

use vstd::prelude::*;
use vstd::utf8::*;

use crate::area::Step;
use crate::command::{notify, nothing, Command, CommandView};
use crate::input::{KeyCode, KeyPress};
use crate::key::KeyName;
use crate::keymap::{self, Action};
use crate::layout::Pane;
use crate::score::{self, Score};
use crate::state::editor::{self, EditBuffer, EditTarget, EditView, FieldPart, TargetView};
use crate::state::open::{EditPhase, OpenKey, OpenView, PhaseView};
use crate::state::pending::{PendingMutation, PendingView};
use crate::state::session::{State, StateView};
use crate::state::value::{ListEnd, Value, ValueView};
use crate::text;
use crate::update::viewer::VALUE_PAGE_ROWS;
use crate::update::Outcome;

verus! {

// ── What the keys do ────────────────────────────────────────────────────────

impl OpenView {
    /// Whether the cursor picks a row of a value that has `rows` of them.
    pub open spec fn picks(self, rows: nat) -> bool {
        self.cursor_active && self.cursor < rows
    }

    /// The buffer that editing opens, or why it opens none. A string is edited
    /// as a whole, a hash and a list by what the cursor is on, a sorted set by
    /// its score there; a member of a set is never edited in place.
    pub open spec fn buffer_to_edit(self) -> Result<EditView, Seq<char>> {
        let row = self.cursor as int;
        match self.value {
            None => Err("nothing open to edit"@),
            Some(ValueView::Hash { pairs, .. }) => if self.picks(pairs.len()) {
                EditView::hash_field(pairs[row].0, pairs[row].1)
            } else {
                Err("Enter to pick a field"@)
            },
            Some(ValueView::PlainSet { members, .. }) => Err(
                if !self.picks(members.len()) {
                    "Enter to pick a member"@
                } else if valid_utf8(members[row]) {
                    "a member can't be edited in place — remove it, then add the new one"@
                } else {
                    "binary members aren't editable here yet"@
                },
            ),
            Some(ValueView::List { items, .. }) => if self.picks(items.len()) {
                EditView::list_element(self.cursor, items[row])
            } else {
                Err("Enter to pick an element"@)
            },
            Some(ValueView::ZSet { entries, .. }) => if self.picks(entries.len()) {
                Ok(EditView::zset_score(entries[row].0, entries[row].1))
            } else {
                Err("Enter to pick a member"@)
            },
            Some(value) => EditView::whole_value(value, self.cursor),
        }
    }

    /// The form that adding opens, or why it opens none.
    pub open spec fn buffer_to_add(self) -> Result<EditView, Seq<char>> {
        match self.value {
            None => Err("nothing open to edit"@),
            Some(ValueView::Hash { .. }) => Ok(
                EditView::blank(
                    TargetView::NewHashField { field: Seq::empty(), part: FieldPart::Name },
                ),
            ),
            Some(ValueView::PlainSet { .. }) => Ok(EditView::blank(TargetView::NewSetMember)),
            Some(ValueView::List { .. }) => Ok(
                EditView::blank(TargetView::NewListElement { end: ListEnd::Tail }),
            ),
            Some(ValueView::ZSet { .. }) => Ok(
                EditView::blank(
                    TargetView::NewZSetMember { member: Seq::empty(), part: FieldPart::Name },
                ),
            ),
            Some(_) => Err(
                "fields can only be added to a hash, members to a set or zset, elements to a list"@,
            ),
        }
    }

    /// Whether the name part of an add form may not be left: a field needs a
    /// name, and neither a field nor a member may be one that is on screen.
    pub open spec fn name_blocked(self) -> bool {
        match self.edit.editor() {
            Some(buffer) => match buffer.target {
                TargetView::NewHashField { field, .. } => field.len() == 0
                    || self.hash_field_duplicate(),
                TargetView::NewZSetMember { .. } => self.zset_member_duplicate(),
                _ => true,
            },
            None => true,
        }
    }
}

impl EditView {
    /// Whether what is typed as a score is one, where a score is typed.
    pub open spec fn score_valid(self) -> bool {
        self.target.is_scored() ==> score::is_score(self.content())
    }

    /// The write that this buffer stages for the key called `name`, where its
    /// text can be written.
    pub open spec fn mutation(self, name: Seq<u8>) -> Option<PendingView> {
        let old = self.original;
        let new = self.text();
        let was_json = self.was_json;
        match self.target {
            TargetView::Value => Some(PendingView::SetString { name, old, new, was_json }),
            TargetView::HashField { field } => Some(
                PendingView::SetHashField { name, field: encode_utf8(field), old, new, was_json },
            ),
            TargetView::NewHashField { field, .. } => Some(
                PendingView::AddHashField { name, field: encode_utf8(field), value: new },
            ),
            TargetView::NewSetMember => Some(PendingView::AddSetMember { name, member: new }),
            TargetView::ListElement { index } => Some(
                PendingView::SetListElement { name, index, old, new, was_json },
            ),
            TargetView::NewListElement { end } => Some(
                PendingView::AddListElement { name, end, value: new },
            ),
            TargetView::ZSetScore { member } => {
                let old_score = text::shown(old);
                let new_score = self.content();
                if score::is_score(old_score) && score::is_score(new_score) {
                    Some(PendingView::SetZSetScore { name, member, old_score, new_score })
                } else {
                    None
                }
            },
            TargetView::NewZSetMember { member, .. } => {
                let score = self.content();
                if score::is_score(score) {
                    Some(PendingView::AddZSetMember { name, member: encode_utf8(member), score })
                } else {
                    None
                }
            },
            TargetView::Ttl { .. } => None,
        }
    }

    /// The buffer after a key that the text box takes.
    pub open spec fn keyed(self, key: KeyPress) -> EditView {
        match key.code {
            KeyCode::Up => {
                let moved = self.moved(Step::Up);
                if self.target.part() == Some(FieldPart::Value) && moved.area.cursor
                    == self.area.cursor {
                    moved.with_target(moved.target.with_part(FieldPart::Name))
                } else {
                    moved
                }
            },
            KeyCode::Down => self.moved(Step::Down),
            KeyCode::Left => self.moved(Step::Back),
            KeyCode::Right => self.moved(Step::Forward),
            KeyCode::Home => self.moved(Step::Head),
            KeyCode::End => self.moved(Step::End),
            KeyCode::PageUp => self.with_area(
                self.area.stepped_times(Step::Up, VALUE_PAGE_ROWS as nat),
            ),
            KeyCode::PageDown => self.with_area(
                self.area.stepped_times(Step::Down, VALUE_PAGE_ROWS as nat),
            ),
            KeyCode::Enter => self.with_area(self.area.with_newline()),
            KeyCode::Tab => if self.target is NewListElement {
                self.with_target(self.target.with_other_end())
            } else {
                self.with_area(self.area.with_tab())
            },
            KeyCode::Backspace => self.with_area(self.area.without_previous()),
            KeyCode::Delete => self.with_area(self.area.without_next()),
            KeyCode::Char(c) => if !key.ctrl && !key.alt {
                self.with_area(self.area.with_char(c))
            } else {
                self
            },
            KeyCode::Esc => self,
        }
    }

    /// The buffer after a key that a single line takes. The name part is left
    /// for the value part, unless that is blocked.
    pub open spec fn name_keyed(self, key: KeyPress, blocked: bool) -> EditView {
        if key.code == KeyCode::Enter || key.code == KeyCode::Down {
            if blocked {
                self
            } else {
                self.with_target(self.target.with_part(FieldPart::Value))
            }
        } else if key.code == KeyCode::Backspace {
            self.without_name_char()
        } else {
            match key.typed() {
                Some(c) => self.with_name_text(seq![c]),
                None => self,
            }
        }
    }

    /// The buffer after a text was pasted into it.
    pub open spec fn pasted(self, pasted: Seq<char>) -> EditView {
        if self.target.is_single_line() {
            self.with_name_text(text::one_line(pasted))
        } else {
            self.with_area(self.area.with_text(pasted))
        }
    }
}

impl StateView {
    /// Why no edit may begin now, if none may.
    pub open spec fn edit_refused(self) -> Option<Seq<char>> {
        match self.open {
            Some(open) => if self.focus == Pane::Keys {
                Some("Tab to the value pane to edit"@)
            } else if open.deleted_at_ms is Some {
                Some("gone — nothing to edit"@)
            } else if open.edit.is_editing() {
                Some("still saving the last edit"@)
            } else {
                None
            },
            None => if self.focus == Pane::Keys {
                Some("open a key first"@)
            } else {
                Some("nothing open to edit"@)
            },
        }
    }

    /// An edit begun with a buffer, or a notice why not.
    pub open spec fn editing(self, buffer: Result<EditView, Seq<char>>) -> Outcome {
        match buffer {
            Ok(buffer) => (self.with_typing(buffer), Seq::empty()),
            Err(why) => self.noticing(why),
        }
    }

    pub open spec fn edit_opened(self) -> Outcome {
        match self.edit_refused() {
            Some(why) => self.noticing(why),
            None => self.editing(self.open->0.buffer_to_edit()),
        }
    }

    pub open spec fn add_opened(self) -> Outcome {
        match self.edit_refused() {
            Some(why) => self.noticing(why),
            None => self.editing(self.open->0.buffer_to_add()),
        }
    }

    pub open spec fn ttl_opened(self) -> Outcome {
        match self.edit_refused() {
            Some(why) => self.noticing(why),
            None => self.editing(
                Ok(EditView::blank(TargetView::Ttl { text: Seq::empty() })),
            ),
        }
    }

    /// The buffer that takes the keys.
    pub open spec fn typing(self) -> Option<EditView> {
        match self.open {
            Some(open) => open.edit.typing(),
            None => None,
        }
    }

    /// The Open key with a buffer that takes the keys.
    pub open spec fn with_typing(self, buffer: EditView) -> StateView {
        match self.open {
            Some(open) => self.with_open(Some(open.with_edit(PhaseView::Typing(buffer)))),
            None => self,
        }
    }

    /// The edit of the Open key given up.
    pub open spec fn edit_ended(self) -> StateView {
        match self.open {
            Some(open) => self.with_open(Some(open.with_edit(PhaseView::Idle))),
            None => self,
        }
    }

    pub open spec fn name_blocked(self) -> bool {
        match self.open {
            Some(open) => open.name_blocked(),
            None => true,
        }
    }

    pub open spec fn score_valid(self) -> bool {
        match self.typing() {
            Some(buffer) => buffer.score_valid(),
            None => true,
        }
    }

    /// Whether what is typed may not be staged: a member of a set that is on
    /// screen, or a score that is none.
    pub open spec fn stage_blocked(self) -> bool {
        (self.open is Some && self.open->0.set_member_duplicate()) || !self.score_valid()
    }

    /// The buffer staged as a write to be confirmed, or put away if it holds
    /// nothing new.
    pub open spec fn edit_staged(self) -> StateView {
        match self.typing() {
            Some(buffer) => {
                let open = self.open->0;
                if buffer.target is Ttl {
                    self
                } else if !buffer.target.is_new() && !buffer.is_dirty() {
                    self.edit_ended()
                } else {
                    match buffer.mutation(open.name) {
                        Some(pending) => StateView {
                            open: Some(open.with_edit(PhaseView::Staged(buffer))),
                            confirm: Some(pending),
                            ..self
                        },
                        None => self,
                    }
                }
            },
            None => self,
        }
    }

    /// Staging from the text box, where nothing blocks it.
    pub open spec fn value_staged(self) -> StateView {
        if self.stage_blocked() {
            self
        } else {
            self.edit_staged()
        }
    }

    /// A keypress while a single line is typed.
    pub open spec fn name_part_key(self, key: KeyPress) -> StateView {
        match keymap::lookup(self.keymap, key) {
            Some(Action::EditorStage) => if self.name_blocked() || !self.score_valid() {
                self
            } else {
                self.edit_staged()
            },
            Some(Action::Cancel) => self.edit_ended(),
            _ => match self.typing() {
                Some(buffer) => self.with_typing(buffer.name_keyed(key, self.name_blocked())),
                None => self,
            },
        }
    }

    /// A text pasted into the buffer that takes the keys.
    pub open spec fn editor_pasted(self, pasted: Seq<char>) -> StateView {
        match self.typing() {
            Some(buffer) => self.with_typing(buffer.pasted(pasted)),
            None => self,
        }
    }

    /// A keypress while a buffer takes the keys.
    pub open spec fn editor_key(self, key: KeyPress) -> StateView {
        match self.typing() {
            Some(buffer) => if buffer.target.is_single_line() {
                self.name_part_key(key)
            } else {
                match keymap::lookup(self.keymap, key) {
                    Some(Action::EditorStage) => self.value_staged(),
                    Some(Action::EditorUndo) => self.with_typing(
                        buffer.with_area(buffer.area.undone()),
                    ),
                    Some(Action::EditorRedo) => self.with_typing(
                        buffer.with_area(buffer.area.redone()),
                    ),
                    Some(Action::Cancel) => self.edit_ended(),
                    _ => if key.code == KeyCode::Enter && !(buffer.target is Value) {
                        self.value_staged()
                    } else {
                        self.with_typing(buffer.keyed(key))
                    },
                }
            },
            None => self,
        }
    }

    /// Whether a write to parts of the key, or to its value, waits to be
    /// confirmed.
    pub open spec fn edit_dialog_up(self, name: Seq<u8>) -> bool {
        match self.confirm {
            Some(PendingView::DeleteKey { .. }) => false,
            Some(pending) => pending.name() == name,
            None => false,
        }
    }

    /// The Open key came back gone while an edit of it may be staged: under the
    /// dialog there is nothing left to write to, so the dialog closes and the
    /// buffer is handed back.
    pub open spec fn staged_key_gone(self, name: Seq<u8>, at_ms: u64) -> StateView {
        match self.open {
            Some(open) => if open.name != name {
                self
            } else if self.edit_dialog_up(name) {
                StateView {
                    open: Some(open.with_edit(open.edit.unstaged())),
                    confirm: None,
                    notice: Some(
                        (text::shown(name) + " is gone — nothing written, edit kept"@, at_ms),
                    ),
                    ..self
                }
            } else if !open.edit.is_editing() {
                self.with_open(Some(open.with_edit(open.edit.settled())))
            } else {
                self
            },
            None => self,
        }
    }
}

// ── The keys ────────────────────────────────────────────────────────────────

/// Why no edit may begin now, if none may.
fn refusal(state: &State) -> (why: Option<&'static str>)
    ensures
        why is Some <==> state@.edit_refused() is Some,
        why is Some ==> why->0@ == state@.edit_refused()->0,
{
    match &state.open {
        Some(open) => if state.keys_pane_focused() {
            Some("Tab to the value pane to edit")
        } else if open.deleted_at_ms.is_some() {
            Some("gone — nothing to edit")
        } else if open.is_editing() {
            Some("still saving the last edit")
        } else {
            None
        },
        None => if state.keys_pane_focused() {
            Some("open a key first")
        } else {
            Some("nothing open to edit")
        },
    }
}

fn begin(state: State, buffer: Result<EditBuffer, &'static str>) -> (r: (State, Vec<Command>))
    requires
        state@.open is Some,
    ensures
        r.0@ == state@.editing(buffer_view(buffer)).0,
        Command::list(r.1@) == state@.editing(buffer_view(buffer)).1,
{
    match buffer {
        Ok(buffer) => {
            let mut next = state;
            if let Some(open) = &mut next.open {
                open.begin_edit(buffer);
            }
            (next, nothing())
        },
        Err(why) => (state, notify(why)),
    }
}

/// What an attempt to open a buffer led to.
pub open spec fn buffer_view(buffer: Result<EditBuffer, &'static str>) -> Result<
    EditView,
    Seq<char>,
> {
    match buffer {
        Ok(buffer) => Ok(buffer@),
        Err(why) => Err(why@),
    }
}

fn buffer_to_edit(open: &OpenKey) -> (buffer: Result<EditBuffer, &'static str>)
    ensures
        buffer_view(buffer) == open@.buffer_to_edit(),
{
    let row: usize = open.cursor;
    match &open.value {
        None => Err("nothing open to edit"),
        Some(Value::Hash(shown)) => {
            if !open.cursor_active || row >= shown.pairs.len() {
                return Err("Enter to pick a field");
            }
            EditBuffer::for_hash_field(&shown.pairs[row].0, &shown.pairs[row].1)
        },
        Some(Value::PlainSet(shown)) => {
            if !open.cursor_active || row >= shown.members.len() {
                return Err("Enter to pick a member");
            }
            if text::is_utf8(shown.members[row].as_slice()) {
                Err("a member can't be edited in place — remove it, then add the new one")
            } else {
                Err("binary members aren't editable here yet")
            }
        },
        Some(Value::List(shown)) => {
            if !open.cursor_active || row >= shown.items.len() {
                return Err("Enter to pick an element");
            }
            EditBuffer::list_element(row, &shown.items[row])
        },
        Some(Value::ZSet(shown)) => {
            if !open.cursor_active || row >= shown.entries.len() {
                return Err("Enter to pick a member");
            }
            Ok(EditBuffer::zset_score(shown.entries[row].0.as_slice(), &shown.entries[row].1))
        },
        Some(value) => EditBuffer::from_value(value, row),
    }
}

/// Opens a buffer on the value, or on what the cursor is on. Whether writes are
/// allowed is not asked here but when the write is confirmed.
pub fn open_editor(state: State) -> (r: (State, Vec<Command>))
    ensures
        r.0@ == state@.edit_opened().0,
        Command::list(r.1@) == state@.edit_opened().1,
{
    if let Some(why) = refusal(&state) {
        return (state, notify(why));
    }
    let buffer = match &state.open {
        Some(open) => buffer_to_edit(open),
        None => {
            return (state, nothing());
        },
    };
    begin(state, buffer)
}

fn buffer_to_add(open: &OpenKey) -> (buffer: Result<EditBuffer, &'static str>)
    ensures
        buffer_view(buffer) == open@.buffer_to_add(),
{
    match &open.value {
        None => Err("nothing open to edit"),
        Some(Value::Hash(_)) => Ok(EditBuffer::new_hash_field()),
        Some(Value::PlainSet(_)) => Ok(EditBuffer::new_set_member()),
        Some(Value::List(_)) => Ok(EditBuffer::new_list_element()),
        Some(Value::ZSet(_)) => Ok(EditBuffer::new_zset_member()),
        Some(_) => Err(
            "fields can only be added to a hash, members to a set or zset, elements to a list",
        ),
    }
}

/// Opens the form that adds to a value that has parts.
pub fn begin_add_entry(state: State) -> (r: (State, Vec<Command>))
    ensures
        r.0@ == state@.add_opened().0,
        Command::list(r.1@) == state@.add_opened().1,
{
    if let Some(why) = refusal(&state) {
        return (state, notify(why));
    }
    let buffer = match &state.open {
        Some(open) => buffer_to_add(open),
        None => {
            return (state, nothing());
        },
    };
    begin(state, buffer)
}

/// Opens the capture of a time to live.
pub fn open_ttl_editor(state: State) -> (r: (State, Vec<Command>))
    ensures
        r.0@ == state@.ttl_opened().0,
        Command::list(r.1@) == state@.ttl_opened().1,
{
    if let Some(why) = refusal(&state) {
        return (state, notify(why));
    }
    begin(state, Ok(EditBuffer::ttl()))
}

fn typing(state: &State) -> (buffer: Option<&EditBuffer>)
    ensures
        buffer is Some <==> state@.typing() is Some,
        buffer is Some ==> buffer->0@ == state@.typing()->0,
{
    match &state.open {
        Some(open) => open.typing(),
        None => None,
    }
}

/// Whether the name part of an add form may not be left.
pub fn add_form_name_blocked(state: &State) -> (blocked: bool)
    ensures
        blocked == state@.name_blocked(),
{
    match &state.open {
        Some(open) => match open.editor() {
            Some(buffer) => match buffer.target() {
                EditTarget::NewHashField { field, .. } => field.as_str().unicode_len() == 0
                    || open.hash_field_shown_duplicate(),
                EditTarget::NewZSetMember { .. } => open.zset_member_shown_duplicate(),
                _ => true,
            },
            None => true,
        },
        None => true,
    }
}

/// Whether the member typed into the add form of a set is on screen already.
pub fn set_member_blocked(state: &State) -> (blocked: bool)
    ensures
        blocked == (state@.open is Some && state@.open->0.set_member_duplicate()),
{
    match &state.open {
        Some(open) => open.set_member_shown_duplicate(),
        None => false,
    }
}

fn zset_score_valid(state: &State) -> (valid: bool)
    ensures
        valid == state@.score_valid(),
{
    match typing(state) {
        Some(buffer) => match buffer.target() {
            EditTarget::ZSetScore { .. } => typed_score(buffer).is_some(),
            EditTarget::NewZSetMember { .. } => typed_score(buffer).is_some(),
            _ => true,
        },
        None => true,
    }
}

fn typed_score(buffer: &EditBuffer) -> (score: Option<Score>)
    ensures
        score is Some <==> score::is_score(buffer@.content()),
        score is Some ==> score->0@ == buffer@.content(),
{
    Score::parse(buffer.content().as_str())
}

fn original_score(buffer: &EditBuffer) -> (score: Option<Score>)
    ensures
        score is Some <==> score::is_score(text::shown(buffer@.original)),
        score is Some ==> score->0@ == text::shown(buffer@.original),
{
    let shown = text::lossy_text(buffer.original());
    Score::parse(shown.as_str())
}

/// Whether what is typed into the text box may not be staged.
pub fn value_part_stage_blocked(state: &State) -> (blocked: bool)
    ensures
        blocked == state@.stage_blocked(),
{
    set_member_blocked(state) || !zset_score_valid(state)
}

/// The write that a buffer stages. A score that is none stages nothing: there
/// is no honest number to put in its place.
fn mutation_of(buffer: &EditBuffer, key: &KeyName) -> (pending: Option<PendingMutation>)
    ensures
        pending is Some <==> buffer@.mutation(key@) is Some,
        pending is Some ==> pending->0@ == buffer@.mutation(key@)->0,
{
    let name = key.clone();
    let old = text::copy_bytes(buffer.original());
    let new = buffer.text();
    let was_json: bool = buffer.was_json();
    match buffer.target() {
        EditTarget::Value => Some(PendingMutation::SetString { name, old, new, was_json }),
        EditTarget::HashField { field } => Some(
            PendingMutation::SetHashField {
                name,
                field: field.as_str().as_bytes_vec(),
                old,
                new,
                was_json,
            },
        ),
        EditTarget::NewHashField { field, .. } => Some(
            PendingMutation::AddHashField {
                name,
                field: field.as_str().as_bytes_vec(),
                value: new,
            },
        ),
        EditTarget::NewSetMember => Some(PendingMutation::AddSetMember { name, member: new }),
        EditTarget::ListElement { index } => Some(
            PendingMutation::SetListElement { name, index: *index, old, new, was_json },
        ),
        EditTarget::NewListElement { end } => Some(
            PendingMutation::AddListElement { name, end: *end, value: new },
        ),
        EditTarget::ZSetScore { member } => match (original_score(buffer), typed_score(buffer)) {
            (Some(old_score), Some(new_score)) => Some(
                PendingMutation::SetZSetScore {
                    name,
                    member: text::copy_bytes(member.as_slice()),
                    old_score,
                    new_score,
                },
            ),
            _ => None,
        },
        EditTarget::NewZSetMember { member, .. } => match typed_score(buffer) {
            Some(score) => Some(
                PendingMutation::AddZSetMember {
                    name,
                    member: member.as_str().as_bytes_vec(),
                    score,
                },
            ),
            None => None,
        },
        EditTarget::Ttl { .. } => None,
    }
}

fn is_new(target: &EditTarget) -> (r: bool)
    ensures
        r == target@.is_new(),
{
    match target {
        EditTarget::NewHashField { .. } => true,
        EditTarget::NewSetMember => true,
        EditTarget::NewListElement { .. } => true,
        EditTarget::NewZSetMember { .. } => true,
        _ => false,
    }
}

/// Stages the buffer as a write to be confirmed, or puts it away if it holds
/// nothing new. A staged buffer stays on screen until its write settles.
pub fn stage_editor(state: State) -> (r: (State, Vec<Command>))
    ensures
        r.0@ == state@.edit_staged(),
        Command::list(r.1@) == Seq::<CommandView>::empty(),
{
    let mut next = state;
    let staged: Option<PendingMutation> = match &next.open {
        Some(open) => match open.typing() {
            Some(buffer) => {
                if let EditTarget::Ttl { .. } = buffer.target() {
                    return (next, nothing());
                }
                if !is_new(buffer.target()) && !buffer.is_dirty() {
                    None
                } else {
                    match mutation_of(buffer, &open.name) {
                        Some(pending) => Some(pending),
                        None => {
                            return (next, nothing());
                        },
                    }
                }
            },
            None => {
                return (next, nothing());
            },
        },
        None => {
            return (next, nothing());
        },
    };
    match staged {
        Some(pending) => {
            if let Some(open) = &mut next.open {
                open.stage_edit();
            }
            next.confirm = Some(pending);
        },
        None => {
            clear_editing(&mut next);
        },
    }
    (next, nothing())
}

/// Gives the edit of the Open key up, if there is one.
pub fn clear_editing(state: &mut State)
    ensures
        final(state)@ == old(state)@.edit_ended(),
{
    if let Some(open) = &mut state.open {
        open.end_edit();
    }
}

/// Takes a keypress while a single line is typed: the name part of an add form,
/// or a time to live.
pub fn name_part_key(state: State, key: KeyPress) -> (r: (State, Vec<Command>))
    ensures
        r.0@ == state@.name_part_key(key),
        Command::list(r.1@) == Seq::<CommandView>::empty(),
{
    match state.keymap.action_for(&key) {
        Some(Action::EditorStage) => {
            if add_form_name_blocked(&state) || !zset_score_valid(&state) {
                return (state, nothing());
            }
            return stage_editor(state);
        },
        Some(Action::Cancel) => {
            let mut next = state;
            clear_editing(&mut next);
            return (next, nothing());
        },
        _ => {},
    }
    let blocked: bool = add_form_name_blocked(&state);
    let mut next = state;
    if let Some(open) = &mut next.open {
        if let EditPhase::Typing(buffer) = &mut open.edit {
            type_name_key(buffer, key, blocked);
        }
    }
    (next, nothing())
}

fn type_name_key(buffer: &mut EditBuffer, key: KeyPress, blocked: bool)
    ensures
        final(buffer)@ == old(buffer)@.name_keyed(key, blocked),
{
    match key.code {
        KeyCode::Enter | KeyCode::Down => {
            if !blocked {
                buffer.advance_to_value();
            }
        },
        KeyCode::Backspace => buffer.name_pop(),
        KeyCode::Char(c) => {
            if !key.ctrl && !key.alt {
                buffer.name_push(c);
            }
        },
        _ => {},
    }
}

fn type_key(buffer: &mut EditBuffer, key: KeyPress)
    ensures
        final(buffer)@ == old(buffer)@.keyed(key),
{
    match key.code {
        KeyCode::Up => {
            let before = buffer.cursor();
            buffer.move_cursor(Step::Up);
            let after = buffer.cursor();
            if before.0 == after.0 && before.1 == after.1 && buffer.active_part() == Some(
                FieldPart::Value,
            ) {
                buffer.return_to_name();
            }
        },
        KeyCode::Down => buffer.move_cursor(Step::Down),
        KeyCode::Left => buffer.move_cursor(Step::Back),
        KeyCode::Right => buffer.move_cursor(Step::Forward),
        KeyCode::Home => buffer.move_cursor(Step::Head),
        KeyCode::End => buffer.move_cursor(Step::End),
        KeyCode::PageUp => buffer.move_cursor_by(Step::Up, VALUE_PAGE_ROWS),
        KeyCode::PageDown => buffer.move_cursor_by(Step::Down, VALUE_PAGE_ROWS),
        KeyCode::Enter => buffer.insert_newline(),
        KeyCode::Tab => {
            let adds_to_list: bool = match buffer.target() {
                EditTarget::NewListElement { .. } => true,
                _ => false,
            };
            if adds_to_list {
                buffer.toggle_list_end();
            } else {
                buffer.insert_tab();
            }
        },
        KeyCode::Backspace => buffer.backspace(),
        KeyCode::Delete => buffer.delete_forward(),
        KeyCode::Char(c) => {
            if !key.ctrl && !key.alt {
                buffer.insert_char(c);
            }
        },
        KeyCode::Esc => {},
    }
}

/// Stages what is in the text box, unless something blocks it.
fn stage_value(state: State) -> (r: (State, Vec<Command>))
    ensures
        r.0@ == state@.value_staged(),
        Command::list(r.1@) == Seq::<CommandView>::empty(),
{
    if value_part_stage_blocked(&state) {
        return (state, nothing());
    }
    stage_editor(state)
}

/// What a key means to the text box beyond typing.
enum EditorMove {
    Stage,
    Undo,
    Redo,
    Discard,
    Type,
}

/// Takes a keypress while a buffer takes the keys. What the keymap binds comes
/// first; `Enter` stages everything but a whole string, in which it breaks the
/// line.
pub fn editor_key(state: State, key: KeyPress) -> (r: (State, Vec<Command>))
    ensures
        r.0@ == state@.editor_key(key),
        Command::list(r.1@) == Seq::<CommandView>::empty(),
{
    let (single_line, whole_value): (bool, bool) = match typing(&state) {
        Some(buffer) => (
            buffer.is_single_line_capture(),
            match buffer.target() {
                EditTarget::Value => true,
                _ => false,
            },
        ),
        None => {
            return (state, nothing());
        },
    };
    if single_line {
        return name_part_key(state, key);
    }
    let wanted = match state.keymap.action_for(&key) {
        Some(Action::EditorStage) => EditorMove::Stage,
        Some(Action::EditorUndo) => EditorMove::Undo,
        Some(Action::EditorRedo) => EditorMove::Redo,
        Some(Action::Cancel) => EditorMove::Discard,
        _ => if key.code == KeyCode::Enter && !whole_value {
            EditorMove::Stage
        } else {
            EditorMove::Type
        },
    };
    if let EditorMove::Stage = wanted {
        return stage_value(state);
    }
    let mut next = state;
    if let EditorMove::Discard = wanted {
        clear_editing(&mut next);
        return (next, nothing());
    }
    if let Some(open) = &mut next.open {
        if let EditPhase::Typing(buffer) = &mut open.edit {
            match wanted {
                EditorMove::Undo => buffer.undo(),
                EditorMove::Redo => buffer.redo(),
                _ => type_key(buffer, key),
            }
        }
    }
    (next, nothing())
}

/// Pastes into the buffer that takes the keys. A single line stays one.
pub fn paste_into_editor(state: State, pasted: &str) -> (r: (State, Vec<Command>))
    ensures
        r.0@ == state@.editor_pasted(pasted@),
        Command::list(r.1@) == Seq::<CommandView>::empty(),
{
    let mut next = state;
    if let Some(open) = &mut next.open {
        if let EditPhase::Typing(buffer) = &mut open.edit {
            if buffer.is_single_line_capture() {
                buffer.name_push_str(text::strip_line_breaks(pasted).as_str());
            } else {
                buffer.insert_str(pasted);
            }
        }
    }
    (next, nothing())
}

/// Takes in that the Open key is gone while an edit of it may be staged.
pub fn staged_edit_found_key_gone(state: &mut State, name: &KeyName, at_ms: u64)
    ensures
        final(state)@ == old(state)@.staged_key_gone(name@, at_ms),
{
    let dialog_up: bool = match &state.confirm {
        Some(PendingMutation::DeleteKey { .. }) => false,
        Some(pending) => pending.name().is(name),
        None => false,
    };
    if let Some(open) = &mut state.open {
        if !open.name.is(name) {
            return;
        }
        if dialog_up {
            open.unstage_buffer();
            let mut words = name.display();
            words.append(" is gone — nothing written, edit kept");
            state.confirm = None;
            state.notice = Some((words, at_ms));
        } else if !open.is_editing() {
            open.drop_staged_buffer();
        }
    }
}

/// Whatever is typed or pasted, the buffer remembers the edits that lead to its
/// text.
pub proof fn typing_keeps_the_history(
    buffer: EditView,
    key: KeyPress,
    blocked: bool,
    pasted: Seq<char>,
)
    requires
        buffer.area.remembers(),
    ensures
        buffer.keyed(key).area.remembers(),
        buffer.name_keyed(key, blocked).area.remembers(),
        buffer.pasted(pasted).area.remembers(),
{
    let step = match key.code {
        KeyCode::Up | KeyCode::PageUp => Step::Up,
        KeyCode::Down | KeyCode::PageDown => Step::Down,
        KeyCode::Left => Step::Back,
        KeyCode::Right => Step::Forward,
        KeyCode::Home => Step::Head,
        _ => Step::End,
    };
    let c = match key.code {
        KeyCode::Char(c) => c,
        _ => ' ',
    };
    editor::a_buffer_remembers_its_edits(
        buffer,
        pasted,
        buffer.target,
        false,
        c,
        step,
        VALUE_PAGE_ROWS as nat,
    );
}

} // verus!
