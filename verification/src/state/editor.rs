//! The inline editor's buffer: what is being edited, the text as it stands, and
//! what it was when the buffer was opened.

use vstd::prelude::*;
use vstd::utf8::*;

use crate::area::{self, Area, AreaView, Step};
use crate::json;
use crate::score::Score;
use crate::state::value::{self, ListEnd, Value, ValueView};
use crate::text;

verus! {

/// The most bytes a buffer is opened on.
pub const MAX_EDIT_BYTES: usize = 1_048_576;

/// Which half of a two-part add form the keys go to.
#[derive(Clone, Copy, Debug, PartialEq, Eq, Structural)]
pub enum FieldPart {
    Name,
    Value,
}

/// What a buffer edits.
#[derive(Clone, Debug, PartialEq, Eq)]
pub enum EditTarget {
    Value,
    HashField { field: String },
    NewHashField { field: String, part: FieldPart },
    NewSetMember,
    ListElement { index: usize },
    NewListElement { end: ListEnd },
    ZSetScore { member: Vec<u8> },
    NewZSetMember { member: String, part: FieldPart },
    Ttl { text: String },
}

#[verifier::ext_equal]
pub enum TargetView {
    Value,
    HashField { field: Seq<char> },
    NewHashField { field: Seq<char>, part: FieldPart },
    NewSetMember,
    ListElement { index: usize },
    NewListElement { end: ListEnd },
    ZSetScore { member: Seq<u8> },
    NewZSetMember { member: Seq<char>, part: FieldPart },
    Ttl { text: Seq<char> },
}

impl View for EditTarget {
    type V = TargetView;

    open spec fn view(&self) -> TargetView {
        match self {
            EditTarget::Value => TargetView::Value,
            EditTarget::HashField { field } => TargetView::HashField { field: field@ },
            EditTarget::NewHashField { field, part } => TargetView::NewHashField {
                field: field@,
                part: *part,
            },
            EditTarget::NewSetMember => TargetView::NewSetMember,
            EditTarget::ListElement { index } => TargetView::ListElement { index: *index },
            EditTarget::NewListElement { end } => TargetView::NewListElement { end: *end },
            EditTarget::ZSetScore { member } => TargetView::ZSetScore { member: member@ },
            EditTarget::NewZSetMember { member, part } => TargetView::NewZSetMember {
                member: member@,
                part: *part,
            },
            EditTarget::Ttl { text } => TargetView::Ttl { text: text@ },
        }
    }
}

impl TargetView {
    /// Whether the buffer adds something, rather than changing it.
    pub open spec fn is_new(self) -> bool {
        self is NewHashField || self is NewSetMember || self is NewListElement
            || self is NewZSetMember
    }

    /// Which part of a two-part form is active, where the target has two.
    pub open spec fn part(self) -> Option<FieldPart> {
        match self {
            TargetView::NewHashField { part, .. } => Some(part),
            TargetView::NewZSetMember { part, .. } => Some(part),
            _ => None,
        }
    }

    pub open spec fn with_part(self, part: FieldPart) -> TargetView {
        match self {
            TargetView::NewHashField { field, .. } => TargetView::NewHashField { field, part },
            TargetView::NewZSetMember { member, .. } => TargetView::NewZSetMember { member, part },
            _ => self,
        }
    }

    /// The one line that is typed outside the text box: the name of what is
    /// added, or a time to live.
    pub open spec fn line(self) -> Option<Seq<char>> {
        match self {
            TargetView::NewHashField { field, .. } => Some(field),
            TargetView::NewZSetMember { member, .. } => Some(member),
            TargetView::Ttl { text } => Some(text),
            _ => None,
        }
    }

    pub open spec fn with_line(self, line: Seq<char>) -> TargetView {
        match self {
            TargetView::NewHashField { part, .. } => TargetView::NewHashField { field: line, part },
            TargetView::NewZSetMember { part, .. } => TargetView::NewZSetMember {
                member: line,
                part,
            },
            TargetView::Ttl { .. } => TargetView::Ttl { text: line },
            _ => self,
        }
    }

    /// The name of the field or member being added.
    pub open spec fn field_name(self) -> Option<Seq<char>> {
        match self {
            TargetView::NewHashField { field, .. } => Some(field),
            TargetView::NewZSetMember { member, .. } => Some(member),
            _ => None,
        }
    }

    /// Whether keys go to a single line, and not to the text box.
    pub open spec fn is_single_line(self) -> bool {
        self.part() == Some(FieldPart::Name) || self is Ttl
    }

    /// Whether the text box holds a score.
    pub open spec fn is_scored(self) -> bool {
        self is ZSetScore || self is NewZSetMember
    }

    pub open spec fn with_other_end(self) -> TargetView {
        match self {
            TargetView::NewListElement { end } => TargetView::NewListElement {
                end: match end {
                    ListEnd::Head => ListEnd::Tail,
                    ListEnd::Tail => ListEnd::Head,
                },
            },
            _ => self,
        }
    }
}

impl EditTarget {
    pub fn copy(&self) -> (copy: EditTarget)
        ensures
            copy@ == self@,
    {
        match self {
            EditTarget::Value => EditTarget::Value,
            EditTarget::HashField { field } => EditTarget::HashField { field: field.clone() },
            EditTarget::NewHashField { field, part } => EditTarget::NewHashField {
                field: field.clone(),
                part: *part,
            },
            EditTarget::NewSetMember => EditTarget::NewSetMember,
            EditTarget::ListElement { index } => EditTarget::ListElement { index: *index },
            EditTarget::NewListElement { end } => EditTarget::NewListElement { end: *end },
            EditTarget::ZSetScore { member } => EditTarget::ZSetScore {
                member: text::copy_bytes(member.as_slice()),
            },
            EditTarget::NewZSetMember { member, part } => EditTarget::NewZSetMember {
                member: member.clone(),
                part: *part,
            },
            EditTarget::Ttl { text } => EditTarget::Ttl { text: text.clone() },
        }
    }

    /// Whether both targets are the same.
    pub fn is(&self, other: &EditTarget) -> (same: bool)
        ensures
            same == (self@ == other@),
    {
        match (self, other) {
            (EditTarget::Value, EditTarget::Value) => true,
            (EditTarget::HashField { field: a }, EditTarget::HashField { field: b }) => *a == *b,
            (
                EditTarget::NewHashField { field: a, part: p },
                EditTarget::NewHashField { field: b, part: q },
            ) => *a == *b && *p == *q,
            (EditTarget::NewSetMember, EditTarget::NewSetMember) => true,
            (EditTarget::ListElement { index: a }, EditTarget::ListElement { index: b }) => *a
                == *b,
            (EditTarget::NewListElement { end: a }, EditTarget::NewListElement { end: b }) => *a
                == *b,
            (EditTarget::ZSetScore { member: a }, EditTarget::ZSetScore { member: b }) => {
                text::same_bytes(a.as_slice(), b.as_slice())
            },
            (
                EditTarget::NewZSetMember { member: a, part: p },
                EditTarget::NewZSetMember { member: b, part: q },
            ) => *a == *b && *p == *q,
            (EditTarget::Ttl { text: a }, EditTarget::Ttl { text: b }) => *a == *b,
            _ => false,
        }
    }
}

/// A buffer that is being typed into.
#[derive(Debug)]
pub struct EditBuffer {
    area: Area,
    target: EditTarget,
    original: Vec<u8>,
    was_json: bool,
}

/// What a buffer is.
#[verifier::ext_equal]
pub struct EditView {
    pub area: AreaView,
    pub target: TargetView,
    pub original: Seq<u8>,
    pub was_json: bool,
}

impl EditView {
    /// The text of the box: its lines, with a line break between each two.
    pub open spec fn content(self) -> Seq<char> {
        text::join(self.area.lines, '\n')
    }

    /// The text of the box, as it would be written.
    pub open spec fn text(self) -> Seq<u8> {
        encode_utf8(self.content())
    }

    pub open spec fn is_dirty(self) -> bool {
        self.text() != self.original
    }

    /// A buffer opened on `s`, at its start.
    pub open spec fn opened(s: Seq<char>, target: TargetView, was_json: bool) -> EditView {
        EditView {
            area: AreaView::fresh(text::split(s, '\n')),
            target,
            original: encode_utf8(s),
            was_json,
        }
    }

    /// An empty form for something new.
    pub open spec fn blank(target: TargetView) -> EditView {
        EditView::opened(Seq::empty(), target, false)
    }

    pub open spec fn hash_field(field: Seq<u8>, value: Seq<u8>) -> Result<EditView, Seq<char>> {
        if !valid_utf8(field) || !valid_utf8(value) {
            Err("binary fields aren't editable here yet"@)
        } else if value.len() > MAX_EDIT_BYTES {
            Err("too large to edit here"@)
        } else {
            Ok(
                EditView::opened(
                    decode_utf8(value),
                    TargetView::HashField { field: decode_utf8(field) },
                    json::looks_like_json(decode_utf8(value)),
                ),
            )
        }
    }

    pub open spec fn list_element(index: usize, element: Seq<u8>) -> Result<EditView, Seq<char>> {
        if !valid_utf8(element) {
            Err("binary elements aren't editable here yet"@)
        } else if element.len() > MAX_EDIT_BYTES {
            Err("too large to edit here"@)
        } else {
            Ok(
                EditView::opened(
                    decode_utf8(element),
                    TargetView::ListElement { index },
                    json::looks_like_json(decode_utf8(element)),
                ),
            )
        }
    }

    pub open spec fn zset_score(member: Seq<u8>, score: Seq<char>) -> EditView {
        EditView::opened(score, TargetView::ZSetScore { member }, false)
    }

    /// The whole value of a string, with the cursor on the line under row `row`
    /// of its viewer. Nothing else is edited as a whole.
    pub open spec fn whole_value(value: ValueView, row: usize) -> Result<EditView, Seq<char>> {
        match value {
            ValueView::Str { text, lines } => if encode_utf8(text).len() > MAX_EDIT_BYTES {
                Err("too large to edit here"@)
            } else {
                Ok(
                    EditView::opened(text, TargetView::Value, false).at_line(
                        line_of_row(text::split(text, '\n'), lines, row as int),
                    ),
                )
            },
            ValueView::Json { text, .. } => if encode_utf8(text).len() > MAX_EDIT_BYTES {
                Err("too large to edit here"@)
            } else {
                Ok(EditView::opened(text, TargetView::Value, true).at_line(row as int))
            },
            ValueView::Binary { .. } => Err("binary values aren't editable here yet"@),
            _ => Err("this type isn't edited as a whole"@),
        }
    }

    /// The cursor moved to the head of a line, or of the last that a jump can
    /// reach.
    pub open spec fn at_line(self, line: int) -> EditView {
        self.moved(
            Step::Jump(
                if line < 65535 {
                    line as u16
                } else {
                    65535
                },
                0,
            ),
        )
    }

    pub open spec fn moved(self, step: Step) -> EditView {
        EditView { area: self.area.stepped(step), ..self }
    }

    pub open spec fn with_area(self, area: AreaView) -> EditView {
        EditView { area, ..self }
    }

    pub open spec fn with_target(self, target: TargetView) -> EditView {
        EditView { target, ..self }
    }

    /// `s` appended to the line that is typed outside the text box.
    pub open spec fn with_name_text(self, s: Seq<char>) -> EditView {
        match self.target.line() {
            Some(line) => self.with_target(self.target.with_line(line + s)),
            None => self,
        }
    }

    /// The last character of that line taken off.
    pub open spec fn without_name_char(self) -> EditView {
        match self.target.line() {
            Some(line) => if line.len() > 0 {
                self.with_target(self.target.with_line(line.drop_last()))
            } else {
                self
            },
            None => self,
        }
    }
}

/// Which line of a text row `row` of its wrapped rows belongs to. Rows make up
/// a line until they are as long as it is.
pub open spec fn line_of_row(lines: Seq<Seq<char>>, rows: Seq<Seq<char>>, row: int) -> int {
    line_from(lines, rows, row, 0, 0, 0)
}

pub open spec fn line_from(
    lines: Seq<Seq<char>>,
    rows: Seq<Seq<char>>,
    row: int,
    at: int,
    line: int,
    filled: int,
) -> int
    decreases row - at,
{
    if at >= row || !(0 <= at < rows.len()) || !(0 <= line < lines.len()) {
        line
    } else if filled + rows[at].len() >= lines[line].len() {
        line_from(lines, rows, row, at + 1, line + 1, 0)
    } else {
        line_from(lines, rows, row, at + 1, line, filled + rows[at].len())
    }
}

fn source_line(lines: &Vec<String>, rows: &Vec<String>, row: usize) -> (line: usize)
    ensures
        line == line_of_row(text::texts(lines@), text::texts(rows@), row as int),
{
    let ghost all = text::texts(lines@);
    let ghost drawn = text::texts(rows@);
    let mut at: usize = 0;
    let mut line: usize = 0;
    let mut filled: usize = 0;
    while at < row && at < rows.len() && line < lines.len()
        invariant
            all == text::texts(lines@),
            drawn == text::texts(rows@),
            at <= row,
            at <= rows@.len(),
            line <= lines@.len(),
            line < lines@.len() ==> filled == 0 || filled < all[line as int].len(),
            line_from(all, drawn, row as int, at as int, line as int, filled as int)
                == line_of_row(all, drawn, row as int),
        decreases row - at,
    {
        let len: usize = rows[at].as_str().unicode_len();
        let whole: usize = lines[line].as_str().unicode_len();
        assert(drawn[at as int].len() == len);
        assert(all[line as int].len() == whole);
        if len >= whole - filled {
            line = line + 1;
            filled = 0;
        } else {
            filled = filled + len;
        }
        at = at + 1;
    }
    line
}

impl View for EditBuffer {
    type V = EditView;

    closed spec fn view(&self) -> EditView {
        EditView {
            area: area::area_view(self.area),
            target: self.target@,
            original: self.original@,
            was_json: self.was_json,
        }
    }
}

impl Clone for EditBuffer {
    fn clone(&self) -> (copy: EditBuffer)
        ensures
            copy@ == self@,
    {
        EditBuffer {
            area: self.area.clone(),
            target: self.target.copy(),
            original: text::copy_bytes(self.original.as_slice()),
            was_json: self.was_json,
        }
    }
}

impl PartialEq for EditBuffer {
    /// Buffers are equal when their text, their cursor and what they edit are;
    /// what could be undone does not count.
    fn eq(&self, other: &EditBuffer) -> (same: bool) {
        let (row, col) = self.cursor();
        let (other_row, other_col) = other.cursor();
        value::same_texts(&area::lines_of(&self.area), &area::lines_of(&other.area)) && row
            == other_row && col == other_col && self.target.is(&other.target) && text::same_bytes(self.original.as_slice(), other.original.as_slice())
            && self.was_json == other.was_json
    }
}

impl vstd::std_specs::cmp::PartialEqSpecImpl for EditBuffer {
    open spec fn obeys_eq_spec() -> bool {
        true
    }

    open spec fn eq_spec(&self, other: &EditBuffer) -> bool {
        &&& self@.area.lines == other@.area.lines
        &&& self@.area.cursor == other@.area.cursor
        &&& self@.target == other@.target
        &&& self@.original == other@.original
        &&& self@.was_json == other@.was_json
    }
}

impl EditBuffer {
    fn opened(s: &str, target: EditTarget, was_json: bool) -> (buffer: EditBuffer)
        ensures
            buffer@ == EditView::opened(s@, target@, was_json),
    {
        let lines = text::split_lines(s);
        let original = s.as_bytes_vec();
        EditBuffer { area: area::new_area(lines), target, original, was_json }
    }

    /// A buffer on the value of a hash field.
    pub fn for_hash_field(field: &Vec<u8>, value: &Vec<u8>) -> (r: Result<
        EditBuffer,
        &'static str,
    >)
        ensures
            match EditView::hash_field(field@, value@) {
                Ok(view) => r is Ok && r->Ok_0@ == view,
                Err(why) => r is Err && r->Err_0@ == why,
            },
    {
        match (text::utf8_text(field.as_slice()), text::utf8_text(value.as_slice())) {
            (Some(field), Some(value_text)) => {
                if value.len() > MAX_EDIT_BYTES {
                    return Err("too large to edit here");
                }
                let was_json = json::json_shaped(value_text.as_str());
                Ok(
                    EditBuffer::opened(
                        value_text.as_str(),
                        EditTarget::HashField { field },
                        was_json,
                    ),
                )
            },
            _ => Err("binary fields aren't editable here yet"),
        }
    }

    /// A buffer on one element of a list.
    pub fn list_element(index: usize, element: &Vec<u8>) -> (r: Result<EditBuffer, &'static str>)
        ensures
            match EditView::list_element(index, element@) {
                Ok(view) => r is Ok && r->Ok_0@ == view,
                Err(why) => r is Err && r->Err_0@ == why,
            },
    {
        match text::utf8_text(element.as_slice()) {
            Some(element_text) => {
                if element.len() > MAX_EDIT_BYTES {
                    return Err("too large to edit here");
                }
                let was_json = json::json_shaped(element_text.as_str());
                Ok(
                    EditBuffer::opened(
                        element_text.as_str(),
                        EditTarget::ListElement { index },
                        was_json,
                    ),
                )
            },
            None => Err("binary elements aren't editable here yet"),
        }
    }

    /// A buffer on the score of a member. The member itself is not edited, so
    /// its bytes may be anything.
    pub fn zset_score(member: &[u8], score: &Score) -> (buffer: EditBuffer)
        ensures
            buffer@ == EditView::zset_score(member@, score@),
    {
        EditBuffer::opened(
            score.literal(),
            EditTarget::ZSetScore { member: text::copy_bytes(member) },
            false,
        )
    }

    /// A buffer on the whole of a string value, at the line under row `row`.
    pub fn from_value(value: &Value, row: usize) -> (r: Result<EditBuffer, &'static str>)
        ensures
            match EditView::whole_value(value@, row) {
                Ok(view) => r is Ok && r->Ok_0@ == view,
                Err(why) => r is Err && r->Err_0@ == why,
            },
    {
        match value {
            Value::Str(v) => {
                if v.text.as_str().as_bytes().len() > MAX_EDIT_BYTES {
                    return Err("too large to edit here");
                }
                let mut buffer = EditBuffer::opened(v.text.as_str(), EditTarget::Value, false);
                let lines = text::split_lines(v.text.as_str());
                let line: usize = source_line(&lines, &v.lines, row);
                buffer.go_to_line(line);
                Ok(buffer)
            },
            Value::Json(v) => {
                if v.text.as_str().as_bytes().len() > MAX_EDIT_BYTES {
                    return Err("too large to edit here");
                }
                let mut buffer = EditBuffer::opened(v.text.as_str(), EditTarget::Value, true);
                buffer.go_to_line(row);
                Ok(buffer)
            },
            Value::Binary(_) => Err("binary values aren't editable here yet"),
            _ => Err("this type isn't edited as a whole"),
        }
    }

    fn go_to_line(&mut self, line: usize)
        ensures
            final(self)@ == old(self)@.at_line(line as int),
    {
        let row: u16 = if line < 65535 {
            line as u16
        } else {
            65535
        };
        area::move_cursor(&mut self.area, Step::Jump(row, 0));
    }

    fn blank(target: EditTarget) -> (buffer: EditBuffer)
        ensures
            buffer@ == EditView::blank(target@),
    {
        let empty = String::new();
        EditBuffer::opened(empty.as_str(), target, false)
    }

    /// The add form of a hash, on the name of the field.
    pub fn new_hash_field() -> (buffer: EditBuffer)
        ensures
            buffer@ == EditView::blank(
                TargetView::NewHashField { field: Seq::empty(), part: FieldPart::Name },
            ),
    {
        EditBuffer::blank(EditTarget::NewHashField { field: String::new(), part: FieldPart::Name })
    }

    /// The add form of a set.
    pub fn new_set_member() -> (buffer: EditBuffer)
        ensures
            buffer@ == EditView::blank(TargetView::NewSetMember),
    {
        EditBuffer::blank(EditTarget::NewSetMember)
    }

    /// The add form of a list, which adds at the tail unless told otherwise.
    pub fn new_list_element() -> (buffer: EditBuffer)
        ensures
            buffer@ == EditView::blank(TargetView::NewListElement { end: ListEnd::Tail }),
    {
        EditBuffer::blank(EditTarget::NewListElement { end: ListEnd::Tail })
    }

    /// The add form of a sorted set, on the member.
    pub fn new_zset_member() -> (buffer: EditBuffer)
        ensures
            buffer@ == EditView::blank(
                TargetView::NewZSetMember { member: Seq::empty(), part: FieldPart::Name },
            ),
    {
        EditBuffer::blank(
            EditTarget::NewZSetMember { member: String::new(), part: FieldPart::Name },
        )
    }

    /// The capture of a time to live.
    pub fn ttl() -> (buffer: EditBuffer)
        ensures
            buffer@ == EditView::blank(TargetView::Ttl { text: Seq::empty() }),
    {
        EditBuffer::blank(EditTarget::Ttl { text: String::new() })
    }

    pub fn target(&self) -> (target: &EditTarget)
        ensures
            target@ == self@.target,
    {
        &self.target
    }

    /// What the text was when the buffer was opened.
    pub fn original(&self) -> (original: &[u8])
        ensures
            original@ == self@.original,
    {
        self.original.as_slice()
    }

    /// Whether what is edited was JSON when the buffer was opened.
    pub fn was_json(&self) -> (was_json: bool)
        ensures
            was_json == self@.was_json,
    {
        self.was_json
    }

    /// The text of the box.
    pub fn content(&self) -> (content: String)
        ensures
            content@ == self@.content(),
    {
        let lines = area::lines_of(&self.area);
        text::join_lines(&lines)
    }

    /// The text of the box, as it would be written.
    pub fn text(&self) -> (bytes: Vec<u8>)
        ensures
            bytes@ == self@.text(),
    {
        self.content().as_str().as_bytes_vec()
    }

    /// Whether the text is no longer what it was.
    pub fn is_dirty(&self) -> (dirty: bool)
        ensures
            dirty == self@.is_dirty(),
    {
        !text::same_bytes(self.text().as_slice(), self.original.as_slice())
    }

    /// Which part of a two-part form is active, where there are two.
    pub fn active_part(&self) -> (part: Option<FieldPart>)
        ensures
            part == self@.target.part(),
    {
        match &self.target {
            EditTarget::NewHashField { part, .. } => Some(*part),
            EditTarget::NewZSetMember { part, .. } => Some(*part),
            _ => None,
        }
    }

    /// The name of the field or member being added.
    pub fn field_name(&self) -> (name: Option<&str>)
        ensures
            name is Some <==> self@.target.field_name() is Some,
            name is Some ==> name->0@ == self@.target.field_name()->0,
    {
        match &self.target {
            EditTarget::NewHashField { field, .. } => Some(field.as_str()),
            EditTarget::NewZSetMember { member, .. } => Some(member.as_str()),
            _ => None,
        }
    }

    /// Whether keys go to a single line, and not to the text box.
    pub fn is_single_line_capture(&self) -> (r: bool)
        ensures
            r == self@.target.is_single_line(),
    {
        match &self.target {
            EditTarget::NewHashField { part, .. } => *part == FieldPart::Name,
            EditTarget::NewZSetMember { part, .. } => *part == FieldPart::Name,
            EditTarget::Ttl { .. } => true,
            _ => false,
        }
    }

    pub fn name_push(&mut self, c: char)
        ensures
            final(self)@ == old(self)@.with_name_text(seq![c]),
    {
        match &mut self.target {
            EditTarget::NewHashField { field, .. } => {
                field.push(c);
            },
            EditTarget::NewZSetMember { member, .. } => {
                member.push(c);
            },
            EditTarget::Ttl { text } => {
                text.push(c);
            },
            _ => {},
        }
        assert(self@ =~= old(self)@.with_name_text(seq![c])) by {
            match old(self)@.target.line() {
                Some(line) => {
                    assert(line.push(c) =~= line + seq![c]);
                },
                None => {},
            }
        }
    }

    pub fn name_push_str(&mut self, s: &str)
        ensures
            final(self)@ == old(self)@.with_name_text(s@),
    {
        match &mut self.target {
            EditTarget::NewHashField { field, .. } => {
                field.append(s);
            },
            EditTarget::NewZSetMember { member, .. } => {
                member.append(s);
            },
            EditTarget::Ttl { text } => {
                text.append(s);
            },
            _ => {},
        }
    }

    pub fn name_pop(&mut self)
        ensures
            final(self)@ == old(self)@.without_name_char(),
    {
        match &mut self.target {
            EditTarget::NewHashField { field, .. } => {
                field.pop();
            },
            EditTarget::NewZSetMember { member, .. } => {
                member.pop();
            },
            EditTarget::Ttl { text } => {
                text.pop();
            },
            _ => {},
        }
    }

    fn set_part(&mut self, to: FieldPart)
        ensures
            final(self)@ == old(self)@.with_target(old(self)@.target.with_part(to)),
    {
        match &mut self.target {
            EditTarget::NewHashField { part, .. } => {
                *part = to;
            },
            EditTarget::NewZSetMember { part, .. } => {
                *part = to;
            },
            _ => {},
        }
    }

    pub fn advance_to_value(&mut self)
        ensures
            final(self)@ == old(self)@.with_target(old(self)@.target.with_part(FieldPart::Value)),
    {
        self.set_part(FieldPart::Value);
    }

    pub fn return_to_name(&mut self)
        ensures
            final(self)@ == old(self)@.with_target(old(self)@.target.with_part(FieldPart::Name)),
    {
        self.set_part(FieldPart::Name);
    }

    /// Adds at the other end of the list.
    pub fn toggle_list_end(&mut self)
        ensures
            final(self)@ == old(self)@.with_target(old(self)@.target.with_other_end()),
    {
        match &mut self.target {
            EditTarget::NewListElement { end } => {
                *end = match *end {
                    ListEnd::Head => ListEnd::Tail,
                    ListEnd::Tail => ListEnd::Head,
                };
            },
            _ => {},
        }
    }

    /// The cursor of the text box: a row, and a position in it.
    pub fn cursor(&self) -> (cursor: (usize, usize))
        ensures
            (cursor.0 as int, cursor.1 as int) == self@.area.cursor,
            area::cursor_in(self@.area.lines, self@.area.cursor),
    {
        area::cursor_of(&self.area)
    }

    /// Moves the cursor of the text box, which stays in the text.
    pub fn move_cursor(&mut self, step: Step)
        ensures
            final(self)@ == old(self)@.moved(step),
            area::cursor_in(final(self)@.area.lines, final(self)@.area.cursor),
    {
        area::move_cursor(&mut self.area, step);
    }

    /// Moves the cursor `n` times.
    pub fn move_cursor_by(&mut self, step: Step, n: usize)
        ensures
            final(self)@ == old(self)@.with_area(old(self)@.area.stepped_times(step, n as nat)),
    {
        let mut i: usize = 0;
        while i < n
            invariant
                i <= n,
                self@ == old(self)@.with_area(old(self)@.area.stepped_times(step, i as nat)),
            decreases n - i,
        {
            self.move_cursor(step);
            i = i + 1;
        }
    }

    pub fn insert_char(&mut self, c: char)
        ensures
            final(self)@ == old(self)@.with_area(old(self)@.area.with_char(c)),
    {
        area::insert_char(&mut self.area, c);
    }

    pub fn insert_str(&mut self, s: &str)
        ensures
            final(self)@ == old(self)@.with_area(old(self)@.area.with_text(s@)),
    {
        area::insert_text(&mut self.area, s);
    }

    pub fn insert_newline(&mut self)
        ensures
            final(self)@ == old(self)@.with_area(old(self)@.area.with_newline()),
    {
        area::insert_newline(&mut self.area);
    }

    pub fn insert_tab(&mut self)
        ensures
            final(self)@ == old(self)@.with_area(old(self)@.area.with_tab()),
    {
        area::insert_tab(&mut self.area);
    }

    pub fn backspace(&mut self)
        ensures
            final(self)@ == old(self)@.with_area(old(self)@.area.without_previous()),
    {
        area::delete_previous(&mut self.area);
    }

    pub fn delete_forward(&mut self)
        ensures
            final(self)@ == old(self)@.with_area(old(self)@.area.without_next()),
    {
        area::delete_next(&mut self.area);
    }

    pub fn undo(&mut self)
        ensures
            final(self)@ == old(self)@.with_area(old(self)@.area.undone()),
    {
        area::undo(&mut self.area);
    }

    pub fn redo(&mut self)
        ensures
            final(self)@ == old(self)@.with_area(old(self)@.area.redone()),
    {
        area::redo(&mut self.area);
    }
}

/// Opening a buffer changes nothing: it holds the very bytes it was opened on,
/// and is not dirty.
pub proof fn an_opened_buffer_is_clean(s: Seq<char>, target: TargetView, was_json: bool)
    ensures
        EditView::opened(s, target, was_json).text() == encode_utf8(s),
        !EditView::opened(s, target, was_json).is_dirty(),
{
    text::join_undoes_split(s, '\n');
    text::split_is_not_empty(s, '\n');
}

/// A typed character can be taken back: `undo` gives the text and the cursor
/// before it.
pub proof fn undo_takes_typing_back(buffer: EditView, c: char)
    ensures
        buffer.area.with_char(c).undone().lines == buffer.area.lines,
        buffer.area.with_char(c).undone().cursor == buffer.area.cursor,
{
}

/// A whole string opens with the cursor at the head of the line that was under
/// the cursor of its viewer, as far as a jump reaches and there are lines.
pub proof fn a_whole_value_opens_at_its_line(value: ValueView, row: usize)
    requires
        EditView::whole_value(value, row) is Ok,
    ensures
        ({
            let buffer = EditView::whole_value(value, row)->Ok_0;
            let line = match value {
                ValueView::Str { text, lines } => line_of_row(
                    text::split(text, '\n'),
                    lines,
                    row as int,
                ),
                _ => row as int,
            };
            &&& buffer.area.cursor == (
                area::lesser(area::lesser(line, 65535), buffer.area.lines.len() - 1),
                0int,
            )
            &&& !buffer.is_dirty()
        }),
{
    match value {
        ValueView::Str { text, lines } => {
            an_opened_buffer_is_clean(text, TargetView::Value, false);
            text::split_is_not_empty(text, '\n');
            lines_are_counted_up(text::split(text, '\n'), lines, row as int, 0, 0, 0);
        },
        ValueView::Json { text, .. } => {
            an_opened_buffer_is_clean(text, TargetView::Value, true);
            text::split_is_not_empty(text, '\n');
        },
        _ => {},
    }
}

proof fn lines_are_counted_up(
    lines: Seq<Seq<char>>,
    rows: Seq<Seq<char>>,
    row: int,
    at: int,
    line: int,
    filled: int,
)
    requires
        0 <= line,
    ensures
        0 <= line_from(lines, rows, row, at, line, filled),
    decreases row - at,
{
    if !(at >= row || !(0 <= at < rows.len()) || !(0 <= line < lines.len())) {
        if filled + rows[at].len() >= lines[line].len() {
            lines_are_counted_up(lines, rows, row, at + 1, line + 1, 0);
        } else {
            lines_are_counted_up(lines, rows, row, at + 1, line, filled + rows[at].len());
        }
    }
}

/// What a buffer remembers always leads to its text: it does when the buffer is
/// opened, and every edit, every move of the cursor, `undo` and `redo` keep it
/// so.
pub proof fn a_buffer_remembers_its_edits(
    buffer: EditView,
    s: Seq<char>,
    target: TargetView,
    was_json: bool,
    c: char,
    step: Step,
    n: nat,
)
    ensures
        EditView::opened(s, target, was_json).area.remembers(),
        buffer.area.remembers() ==> {
            let area = buffer.area;
            &&& area.with_char(c).remembers()
            &&& area.with_text(s).remembers()
            &&& area.with_newline().remembers()
            &&& area.with_tab().remembers()
            &&& area.without_previous().remembers()
            &&& area.without_next().remembers()
            &&& area.stepped(step).remembers()
            &&& area.stepped_times(step, n).remembers()
            &&& area.undone().remembers()
            &&& area.redone().remembers()
        },
{
    let area = buffer.area;
    area.the_cursor_is_not_remembered(area.cursor, text::split(s, '\n'));
    if area.remembers() {
        area.the_cursor_is_not_remembered(area.stepped(step).cursor, Seq::empty());
        area.the_cursor_is_not_remembered(area.stepped(Step::Forward).cursor, Seq::empty());
        area.the_cursor_is_not_remembered(area.stepped_times(step, n).cursor, Seq::empty());
        assert forall|from: (int, int), lines: Seq<Seq<char>>, to: (int, int)| #[trigger]
            area.edited(from, lines, to).remembers() by {
            area.an_edit_is_remembered(from, lines, to);
        }
        let ahead = AreaView {
            cursor: area::landing(area.lines, area.cursor, Step::Forward),
            ..area
        };
        assert forall|from: (int, int), lines: Seq<Seq<char>>, to: (int, int)| #[trigger]
            ahead.edited(from, lines, to).remembers() by {
            ahead.an_edit_is_remembered(from, lines, to);
        }
        area.walking_the_edits_keeps_them();
        many_steps_keep_the_edits(area, step, n);
    }
}

proof fn many_steps_keep_the_edits(area: AreaView, step: Step, n: nat)
    ensures
        ({
            let after = area.stepped_times(step, n);
            after == (AreaView { cursor: after.cursor, ..area })
        }),
    decreases n,
{
    if n > 0 {
        many_steps_keep_the_edits(area, step, (n - 1) as nat);
    }
}

/// What `undo` takes back, `redo` makes again: the text is as it was, everything
/// is still remembered, and the cursor stands where the edit left it.
pub proof fn redo_undoes_undo(buffer: EditView)
    requires
        buffer.area.remembers(),
        buffer.area.past.len() > 0,
    ensures
        buffer.area.undone().redone() == (AreaView {
            cursor: buffer.area.past.last().to,
            ..buffer.area
        }),
{
    reveal(AreaView::remembers);
    assert(buffer.area.undone().redone().past =~= buffer.area.past);
    assert(buffer.area.undone().redone().future =~= buffer.area.future);
}

/// What `redo` makes again, `undo` takes back: the text is as it was, everything
/// is still remembered, and the cursor stands where the edit began.
pub proof fn undo_undoes_redo(buffer: EditView)
    requires
        buffer.area.remembers(),
        buffer.area.future.len() > 0,
    ensures
        buffer.area.redone().undone() == (AreaView {
            cursor: buffer.area.future.last().from,
            ..buffer.area
        }),
{
    reveal(AreaView::remembers);
    assert(buffer.area.redone().undone().past =~= buffer.area.past);
    assert(buffer.area.redone().undone().future =~= buffer.area.future);
}

} // verus!
