//! Values, one shape for each type of key, and what every viewer of one needs
//! to know: how many rows it has, and how much of it was read.

use vstd::prelude::*;

use crate::json;
use crate::score::Score;
use crate::state::loaded::KeyKind;
use crate::text;

verus! {

// ── Wrapping ────────────────────────────────────────────────────────────────

/// A line cut into rows of `width` characters; the last may be shorter.
pub open spec fn chunks(line: Seq<char>, width: nat) -> Seq<Seq<char>>
    decreases line.len(),
{
    if width == 0 || line.len() <= width {
        seq![line]
    } else {
        seq![line.take(width as int)] + chunks(line.skip(width as int), width)
    }
}

/// The rows of the first `n` lines.
pub open spec fn rows_of(lines: Seq<Seq<char>>, width: nat, n: int) -> Seq<Seq<char>>
    decreases n,
{
    if n <= 0 {
        Seq::empty()
    } else {
        rows_of(lines, width, n - 1) + chunks(lines[n - 1], width)
    }
}

/// `s` as it is drawn in a pane `width` characters wide, but at least one.
pub open spec fn wrapped(s: Seq<char>, width: nat) -> Seq<Seq<char>> {
    let lines = text::split(s, '\n');
    rows_of(
        lines,
        if width == 0 {
            1
        } else {
            width
        },
        lines.len() as int,
    )
}

fn push_chunks(rows: &mut Vec<String>, line: &str, width: usize)
    requires
        width > 0,
    ensures
        text::texts(final(rows)@) == text::texts(old(rows)@) + chunks(line@, width as nat),
{
    let chars = text::chars_of(line);
    let n: usize = chars.len();
    let mut from: usize = 0;
    assert(chars@.skip(0) =~= chars@);
    while n - from > width
        invariant
            width > 0,
            n == chars@.len(),
            from <= n,
            text::texts(rows@) + chunks(chars@.skip(from as int), width as nat) == text::texts(
                old(rows)@,
            ) + chunks(chars@, width as nat),
        decreases n - from,
    {
        let ghost before = text::texts(rows@);
        let ghost rest = chars@.skip(from as int);
        let row = chars_text(&chars, from, from + width);
        rows.push(row);
        assert(rest.take(width as int) =~= chars@.subrange(from as int, from + width));
        assert(rest.skip(width as int) =~= chars@.skip(from + width));
        assert(text::texts(rows@) =~= before.push(rest.take(width as int)));
        assert(text::texts(rows@) + chunks(chars@.skip(from + width), width as nat) =~= before
            + chunks(rest, width as nat));
        from = from + width;
    }
    let ghost before = text::texts(rows@);
    let row = chars_text(&chars, from, n);
    rows.push(row);
    assert(chars@.subrange(from as int, n as int) =~= chars@.skip(from as int));
    assert(text::texts(rows@) =~= before + chunks(chars@.skip(from as int), width as nat));
}

fn chars_text(chars: &Vec<char>, from: usize, to: usize) -> (r: String)
    requires
        from <= to <= chars@.len(),
    ensures
        r@ == chars@.subrange(from as int, to as int),
{
    let mut r: String = String::new();
    let mut i: usize = from;
    while i < to
        invariant
            from <= i <= to <= chars@.len(),
            r@ == chars@.subrange(from as int, i as int),
        decreases to - i,
    {
        r.push(chars[i]);
        i = i + 1;
        assert(r@ =~= chars@.subrange(from as int, i as int));
    }
    r
}

fn wrap(s: &str, width: usize) -> (rows: Vec<String>)
    ensures
        text::texts(rows@) == wrapped(s@, width as nat),
{
    let width: usize = if width == 0 {
        1
    } else {
        width
    };
    let lines = text::split_lines(s);
    let ghost all = text::texts(lines@);
    let mut rows: Vec<String> = Vec::new();
    let mut i: usize = 0;
    assert(text::texts(rows@) =~= rows_of(all, width as nat, 0));
    while i < lines.len()
        invariant
            width > 0,
            i <= lines@.len(),
            all == text::texts(lines@),
            text::texts(rows@) == rows_of(all, width as nat, i as int),
        decreases lines@.len() - i,
    {
        push_chunks(&mut rows, lines[i].as_str(), width);
        i = i + 1;
    }
    rows
}

// ── The shapes ──────────────────────────────────────────────────────────────

/// A string, with the rows it is drawn as.
#[derive(Clone, Debug, PartialEq, Eq)]
pub struct StringValue {
    pub text: String,
    pub lines: Vec<String>,
}

impl StringValue {
    /// `text`, wrapped at `width` characters.
    pub fn new(text: &str, width: usize) -> (value: StringValue)
        ensures
            value.text@ == text@,
            text::texts(value.lines@) == wrapped(text@, width as nat),
    {
        StringValue { text: text::owned(text), lines: wrap(text, width) }
    }
}

/// A JSON document, laid out for reading.
#[derive(Clone, Debug, PartialEq, Eq)]
pub struct JsonValue {
    pub text: String,
    pub lines: Vec<String>,
}

impl JsonValue {
    /// How a text is shown as JSON: laid out if it is JSON, as it stands if not.
    pub open spec fn shown(s: Seq<char>) -> Seq<char> {
        if json::is_json(s) {
            json::laid_out(s, 0, 0, false)
        } else {
            s
        }
    }

    pub fn parse(text: &str) -> (value: JsonValue)
        ensures
            value.text@ == JsonValue::shown(text@),
            text::texts(value.lines@) == text::split(JsonValue::shown(text@), '\n'),
    {
        let shown = if json::valid_json(text) {
            json::pretty(text)
        } else {
            text::owned(text)
        };
        let lines = text::split_lines(shown.as_str());
        JsonValue { text: shown, lines }
    }
}

/// The fields of a hash.
#[derive(Clone, Debug, Default, PartialEq, Eq)]
pub struct PairValue {
    pub pairs: Vec<(Vec<u8>, Vec<u8>)>,
    pub total: usize,
}

/// The elements of a list, from its head on.
#[derive(Clone, Debug, Default, PartialEq, Eq)]
pub struct IndexedValue {
    pub items: Vec<Vec<u8>>,
    pub total: usize,
}

/// The members of a set.
#[derive(Clone, Debug, Default, PartialEq, Eq)]
pub struct MemberValue {
    pub members: Vec<Vec<u8>>,
    pub total: usize,
}

/// The members of a sorted set, with their scores.
#[derive(Clone, Debug, Default, PartialEq, Eq)]
pub struct ScoredValue {
    pub entries: Vec<(Vec<u8>, Score)>,
    pub total: usize,
}

/// The entries of a stream, newest first, each with its fields.
#[derive(Clone, Debug, Default, PartialEq, Eq)]
pub struct StreamValue {
    pub entries: Vec<(Vec<u8>, Vec<(Vec<u8>, Vec<u8>)>)>,
    pub total: usize,
}

/// A string that is no text.
#[derive(Clone, Debug, Default, PartialEq, Eq)]
pub struct BinaryValue {
    pub bytes: Vec<u8>,
}

/// Which end of a list an element is added at.
#[derive(Clone, Copy, Debug, PartialEq, Eq, Structural)]
pub enum ListEnd {
    Head,
    Tail,
}

#[derive(Clone, Debug, PartialEq, Eq)]
pub enum Value {
    Str(StringValue),
    Hash(PairValue),
    List(IndexedValue),
    PlainSet(MemberValue),
    ZSet(ScoredValue),
    Stream(StreamValue),
    Json(JsonValue),
    Binary(BinaryValue),
}

pub open spec fn pairs_view(pairs: Seq<(Vec<u8>, Vec<u8>)>) -> Seq<(Seq<u8>, Seq<u8>)> {
    Seq::new(pairs.len(), |i: int| (pairs[i].0@, pairs[i].1@))
}

pub open spec fn scored_view(entries: Seq<(Vec<u8>, Score)>) -> Seq<(Seq<u8>, Seq<char>)> {
    Seq::new(entries.len(), |i: int| (entries[i].0@, entries[i].1@))
}

pub open spec fn stream_view(
    entries: Seq<(Vec<u8>, Vec<(Vec<u8>, Vec<u8>)>)>,
) -> Seq<(Seq<u8>, Seq<(Seq<u8>, Seq<u8>)>)> {
    Seq::new(entries.len(), |i: int| (entries[i].0@, pairs_view(entries[i].1@)))
}

/// What a value is. A collection may have been read in part: `total` counts
/// what the server holds.
#[verifier::ext_equal]
pub enum ValueView {
    Str { text: Seq<char>, lines: Seq<Seq<char>> },
    Hash { pairs: Seq<(Seq<u8>, Seq<u8>)>, total: usize },
    List { items: Seq<Seq<u8>>, total: usize },
    PlainSet { members: Seq<Seq<u8>>, total: usize },
    ZSet { entries: Seq<(Seq<u8>, Seq<char>)>, total: usize },
    Stream { entries: Seq<(Seq<u8>, Seq<(Seq<u8>, Seq<u8>)>)>, total: usize },
    Json { text: Seq<char>, lines: Seq<Seq<char>> },
    Binary { bytes: Seq<u8> },
}

impl View for Value {
    type V = ValueView;

    open spec fn view(&self) -> ValueView {
        match self {
            Value::Str(v) => ValueView::Str { text: v.text@, lines: text::texts(v.lines@) },
            Value::Hash(v) => ValueView::Hash { pairs: pairs_view(v.pairs@), total: v.total },
            Value::List(v) => ValueView::List {
                items: text::byte_strings(v.items@),
                total: v.total,
            },
            Value::PlainSet(v) => ValueView::PlainSet {
                members: text::byte_strings(v.members@),
                total: v.total,
            },
            Value::ZSet(v) => ValueView::ZSet { entries: scored_view(v.entries@), total: v.total },
            Value::Stream(v) => ValueView::Stream {
                entries: stream_view(v.entries@),
                total: v.total,
            },
            Value::Json(v) => ValueView::Json { text: v.text@, lines: text::texts(v.lines@) },
            Value::Binary(v) => ValueView::Binary { bytes: v.bytes@ },
        }
    }
}

impl ValueView {
    /// The rows a viewer draws, and its cursor moves over.
    pub open spec fn rows(self) -> nat {
        match self {
            ValueView::Str { lines, .. } => lines.len(),
            ValueView::Hash { pairs, .. } => pairs.len(),
            ValueView::List { items, .. } => items.len(),
            ValueView::PlainSet { members, .. } => members.len(),
            ValueView::ZSet { entries, .. } => entries.len(),
            ValueView::Stream { entries, .. } => entries.len(),
            ValueView::Json { lines, .. } => lines.len(),
            ValueView::Binary { bytes } => (bytes.len() + 15) / 16,
        }
    }

    pub open spec fn kind(self) -> KeyKind {
        match self {
            ValueView::Str { .. } => KeyKind::String,
            ValueView::Hash { .. } => KeyKind::Hash,
            ValueView::List { .. } => KeyKind::List,
            ValueView::PlainSet { .. } => KeyKind::PlainSet,
            ValueView::ZSet { .. } => KeyKind::ZSet,
            ValueView::Stream { .. } => KeyKind::Stream,
            ValueView::Json { .. } => KeyKind::Json,
            ValueView::Binary { .. } => KeyKind::String,
        }
    }

    /// How many entries the server holds, where the value has entries.
    pub open spec fn total(self) -> Option<usize> {
        match self {
            ValueView::Hash { total, .. } => Some(total),
            ValueView::List { total, .. } => Some(total),
            ValueView::PlainSet { total, .. } => Some(total),
            ValueView::ZSet { total, .. } => Some(total),
            ValueView::Stream { total, .. } => Some(total),
            _ => None,
        }
    }

    /// How many entries were read, where that is not all of them.
    pub open spec fn window(self) -> Option<usize> {
        match self.total() {
            Some(total) => if self.rows() < total {
                Some(self.rows() as usize)
            } else {
                None
            },
            None => None,
        }
    }

    /// The size of the value in words.
    pub open spec fn measure(self) -> Seq<char> {
        match self {
            ValueView::Str { text, .. } => text::grouped(text.len()) + " characters"@,
            ValueView::Hash { total, .. } => text::grouped(total as nat) + " fields"@,
            ValueView::List { total, .. } => text::grouped(total as nat) + " items"@,
            ValueView::PlainSet { total, .. } => text::grouped(total as nat) + " members"@,
            ValueView::ZSet { total, .. } => text::grouped(total as nat) + " members"@,
            ValueView::Stream { total, .. } => text::grouped(total as nat) + " entries"@,
            ValueView::Json { text, .. } => text::grouped(text.len()) + " characters"@,
            ValueView::Binary { bytes } => text::grouped(bytes.len()) + " bytes"@,
        }
    }

    /// The value as it is drawn in a pane `width` characters wide. Only a
    /// string depends on that.
    pub open spec fn rewrapped(self, width: nat) -> ValueView {
        match self {
            ValueView::Str { text, .. } => ValueView::Str { text, lines: wrapped(text, width) },
            _ => self,
        }
    }
}

impl Value {
    pub fn kind(&self) -> (kind: KeyKind)
        ensures
            kind == self@.kind(),
    {
        match self {
            Value::Str(_) => KeyKind::String,
            Value::Hash(_) => KeyKind::Hash,
            Value::List(_) => KeyKind::List,
            Value::PlainSet(_) => KeyKind::PlainSet,
            Value::ZSet(_) => KeyKind::ZSet,
            Value::Stream(_) => KeyKind::Stream,
            Value::Json(_) => KeyKind::Json,
            Value::Binary(_) => KeyKind::String,
        }
    }

    /// How many rows a viewer of the value has.
    pub fn row_count(&self) -> (rows: usize)
        ensures
            rows == self@.rows(),
    {
        match self {
            Value::Str(v) => v.lines.len(),
            Value::Hash(v) => v.pairs.len(),
            Value::List(v) => v.items.len(),
            Value::PlainSet(v) => v.members.len(),
            Value::ZSet(v) => v.entries.len(),
            Value::Stream(v) => v.entries.len(),
            Value::Json(v) => v.lines.len(),
            Value::Binary(v) => {
                let n: usize = v.bytes.len();
                if n % 16 == 0 {
                    n / 16
                } else {
                    n / 16 + 1
                }
            },
        }
    }

    /// How many entries were read, where that is not all of them.
    pub fn window(&self) -> (shown: Option<usize>)
        ensures
            shown == self@.window(),
    {
        let total: Option<usize> = match self {
            Value::Hash(v) => Some(v.total),
            Value::List(v) => Some(v.total),
            Value::PlainSet(v) => Some(v.total),
            Value::ZSet(v) => Some(v.total),
            Value::Stream(v) => Some(v.total),
            _ => None,
        };
        match total {
            Some(total) => {
                let rows: usize = self.row_count();
                if rows < total {
                    Some(rows)
                } else {
                    None
                }
            },
            None => None,
        }
    }

    /// The size of the value in words, such as `12,000 items`.
    pub fn measure(&self) -> (words: String)
        ensures
            words@ == self@.measure(),
    {
        let mut words: String = String::new();
        match self {
            Value::Str(v) => {
                let n: usize = v.text.as_str().unicode_len();
                text::push_grouped(&mut words, n as u64);
                words.append(" characters");
            },
            Value::Hash(v) => {
                text::push_grouped(&mut words, v.total as u64);
                words.append(" fields");
            },
            Value::List(v) => {
                text::push_grouped(&mut words, v.total as u64);
                words.append(" items");
            },
            Value::PlainSet(v) => {
                text::push_grouped(&mut words, v.total as u64);
                words.append(" members");
            },
            Value::ZSet(v) => {
                text::push_grouped(&mut words, v.total as u64);
                words.append(" members");
            },
            Value::Stream(v) => {
                text::push_grouped(&mut words, v.total as u64);
                words.append(" entries");
            },
            Value::Json(v) => {
                let n: usize = v.text.as_str().unicode_len();
                text::push_grouped(&mut words, n as u64);
                words.append(" characters");
            },
            Value::Binary(v) => {
                text::push_grouped(&mut words, v.bytes.len() as u64);
                words.append(" bytes");
            },
        }
        assert(words@ =~= self@.measure());
        words
    }

    /// Wraps a string anew, for a pane `width` characters wide.
    pub fn rewrap(&mut self, width: usize)
        ensures
            final(self)@ == old(self)@.rewrapped(width as nat),
    {
        match self {
            Value::Str(v) => {
                v.lines = wrap(v.text.as_str(), width);
            },
            _ => {},
        }
    }

    /// Whether two values are the same.
    pub fn same(&self, other: &Value) -> (same: bool)
        ensures
            same == (self@ == other@),
    {
        match (self, other) {
            (Value::Str(a), Value::Str(b)) => a.text == b.text && same_texts(&a.lines, &b.lines),
            (Value::Hash(a), Value::Hash(b)) => a.total == b.total && same_pairs(
                &a.pairs,
                &b.pairs,
            ),
            (Value::List(a), Value::List(b)) => a.total == b.total && same_byte_strings(
                &a.items,
                &b.items,
            ),
            (Value::PlainSet(a), Value::PlainSet(b)) => a.total == b.total && same_byte_strings(
                &a.members,
                &b.members,
            ),
            (Value::ZSet(a), Value::ZSet(b)) => a.total == b.total && same_scored(
                &a.entries,
                &b.entries,
            ),
            (Value::Stream(a), Value::Stream(b)) => a.total == b.total && same_stream(
                &a.entries,
                &b.entries,
            ),
            (Value::Json(a), Value::Json(b)) => a.text == b.text && same_texts(&a.lines, &b.lines),
            (Value::Binary(a), Value::Binary(b)) => text::same_bytes(
                a.bytes.as_slice(),
                b.bytes.as_slice(),
            ),
            _ => false,
        }
    }
}

/// Whether two lists of strings hold the same texts.
pub fn same_texts(a: &Vec<String>, b: &Vec<String>) -> (same: bool)
    ensures
        same == (text::texts(a@) == text::texts(b@)),
{
    let ghost x = text::texts(a@);
    let ghost y = text::texts(b@);
    if a.len() != b.len() {
        assert(x.len() != y.len());
        return false;
    }
    let mut i: usize = 0;
    while i < a.len()
        invariant
            i <= a@.len(),
            a@.len() == b@.len(),
            x == text::texts(a@),
            y == text::texts(b@),
            forall|j: int| 0 <= j < i ==> #[trigger] x[j] == y[j],
        decreases a@.len() - i,
    {
        if a[i] != b[i] {
            assert(x[i as int] != y[i as int]);
            return false;
        }
        i = i + 1;
    }
    assert(x =~= y);
    true
}

/// Whether two lists of byte strings hold the same bytes.
pub fn same_byte_strings(a: &Vec<Vec<u8>>, b: &Vec<Vec<u8>>) -> (same: bool)
    ensures
        same == (text::byte_strings(a@) == text::byte_strings(b@)),
{
    let ghost x = text::byte_strings(a@);
    let ghost y = text::byte_strings(b@);
    if a.len() != b.len() {
        assert(x.len() != y.len());
        return false;
    }
    let mut i: usize = 0;
    while i < a.len()
        invariant
            i <= a@.len(),
            a@.len() == b@.len(),
            x == text::byte_strings(a@),
            y == text::byte_strings(b@),
            forall|j: int| 0 <= j < i ==> #[trigger] x[j] == y[j],
        decreases a@.len() - i,
    {
        if !text::same_bytes(a[i].as_slice(), b[i].as_slice()) {
            assert(x[i as int] != y[i as int]);
            return false;
        }
        i = i + 1;
    }
    assert(x =~= y);
    true
}

fn same_pairs(a: &Vec<(Vec<u8>, Vec<u8>)>, b: &Vec<(Vec<u8>, Vec<u8>)>) -> (same: bool)
    ensures
        same == (pairs_view(a@) == pairs_view(b@)),
{
    let ghost x = pairs_view(a@);
    let ghost y = pairs_view(b@);
    if a.len() != b.len() {
        assert(x.len() != y.len());
        return false;
    }
    let mut i: usize = 0;
    while i < a.len()
        invariant
            i <= a@.len(),
            a@.len() == b@.len(),
            x == pairs_view(a@),
            y == pairs_view(b@),
            forall|j: int| 0 <= j < i ==> #[trigger] x[j] == y[j],
        decreases a@.len() - i,
    {
        if !text::same_bytes(a[i].0.as_slice(), b[i].0.as_slice()) || !text::same_bytes(
            a[i].1.as_slice(),
            b[i].1.as_slice(),
        ) {
            assert(x[i as int] != y[i as int]);
            return false;
        }
        i = i + 1;
    }
    assert(x =~= y);
    true
}

fn same_scored(a: &Vec<(Vec<u8>, Score)>, b: &Vec<(Vec<u8>, Score)>) -> (same: bool)
    ensures
        same == (scored_view(a@) == scored_view(b@)),
{
    let ghost x = scored_view(a@);
    let ghost y = scored_view(b@);
    if a.len() != b.len() {
        assert(x.len() != y.len());
        return false;
    }
    let mut i: usize = 0;
    while i < a.len()
        invariant
            i <= a@.len(),
            a@.len() == b@.len(),
            x == scored_view(a@),
            y == scored_view(b@),
            forall|j: int| 0 <= j < i ==> #[trigger] x[j] == y[j],
        decreases a@.len() - i,
    {
        if !text::same_bytes(a[i].0.as_slice(), b[i].0.as_slice()) || !a[i].1.is(&b[i].1) {
            assert(x[i as int] != y[i as int]);
            return false;
        }
        i = i + 1;
    }
    assert(x =~= y);
    true
}

fn same_stream(
    a: &Vec<(Vec<u8>, Vec<(Vec<u8>, Vec<u8>)>)>,
    b: &Vec<(Vec<u8>, Vec<(Vec<u8>, Vec<u8>)>)>,
) -> (same: bool)
    ensures
        same == (stream_view(a@) == stream_view(b@)),
{
    let ghost x = stream_view(a@);
    let ghost y = stream_view(b@);
    if a.len() != b.len() {
        assert(x.len() != y.len());
        return false;
    }
    let mut i: usize = 0;
    while i < a.len()
        invariant
            i <= a@.len(),
            a@.len() == b@.len(),
            x == stream_view(a@),
            y == stream_view(b@),
            forall|j: int| 0 <= j < i ==> #[trigger] x[j] == y[j],
        decreases a@.len() - i,
    {
        if !text::same_bytes(a[i].0.as_slice(), b[i].0.as_slice()) || !same_pairs(
            &a[i].1,
            &b[i].1,
        ) {
            assert(x[i as int] != y[i as int]);
            return false;
        }
        i = i + 1;
    }
    assert(x =~= y);
    true
}

} // verus!
