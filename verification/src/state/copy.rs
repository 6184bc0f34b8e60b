//! What a copy puts on the clipboard.

use vstd::prelude::*;

use crate::key::KeyName;
use crate::score::Score;
use crate::state::tree::split_bytes;
use crate::state::value::{self, Value, ValueView};
use crate::text;

verus! {

#[derive(Clone, Copy, Debug, PartialEq, Eq, Structural)]
pub enum CopyWhat {
    Key,
    Value,
    Command,
}

impl CopyWhat {
    pub open spec fn name(self) -> Seq<char> {
        match self {
            CopyWhat::Key => "key"@,
            CopyWhat::Value => "value"@,
            CopyWhat::Command => "redis-cli command"@,
        }
    }

    pub fn label(self) -> (label: &'static str)
        ensures
            label@ == self.name(),
    {
        match self {
            CopyWhat::Key => "key",
            CopyWhat::Value => "value",
            CopyWhat::Command => "redis-cli command",
        }
    }
}

// ── A value as text ─────────────────────────────────────────────────────────

/// One line of a copied collection: its columns, with tabs between them.
pub open spec fn pair_line(a: Seq<u8>, b: Seq<char>) -> Seq<char> {
    text::shown(a).push('\t') + b
}

/// What stands between the two parts of a stream identifier.
pub const DASH: u8 = 45;

/// The fields of a stream entry behind its identifier.
pub open spec fn stream_fields(pairs: Seq<(Seq<u8>, Seq<u8>)>) -> Seq<char>
    decreases pairs.len(),
{
    if pairs.len() == 0 {
        Seq::empty()
    } else {
        stream_fields(pairs.drop_last()) + seq!['\t'] + text::shown(pairs.last().0) + seq!['=']
            + text::shown(pairs.last().1)
    }
}

/// When a stream entry was added: its identifier says so, in milliseconds in
/// front of a dash.
pub open spec fn added_at(id: Seq<u8>) -> Option<u64> {
    let time = text::split(id, DASH)[0];
    if text::is_decimal(time) && text::number(time) <= u64::MAX {
        Some(text::number(time) as u64)
    } else {
        None
    }
}

/// How old a stream entry was when it was read, where its identifier tells.
pub open spec fn entry_age(id: Seq<u8>, read_at_ms: u64) -> Seq<char> {
    match added_at(id) {
        Some(at_ms) => text::ago(at_ms, read_at_ms),
        None => Seq::empty(),
    }
}

/// The line of a stream entry: its identifier, its age and its fields.
pub open spec fn entry_line(
    id: Seq<u8>,
    pairs: Seq<(Seq<u8>, Seq<u8>)>,
    read_at_ms: u64,
) -> Seq<char> {
    text::shown(id).push('\t') + entry_age(id, read_at_ms) + stream_fields(pairs)
}

/// The lines that a value read at `read_at_ms` is copied as: all it holds,
/// whatever part of it is on screen.
pub open spec fn copied_lines(value: ValueView, read_at_ms: u64) -> Seq<Seq<char>> {
    match value {
        ValueView::Str { text, .. } => seq![text],
        ValueView::Json { text, .. } => seq![text],
        ValueView::Binary { bytes } => seq![text::shown(bytes)],
        ValueView::Hash { pairs, .. } => Seq::new(
            pairs.len(),
            |i: int| pair_line(pairs[i].0, text::shown(pairs[i].1)),
        ),
        ValueView::List { items, .. } => Seq::new(items.len(), |i: int| text::shown(items[i])),
        ValueView::PlainSet { members, .. } => Seq::new(
            members.len(),
            |i: int| text::shown(members[i]),
        ),
        ValueView::ZSet { entries, .. } => Seq::new(
            entries.len(),
            |i: int| pair_line(entries[i].0, entries[i].1),
        ),
        ValueView::Stream { entries, .. } => Seq::new(
            entries.len(),
            |i: int| entry_line(entries[i].0, entries[i].1, read_at_ms),
        ),
    }
}

pub open spec fn copied(value: ValueView, read_at_ms: u64) -> Seq<char> {
    text::join(copied_lines(value, read_at_ms), '\n')
}

fn pair_lines(pairs: &Vec<(Vec<u8>, Vec<u8>)>) -> (lines: Vec<String>)
    ensures
        text::texts(lines@) =~= Seq::new(
            pairs@.len(),
            |i: int| pair_line(pairs@[i].0@, text::shown(pairs@[i].1@)),
        ),
{
    let mut lines: Vec<String> = Vec::new();
    let mut i: usize = 0;
    while i < pairs.len()
        invariant
            i <= pairs@.len(),
            lines@.len() == i,
            forall|j: int|
                0 <= j < i ==> (#[trigger] lines@[j])@ == pair_line(
                    pairs@[j].0@,
                    text::shown(pairs@[j].1@),
                ),
        decreases pairs@.len() - i,
    {
        let mut line = text::lossy_text(pairs[i].0.as_slice());
        line.push('\t');
        line.append(text::lossy_text(pairs[i].1.as_slice()).as_str());
        lines.push(line);
        i = i + 1;
    }
    lines
}

fn score_lines(entries: &Vec<(Vec<u8>, Score)>) -> (lines: Vec<String>)
    ensures
        text::texts(lines@) =~= Seq::new(
            entries@.len(),
            |i: int| pair_line(entries@[i].0@, entries@[i].1@),
        ),
{
    let mut lines: Vec<String> = Vec::new();
    let mut i: usize = 0;
    while i < entries.len()
        invariant
            i <= entries@.len(),
            lines@.len() == i,
            forall|j: int|
                0 <= j < i ==> (#[trigger] lines@[j])@ == pair_line(
                    entries@[j].0@,
                    entries@[j].1@,
                ),
        decreases entries@.len() - i,
    {
        let mut line = text::lossy_text(entries[i].0.as_slice());
        line.push('\t');
        line.append(entries[i].1.literal());
        lines.push(line);
        i = i + 1;
    }
    lines
}

fn byte_lines(items: &Vec<Vec<u8>>) -> (lines: Vec<String>)
    ensures
        text::texts(lines@) =~= Seq::new(items@.len(), |i: int| text::shown(items@[i]@)),
{
    let mut lines: Vec<String> = Vec::new();
    let mut i: usize = 0;
    while i < items.len()
        invariant
            i <= items@.len(),
            lines@.len() == i,
            forall|j: int| 0 <= j < i ==> (#[trigger] lines@[j])@ == text::shown(items@[j]@),
        decreases items@.len() - i,
    {
        lines.push(text::lossy_text(items[i].as_slice()));
        i = i + 1;
    }
    lines
}

fn push_fields(line: &mut String, pairs: &Vec<(Vec<u8>, Vec<u8>)>)
    ensures
        final(line)@ == old(line)@ + stream_fields(value::pairs_view(pairs@)),
{
    let ghost all = value::pairs_view(pairs@);
    let mut i: usize = 0;
    assert(line@ =~= old(line)@ + stream_fields(all.take(0)));
    while i < pairs.len()
        invariant
            i <= pairs@.len(),
            all == value::pairs_view(pairs@),
            line@ == old(line)@ + stream_fields(all.take(i as int)),
        decreases pairs@.len() - i,
    {
        line.push('\t');
        line.append(text::lossy_text(pairs[i].0.as_slice()).as_str());
        line.push('=');
        line.append(text::lossy_text(pairs[i].1.as_slice()).as_str());
        assert(all.take(i + 1).drop_last() =~= all.take(i as int));
        assert(all.take(i + 1).last() == (pairs@[i as int].0@, pairs@[i as int].1@));
        i = i + 1;
        assert(line@ =~= old(line)@ + stream_fields(all.take(i as int)));
    }
    assert(all.take(all.len() as int) =~= all);
}

fn time_of(id: &[u8]) -> (at_ms: Option<u64>)
    ensures
        at_ms == added_at(id@),
{
    let mut mark: Vec<u8> = Vec::new();
    mark.push(DASH);
    assert(mark@ =~= seq![DASH]);
    let pieces = split_bytes(id, mark.as_slice());
    proof {
        text::a_short_mark_cuts_at_every_element(id@, DASH);
        text::split_is_not_empty(id@, DASH);
        assert(text::byte_strings(pieces@)[0] == pieces@[0]@);
    }
    text::parse_decimal(pieces[0].as_slice())
}

fn stream_lines(
    entries: &Vec<(Vec<u8>, Vec<(Vec<u8>, Vec<u8>)>)>,
    read_at_ms: u64,
) -> (lines: Vec<String>)
    ensures
        text::texts(lines@) =~= Seq::new(
            entries@.len(),
            |i: int|
                entry_line(entries@[i].0@, value::pairs_view(entries@[i].1@), read_at_ms),
        ),
{
    let mut lines: Vec<String> = Vec::new();
    let mut i: usize = 0;
    while i < entries.len()
        invariant
            i <= entries@.len(),
            lines@.len() == i,
            forall|j: int|
                0 <= j < i ==> (#[trigger] lines@[j])@ == entry_line(
                    entries@[j].0@,
                    value::pairs_view(entries@[j].1@),
                    read_at_ms,
                ),
        decreases entries@.len() - i,
    {
        let mut line = text::lossy_text(entries[i].0.as_slice());
        line.push('\t');
        let ghost front = line@;
        if let Some(at_ms) = time_of(entries[i].0.as_slice()) {
            text::push_ago(&mut line, at_ms, read_at_ms);
        }
        assert(line@ =~= front + entry_age(entries@[i as int].0@, read_at_ms));
        push_fields(&mut line, &entries[i].1);
        lines.push(line);
        i = i + 1;
    }
    lines
}

/// The text that a value read at `read_at_ms` is copied as.
pub fn value_text(value: &Value, read_at_ms: u64) -> (r: String)
    ensures
        r@ == copied(value@, read_at_ms),
{
    let lines: Vec<String> = match value {
        Value::Str(v) => vec![v.text.clone()],
        Value::Json(v) => vec![v.text.clone()],
        Value::Binary(v) => vec![text::lossy_text(v.bytes.as_slice())],
        Value::Hash(v) => pair_lines(&v.pairs),
        Value::List(v) => byte_lines(&v.items),
        Value::PlainSet(v) => byte_lines(&v.members),
        Value::ZSet(v) => score_lines(&v.entries),
        Value::Stream(v) => stream_lines(&v.entries, read_at_ms),
    };
    assert(text::texts(lines@) =~= copied_lines(value@, read_at_ms));
    text::join_lines(&lines)
}

// ── A command for the shell ─────────────────────────────────────────────────

/// Where `c` stands in `s` for the last time.
pub open spec fn last_index(s: Seq<char>, c: char) -> Option<int>
    decreases s.len(),
{
    if s.len() == 0 {
        None
    } else if s.last() == c {
        Some(s.len() - 1)
    } else {
        last_index(s.drop_last(), c)
    }
}

/// `s` up to the last `c`, and what follows it if there is one.
pub open spec fn cut_last(s: Seq<char>, c: char) -> (Seq<char>, Option<Seq<char>>) {
    match last_index(s, c) {
        Some(i) => (s.take(i), Some(s.skip(i + 1))),
        None => (s, None),
    }
}

/// Whether a shell takes `c` for itself.
pub open spec fn is_plain(c: char) -> bool {
    'a' <= c <= 'z' || 'A' <= c <= 'Z' || '0' <= c <= '9' || c == ':' || c == '-' || c == '_' || c
        == '.' || c == '/' || c == '@' || c == '%' || c == '+' || c == '=' || c == ','
}

/// `s` with every quote put so that it may stand between quotes.
pub open spec fn escaped(s: Seq<char>) -> Seq<char>
    decreases s.len(),
{
    if s.len() == 0 {
        Seq::empty()
    } else if s.last() == '\'' {
        escaped(s.drop_last()) + seq!['\'', '\\', '\'', '\'']
    } else {
        escaped(s.drop_last()).push(s.last())
    }
}

pub open spec fn is_all_plain(s: Seq<char>) -> bool {
    forall|i: int| 0 <= i < s.len() ==> is_plain(#[trigger] s[i])
}

/// `s` as one word of a shell command.
pub open spec fn shell_word(s: Seq<char>) -> Seq<char> {
    if s.len() > 0 && is_all_plain(s) {
        s
    } else {
        seq!['\''] + escaped(s) + seq!['\'']
    }
}

/// The `redis-cli` invocation for a target such as `cache-01:6379/0`.
pub open spec fn cli_prefix(target: Seq<char>) -> Seq<char> {
    let (address, db) = cut_last(target, '/');
    let (host, port) = cut_last(address, ':');
    let on_host = "redis-cli -h "@ + host;
    let on_port = match port {
        Some(port) => on_host + " -p "@ + port,
        None => on_host,
    };
    match db {
        Some(db) => on_port + " -n "@ + db,
        None => on_port,
    }
}

pub open spec fn reading_verb(value: ValueView) -> Seq<char> {
    match value {
        ValueView::Hash { .. } => " HGETALL "@,
        ValueView::List { .. } => " LRANGE "@,
        ValueView::PlainSet { .. } => " SMEMBERS "@,
        ValueView::ZSet { .. } => " ZRANGE "@,
        ValueView::Stream { .. } => " XREVRANGE "@,
        _ => " GET "@,
    }
}

pub open spec fn reading_range(value: ValueView) -> Seq<char> {
    match value {
        ValueView::List { .. } => " 0 -1"@,
        ValueView::ZSet { .. } => " 0 -1 WITHSCORES"@,
        ValueView::Stream { .. } => " + -"@,
        _ => ""@,
    }
}

/// The command that reads a key of this type from the target on screen.
pub open spec fn cli_command(target: Seq<char>, name: Seq<u8>, value: ValueView) -> Seq<char> {
    cli_prefix(target) + reading_verb(value) + shell_word(text::shown(name)) + reading_range(
        value,
    )
}

fn cut(s: &Vec<char>, c: char) -> (r: (Vec<char>, Option<Vec<char>>))
    ensures
        r.0@ == cut_last(s@, c).0,
        r.1 is Some <==> cut_last(s@, c).1 is Some,
        r.1 is Some ==> r.1->0@ == cut_last(s@, c).1->0,
{
    let mut i: usize = s.len();
    assert(s@.take(s@.len() as int) =~= s@);
    while i > 0
        invariant
            i <= s@.len(),
            last_index(s@.take(i as int), c) == last_index(s@, c),
        decreases i,
    {
        assert(s@.take(i as int).drop_last() =~= s@.take(i - 1));
        i = i - 1;
        if s[i] == c {
            let mut head = chars_from(s, 0);
            head.truncate(i);
            assert(head@ =~= s@.take(i as int));
            return (head, Some(chars_from(s, i + 1)));
        }
    }
    let all = chars_from(s, 0);
    assert(all@ =~= s@);
    (all, None)
}

fn chars_from(s: &Vec<char>, from: usize) -> (r: Vec<char>)
    requires
        from <= s@.len(),
    ensures
        r@ == s@.skip(from as int),
{
    let mut r: Vec<char> = Vec::new();
    let mut i: usize = from;
    while i < s.len()
        invariant
            from <= i <= s@.len(),
            r@ == s@.subrange(from as int, i as int),
        decreases s@.len() - i,
    {
        r.push(s[i]);
        i = i + 1;
        assert(r@ =~= s@.subrange(from as int, i as int));
    }
    assert(r@ =~= s@.skip(from as int));
    r
}

fn push_chars(out: &mut String, s: &Vec<char>)
    ensures
        final(out)@ == old(out)@ + s@,
{
    let mut i: usize = 0;
    assert(out@ =~= old(out)@ + s@.take(0));
    while i < s.len()
        invariant
            i <= s@.len(),
            out@ == old(out)@ + s@.take(i as int),
        decreases s@.len() - i,
    {
        out.push(s[i]);
        i = i + 1;
        assert(out@ =~= old(out)@ + s@.take(i as int));
    }
    assert(s@.take(s@.len() as int) =~= s@);
}

fn plain(c: char) -> (r: bool)
    ensures
        r == is_plain(c),
{
    ('a' <= c && c <= 'z') || ('A' <= c && c <= 'Z') || ('0' <= c && c <= '9') || c == ':' || c
        == '-' || c == '_' || c == '.' || c == '/' || c == '@' || c == '%' || c == '+' || c == '='
        || c == ','
}

fn all_plain(s: &Vec<char>) -> (r: bool)
    ensures
        r == is_all_plain(s@),
{
    let mut i: usize = 0;
    while i < s.len()
        invariant
            i <= s@.len(),
            forall|j: int| 0 <= j < i ==> is_plain(#[trigger] s@[j]),
        decreases s@.len() - i,
    {
        if !plain(s[i]) {
            assert(!is_plain(s@[i as int]));
            return false;
        }
        i = i + 1;
    }
    true
}

fn push_shell_word(out: &mut String, s: &Vec<char>)
    ensures
        final(out)@ == old(out)@ + shell_word(s@),
{
    if s.len() > 0 && all_plain(s) {
        push_chars(out, s);
        return;
    }
    out.push('\'');
    let mut i: usize = 0;
    assert(out@ =~= old(out)@ + seq!['\''] + escaped(s@.take(0)));
    while i < s.len()
        invariant
            i <= s@.len(),
            out@ == old(out)@ + seq!['\''] + escaped(s@.take(i as int)),
        decreases s@.len() - i,
    {
        let c = s[i];
        assert(s@.take(i + 1).drop_last() =~= s@.take(i as int));
        if c == '\'' {
            out.push('\'');
            out.push('\\');
            out.push('\'');
            out.push('\'');
        } else {
            out.push(c);
        }
        i = i + 1;
        assert(out@ =~= old(out)@ + seq!['\''] + escaped(s@.take(i as int)));
    }
    out.push('\'');
    assert(s@.take(s@.len() as int) =~= s@);
    assert(out@ =~= old(out)@ + shell_word(s@));
}

/// A `redis-cli` command that reads the key from the target on screen.
pub fn redis_cli_command(target: &str, name: &KeyName, value: &Value) -> (command: String)
    ensures
        command@ == cli_command(target@, name@, value@),
{
    let target = text::chars_of(target);
    let (address, db) = cut(&target, '/');
    let (host, port) = cut(&address, ':');
    let mut command = text::owned("redis-cli -h ");
    push_chars(&mut command, &host);
    if let Some(port) = &port {
        command.append(" -p ");
        push_chars(&mut command, port);
    }
    if let Some(db) = &db {
        command.append(" -n ");
        push_chars(&mut command, db);
    }
    let verb = match value {
        Value::Hash(_) => " HGETALL ",
        Value::List(_) => " LRANGE ",
        Value::PlainSet(_) => " SMEMBERS ",
        Value::ZSet(_) => " ZRANGE ",
        Value::Stream(_) => " XREVRANGE ",
        _ => " GET ",
    };
    command.append(verb);
    let shown = name.display();
    push_shell_word(&mut command, &text::chars_of(shown.as_str()));
    let range = match value {
        Value::List(_) => " 0 -1",
        Value::ZSet(_) => " 0 -1 WITHSCORES",
        Value::Stream(_) => " + -",
        _ => "",
    };
    command.append(range);
    command
}

} // verus!
