//! What is written for the reader, for the shell and for the pane: that it reads
//! back as what it was written from.

use vstd::prelude::*;

use crate::json;
use crate::layout::Pane;
use crate::score;
use crate::state::copy;
use crate::state::editor::{self, TargetView};
use crate::state::loaded::LoadedView;
use crate::state::open::OpenView;
use crate::state::session::StateView;
use crate::state::status::{Attachment, LinkView, Liveness, ScanView, Tracking};
use crate::state::tree::{self, Row};
use crate::state::value::{self, ListEnd, ValueView};
use crate::text;

verus! {

// ── Numbers ─────────────────────────────────────────────────────────────────

/// The number that digits are read as.
pub open spec fn read_as(digits: Seq<char>) -> int
    decreases digits.len(),
{
    if digits.len() == 0 {
        0
    } else {
        read_as(digits.drop_last()) * 10 + (digits.last() as int - '0' as int)
    }
}

/// A number is written in digits that read as that number, and begins with a
/// zero only where it is zero.
pub proof fn a_number_reads_as_itself(n: nat)
    ensures
        text::decimal(n).len() > 0,
        forall|i: int|
            0 <= i < text::decimal(n).len() ==> '0' <= #[trigger] text::decimal(n)[i] <= '9',
        read_as(text::decimal(n)) == n,
        n > 0 ==> text::decimal(n)[0] != '0',
    decreases n,
{
    let d = text::decimal(n);
    if n < 10 {
        assert(d.drop_last() =~= Seq::empty());
        assert(read_as(Seq::empty()) == 0);
    } else {
        a_number_reads_as_itself(n / 10);
        assert(d.drop_last() =~= text::decimal(n / 10));
        assert(d[0] == text::decimal(n / 10)[0]);
    }
}

/// A number with its thousands parted holds the digits of that number, and a
/// comma before every third of them from the right, none in front.
pub proof fn commas_part_the_thousands(n: nat)
    ensures
        text::grouped(n).filter(|c: char| c != ',') == text::decimal(n),
        forall|i: int|
            0 <= i < text::grouped(n).len() ==> (#[trigger] text::grouped(n)[i] == ',' <==> (
            text::grouped(n).len() - i) % 4 == 0),
        text::grouped(n).len() > 0,
        text::grouped(n)[0] != ',',
    decreases n,
{
    let keep = |c: char| c != ',';
    if n < 1000 {
        a_number_reads_as_itself(n);
        let d = text::decimal(n);
        everything_is_kept(d, keep);
        short_numbers_are_short(n);
    } else {
        let front = text::grouped(n / 1000);
        let tail = seq![
            ',',
            text::digit(n / 100 % 10),
            text::digit(n / 10 % 10),
            text::digit(n % 10),
        ];
        commas_part_the_thousands(n / 1000);
        Seq::filter_distributes_over_add(front, tail, keep);
        assert(tail.filter(keep) =~= tail.skip(1)) by {
            reveal(Seq::filter);
            let three = tail;
            assert(three.drop_last().drop_last().drop_last() =~= seq![',']);
            assert(seq![','].drop_last() =~= Seq::<char>::empty());
            reveal_with_fuel(Seq::filter, 6);
        }
        assert(n / 10 / 10 / 10 == n / 1000);
        assert(text::decimal(n) =~= text::decimal(n / 10).push(text::digit(n % 10)));
        assert(text::decimal(n / 10) =~= text::decimal(n / 100).push(text::digit(n / 10 % 10)));
        assert(text::decimal(n / 100) =~= text::decimal(n / 1000).push(text::digit(n / 100 % 10)));
        assert(text::grouped(n) =~= front + tail);
        assert(text::grouped(n).filter(keep) =~= text::decimal(n));
        assert forall|i: int| 0 <= i < text::grouped(n).len() implies (#[trigger] text::grouped(
            n,
        )[i] == ',' <==> (text::grouped(n).len() - i) % 4 == 0) by {
            if i < front.len() {
                assert(text::grouped(n)[i] == front[i]);
            } else {
                assert(text::grouped(n)[i] == tail[i - front.len()]);
            }
        }
    }
}

proof fn short_numbers_are_short(n: nat)
    requires
        n < 1000,
    ensures
        text::decimal(n).len() <= 3,
{
    reveal_with_fuel(text::decimal, 4);
}

proof fn everything_is_kept(s: Seq<char>, keep: spec_fn(char) -> bool)
    requires
        forall|i: int| 0 <= i < s.len() ==> keep(#[trigger] s[i]),
    ensures
        s.filter(keep) == s,
    decreases s.len(),
{
    reveal(Seq::filter);
    if s.len() > 0 {
        everything_is_kept(s.drop_last(), keep);
        assert(s.drop_last().push(s.last()) =~= s);
    }
}

/// How long ago something was is said in whole seconds, as many as have passed.
pub proof fn ago_counts_whole_seconds(at_ms: u64, now_ms: u64, seconds: nat)
    requires
        seconds > 0,
        seconds * 1000 <= now_ms - at_ms < seconds * 1000 + 1000,
    ensures
        text::ago(at_ms, now_ms) == text::decimal(seconds) + "s ago"@,
{
}

/// Less than a second ago, and what is still to come, is just now.
pub proof fn ago_is_just_now(at_ms: u64, now_ms: u64)
    requires
        now_ms - at_ms < 1000,
    ensures
        text::ago(at_ms, now_ms) == "just now"@,
{
}

// ── Wrapping ────────────────────────────────────────────────────────────────

/// Rows put behind each other.
pub open spec fn behind_each_other(rows: Seq<Seq<char>>) -> Seq<char>
    decreases rows.len(),
{
    if rows.len() == 0 {
        Seq::empty()
    } else {
        behind_each_other(rows.drop_last()) + rows.last()
    }
}

proof fn rows_are_added(a: Seq<Seq<char>>, b: Seq<Seq<char>>)
    ensures
        behind_each_other(a + b) == behind_each_other(a) + behind_each_other(b),
    decreases b.len(),
{
    if b.len() == 0 {
        assert(a + b =~= a);
        assert(behind_each_other(a) + behind_each_other(b) =~= behind_each_other(a));
    } else {
        assert((a + b).drop_last() =~= a + b.drop_last());
        rows_are_added(a, b.drop_last());
        assert(behind_each_other(a + b) =~= behind_each_other(a) + behind_each_other(b));
    }
}

/// A line is cut into rows that are as wide as the pane but for the last, which
/// is no wider, and that are the line when put behind each other.
pub proof fn a_line_is_cut_into_rows(line: Seq<char>, width: nat)
    requires
        width > 0,
    ensures
        ({
            let rows = value::chunks(line, width);
            &&& rows.len() > 0
            &&& behind_each_other(rows) == line
            &&& forall|i: int| 0 <= i < rows.len() - 1 ==> #[trigger] rows[i].len() == width
            &&& rows.last().len() <= width
            &&& rows.len() > 1 ==> rows.last().len() > 0
        }),
    decreases line.len(),
{
    let rows = value::chunks(line, width);
    reveal_with_fuel(behind_each_other, 2);
    if line.len() <= width {
        assert(rows.drop_last() =~= Seq::empty());
        assert(behind_each_other(rows) =~= line);
    } else {
        let first = line.take(width as int);
        let rest = line.skip(width as int);
        a_line_is_cut_into_rows(rest, width);
        let others = value::chunks(rest, width);
        rows_are_added(seq![first], others);
        assert(seq![first].drop_last() =~= Seq::empty());
        assert(behind_each_other(seq![first]) =~= first);
        assert(behind_each_other(rows) =~= line);
        assert forall|i: int| 0 <= i < rows.len() - 1 implies #[trigger] rows[i].len()
            == width by {
            if i > 0 {
                assert(rows[i] == others[i - 1]);
            }
        }
    }
}

/// A text is wrapped into rows no wider than the pane, that hold all of it but
/// its line breaks.
pub proof fn a_text_is_wrapped_into_rows(s: Seq<char>, width: nat)
    requires
        width > 0,
    ensures
        behind_each_other(value::wrapped(s, width)) == s.filter(|c: char| c != '\n'),
        forall|i: int|
            0 <= i < value::wrapped(s, width).len() ==> (#[trigger] value::wrapped(
                s,
                width,
            )[i]).len() <= width,
{
    let lines = text::split(s, '\n');
    rows_hold_the_lines(lines, width, lines.len() as int);
    assert(lines.take(lines.len() as int) =~= lines);
    lines_hold_the_text(s);
}

proof fn rows_hold_the_lines(lines: Seq<Seq<char>>, width: nat, n: int)
    requires
        width > 0,
        0 <= n <= lines.len(),
    ensures
        behind_each_other(value::rows_of(lines, width, n)) == behind_each_other(lines.take(n)),
        forall|i: int|
            0 <= i < value::rows_of(lines, width, n).len() ==> (#[trigger] value::rows_of(
                lines,
                width,
                n,
            )[i]).len() <= width,
    decreases n,
{
    if n > 0 {
        rows_hold_the_lines(lines, width, n - 1);
        a_line_is_cut_into_rows(lines[n - 1], width);
        let some = value::rows_of(lines, width, n - 1);
        let last = value::chunks(lines[n - 1], width);
        rows_are_added(some, last);
        assert(lines.take(n).drop_last() =~= lines.take(n - 1));
        assert forall|i: int| 0 <= i < value::rows_of(lines, width, n).len() implies (
        #[trigger] value::rows_of(lines, width, n)[i]).len() <= width by {
            if i < some.len() {
                assert(value::rows_of(lines, width, n)[i] == some[i]);
            } else {
                assert(value::rows_of(lines, width, n)[i] == last[i - some.len()]);
            }
        }
    } else {
        assert(lines.take(0) =~= Seq::empty());
    }
}

proof fn lines_hold_the_text(s: Seq<char>)
    ensures
        behind_each_other(text::split(s, '\n')) == s.filter(|c: char| c != '\n'),
    decreases s.len(),
{
    reveal(Seq::filter);
    reveal_with_fuel(behind_each_other, 2);
    let none: Seq<char> = Seq::empty();
    if s.len() == 0 {
        assert(seq![none].drop_last() =~= Seq::empty());
        assert(behind_each_other(seq![none]) =~= none);
        assert(s.filter(|c: char| c != '\n') =~= none);
    } else {
        let rest = s.drop_last();
        lines_hold_the_text(rest);
        text::split_is_not_empty(rest, '\n');
        let before = text::split(rest, '\n');
        let now = text::split(s, '\n');
        if s.last() == '\n' {
            assert(now.drop_last() =~= before);
            assert(behind_each_other(now) =~= behind_each_other(before));
        } else {
            assert(now.drop_last() =~= before.drop_last());
            assert(behind_each_other(now) =~= behind_each_other(before).push(s.last()));
        }
    }
}

/// A text is cut wherever the separator stands: none is left in a piece.
pub proof fn no_separator_is_left_in_a_piece(s: Seq<char>, sep: char, i: int)
    requires
        0 <= i < text::split(s, sep).len(),
    ensures
        !text::split(s, sep)[i].contains(sep),
        text::join(text::split(s, sep), sep) == s,
    decreases s.len(),
{
    text::join_undoes_split(s, sep);
    if s.len() > 0 {
        let rest = s.drop_last();
        let before = text::split(rest, sep);
        text::split_is_not_empty(rest, sep);
        if i < before.len() {
            no_separator_is_left_in_a_piece(rest, sep, i);
            if i == before.len() - 1 && s.last() != sep {
                let piece = before.last().push(s.last());
                if piece.contains(sep) {
                    let k = piece.index_of(sep);
                    assert(before[i][k] == sep);
                    assert(before[i].contains(sep));
                }
            }
        }
    }
}

// ── A command for the shell ─────────────────────────────────────────────────

/// How a shell reads a word: what it has read so far, and whether it is between
/// quotes or behind a backslash.
pub struct Reading {
    pub word: Seq<char>,
    pub quoted: bool,
    pub escaped: bool,
}

/// One more character read: a quote begins and ends a quotation, in which every
/// other character stands for itself; outside one a backslash makes the next
/// character stand for itself.
pub open spec fn one_more(r: Reading, c: char) -> Reading {
    if r.escaped {
        Reading { word: r.word.push(c), escaped: false, ..r }
    } else if c == '\'' {
        Reading { quoted: !r.quoted, ..r }
    } else if c == '\\' && !r.quoted {
        Reading { escaped: true, ..r }
    } else {
        Reading { word: r.word.push(c), ..r }
    }
}

pub open spec fn shell_reading(s: Seq<char>) -> Reading
    decreases s.len(),
{
    if s.len() == 0 {
        Reading { word: Seq::empty(), quoted: false, escaped: false }
    } else {
        one_more(shell_reading(s.drop_last()), s.last())
    }
}

/// A shell reads the word that a name is written as back as that name, whatever
/// the name holds; and outside quotes it meets nothing that it would not take for
/// itself.
pub proof fn a_shell_reads_the_name_back(name: Seq<char>)
    ensures
        shell_reading(copy::shell_word(name)).word == name,
        !shell_reading(copy::shell_word(name)).quoted,
        !shell_reading(copy::shell_word(name)).escaped,
        copy::shell_word(name).len() > 0,
{
    if name.len() > 0 && copy::is_all_plain(name) {
        plain_words_stand_for_themselves(name);
    } else {
        a_quotation_reads_as_its_text(name);
        let open = seq!['\''] + copy::escaped(name);
        assert((open + seq!['\'']).drop_last() =~= open);
    }
}

proof fn plain_words_stand_for_themselves(s: Seq<char>)
    requires
        copy::is_all_plain(s),
    ensures
        shell_reading(s) == (Reading { word: s, quoted: false, escaped: false }),
    decreases s.len(),
{
    if s.len() > 0 {
        assert(copy::is_plain(s[s.len() - 1]));
        assert(copy::is_all_plain(s.drop_last())) by {
            assert forall|i: int| 0 <= i < s.drop_last().len() implies copy::is_plain(
                #[trigger] s.drop_last()[i],
            ) by {
                assert(copy::is_plain(s[i]));
            }
        }
        plain_words_stand_for_themselves(s.drop_last());
        assert(s.drop_last().push(s.last()) =~= s);
    } else {
        assert(shell_reading(s).word =~= s);
    }
}

proof fn a_quotation_reads_as_its_text(s: Seq<char>)
    ensures
        shell_reading(seq!['\''] + copy::escaped(s)) == (Reading {
            word: s,
            quoted: true,
            escaped: false,
        }),
    decreases s.len(),
{
    let quote = seq!['\''];
    if s.len() == 0 {
        assert(quote + copy::escaped(s) =~= quote);
        assert(quote.drop_last() =~= Seq::empty());
        assert(shell_reading(quote.drop_last()).word =~= s);
        assert(shell_reading(quote) == one_more(shell_reading(quote.drop_last()), '\''));
    } else {
        a_quotation_reads_as_its_text(s.drop_last());
        let before = quote + copy::escaped(s.drop_last());
        let now = quote + copy::escaped(s);
        assert(s.drop_last().push(s.last()) =~= s);
        if s.last() == '\'' {
            assert(now.drop_last().drop_last().drop_last().drop_last() =~= before);
            let a = now.drop_last().drop_last().drop_last();
            let b = now.drop_last().drop_last();
            let c = now.drop_last();
            assert(a.last() == '\'' && b.last() == '\\' && c.last() == '\'' && now.last() == '\'');
            assert(shell_reading(a) == one_more(shell_reading(before), '\''));
            assert(shell_reading(b) == one_more(shell_reading(a), '\\'));
            assert(shell_reading(c) == one_more(shell_reading(b), '\''));
            assert(shell_reading(now) == one_more(shell_reading(c), '\''));
        } else {
            assert(now.drop_last() =~= before);
        }
    }
}

/// The command names the host, the port and the database of the target.
pub proof fn the_command_names_the_target(host: Seq<char>, port: Seq<char>, db: Seq<char>)
    requires
        !port.contains(':'),
        !db.contains('/'),
    ensures
        copy::cli_prefix(host + seq![':'] + port + seq!['/'] + db) == "redis-cli -h "@ + host
            + " -p "@ + port + " -n "@ + db,
{
    let address = host + seq![':'] + port;
    a_text_is_cut_at_its_last(address, '/', db);
    a_text_is_cut_at_its_last(host, ':', port);
}

proof fn a_text_is_cut_at_its_last(a: Seq<char>, c: char, b: Seq<char>)
    requires
        !b.contains(c),
    ensures
        copy::cut_last(a + seq![c] + b, c) == (a, Some(b)),
{
    let s = a + seq![c] + b;
    the_last_is_found(a, c, b);
    assert(s.take(a.len() as int) =~= a);
    assert(s.skip(a.len() as int + 1) =~= b);
}

proof fn the_last_is_found(a: Seq<char>, c: char, b: Seq<char>)
    requires
        !b.contains(c),
    ensures
        copy::last_index(a + seq![c] + b, c) == Some(a.len() as int),
    decreases b.len(),
{
    let s = a + seq![c] + b;
    if b.len() > 0 {
        assert(b[b.len() - 1] == b.last());
        assert(s.last() == b.last());
        assert(s.drop_last() =~= a + seq![c] + b.drop_last());
        assert(!b.drop_last().contains(c)) by {
            if b.drop_last().contains(c) {
                let k = b.drop_last().index_of(c);
                assert(b[k] == c);
            }
        }
        the_last_is_found(a, c, b.drop_last());
    } else {
        assert(s.last() == c);
    }
}

/// The command reads the key with what reads its type, all of it.
pub proof fn the_command_reads_the_type(target: Seq<char>, name: Seq<u8>, value: ValueView)
    ensures
        ({
            let front = copy::cli_prefix(target);
            let word = copy::shell_word(text::shown(name));
            copy::cli_command(target, name, value) == (match value {
                ValueView::Hash { .. } => front + " HGETALL "@ + word + ""@,
                ValueView::List { .. } => front + " LRANGE "@ + word + " 0 -1"@,
                ValueView::PlainSet { .. } => front + " SMEMBERS "@ + word + ""@,
                ValueView::ZSet { .. } => front + " ZRANGE "@ + word + " 0 -1 WITHSCORES"@,
                ValueView::Stream { .. } => front + " XREVRANGE "@ + word + " + -"@,
                _ => front + " GET "@ + word + ""@,
            })
        }),
{
}

// ── JSON ────────────────────────────────────────────────────────────────────

/// A text without the white space outside its strings.
pub open spec fn without_space(s: Seq<char>, quoted: bool) -> Seq<char>
    decreases s.len(),
{
    if s.len() == 0 {
        Seq::empty()
    } else if quoted {
        if s[0] == '\\' && s.len() > 1 {
            seq![s[0], s[1]] + without_space(s.skip(2), true)
        } else {
            seq![s[0]] + without_space(s.skip(1), s[0] != '"')
        }
    } else if s[0] == ' ' || s[0] == '\t' || s[0] == '\n' || s[0] == '\r' {
        without_space(s.skip(1), false)
    } else {
        seq![s[0]] + without_space(s.skip(1), s[0] == '"')
    }
}

/// Laying JSON out changes nothing but the white space outside its strings.
pub proof fn laying_out_changes_space_alone(s: Seq<char>)
    ensures
        without_space(json::laid_out(s, 0, 0, false), false) == without_space(s, false),
{
    laid_out_from(s, 0, 0, false);
    assert(s.skip(0) =~= s);
}

proof fn a_character_goes_first(c: char, t: Seq<char>)
    ensures
        (seq![c] + t)[0] == c,
        (seq![c] + t).skip(1) == t,
{
    assert((seq![c] + t).skip(1) =~= t);
}

proof fn blanks_are_dropped(n: nat, t: Seq<char>)
    ensures
        without_space(Seq::new(n, |i: int| ' ') + t, false) == without_space(t, false),
    decreases n,
{
    let all = Seq::new(n, |i: int| ' ') + t;
    if n == 0 {
        assert(all =~= t);
    } else {
        blanks_are_dropped((n - 1) as nat, t);
        assert(all.skip(1) =~= Seq::new((n - 1) as nat, |i: int| ' ') + t);
        assert(all[0] == ' ');
    }
}

proof fn a_new_line_is_dropped(depth: nat, t: Seq<char>)
    ensures
        without_space(json::new_line(depth) + t, false) == without_space(t, false),
{
    let blanks = Seq::new(2 * depth, |i: int| ' ');
    let all = json::new_line(depth) + t;
    assert(all.skip(1) =~= blanks + t);
    assert(all[0] == '\n');
    blanks_are_dropped(2 * depth, t);
}

proof fn space_is_passed(s: Seq<char>, i: int)
    requires
        0 <= i <= s.len(),
    ensures
        i <= json::past_space(s, i) <= s.len(),
        without_space(s.skip(i), false) == without_space(s.skip(json::past_space(s, i)), false),
    decreases s.len() - i,
{
    if i < s.len() && json::is_space(s[i]) {
        space_is_passed(s, i + 1);
        assert(s.skip(i).skip(1) =~= s.skip(i + 1));
        assert(s.skip(i)[0] == s[i]);
    }
}

proof fn laid_out_from(s: Seq<char>, i: int, depth: nat, quoted: bool)
    requires
        0 <= i <= s.len(),
    ensures
        without_space(json::laid_out(s, i, depth, quoted), quoted) == without_space(
            s.skip(i),
            quoted,
        ),
    decreases s.len() - i,
{
    reveal_with_fuel(without_space, 3);
    if i < s.len() {
        let c = s[i];
        let here = s.skip(i);
        assert(here[0] == c);
        assert(here.skip(1) =~= s.skip(i + 1));
        if quoted {
            if c == '\\' && i + 1 < s.len() {
                let rest = json::laid_out(s, i + 2, depth, true);
                laid_out_from(s, i + 2, depth, true);
                let all = seq![c, s[i + 1]] + rest;
                assert(here.skip(2) =~= s.skip(i + 2));
                assert(here[1] == s[i + 1]);
                assert(all.skip(2) =~= rest);
            } else {
                let rest = json::laid_out(s, i + 1, depth, c != '"');
                laid_out_from(s, i + 1, depth, c != '"');
                a_character_goes_first(c, rest);
                if c == '\\' {
                    assert(rest =~= Seq::empty());
                }
            }
        } else if json::is_space(c) {
            laid_out_from(s, i + 1, depth, false);
        } else if c == '{' || c == '[' {
            let next = json::past_space(s, i + 1);
            space_is_passed(s, i + 1);
            if i < next < s.len() && (s[next] == '}' || s[next] == ']') {
                let rest = json::laid_out(s, next + 1, depth, false);
                laid_out_from(s, next + 1, depth, false);
                let all = seq![c, s[next]] + rest;
                assert(all.skip(1) =~= seq![s[next]] + rest);
                a_character_goes_first(s[next], rest);
                assert(s.skip(next).skip(1) =~= s.skip(next + 1));
                assert(s.skip(next)[0] == s[next]);
            } else {
                let rest = json::laid_out(s, i + 1, depth + 1, false);
                laid_out_from(s, i + 1, depth + 1, false);
                a_new_line_is_dropped(depth + 1, rest);
                a_character_goes_first(c, json::new_line(depth + 1) + rest);
                assert(json::laid_out(s, i, depth, quoted) =~= seq![c] + (json::new_line(depth + 1)
                    + rest));
            }
        } else if c == '}' || c == ']' {
            let outer = if depth > 0 {
                (depth - 1) as nat
            } else {
                0
            };
            let rest = json::laid_out(s, i + 1, outer, false);
            laid_out_from(s, i + 1, outer, false);
            a_character_goes_first(c, rest);
            a_new_line_is_dropped(outer, seq![c] + rest);
            assert(json::laid_out(s, i, depth, quoted) =~= json::new_line(outer) + (seq![c]
                + rest));
        } else if c == ',' {
            let rest = json::laid_out(s, i + 1, depth, false);
            laid_out_from(s, i + 1, depth, false);
            a_new_line_is_dropped(depth, rest);
            a_character_goes_first(c, json::new_line(depth) + rest);
            assert(json::laid_out(s, i, depth, quoted) =~= seq![c] + (json::new_line(depth)
                + rest));
        } else if c == ':' {
            let rest = json::laid_out(s, i + 1, depth, false);
            laid_out_from(s, i + 1, depth, false);
            assert(json::laid_out(s, i, depth, quoted) =~= seq![c] + (seq![' '] + rest));
            a_character_goes_first(c, seq![' '] + rest);
            a_character_goes_first(' ', rest);
        } else {
            let rest = json::laid_out(s, i + 1, depth, c == '"');
            laid_out_from(s, i + 1, depth, c == '"');
            a_character_goes_first(c, rest);
        }
    } else {
        assert(s.skip(i) =~= Seq::empty());
    }
}

// ── Values ──────────────────────────────────────────────────────────────────

/// A value has a row for each of its entries, and one for each sixteen bytes of
/// what is not text; where fewer entries were read than the server holds, it is
/// told how many.
pub proof fn a_value_has_a_row_for_each_entry(value: ValueView)
    ensures
        match value {
            ValueView::Hash { pairs, total } => value.rows() == pairs.len() && (
            value.window() is Some <==> pairs.len() < total),
            ValueView::List { items, total } => value.rows() == items.len() && (
            value.window() is Some <==> items.len() < total),
            ValueView::PlainSet { members, total } => value.rows() == members.len() && (
            value.window() is Some <==> members.len() < total),
            ValueView::ZSet { entries, total } => value.rows() == entries.len() && (
            value.window() is Some <==> entries.len() < total),
            ValueView::Stream { entries, total } => value.rows() == entries.len() && (
            value.window() is Some <==> entries.len() < total),
            ValueView::Binary { bytes } => bytes.len() <= value.rows() * 16 < bytes.len() + 16
                && value.window() is None,
            ValueView::Str { lines, .. } => value.rows() == lines.len() && value.window() is None,
            ValueView::Json { lines, .. } => value.rows() == lines.len() && value.window() is None,
        },
        value.window() is Some ==> value.window()->0 == value.rows(),
{
}

/// Where the Open key is, seen from the cursor: so many rows on, negative ones
/// back.
pub proof fn the_open_key_is_so_many_rows_away(s: StateView)
    ensures
        match s.attachment() {
            Some(Attachment::Attached) => s.open is Some && s.open->0.row == Some(s.view.selected),
            Some(Attachment::Detached { rows }) => s.open is Some && s.open->0.row is Some
                && s.view.selected + rows == s.open->0.row->0 && rows != 0,
            Some(Attachment::DetachedOffList) => s.open is Some && s.open->0.row is None,
            None => s.open is None,
        },
{
}

// ── The tree ────────────────────────────────────────────────────────────────

/// The keys on these rows, from the top.
pub open spec fn keys_on(rows: Seq<Row>) -> Seq<usize>
    decreases rows.len(),
{
    if rows.len() == 0 {
        Seq::empty()
    } else {
        match rows.last() {
            Row::Key { index, .. } => keys_on(rows.drop_last()).push(index),
            Row::Group { .. } => keys_on(rows.drop_last()),
        }
    }
}

proof fn keys_are_added(a: Seq<Row>, b: Seq<Row>)
    ensures
        keys_on(a + b) == keys_on(a) + keys_on(b),
    decreases b.len(),
{
    if b.len() == 0 {
        assert(a + b =~= a);
        assert(keys_on(a) + keys_on(b) =~= keys_on(a));
    } else {
        assert((a + b).drop_last() =~= a + b.drop_last());
        keys_are_added(a, b.drop_last());
        assert(keys_on(a + b) =~= keys_on(a) + keys_on(b));
    }
}

proof fn an_open_path_ends_in_its_key(key: tree::Listed, sep: char, d: int)
    ensures
        keys_on(key.rows_from(sep, Set::empty(), d)) == seq![key.index],
    decreases key.segs.len() - d,
{
    let rows = key.rows_from(sep, Set::empty(), d);
    let none: Seq<Row> = Seq::empty();
    reveal_with_fuel(keys_on, 2);
    if d >= key.segs.len() - 1 {
        assert(rows.drop_last() =~= none);
        assert(keys_on(rows) =~= seq![key.index]);
    } else {
        let group = key.group_row(sep, Set::empty(), d);
        let head = if key.starts(d) {
            seq![group]
        } else {
            none
        };
        an_open_path_ends_in_its_key(key, sep, d + 1);
        keys_are_added(head, key.rows_from(sep, Set::empty(), d + 1));
        assert(seq![group].drop_last() =~= none);
        assert(keys_on(head) =~= Seq::empty());
        assert(keys_on(rows) =~= seq![key.index]);
    }
}

/// With no group collapsed the tree holds every key of the list once, in the
/// order of the list.
pub proof fn an_open_tree_holds_the_list(
    keys: LoadedView,
    sep: char,
    order: Seq<usize>,
    n: int,
)
    requires
        0 <= n <= order.len(),
    ensures
        keys_on(tree::folded(keys, sep, Set::empty(), order, n)) == order.take(n),
    decreases n,
{
    if n > 0 {
        an_open_tree_holds_the_list(keys, sep, order, n - 1);
        let key = tree::listed_key(keys, sep, order, n - 1);
        an_open_path_ends_in_its_key(key, sep, 0);
        keys_are_added(
            tree::folded(keys, sep, Set::empty(), order, n - 1),
            key.rows_from(sep, Set::empty(), 0),
        );
        assert(order.take(n) =~= order.take(n - 1) + seq![order[n - 1]]);
    } else {
        assert(order.take(0) =~= Seq::empty());
    }
}

/// A group is drawn once for keys that stand next to each other: the second of
/// them draws none of the groups that it shares with the first.
pub proof fn a_shared_group_is_not_drawn_again(
    keys: LoadedView,
    sep: char,
    collapsed: Set<Seq<char>>,
    order: Seq<usize>,
    p: int,
    e: int,
    row: int,
)
    requires
        0 < p < order.len(),
        0 <= e,
        ({
            let a = tree::segments(keys, sep, order[p - 1]);
            let b = tree::segments(keys, sep, order[p]);
            &&& a.len() > e + 1
            &&& b.len() > e + 1
            &&& forall|k: int| 0 <= k <= e ==> #[trigger] a[k] == b[k]
            &&& b.len() <= usize::MAX
        }),
        tree::folded(keys, sep, collapsed, order, p).len() <= row < tree::folded(
            keys,
            sep,
            collapsed,
            order,
            p + 1,
        ).len(),
    ensures
        ({
            let drawn = tree::folded(keys, sep, collapsed, order, p + 1)[row];
            drawn is Group ==> drawn.level() > e
        }),
{
    let key = tree::listed_key(keys, sep, order, p);
    let before = tree::folded(keys, sep, collapsed, order, p);
    assert(forall|d: int| 0 <= d <= e ==> !(#[trigger] key.starts(d)));
    groups_start_where_they_differ(key, sep, collapsed, 0, e, row - before.len());
}

proof fn groups_start_where_they_differ(
    key: tree::Listed,
    sep: char,
    collapsed: Set<Seq<char>>,
    d: int,
    e: int,
    row: int,
)
    requires
        0 <= d,
        key.segs.len() <= usize::MAX,
        forall|k: int| 0 <= k <= e ==> !(#[trigger] key.starts(k)),
        0 <= row < key.rows_from(sep, collapsed, d).len(),
    ensures
        key.rows_from(sep, collapsed, d)[row] is Group ==> key.rows_from(
            sep,
            collapsed,
            d,
        )[row].level() > e,
    decreases key.segs.len() - d,
{
    if d < key.segs.len() - 1 {
        let group = key.group_row(sep, collapsed, d);
        let head = if key.starts(d) {
            seq![group]
        } else {
            Seq::empty()
        };
        if key.starts(d) {
            assert(d > e);
        }
        if group->expanded && row >= head.len() {
            groups_start_where_they_differ(key, sep, collapsed, d + 1, e, row - head.len());
        }
    }
}

// ── Scores ──────────────────────────────────────────────────────────────────

/// Whether these are digits.
pub open spec fn are_digits(s: Seq<char>) -> bool {
    forall|i: int| 0 <= i < s.len() ==> '0' <= #[trigger] s[i] <= '9'
}

proof fn digits_lead(s: Seq<char>, t: Seq<char>)
    requires
        are_digits(s),
        t.len() > 0 ==> !('0' <= t[0] <= '9'),
    ensures
        score::leading_digits(s + t) == s.len(),
    decreases s.len(),
{
    let all = s + t;
    if s.len() > 0 {
        assert(all[0] == s[0]);
        assert(all.skip(1) =~= s.skip(1) + t);
        assert(are_digits(s.skip(1))) by {
            assert forall|i: int| 0 <= i < s.skip(1).len() implies '0' <= #[trigger] s.skip(1)[i]
                <= '9' by {
                assert('0' <= s[i + 1] <= '9');
            }
        }
        digits_lead(s.skip(1), t);
    } else if all.len() > 0 {
        assert(all[0] == t[0]);
    }
}

/// A score may be digits, digits around a point with one at least, and either
/// with a power behind it; a sign may stand in front of it.
pub proof fn a_decimal_is_a_score(a: Seq<char>, b: Seq<char>, power: Seq<char>)
    requires
        are_digits(a),
        are_digits(b),
        are_digits(power),
        power.len() > 0,
    ensures
        a.len() > 0 ==> score::is_score(a),
        a.len() + b.len() > 0 ==> score::is_score(a + seq!['.'] + b),
        a.len() > 0 ==> score::is_score(a + seq!['e'] + power),
        a.len() > 0 ==> score::is_score(a + seq!['e', '-'] + power),
{
    let none: Seq<char> = Seq::empty();
    digits_lead(a, none);
    assert(a + none =~= a);
    digits_lead(b, none);
    assert(b + none =~= b);
    digits_lead(power, none);
    assert(power + none =~= power);
    if a.len() > 0 {
        assert('0' <= a[0] <= '9');
        assert(score::unsigned(a) == a);
        assert(score::is_number(a));
        let e = a + seq!['e'] + power;
        digits_lead(a, seq!['e'] + power);
        assert(e =~= a + (seq!['e'] + power));
        assert(e[0] == a[0]);
        assert(score::unsigned(e) == e);
        let tail = e.skip(a.len() as int);
        assert(tail =~= seq!['e'] + power);
        assert(tail.skip(1) =~= power);
        assert('0' <= power[0] <= '9');
        assert(score::is_exponent(tail));
        let m = a + seq!['e', '-'] + power;
        digits_lead(a, seq!['e', '-'] + power);
        assert(m =~= a + (seq!['e', '-'] + power));
        assert(m[0] == a[0]);
        assert(score::unsigned(m) == m);
        let tail = m.skip(a.len() as int);
        assert(tail =~= seq!['e', '-'] + power);
        assert(tail.skip(1) =~= seq!['-'] + power);
        assert((seq!['-'] + power).skip(1) =~= power);
        assert(score::is_exponent(tail));
    }
    if a.len() + b.len() > 0 {
        let p = a + seq!['.'] + b;
        digits_lead(a, seq!['.'] + b);
        assert(p =~= a + (seq!['.'] + b));
        if a.len() > 0 {
            assert(p[0] == a[0]);
            assert('0' <= a[0] <= '9');
        }
        assert(score::unsigned(p) == p);
        assert(p.skip(a.len() as int + 1) =~= b);
        assert(score::mantissa_end(p) == Some((a.len() + 1 + b.len()) as nat));
    }
}

/// A sign changes nothing of whether a text without one is a score.
pub proof fn a_score_may_have_a_sign(s: Seq<char>)
    requires
        s.len() > 0,
        s[0] != '+',
        s[0] != '-',
    ensures
        score::is_score(seq!['-'] + s) <==> score::is_score(s),
        score::is_score(seq!['+'] + s) <==> score::is_score(s),
{
    assert((seq!['-'] + s).skip(1) =~= s);
    assert((seq!['+'] + s).skip(1) =~= s);
}

/// What begins with neither a digit, a point, a sign nor the letter of infinity
/// is no score, and neither is nothing.
pub proof fn most_texts_are_no_score(s: Seq<char>)
    requires
        s.len() == 0 || (!('0' <= s[0] <= '9') && s[0] != '.' && s[0] != '+' && s[0] != '-' && s[0]
            != 'i' && s[0] != 'I'),
    ensures
        !score::is_score(s),
{
    reveal_strlit("inf");
    reveal_strlit("infinity");
    assert(score::unsigned(s) == s);
}

// ── What is said of the session ─────────────────────────────────────────────

/// How current the value is, in words: that the key is gone comes first, then
/// that it is edited, then that an update is held back, then that it is live, and
/// else when it was read.
pub proof fn the_words_say_how_current_the_value_is(open: OpenView, live: bool, now_ms: u64)
    ensures
        ({
            let words = open.currency(live, now_ms);
            let edited = !(open.edit is Idle);
            &&& open.deleted_at_ms is Some ==> words == "deleted "@ + text::ago(
                open.deleted_at_ms->0,
                now_ms,
            )
            &&& open.deleted_at_ms is None && !edited && open.pending is Some ==> words
                == "changed "@ + text::ago(open.pending->0.at_ms, now_ms)
            &&& open.deleted_at_ms is None && !edited && open.pending is None ==> words == (if live {
                "live"@
            } else {
                "read "@ + text::ago(open.read_at_ms, now_ms)
            })
            &&& open.deleted_at_ms is None && edited ==> words == (
            match crate::purpose::editor::box_in(open.edit).target {
                TargetView::NewListElement { end } => if end == ListEnd::Head {
                    "editing · adding at the head"@
                } else {
                    "editing · adding at the tail"@
                },
                _ => "editing"@,
            })
        }),
{
}

/// The session is called live over a link that is up and whose arming was
/// accepted; over any other link that is up it is read by hand.
pub proof fn live_is_said_where_tracking_is_armed(link: LinkView)
    ensures
        match link {
            LinkView::Up { tracking, .. } => link.liveness() == (if tracking == Tracking::Armed
                || tracking == Tracking::Consumed {
                Liveness::Live
            } else {
                Liveness::Manual
            }),
            _ => link.liveness() == Liveness::Disconnected,
        },
{
}

/// The traversal in words, with its numbers.
pub proof fn the_traversal_is_told_in_numbers(scan: ScanView)
    ensures
        scan.readout() == (match scan {
            ScanView::Idle => Seq::empty(),
            ScanView::Running { scanned, estimated_total } => "scanning "@ + text::grouped(
                scanned as nat,
            ) + " of ~"@ + text::grouped(estimated_total as nat),
            ScanView::Capped { at } => "stopped at "@ + text::grouped(at as nat)
                + " keys — narrow the filter"@,
            ScanView::Complete { total } => text::grouped(total as nat) + " keys"@,
            ScanView::Cancelled { scanned } => "cancelled at "@ + text::grouped(scanned as nat)
                + " keys"@,
            ScanView::Failed { error } => "scan failed: "@ + error,
        }),
{
}

/// The hints say how to leave a filter that takes the keys, and otherwise what
/// the keys do in the pane that has the focus. A notice is on screen for three
/// seconds.
pub proof fn the_hints_are_of_the_focused_pane(s: StateView, now_ms: u64)
    ensures
        s.filtering ==> s.hints() == "type to filter · Enter keep · Esc clear & exit"@,
        !s.filtering && s.focus == Pane::Keys ==> s.hints()
            == "/ filter · s sort · t tree · r rescan · ? help"@,
        !s.filtering && s.focus == Pane::Value ==> s.hints()
            == "e edit · a add · d remove · r refetch · ? help"@,
        s.notice is None ==> s.notice_at(now_ms) is None,
        s.notice is Some && now_ms < (s.notice->0).1 + 3000 ==> s.notice_at(now_ms) == Some(
            (s.notice->0).0,
        ),
        s.notice is Some && now_ms >= (s.notice->0).1 + 3000 ==> s.notice_at(now_ms) is None,
{
}

// ── Stream entries ──────────────────────────────────────────────────────────

/// A stream entry says when it was added in front of the dash of its identifier.
pub proof fn an_identifier_tells_the_time(time: Seq<u8>, rest: Seq<u8>)
    requires
        text::is_decimal(time),
        text::number(time) <= u64::MAX,
    ensures
        copy::added_at(time + seq![45u8] + rest) == Some(text::number(time) as u64),
{
    assert(!time.contains(45u8)) by {
        if time.contains(45u8) {
            let k = time.index_of(45u8);
            assert(48 <= time[k]);
        }
    }
    the_first_piece(time, 45u8, rest);
}

proof fn one_piece(s: Seq<u8>, sep: u8)
    requires
        !s.contains(sep),
    ensures
        text::split(s, sep) == seq![s],
    decreases s.len(),
{
    if s.len() > 0 {
        assert(s[s.len() - 1] == s.last());
        assert(!s.drop_last().contains(sep)) by {
            if s.drop_last().contains(sep) {
                let k = s.drop_last().index_of(sep);
                assert(s[k] == sep);
            }
        }
        one_piece(s.drop_last(), sep);
        assert(s.drop_last().push(s.last()) =~= s);
        assert(text::split(s, sep) =~= seq![s]);
    } else {
        assert(s =~= Seq::empty());
    }
}

proof fn the_first_piece(a: Seq<u8>, sep: u8, rest: Seq<u8>)
    requires
        !a.contains(sep),
    ensures
        text::split(a + seq![sep] + rest, sep).len() >= 2,
        text::split(a + seq![sep] + rest, sep)[0] == a,
    decreases rest.len(),
{
    let s = a + seq![sep] + rest;
    if rest.len() == 0 {
        one_piece(a, sep);
        assert(s.drop_last() =~= a);
        assert(s.last() == sep);
    } else {
        the_first_piece(a, sep, rest.drop_last());
        assert(s.drop_last() =~= a + seq![sep] + rest.drop_last());
        assert(s.last() == rest.last());
    }
}

/// The line of a stream entry: its identifier, when it was added, and each field
/// with its value behind a tab.
pub proof fn a_stream_entry_has_its_fields(
    id: Seq<u8>,
    pairs: Seq<(Seq<u8>, Seq<u8>)>,
    field: Seq<u8>,
    value: Seq<u8>,
    read_at_ms: u64,
)
    ensures
        copy::added_at(id) is None ==> copy::entry_line(id, Seq::empty(), read_at_ms) == text::shown(
            id,
        ) + seq!['\t'],
        copy::added_at(id) is Some ==> copy::entry_line(id, Seq::empty(), read_at_ms) == text::shown(
            id,
        ) + seq!['\t'] + text::ago(copy::added_at(id)->0, read_at_ms),
        copy::entry_line(id, pairs.push((field, value)), read_at_ms) == copy::entry_line(
            id,
            pairs,
            read_at_ms,
        ) + seq!['\t'] + text::shown(field) + seq!['='] + text::shown(value),
{
    let more = pairs.push((field, value));
    assert(more.drop_last() =~= pairs);
    assert(copy::entry_line(id, more, read_at_ms) =~= copy::entry_line(id, pairs, read_at_ms)
        + seq!['\t'] + text::shown(field) + seq!['='] + text::shown(value));
    assert(copy::stream_fields(Seq::empty()) =~= Seq::empty());
    if copy::added_at(id) is None {
        assert(copy::entry_line(id, Seq::empty(), read_at_ms) =~= text::shown(id) + seq!['\t']);
    } else {
        assert(copy::entry_line(id, Seq::empty(), read_at_ms) =~= text::shown(id) + seq!['\t']
            + text::ago(copy::added_at(id)->0, read_at_ms));
    }
}

/// A capital and its small letter are the same in either case, and no other two
/// characters are.
pub proof fn case_is_no_matter(a: char, b: char)
    ensures
        text::lower(a) == text::lower(b) <==> a == b || ('A' <= a <= 'Z' && b as int == a as int
            + 32) || ('A' <= b <= 'Z' && a as int == b as int + 32),
{
}

/// Digits that a number is written in are read as that number.
pub proof fn written_digits_are_read_back(n: nat)
    ensures
        ({
            let bytes = Seq::new(text::decimal(n).len(), |i: int| text::decimal(n)[i] as u8);
            text::is_decimal(bytes) && text::number(bytes) == n
        }),
    decreases n,
{
    a_number_reads_as_itself(n);
    let d = text::decimal(n);
    let bytes = Seq::new(d.len(), |i: int| d[i] as u8);
    assert forall|i: int| 0 <= i < bytes.len() implies 48 <= #[trigger] bytes[i] <= 57 by {
        assert('0' <= d[i] <= '9');
    }
    if n < 10 {
        assert(bytes.drop_last() =~= Seq::empty());
        assert(text::number(Seq::empty()) == 0);
    } else {
        written_digits_are_read_back(n / 10);
        let front = Seq::new(text::decimal(n / 10).len(), |i: int| text::decimal(n / 10)[i] as u8);
        assert(bytes.drop_last() =~= front);
    }
}

// ── The line under a row ────────────────────────────────────────────────────

/// Where the rows of line `k` begin.
pub open spec fn rows_before(lines: Seq<Seq<char>>, width: nat, k: int) -> int {
    value::rows_of(lines, width, k).len() as int
}

proof fn a_row_of_a_line(lines: Seq<Seq<char>>, width: nat, n: int, k: int, j: int)
    requires
        0 <= k < n <= lines.len(),
        0 <= j < value::chunks(lines[k], width).len(),
    ensures
        rows_before(lines, width, k) + j < value::rows_of(lines, width, n).len(),
        value::rows_of(lines, width, n)[rows_before(lines, width, k) + j] == value::chunks(
            lines[k],
            width,
        )[j],
    decreases n,
{
    if k < n - 1 {
        a_row_of_a_line(lines, width, n - 1, k, j);
    }
}

proof fn rows_fill_a_line(line: Seq<char>, width: nat, j: int)
    requires
        width > 0,
        0 <= j < value::chunks(line, width).len(),
    ensures
        ({
            let rows = value::chunks(line, width);
            let filled = j * width + rows[j].len();
            &&& j < rows.len() - 1 ==> rows[j].len() == width && filled < line.len()
            &&& j == rows.len() - 1 ==> filled == line.len()
        }),
    decreases line.len(),
{
    if line.len() <= width {
        assert(j == 0);
        assert(0 * width == 0) by (nonlinear_arith);
    } else {
        let rest = line.skip(width as int);
        let rows = value::chunks(line, width);
        let others = value::chunks(rest, width);
        a_line_is_cut_into_rows(rest, width);
        if j > 0 {
            rows_fill_a_line(rest, width, j - 1);
            assert(rows[j] == others[j - 1]);
            assert(j * width == (j - 1) * width + width) by (nonlinear_arith);
        } else {
            assert(0 * width == 0) by (nonlinear_arith);
            assert(rows.len() > 1);
        }
    }
}

proof fn through_a_line(lines: Seq<Seq<char>>, width: nat, row: int, k: int, j: int)
    requires
        width > 0,
        0 <= k < lines.len(),
        0 <= j < value::chunks(lines[k], width).len(),
        rows_before(lines, width, k) + j <= row,
    ensures
        ({
            let rows = value::rows_of(lines, width, lines.len() as int);
            let from = rows_before(lines, width, k);
            let line = editor::line_from(lines, rows, row, from + j, k, j * width);
            let next = from + value::chunks(lines[k], width).len();
            &&& row < next ==> line == k
            &&& row >= next ==> line == editor::line_from(lines, rows, row, next, k + 1, 0)
        }),
    decreases value::chunks(lines[k], width).len() - j,
{
    let chunks = value::chunks(lines[k], width);
    a_row_of_a_line(lines, width, lines.len() as int, k, j);
    rows_fill_a_line(lines[k], width, j);
    if rows_before(lines, width, k) + j < row {
        if j < chunks.len() - 1 {
            assert((j + 1) * width == j * width + width) by (nonlinear_arith);
            through_a_line(lines, width, row, k, j + 1);
        }
    }
}

/// The line under a row of a wrapped text is the line that the row is cut from.
pub proof fn a_row_is_of_the_line_it_is_cut_from(s: Seq<char>, width: nat, k: int, j: int)
    requires
        width > 0,
        0 <= k < text::split(s, '\n').len(),
        0 <= j < value::chunks(text::split(s, '\n')[k], width).len(),
    ensures
        ({
            let lines = text::split(s, '\n');
            editor::line_of_row(
                lines,
                value::wrapped(s, width),
                rows_before(lines, width, k) + j,
            ) == k
        }),
{
    let lines = text::split(s, '\n');
    assert(rows_before(lines, width, 0) == 0);
    lines_lead_to(lines, width, rows_before(lines, width, k) + j, 0, k);
}

proof fn lines_lead_to(lines: Seq<Seq<char>>, width: nat, row: int, from: int, k: int)
    requires
        width > 0,
        0 <= from <= k < lines.len(),
        rows_before(lines, width, k) <= row < rows_before(lines, width, k) + value::chunks(
            lines[k],
            width,
        ).len(),
    ensures
        editor::line_from(
            lines,
            value::rows_of(lines, width, lines.len() as int),
            row,
            rows_before(lines, width, from),
            from,
            0,
        ) == k,
    decreases k - from,
{
    a_line_is_cut_into_rows(lines[from], width);
    assert(0 * width == 0) by (nonlinear_arith);
    rows_only_grow(lines, width, from, k);
    if from < k {
        assert(rows_before(lines, width, from + 1) == rows_before(lines, width, from)
            + value::chunks(lines[from], width).len());
        rows_only_grow(lines, width, from + 1, k);
        through_a_line(lines, width, row, from, 0);
        lines_lead_to(lines, width, row, from + 1, k);
    } else {
        through_a_line(lines, width, row, from, 0);
    }
}

proof fn rows_only_grow(lines: Seq<Seq<char>>, width: nat, a: int, b: int)
    requires
        0 <= a <= b,
    ensures
        rows_before(lines, width, a) <= rows_before(lines, width, b),
    decreases b - a,
{
    if a < b {
        rows_only_grow(lines, width, a, b - 1);
    }
}

} // verus!
