//! Text and bytes: the few operations on `String`, `str` and `[u8]` that the
//! rest of the library is written with, and the printing of numbers.

use vstd::prelude::*;
use vstd::utf8::*;

verus! {

/// `String::push` appends one character.
pub assume_specification[ std::string::String::push ](s: &mut std::string::String, c: char)
    ensures
        final(s)@ == old(s)@.push(c),
;

/// `String::pop` removes the last character and returns it, or returns `None`
/// and changes nothing when the string is empty.
pub assume_specification[ std::string::String::pop ](s: &mut std::string::String) -> (r: Option<
    char,
>)
    ensures
        old(s)@.len() == 0 ==> r is None && final(s)@ == old(s)@,
        old(s)@.len() > 0 ==> r == Some(old(s)@.last()) && final(s)@ == old(s)@.drop_last(),
;

/// What `String::from_utf8_lossy` makes of `bytes`.
pub uninterp spec fn utf8_lossy(bytes: Seq<u8>) -> Seq<char>;

/// `String::from_utf8_lossy`: every invalid sequence becomes a replacement
/// character. Bytes that are valid UTF-8 are decoded as they stand; what comes
/// out for other bytes has a name and no description.
#[verifier::external_body]
pub(crate) fn lossy_text(bytes: &[u8]) -> (text: String)
    ensures
        text@ == utf8_lossy(bytes@),
        valid_utf8(bytes@) ==> text@ == decode_utf8(bytes@),
{
    String::from_utf8_lossy(bytes).into_owned()
}

/// The text that bytes are shown as: what they encode where they are UTF-8, and
/// otherwise what stands in for it.
pub open spec fn shown(bytes: Seq<u8>) -> Seq<char> {
    if valid_utf8(bytes) {
        decode_utf8(bytes)
    } else {
        utf8_lossy(bytes)
    }
}

/// A text that was encoded is shown as itself.
pub proof fn text_is_shown_as_it_is(text: Seq<char>)
    ensures
        shown(encode_utf8(text)) == text,
{
    encode_utf8_valid_utf8(text);
    encode_utf8_decode_utf8(text);
}

/// `std::str::from_utf8`: the text that `bytes` encode, exactly when they are
/// valid UTF-8.
#[verifier::external_body]
pub(crate) fn utf8_text(bytes: &[u8]) -> (text: Option<String>)
    ensures
        text is Some <==> valid_utf8(bytes@),
        text is Some ==> text->0@ == decode_utf8(bytes@),
{
    match std::str::from_utf8(bytes) {
        Ok(text) => Some(text.to_string()),
        Err(_) => None,
    }
}

/// Whether `bytes` are valid UTF-8.
pub fn is_utf8(bytes: &[u8]) -> (valid: bool)
    ensures
        valid == valid_utf8(bytes@),
{
    utf8_text(bytes).is_some()
}

/// A string literal as an owned string.
pub fn owned(text: &str) -> (r: String)
    ensures
        r@ == text@,
{
    String::from_str(text)
}

/// The bytes of `bytes`, in a vector of their own.
pub fn copy_bytes(bytes: &[u8]) -> (r: Vec<u8>)
    ensures
        r@ == bytes@,
{
    let mut r: Vec<u8> = Vec::new();
    r.extend_from_slice(bytes);
    assert(r@ =~= bytes@);
    r
}

/// Whether two byte strings hold the same bytes.
pub fn same_bytes(a: &[u8], b: &[u8]) -> (same: bool)
    ensures
        same == (a@ == b@),
{
    if a.len() != b.len() {
        return false;
    }
    let mut i: usize = 0;
    while i < a.len()
        invariant
            i <= a@.len(),
            a@.len() == b@.len(),
            forall|j: int| 0 <= j < i ==> a@[j] == b@[j],
        decreases a@.len() - i,
    {
        if a[i] != b[i] {
            assert(a@[i as int] != b@[i as int]);
            return false;
        }
        i = i + 1;
    }
    assert(a@ =~= b@);
    true
}

/// The characters of `text`, one by one.
pub fn chars_of(text: &str) -> (r: Vec<char>)
    ensures
        r@ == text@,
{
    let mut r: Vec<char> = Vec::new();
    for c in it: text.chars()
        invariant
            it.seq() == text@,
            r@ == it.seq().take(it.index()),
    {
        assert(it.seq().take(it.index() + 1) =~= it.seq().take(it.index()).push(c));
        r.push(c);
    }
    assert(text@.take(text@.len() as int) =~= text@);
    r
}

/// `text` without its last character, where it has one.
pub open spec fn without_last(text: Seq<char>) -> Seq<char> {
    if text.len() == 0 {
        text
    } else {
        text.drop_last()
    }
}

/// A line break, of either kind.
pub open spec fn is_line_break(c: char) -> bool {
    c == '\n' || c == '\r'
}

/// `text` on one line: its line breaks are left out, the rest is kept in order.
pub open spec fn one_line(text: Seq<char>) -> Seq<char> {
    text.filter(|c: char| !is_line_break(c))
}

/// `text` with its line breaks left out.
pub fn strip_line_breaks(text: &str) -> (r: String)
    ensures
        r@ == one_line(text@),
{
    let chars = chars_of(text);
    let ghost keep = |c: char| !is_line_break(c);
    let mut r: String = String::new();
    let mut i: usize = 0;
    while i < chars.len()
        invariant
            i <= chars@.len(),
            keep == (|c: char| !is_line_break(c)),
            r@ == chars@.take(i as int).filter(keep),
        decreases chars@.len() - i,
    {
        let c = chars[i];
        proof {
            reveal(Seq::filter);
            assert(chars@.take(i + 1).drop_last() =~= chars@.take(i as int));
        }
        if c != '\n' && c != '\r' {
            r.push(c);
        }
        i = i + 1;
    }
    assert(chars@.take(chars@.len() as int) =~= chars@);
    r
}

/// The pieces that `sep` cuts `s` into: one more than there are separators,
/// none of which is kept.
pub open spec fn split<T>(s: Seq<T>, sep: T) -> Seq<Seq<T>>
    decreases s.len(),
{
    if s.len() == 0 {
        seq![Seq::empty()]
    } else {
        let pieces = split(s.drop_last(), sep);
        if s.last() == sep {
            pieces.push(Seq::empty())
        } else {
            pieces.update(pieces.len() - 1, pieces.last().push(s.last()))
        }
    }
}

/// The pieces put together again, with `sep` between each two.
pub open spec fn join<T>(pieces: Seq<Seq<T>>, sep: T) -> Seq<T>
    decreases pieces.len(),
{
    if pieces.len() == 0 {
        Seq::empty()
    } else if pieces.len() == 1 {
        pieces[0]
    } else {
        join(pieces.drop_last(), sep).push(sep) + pieces.last()
    }
}

/// There is always at least one piece.
pub proof fn split_is_not_empty<T>(s: Seq<T>, sep: T)
    ensures
        split(s, sep).len() >= 1,
    decreases s.len(),
{
    if s.len() > 0 {
        split_is_not_empty(s.drop_last(), sep);
    }
}

/// Splitting loses nothing: the pieces, joined, are what was split.
pub proof fn join_undoes_split<T>(s: Seq<T>, sep: T)
    ensures
        join(split(s, sep), sep) == s,
    decreases s.len(),
{
    if s.len() > 0 {
        let rest = s.drop_last();
        let pieces = split(rest, sep);
        join_undoes_split(rest, sep);
        split_is_not_empty(rest, sep);
        let all = split(s, sep);
        if s.last() == sep {
            assert(all.drop_last() =~= pieces);
            assert(join(all, sep) =~= rest.push(sep));
        } else {
            assert(all.drop_last() =~= pieces.drop_last());
            assert(join(all, sep) =~= rest.push(s.last()));
        }
        assert(s =~= rest.push(s.last()));
    }
}

/// Whether `s` ends in `mark`.
pub open spec fn ends_in<T>(s: Seq<T>, mark: Seq<T>) -> bool {
    mark.len() <= s.len() && s.skip(s.len() - mark.len()) == mark
}

/// The pieces that `mark` cuts `s` into, from the left: a piece ends as soon as
/// it ends in the mark, which is not kept.
pub open spec fn split_by<T>(s: Seq<T>, mark: Seq<T>) -> Seq<Seq<T>>
    decreases s.len(),
{
    if s.len() == 0 {
        seq![Seq::empty()]
    } else {
        let pieces = split_by(s.drop_last(), mark);
        let piece = pieces.last().push(s.last());
        if ends_in(piece, mark) {
            pieces.update(pieces.len() - 1, piece.take(piece.len() - mark.len())).push(
                Seq::empty(),
            )
        } else {
            pieces.update(pieces.len() - 1, piece)
        }
    }
}

/// A mark of one element cuts wherever that element stands.
pub proof fn a_short_mark_cuts_at_every_element<T>(s: Seq<T>, sep: T)
    ensures
        split_by(s, seq![sep]) == split(s, sep),
    decreases s.len(),
{
    if s.len() > 0 {
        a_short_mark_cuts_at_every_element(s.drop_last(), sep);
        split_is_not_empty(s.drop_last(), sep);
        let pieces = split(s.drop_last(), sep);
        let piece = pieces.last().push(s.last());
        let end = piece.skip(piece.len() - 1);
        assert(end =~= seq![s.last()]);
        assert(piece.take(piece.len() - 1) =~= pieces.last());
        assert(pieces.update(pieces.len() - 1, pieces.last()) =~= pieces);
        if s.last() != sep {
            assert(end[0] != seq![sep][0]);
        }
    }
}

/// There is always at least one piece.
pub proof fn split_by_is_not_empty<T>(s: Seq<T>, mark: Seq<T>)
    ensures
        split_by(s, mark).len() >= 1,
    decreases s.len(),
{
    if s.len() > 0 {
        split_by_is_not_empty(s.drop_last(), mark);
    }
}

/// Behind a cut, the cutting starts afresh.
pub proof fn a_cut_starts_afresh<T>(a: Seq<T>, b: Seq<T>, mark: Seq<T>)
    requires
        split_by(a, mark).last().len() == 0,
    ensures
        split_by(a + b, mark) == split_by(a, mark).drop_last() + split_by(b, mark),
    decreases b.len(),
{
    split_by_is_not_empty(a, mark);
    let front = split_by(a, mark).drop_last();
    if b.len() == 0 {
        assert(a + b =~= a);
        assert(split_by(a, mark).last() =~= Seq::empty());
        assert(front + split_by(b, mark) =~= split_by(a, mark));
    } else {
        let rest = b.drop_last();
        assert((a + b).drop_last() =~= a + rest);
        a_cut_starts_afresh(a, rest, mark);
        split_by_is_not_empty(rest, mark);
        let back = split_by(rest, mark);
        let all = front + back;
        assert(all.last() == back.last());
        let n = all.len() as int;
        let k = back.len() as int;
        let piece = back.last().push(b.last());
        assert(all.update(n - 1, piece) =~= front + back.update(k - 1, piece));
        let kept = piece.take(piece.len() - mark.len());
        assert(all.update(n - 1, kept).push(Seq::empty()) =~= front + back.update(
            k - 1,
            kept,
        ).push(Seq::empty()));
    }
}

/// The bytes that encode one character.
pub open spec fn bytes_of(c: char) -> Seq<u8> {
    encode_utf8(seq![c])
}

/// A character takes one to four bytes, and the first of them begins a
/// character.
pub proof fn a_character_has_bytes(c: char)
    ensures
        1 <= bytes_of(c).len() <= 4,
        valid_first_scalar(bytes_of(c)),
        length_of_first_scalar(bytes_of(c)) == bytes_of(c).len(),
        decode_first_scalar(bytes_of(c)) == c as u32,
        !is_continuation_byte(bytes_of(c)[0]),
{
    let one = seq![c];
    encode_utf8_first_scalar(one);
    assert(one.drop_first() =~= Seq::empty());
    assert(encode_utf8(one.drop_first()) =~= Seq::empty());
    assert(bytes_of(c) =~= encode_scalar(c as u32));
    utf8_byte_ranges_bitwise(bytes_of(c)[0]);
}

/// Wherever the bytes of a character stand in a text, they stand for that
/// character, and what is in front of them and behind them is text too.
pub proof fn a_character_parts_a_text(head: Seq<u8>, c: char, tail: Seq<u8>)
    requires
        valid_utf8(head + bytes_of(c) + tail),
    ensures
        valid_utf8(head),
        valid_utf8(tail),
        valid_utf8(head + bytes_of(c)),
        decode_utf8(head + bytes_of(c) + tail) == decode_utf8(head).push(c) + decode_utf8(tail),
        decode_utf8(head + bytes_of(c)) == decode_utf8(head).push(c),
{
    let mark = bytes_of(c);
    let all = head + mark + tail;
    let i = head.len() as int;
    a_character_has_bytes(c);
    assert(all[i] == mark[0]);
    is_char_boundary_iff_not_is_continuation_byte(all, i);
    valid_utf8_split(all, i);
    decode_utf8_split(all, i);
    let rest = all.subrange(i, all.len() as int);
    assert(all.subrange(0, i) =~= head);
    assert(rest =~= mark + tail);
    assert(forall|k: int| 0 <= k < mark.len() ==> rest[k] == mark[k]);
    assert(pop_first_scalar(rest) =~= tail);
    char_u32_cast(c, c as u32);
    assert(decode_utf8(rest) =~= seq![c] + decode_utf8(tail));
    assert(decode_utf8(head) + (seq![c] + decode_utf8(tail)) =~= decode_utf8(head).push(c)
        + decode_utf8(tail));
    encode_utf8_valid_utf8(seq![c]);
    valid_utf8_concat(head, mark);
    let both = head + mark;
    assert(both[i] == mark[0]);
    is_char_boundary_iff_not_is_continuation_byte(both, i);
    decode_utf8_split(both, i);
    assert(both.subrange(0, i) =~= head);
    assert(both.subrange(i, both.len() as int) =~= mark);
    encode_utf8_decode_utf8(seq![c]);
    assert(decode_utf8(head) + seq![c] =~= decode_utf8(head).push(c));
}

/// The bytes that encode one character.
pub fn char_bytes(c: char) -> (bytes: Vec<u8>)
    ensures
        bytes@ == bytes_of(c),
{
    let mut one: String = String::new();
    one.push(c);
    assert(one@ =~= seq![c]);
    one.as_str().as_bytes_vec()
}

/// The texts of a list of strings.
pub open spec fn texts(strings: Seq<String>) -> Seq<Seq<char>> {
    Seq::new(strings.len(), |i: int| strings[i]@)
}

/// The bytes of a list of byte strings.
pub open spec fn byte_strings(strings: Seq<Vec<u8>>) -> Seq<Seq<u8>> {
    Seq::new(strings.len(), |i: int| strings[i]@)
}

/// Cuts `text` into lines at every `\n`.
pub fn split_lines(text: &str) -> (lines: Vec<String>)
    ensures
        texts(lines@) == split(text@, '\n'),
{
    let chars = chars_of(text);
    let mut lines: Vec<String> = Vec::new();
    let mut line: String = String::new();
    let mut i: usize = 0;
    assert(texts(lines@).push(line@) =~= split(chars@.take(0), '\n'));
    while i < chars.len()
        invariant
            i <= chars@.len(),
            texts(lines@).push(line@) == split(chars@.take(i as int), '\n'),
        decreases chars@.len() - i,
    {
        let c = chars[i];
        let ghost before = texts(lines@).push(line@);
        assert(chars@.take(i + 1).drop_last() =~= chars@.take(i as int));
        if c == '\n' {
            lines.push(line);
            line = String::new();
            assert(texts(lines@).push(line@) =~= before.push(Seq::empty()));
        } else {
            line.push(c);
            assert(texts(lines@).push(line@) =~= before.update(
                before.len() - 1,
                before.last().push(c),
            ));
        }
        i = i + 1;
    }
    lines.push(line);
    assert(chars@.take(chars@.len() as int) =~= chars@);
    assert(texts(lines@) =~= split(text@, '\n'));
    lines
}

/// The lines put together, with `\n` between each two.
pub fn join_lines(lines: &Vec<String>) -> (text: String)
    ensures
        text@ == join(texts(lines@), '\n'),
{
    let mut text: String = String::new();
    let mut i: usize = 0;
    while i < lines.len()
        invariant
            i <= lines@.len(),
            text@ == join(texts(lines@).take(i as int), '\n'),
        decreases lines@.len() - i,
    {
        let ghost done = texts(lines@).take(i + 1);
        assert(done.drop_last() =~= texts(lines@).take(i as int));
        if i > 0 {
            text.push('\n');
        }
        text.append(lines[i].as_str());
        assert(text@ =~= join(done, '\n'));
        i = i + 1;
    }
    assert(texts(lines@).take(lines@.len() as int) =~= texts(lines@));
    text
}

/// The letter `c` in lower case, where it is one of the ASCII capitals.
pub open spec fn lower(c: char) -> int {
    if 'A' <= c <= 'Z' {
        c as int + 32
    } else {
        c as int
    }
}

/// The code point of `c`.
pub fn code(c: char) -> (code: u32)
    ensures
        code == c as int,
{
    c as u32
}

/// The code of `c` in lower case, where it is one of the ASCII capitals.
pub fn lower_code(c: char) -> (lowered: u32)
    ensures
        lowered == lower(c),
{
    if 'A' <= c && c <= 'Z' {
        code(c) + 32
    } else {
        code(c)
    }
}

/// The digit that stands for `d`.
pub open spec fn digit(d: nat) -> char {
    (('0' as int) + d) as char
}

/// `n` in decimal, without leading zeros.
pub open spec fn decimal(n: nat) -> Seq<char>
    decreases n,
{
    if n < 10 {
        seq![digit(n)]
    } else {
        decimal(n / 10).push(digit(n % 10))
    }
}

/// `n` in decimal with a comma before every third digit from the right.
pub open spec fn grouped(n: nat) -> Seq<char>
    decreases n,
{
    if n < 1000 {
        decimal(n)
    } else {
        grouped(n / 1000) + seq![',', digit(n / 100 % 10), digit(n / 10 % 10), digit(n % 10)]
    }
}

fn digit_char(d: u64) -> (c: char)
    requires
        d < 10,
    ensures
        c == digit(d as nat),
{
    if d == 0 {
        '0'
    } else if d == 1 {
        '1'
    } else if d == 2 {
        '2'
    } else if d == 3 {
        '3'
    } else if d == 4 {
        '4'
    } else if d == 5 {
        '5'
    } else if d == 6 {
        '6'
    } else if d == 7 {
        '7'
    } else if d == 8 {
        '8'
    } else {
        '9'
    }
}

/// Appends `n` in decimal.
pub fn push_decimal(out: &mut String, n: u64)
    ensures
        final(out)@ == old(out)@ + decimal(n as nat),
    decreases n,
{
    if n >= 10 {
        push_decimal(out, n / 10);
    }
    let c = digit_char(n % 10);
    out.push(c);
    assert(out@ =~= old(out)@ + decimal(n as nat));
}

/// Appends `n` in decimal, thousands separated by commas.
pub fn push_grouped(out: &mut String, n: u64)
    ensures
        final(out)@ == old(out)@ + grouped(n as nat),
    decreases n,
{
    if n < 1000 {
        push_decimal(out, n);
    } else {
        push_grouped(out, n / 1000);
        out.push(',');
        let hundreds = digit_char(n / 100 % 10);
        out.push(hundreds);
        let tens = digit_char(n / 10 % 10);
        out.push(tens);
        let units = digit_char(n % 10);
        out.push(units);
        assert(out@ =~= old(out)@ + grouped(n as nat));
    }
}

/// How long before `now_ms` it was `at_ms`, in words. Less than a second, and
/// what is still to come, is just now.
pub open spec fn ago(at_ms: u64, now_ms: u64) -> Seq<char> {
    let seconds = (now_ms - at_ms) / 1000;
    if seconds <= 0 {
        "just now"@
    } else {
        decimal(seconds as nat) + "s ago"@
    }
}

/// Appends how long before `now_ms` it was `at_ms`.
pub fn push_ago(out: &mut String, at_ms: u64, now_ms: u64)
    ensures
        final(out)@ == old(out)@ + ago(at_ms, now_ms),
{
    let seconds: u64 = if now_ms > at_ms {
        (now_ms - at_ms) / 1000
    } else {
        0
    };
    if seconds == 0 {
        out.append("just now");
    } else {
        push_decimal(out, seconds);
        out.append("s ago");
        assert(out@ =~= old(out)@ + ago(at_ms, now_ms));
    }
}

/// Whether `bytes` are decimal digits, and at least one.
pub open spec fn is_decimal(bytes: Seq<u8>) -> bool {
    bytes.len() > 0 && forall|i: int| 0 <= i < bytes.len() ==> 48 <= #[trigger] bytes[i] <= 57
}

/// The number that decimal digits are.
pub open spec fn number(digits: Seq<u8>) -> int
    decreases digits.len(),
{
    if digits.len() == 0 {
        0
    } else {
        number(digits.drop_last()) * 10 + digits.last() - 48
    }
}

proof fn numbers_grow(digits: Seq<u8>, n: int)
    requires
        0 <= n <= digits.len(),
        forall|i: int| 0 <= i < digits.len() ==> 48 <= #[trigger] digits[i] <= 57,
    ensures
        0 <= number(digits.take(n)) <= number(digits),
    decreases digits.len(),
{
    if digits.len() == 0 {
        assert(digits.take(n) =~= digits);
    } else {
        let rest = digits.drop_last();
        numbers_grow(rest, rest.len() as int);
        assert(rest.take(rest.len() as int) =~= rest);
        if n < digits.len() {
            numbers_grow(rest, n);
            assert(rest.take(n) =~= digits.take(n));
        } else {
            assert(digits.take(n) =~= digits);
        }
    }
}

/// The number that `bytes` are in decimal, if they are one that can be held.
pub fn parse_decimal(bytes: &[u8]) -> (r: Option<u64>)
    ensures
        r is Some <==> is_decimal(bytes@) && number(bytes@) <= u64::MAX,
        r is Some ==> r->0 == number(bytes@),
{
    if bytes.len() == 0 {
        return None;
    }
    let mut value: u64 = 0;
    let mut i: usize = 0;
    while i < bytes.len()
        invariant
            i <= bytes@.len(),
            value == number(bytes@.take(i as int)),
            forall|j: int| 0 <= j < i ==> 48 <= #[trigger] bytes@[j] <= 57,
        decreases bytes@.len() - i,
    {
        let b: u8 = bytes[i];
        if b < 48 || b > 57 {
            assert(!(48 <= bytes@[i as int] <= 57));
            return None;
        }
        assert(bytes@.take(i + 1).drop_last() =~= bytes@.take(i as int));
        let digit: u64 = (b - 48) as u64;
        if value > (u64::MAX - digit) / 10 {
            proof {
                if is_decimal(bytes@) {
                    numbers_grow(bytes@, i + 1);
                }
            }
            return None;
        }
        value = value * 10 + digit;
        i = i + 1;
    }
    assert(bytes@.take(bytes@.len() as int) =~= bytes@);
    Some(value)
}

} // verus!
