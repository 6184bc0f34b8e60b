//! JSON, as far as a viewer needs it: telling whether a text is JSON, and
//! laying it out for reading.

use vstd::prelude::*;

use crate::text;

verus! {

/// How deeply objects and arrays may nest.
pub const MAX_DEPTH: usize = 128;

pub open spec fn is_space(c: char) -> bool {
    c == ' ' || c == '\t' || c == '\n' || c == '\r'
}

pub open spec fn is_digit(c: char) -> bool {
    '0' <= c <= '9'
}

pub open spec fn is_hex(c: char) -> bool {
    '0' <= c <= '9' || 'a' <= c <= 'f' || 'A' <= c <= 'F'
}

/// The first position from `i` on that is not white space.
pub open spec fn past_space(s: Seq<char>, i: int) -> int
    decreases s.len() - i,
{
    if 0 <= i < s.len() && is_space(s[i]) {
        past_space(s, i + 1)
    } else {
        i
    }
}

/// The first position from `i` on that is not a digit.
pub open spec fn past_digits(s: Seq<char>, i: int) -> int
    decreases s.len() - i,
{
    if 0 <= i < s.len() && is_digit(s[i]) {
        past_digits(s, i + 1)
    } else {
        i
    }
}

/// Where one or more digits that start at `i` end.
pub open spec fn digits_end(s: Seq<char>, i: int) -> Option<int> {
    if past_digits(s, i) > i {
        Some(past_digits(s, i))
    } else {
        None
    }
}

/// Where the whole part of a number ends: a zero, or digits that start with
/// another one.
pub open spec fn whole_end(s: Seq<char>, i: int) -> Option<int> {
    if 0 <= i < s.len() && s[i] == '0' {
        Some(i + 1)
    } else {
        digits_end(s, i)
    }
}

pub open spec fn fraction_end(s: Seq<char>, i: int) -> Option<int> {
    if 0 <= i < s.len() && s[i] == '.' {
        digits_end(s, i + 1)
    } else {
        Some(i)
    }
}

pub open spec fn exponent_end(s: Seq<char>, i: int) -> Option<int> {
    if 0 <= i < s.len() && (s[i] == 'e' || s[i] == 'E') {
        if i + 1 < s.len() && (s[i + 1] == '+' || s[i + 1] == '-') {
            digits_end(s, i + 2)
        } else {
            digits_end(s, i + 1)
        }
    } else {
        Some(i)
    }
}

/// Where the number that starts at `i` ends.
pub open spec fn number_end(s: Seq<char>, i: int) -> Option<int> {
    let start = if 0 <= i < s.len() && s[i] == '-' {
        i + 1
    } else {
        i
    };
    match whole_end(s, start) {
        Some(whole) => match fraction_end(s, whole) {
            Some(fraction) => exponent_end(s, fraction),
            None => None,
        },
        None => None,
    }
}

pub open spec fn is_escape(c: char) -> bool {
    c == '"' || c == '\\' || c == '/' || c == 'b' || c == 'f' || c == 'n' || c == 'r' || c == 't'
}

/// Where a string, whose opening quote stands just before `i`, ends.
pub open spec fn string_end(s: Seq<char>, i: int) -> Option<int>
    decreases s.len() - i,
{
    if !(0 <= i < s.len()) {
        None
    } else if s[i] == '"' {
        Some(i + 1)
    } else if s[i] == '\\' {
        if i + 1 < s.len() && is_escape(s[i + 1]) {
            string_end(s, i + 2)
        } else if i + 5 < s.len() && s[i + 1] == 'u' && is_hex(s[i + 2]) && is_hex(s[i + 3])
            && is_hex(s[i + 4]) && is_hex(s[i + 5]) {
            string_end(s, i + 6)
        } else {
            None
        }
    } else if (s[i] as int) < 32 {
        None
    } else {
        string_end(s, i + 1)
    }
}

/// Whether `word` stands in `s` at `i`.
pub open spec fn has_word(s: Seq<char>, i: int, word: Seq<char>) -> bool {
    0 <= i && i + word.len() <= s.len() && s.subrange(i, i + word.len()) == word
}

pub open spec fn word_end(s: Seq<char>, i: int) -> Option<int> {
    if has_word(s, i, "true"@) {
        Some(i + 4)
    } else if has_word(s, i, "false"@) {
        Some(i + 5)
    } else if has_word(s, i, "null"@) {
        Some(i + 4)
    } else {
        None
    }
}

/// Where the value that starts at `i`, behind white space, ends. At most
/// `depth` objects and arrays may stand in one another.
pub open spec fn value_end(s: Seq<char>, i: int, depth: nat) -> Option<int>
    decreases depth, s.len() - i + 1, 0int,
{
    let at = past_space(s, i);
    if !(0 <= i <= at < s.len()) {
        None
    } else if s[at] == '"' {
        string_end(s, at + 1)
    } else if s[at] == '{' || s[at] == '[' {
        let object = s[at] == '{';
        if depth == 0 {
            None
        } else {
            let first = past_space(s, at + 1);
            if at < first < s.len() && s[first] == (if object {
                '}'
            } else {
                ']'
            }) {
                Some(first + 1)
            } else {
                members_end(s, at + 1, object, (depth - 1) as nat)
            }
        }
    } else if s[at] == '-' || is_digit(s[at]) {
        number_end(s, at)
    } else {
        word_end(s, at)
    }
}

/// Where an object or an array ends, of which the members from `i` on are left.
pub open spec fn members_end(s: Seq<char>, i: int, object: bool, depth: nat) -> Option<int>
    decreases depth, s.len() - i + 1, 1int,
{
    let start = if object {
        name_end(s, i)
    } else {
        Some(i)
    };
    match start {
        Some(start) => if !(0 <= i <= start <= s.len()) {
            None
        } else {
            match value_end(s, start, depth) {
                Some(end) => {
                    let next = past_space(s, end);
                    if !(i < next < s.len()) {
                        None
                    } else if s[next] == ',' {
                        members_end(s, next + 1, object, depth)
                    } else if s[next] == (if object {
                        '}'
                    } else {
                        ']'
                    }) {
                        Some(next + 1)
                    } else {
                        None
                    }
                },
                None => None,
            }
        },
        None => None,
    }
}

/// Where the name of a member, and the colon behind it, end.
pub open spec fn name_end(s: Seq<char>, i: int) -> Option<int> {
    let at = past_space(s, i);
    if !(0 <= at < s.len()) || s[at] != '"' {
        None
    } else {
        match string_end(s, at + 1) {
            Some(end) => {
                let colon = past_space(s, end);
                if 0 <= colon < s.len() && s[colon] == ':' {
                    Some(colon + 1)
                } else {
                    None
                }
            },
            None => None,
        }
    }
}

/// Whether `s` is one JSON value, with white space around it at most.
pub open spec fn is_json(s: Seq<char>) -> bool {
    match value_end(s, 0, MAX_DEPTH as nat) {
        Some(end) => past_space(s, end) == s.len(),
        None => false,
    }
}

/// Whether `s` is JSON that a reader would call so: an object or an array. A
/// bare number or string is not.
pub open spec fn looks_like_json(s: Seq<char>) -> bool {
    let at = past_space(s, 0);
    at < s.len() && (s[at] == '{' || s[at] == '[') && is_json(s)
}

fn skip_space(s: &Vec<char>, from: usize) -> (at: usize)
    requires
        from <= s@.len(),
    ensures
        at == past_space(s@, from as int),
        from <= at <= s@.len(),
{
    let mut i: usize = from;
    while i < s.len() && (s[i] == ' ' || s[i] == '\t' || s[i] == '\n' || s[i] == '\r')
        invariant
            from <= i <= s@.len(),
            past_space(s@, i as int) == past_space(s@, from as int),
        decreases s@.len() - i,
    {
        i = i + 1;
    }
    i
}

fn skip_digits(s: &Vec<char>, from: usize) -> (end: Option<usize>)
    requires
        from <= s@.len(),
    ensures
        end is Some <==> digits_end(s@, from as int) is Some,
        end is Some ==> end->0 == digits_end(s@, from as int)->0 && from < end->0 <= s@.len(),
{
    let mut i: usize = from;
    while i < s.len() && '0' <= s[i] && s[i] <= '9'
        invariant
            from <= i <= s@.len(),
            past_digits(s@, i as int) == past_digits(s@, from as int),
        decreases s@.len() - i,
    {
        i = i + 1;
    }
    if i > from {
        Some(i)
    } else {
        None
    }
}

fn skip_number(s: &Vec<char>, from: usize) -> (end: Option<usize>)
    requires
        from < s@.len(),
    ensures
        end is Some <==> number_end(s@, from as int) is Some,
        end is Some ==> end->0 == number_end(s@, from as int)->0 && from < end->0 <= s@.len(),
{
    let n: usize = s.len();
    let start: usize = if s[from] == '-' {
        from + 1
    } else {
        from
    };
    let whole: Option<usize> = if start < n && s[start] == '0' {
        Some(start + 1)
    } else {
        skip_digits(s, start)
    };
    let fraction: Option<usize> = match whole {
        Some(whole) => if whole < s.len() && s[whole] == '.' {
            skip_digits(s, whole + 1)
        } else {
            Some(whole)
        },
        None => None,
    };
    match fraction {
        Some(fraction) => if fraction < s.len() && (s[fraction] == 'e' || s[fraction] == 'E') {
            if fraction + 1 < s.len() && (s[fraction + 1] == '+' || s[fraction + 1] == '-') {
                skip_digits(s, fraction + 2)
            } else {
                skip_digits(s, fraction + 1)
            }
        } else {
            Some(fraction)
        },
        None => None,
    }
}

fn hex(c: char) -> (r: bool)
    ensures
        r == is_hex(c),
{
    ('0' <= c && c <= '9') || ('a' <= c && c <= 'f') || ('A' <= c && c <= 'F')
}

fn escape(c: char) -> (r: bool)
    ensures
        r == is_escape(c),
{
    c == '"' || c == '\\' || c == '/' || c == 'b' || c == 'f' || c == 'n' || c == 'r' || c == 't'
}

fn skip_string(s: &Vec<char>, from: usize) -> (end: Option<usize>)
    requires
        from <= s@.len(),
    ensures
        end is Some <==> string_end(s@, from as int) is Some,
        end is Some ==> end->0 == string_end(s@, from as int)->0 && from < end->0 <= s@.len(),
{
    let n: usize = s.len();
    let mut i: usize = from;
    while i < n
        invariant
            n == s@.len(),
            from <= i <= n,
            string_end(s@, i as int) == string_end(s@, from as int),
        decreases n - i,
    {
        let c = s[i];
        if c == '"' {
            return Some(i + 1);
        } else if c == '\\' {
            if n - i > 1 && escape(s[i + 1]) {
                i = i + 2;
            } else if n - i > 5 && s[i + 1] == 'u' && hex(s[i + 2]) && hex(s[i + 3]) && hex(
                s[i + 4],
            ) && hex(s[i + 5]) {
                i = i + 6;
            } else {
                return None;
            }
        } else if text::code(c) < 32 {
            return None;
        } else {
            i = i + 1;
        }
    }
    None
}

fn word_at(s: &Vec<char>, from: usize, word: &str) -> (r: bool)
    requires
        from <= s@.len(),
    ensures
        r == has_word(s@, from as int, word@),
{
    let letters = text::chars_of(word);
    let n: usize = s.len();
    if n - from < letters.len() {
        return false;
    }
    let ghost there = s@.subrange(from as int, from + letters@.len());
    let mut i: usize = 0;
    while i < letters.len()
        invariant
            n == s@.len(),
            from + letters@.len() <= n,
            letters@ == word@,
            i <= letters@.len(),
            there == s@.subrange(from as int, from + letters@.len()),
            forall|j: int| 0 <= j < i ==> there[j] == letters@[j],
        decreases letters@.len() - i,
    {
        if s[from + i] != letters[i] {
            assert(there[i as int] != letters@[i as int]);
            return false;
        }
        i = i + 1;
    }
    assert(there =~= letters@);
    true
}

fn skip_word(s: &Vec<char>, from: usize) -> (end: Option<usize>)
    requires
        from <= s@.len(),
    ensures
        end is Some <==> word_end(s@, from as int) is Some,
        end is Some ==> end->0 == word_end(s@, from as int)->0 && from < end->0 <= s@.len(),
{
    proof {
        reveal_strlit("true");
        reveal_strlit("false");
        reveal_strlit("null");
    }
    let n: usize = s.len();
    if n - from < 4 {
        assert(!has_word(s@, from as int, "true"@));
        None
    } else if word_at(s, from, "true") {
        Some(from + 4)
    } else if word_at(s, from, "false") {
        Some(from + 5)
    } else if word_at(s, from, "null") {
        Some(from + 4)
    } else {
        None
    }
}

fn skip_value(s: &Vec<char>, from: usize, depth: usize) -> (end: Option<usize>)
    requires
        from <= s@.len(),
    ensures
        end is Some <==> value_end(s@, from as int, depth as nat) is Some,
        end is Some ==> end->0 == value_end(s@, from as int, depth as nat)->0 && from < end->0
            <= s@.len(),
    decreases depth, s@.len() - from + 1, 0int,
{
    let at: usize = skip_space(s, from);
    if at >= s.len() {
        return None;
    }
    let c = s[at];
    if c == '"' {
        skip_string(s, at + 1)
    } else if c == '{' || c == '[' {
        if depth == 0 {
            return None;
        }
        let close = if c == '{' {
            '}'
        } else {
            ']'
        };
        let first: usize = skip_space(s, at + 1);
        if first < s.len() && s[first] == close {
            Some(first + 1)
        } else {
            skip_members(s, at + 1, c == '{', depth - 1)
        }
    } else if c == '-' || ('0' <= c && c <= '9') {
        skip_number(s, at)
    } else {
        skip_word(s, at)
    }
}

fn skip_name(s: &Vec<char>, from: usize) -> (end: Option<usize>)
    requires
        from <= s@.len(),
    ensures
        end is Some <==> name_end(s@, from as int) is Some,
        end is Some ==> end->0 == name_end(s@, from as int)->0 && from < end->0 <= s@.len(),
{
    let at: usize = skip_space(s, from);
    if at >= s.len() || s[at] != '"' {
        return None;
    }
    match skip_string(s, at + 1) {
        Some(end) => {
            let colon: usize = skip_space(s, end);
            if colon < s.len() && s[colon] == ':' {
                Some(colon + 1)
            } else {
                None
            }
        },
        None => None,
    }
}

fn skip_members(s: &Vec<char>, from: usize, object: bool, depth: usize) -> (end: Option<usize>)
    requires
        from <= s@.len(),
    ensures
        end is Some <==> members_end(s@, from as int, object, depth as nat) is Some,
        end is Some ==> end->0 == members_end(s@, from as int, object, depth as nat)->0 && from
            < end->0 <= s@.len(),
    decreases depth, s@.len() - from + 1, 1int,
{
    let start: Option<usize> = if object {
        skip_name(s, from)
    } else {
        Some(from)
    };
    match start {
        Some(start) => match skip_value(s, start, depth) {
            Some(end) => {
                let next: usize = skip_space(s, end);
                let close = if object {
                    '}'
                } else {
                    ']'
                };
                if next >= s.len() {
                    None
                } else if s[next] == ',' {
                    skip_members(s, next + 1, object, depth)
                } else if s[next] == close {
                    Some(next + 1)
                } else {
                    None
                }
            },
            None => None,
        },
        None => None,
    }
}

fn json_chars(s: &Vec<char>) -> (r: bool)
    ensures
        r == is_json(s@),
{
    match skip_value(s, 0, MAX_DEPTH) {
        Some(end) => skip_space(s, end) == s.len(),
        None => false,
    }
}

/// Whether `text` is JSON of any kind.
pub fn valid_json(text: &str) -> (r: bool)
    ensures
        r == is_json(text@),
{
    let s = text::chars_of(text);
    json_chars(&s)
}

/// Whether `text` is a JSON object or array.
pub fn json_shaped(text: &str) -> (r: bool)
    ensures
        r == looks_like_json(text@),
{
    let s = text::chars_of(text);
    let at: usize = skip_space(&s, 0);
    at < s.len() && (s[at] == '{' || s[at] == '[') && json_chars(&s)
}

// ── Laying it out ───────────────────────────────────────────────────────────

/// A new line, indented by two spaces for each level.
pub open spec fn new_line(depth: nat) -> Seq<char> {
    seq!['\n'] + Seq::new(2 * depth, |i: int| ' ')
}

/// JSON laid out for reading, from position `i` on: every member on a line of
/// its own, indented by its depth, a space behind each colon, and no other
/// white space outside strings. `quoted` tells whether `i` is inside a string.
pub open spec fn laid_out(s: Seq<char>, i: int, depth: nat, quoted: bool) -> Seq<char>
    decreases s.len() - i,
{
    if !(0 <= i < s.len()) {
        Seq::empty()
    } else if quoted {
        if s[i] == '\\' && i + 1 < s.len() {
            seq![s[i], s[i + 1]] + laid_out(s, i + 2, depth, true)
        } else {
            seq![s[i]] + laid_out(s, i + 1, depth, s[i] != '"')
        }
    } else if is_space(s[i]) {
        laid_out(s, i + 1, depth, false)
    } else if s[i] == '{' || s[i] == '[' {
        let next = past_space(s, i + 1);
        if i < next < s.len() && (s[next] == '}' || s[next] == ']') {
            seq![s[i], s[next]] + laid_out(s, next + 1, depth, false)
        } else {
            seq![s[i]] + new_line(depth + 1) + laid_out(s, i + 1, depth + 1, false)
        }
    } else if s[i] == '}' || s[i] == ']' {
        let outer = if depth > 0 {
            (depth - 1) as nat
        } else {
            0
        };
        new_line(outer) + seq![s[i]] + laid_out(s, i + 1, outer, false)
    } else if s[i] == ',' {
        seq![s[i]] + new_line(depth) + laid_out(s, i + 1, depth, false)
    } else if s[i] == ':' {
        seq![s[i], ' '] + laid_out(s, i + 1, depth, false)
    } else {
        seq![s[i]] + laid_out(s, i + 1, depth, s[i] == '"')
    }
}

fn push_new_line(out: &mut String, depth: usize)
    ensures
        final(out)@ == old(out)@ + new_line(depth as nat),
{
    out.push('\n');
    let mut i: usize = 0;
    while i < depth
        invariant
            i <= depth,
            out@ == old(out)@ + new_line(i as nat),
        decreases depth - i,
    {
        out.push(' ');
        out.push(' ');
        i = i + 1;
        assert(out@ =~= old(out)@ + new_line(i as nat));
    }
}

/// Lays JSON out for reading.
pub fn pretty(json: &str) -> (out: String)
    ensures
        out@ == laid_out(json@, 0, 0, false),
{
    let s = text::chars_of(json);
    let n: usize = s.len();
    let mut out: String = String::new();
    let mut depth: usize = 0;
    let mut quoted: bool = false;
    let mut i: usize = 0;
    assert(out@ + laid_out(s@, 0, 0, false) =~= laid_out(s@, 0, 0, false));
    while i < n
        invariant
            n == s@.len(),
            i <= n,
            depth <= i,
            out@ + laid_out(s@, i as int, depth as nat, quoted) == laid_out(s@, 0, 0, false),
        decreases n - i,
    {
        let c = s[i];
        let ghost before = out@;
        let ghost rest = laid_out(s@, i as int, depth as nat, quoted);
        if quoted {
            out.push(c);
            if c == '\\' && n - i > 1 {
                out.push(s[i + 1]);
                i = i + 2;
            } else {
                quoted = c != '"';
                i = i + 1;
            }
        } else if c == ' ' || c == '\t' || c == '\n' || c == '\r' {
            i = i + 1;
        } else if c == '{' || c == '[' {
            let next: usize = skip_space(&s, i + 1);
            out.push(c);
            if next < n && (s[next] == '}' || s[next] == ']') {
                out.push(s[next]);
                i = next + 1;
            } else {
                depth = depth + 1;
                push_new_line(&mut out, depth);
                i = i + 1;
            }
        } else if c == '}' || c == ']' {
            if depth > 0 {
                depth = depth - 1;
            }
            push_new_line(&mut out, depth);
            out.push(c);
            i = i + 1;
        } else if c == ',' {
            out.push(c);
            push_new_line(&mut out, depth);
            i = i + 1;
        } else if c == ':' {
            out.push(c);
            out.push(' ');
            i = i + 1;
        } else {
            out.push(c);
            quoted = c == '"';
            i = i + 1;
        }
        assert(out@ + laid_out(s@, i as int, depth as nat, quoted) =~= before + rest);
    }
    out
}

} // verus!
