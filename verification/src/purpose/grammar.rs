//! What JSON is: strings, numbers, words, and arrays and objects of them.

use vstd::prelude::*;

use crate::json;
use crate::purpose::words;
use crate::text;

verus! {

/// Whether a character stands for itself in a string.
pub open spec fn stands_for_itself(c: char) -> bool {
    c != '"' && c != '\\' && c >= ' '
}

proof fn a_string_is_walked(s: Seq<char>, i: int, n: int)
    requires
        0 <= i <= n < s.len(),
        forall|k: int| i <= k < n ==> stands_for_itself(#[trigger] s[k]),
    ensures
        s[n] == '"' ==> json::string_end(s, i) == Some(n + 1),
        s[n] == '\\' ==> json::string_end(s, i) == json::string_end(s, n),
    decreases n - i,
{
    if i < n {
        assert(stands_for_itself(s[i]));
        a_string_is_walked(s, i + 1, n);
    }
}

proof fn an_open_string_never_ends(s: Seq<char>, i: int)
    requires
        0 <= i <= s.len(),
        forall|k: int| i <= k < s.len() ==> stands_for_itself(#[trigger] s[k]),
    ensures
        json::string_end(s, i) is None,
    decreases s.len() - i,
{
    if i < s.len() {
        assert(stands_for_itself(s[i]));
        an_open_string_never_ends(s, i + 1);
    }
}

/// A text between quotes is JSON where every character of it stands for itself;
/// without the closing quote it is not, and neither is anything behind it.
pub proof fn a_quoted_text_is_json(t: Seq<char>)
    requires
        forall|i: int| 0 <= i < t.len() ==> stands_for_itself(#[trigger] t[i]),
    ensures
        json::is_json(seq!['"'] + t + seq!['"']),
        !json::is_json(seq!['"'] + t),
        !json::is_json(seq!['"'] + t + seq!['"', '"']),
{
    let s = seq!['"'] + t + seq!['"'];
    let n = t.len() + 1;
    assert forall|k: int| 1 <= k < n implies stands_for_itself(#[trigger] s[k]) by {
        assert(s[k] == t[k - 1]);
    }
    a_string_is_walked(s, 1, n as int);
    let open = seq!['"'] + t;
    assert forall|k: int| 1 <= k < open.len() implies stands_for_itself(#[trigger] open[k]) by {
        assert(open[k] == t[k - 1]);
    }
    an_open_string_never_ends(open, 1);
    let more = seq!['"'] + t + seq!['"', '"'];
    assert forall|k: int| 1 <= k < n implies stands_for_itself(#[trigger] more[k]) by {
        assert(more[k] == t[k - 1]);
    }
    a_string_is_walked(more, 1, n as int);
}

/// Behind a backslash a quote, a backslash, a slash and the letters of the
/// control characters may stand, and no other character but the `u` of four
/// digits.
pub proof fn a_backslash_escapes_few_characters(a: Seq<char>, c: char, b: Seq<char>)
    requires
        forall|i: int| 0 <= i < a.len() ==> stands_for_itself(#[trigger] a[i]),
        forall|i: int| 0 <= i < b.len() ==> stands_for_itself(#[trigger] b[i]),
        c != 'u',
    ensures
        json::is_json(seq!['"'] + a + seq!['\\', c] + b + seq!['"']) <==> (c == '"' || c == '\\'
            || c == '/' || c == 'b' || c == 'f' || c == 'n' || c == 'r' || c == 't'),
{
    let s = seq!['"'] + a + seq!['\\', c] + b + seq!['"'];
    let n = a.len() + 1;
    assert forall|k: int| 1 <= k < n implies stands_for_itself(#[trigger] s[k]) by {
        assert(s[k] == a[k - 1]);
    }
    assert(s[n as int] == '\\');
    assert(s[n as int + 1] == c);
    a_string_is_walked(s, 1, n as int);
    let m = s.len() - 1;
    assert forall|k: int| n + 2 <= k < m implies stands_for_itself(#[trigger] s[k]) by {
        assert(s[k] == b[k - n - 2]);
    }
    assert(s[m] == '"');
    a_string_is_walked(s, n as int + 2, m);
}

/// A control character is not allowed in a string as it is.
pub proof fn a_control_character_is_not_allowed(a: Seq<char>, c: char, b: Seq<char>)
    requires
        forall|i: int| 0 <= i < a.len() ==> stands_for_itself(#[trigger] a[i]),
        c < ' ',
    ensures
        !json::is_json(seq!['"'] + a + seq![c] + b + seq!['"']),
{
    let s = seq!['"'] + a + seq![c] + b + seq!['"'];
    let n = a.len() as int + 1;
    assert(s[n] == c);
    assert forall|k: int| 1 <= k < n implies stands_for_itself(#[trigger] s[k]) by {
        assert(s[k] == a[k - 1]);
    }
    a_bad_string_never_ends(s, 1, n);
}

proof fn a_bad_string_never_ends(s: Seq<char>, i: int, n: int)
    requires
        0 <= i <= n < s.len(),
        forall|k: int| i <= k < n ==> stands_for_itself(#[trigger] s[k]),
        s[n] < ' ',
    ensures
        json::string_end(s, i) is None,
    decreases n - i,
{
    if i < n {
        assert(stands_for_itself(s[i]));
        a_bad_string_never_ends(s, i + 1, n);
    }
}

proof fn digits_are_walked(s: Seq<char>, i: int, n: int)
    requires
        0 <= i <= n <= s.len(),
        forall|k: int| i <= k < n ==> '0' <= #[trigger] s[k] <= '9',
        n < s.len() ==> !('0' <= s[n] <= '9'),
    ensures
        json::past_digits(s, i) == n,
    decreases n - i,
{
    if i < n {
        assert('0' <= s[i] <= '9');
        digits_are_walked(s, i + 1, n);
    }
}

/// A whole number is JSON, with a minus in front or none; a zero in front of more
/// digits, a plus in front, and a point with nothing behind it are not.
pub proof fn a_number_is_json(n: nat, more: Seq<char>)
    requires
        more.len() > 0,
        words::are_digits(more),
    ensures
        json::is_json(text::decimal(n)),
        json::is_json(seq!['-'] + text::decimal(n)),
        json::is_json(text::decimal(n) + seq!['.'] + more),
        !json::is_json(seq!['0'] + more),
        !json::is_json(seq!['+'] + text::decimal(n)),
        !json::is_json(text::decimal(n).push('.')),
{
    let d = text::decimal(n);
    let len = d.len() as int;
    words::a_number_reads_as_itself(n);
    assert('0' <= d[0] <= '9');
    a_zero_stands_alone(n);
    digits_are_walked(d, 0, len);
    assert(json::is_json(d));

    let minus = seq!['-'] + d;
    assert(minus[1] == d[0]);
    assert forall|k: int| 1 <= k < minus.len() implies '0' <= #[trigger] minus[k] <= '9' by {
        assert(minus[k] == d[k - 1]);
    }
    digits_are_walked(minus, 1, minus.len() as int);
    assert(json::is_json(minus));

    let part = d + seq!['.'] + more;
    assert(part[0] == d[0]);
    assert forall|k: int| 0 <= k < len implies '0' <= #[trigger] part[k] <= '9' by {
        assert(part[k] == d[k]);
    }
    assert(part[len] == '.');
    digits_are_walked(part, 0, len);
    assert forall|k: int| len + 1 <= k < part.len() implies '0' <= #[trigger] part[k] <= '9' by {
        assert(part[k] == more[k - len - 1]);
    }
    digits_are_walked(part, len + 1, part.len() as int);
    assert(json::is_json(part));

    let zero = seq!['0'] + more;
    assert(zero[1] == more[0]);
    assert('0' <= more[0] <= '9');

    let plus = seq!['+'] + d;
    assert(plus[0] == '+');
    no_word_starts_there(plus);

    let open = d.push('.');
    assert(open[0] == d[0]);
    assert forall|k: int| 0 <= k < len implies '0' <= #[trigger] open[k] <= '9' by {
        assert(open[k] == d[k]);
    }
    assert(open[len] == '.');
    digits_are_walked(open, 0, len);
    assert(json::past_digits(open, len + 1) == len + 1);
}

/// A number that begins with a zero is zero.
proof fn a_zero_stands_alone(n: nat)
    ensures
        text::decimal(n)[0] == '0' ==> text::decimal(n).len() == 1,
{
    words::a_number_reads_as_itself(n);
}

proof fn no_word_starts_there(s: Seq<char>)
    requires
        s.len() > 0,
        s[0] != 't',
        s[0] != 'f',
        s[0] != 'n',
    ensures
        json::word_end(s, 0) is None,
{
    reveal_strlit("true");
    reveal_strlit("false");
    reveal_strlit("null");
    if json::has_word(s, 0, "true"@) {
        assert(s.subrange(0, 4)[0] == s[0]);
    }
    if json::has_word(s, 0, "false"@) {
        assert(s.subrange(0, 5)[0] == s[0]);
    }
    if json::has_word(s, 0, "null"@) {
        assert(s.subrange(0, 4)[0] == s[0]);
    }
}

// ── Where a text stands ─────────────────────────────────────────────────────

/// A place further on by so many characters, where there is one.
pub open spec fn further(at: Option<int>, n: int) -> Option<int> {
    match at {
        Some(i) => Some(i + n),
        None => None,
    }
}

proof fn space_moves(x: Seq<char>, s: Seq<char>, i: int)
    requires
        0 <= i,
    ensures
        json::past_space(x + s, x.len() + i) == x.len() + json::past_space(s, i),
        i <= json::past_space(s, i),
    decreases s.len() - i,
{
    if i < s.len() {
        assert((x + s)[x.len() + i] == s[i]);
        if json::is_space(s[i]) {
            space_moves(x, s, i + 1);
        }
    }
}

proof fn digits_move(x: Seq<char>, s: Seq<char>, i: int)
    requires
        0 <= i,
    ensures
        json::past_digits(x + s, x.len() + i) == x.len() + json::past_digits(s, i),
        i <= json::past_digits(s, i),
    decreases s.len() - i,
{
    if i < s.len() {
        assert((x + s)[x.len() + i] == s[i]);
        if json::is_digit(s[i]) {
            digits_move(x, s, i + 1);
        }
    }
}

proof fn numbers_move(x: Seq<char>, s: Seq<char>, i: int)
    requires
        0 <= i < s.len(),
    ensures
        json::number_end(x + s, x.len() + i) == further(json::number_end(s, i), x.len() as int),
        json::number_end(s, i) is Some ==> i < json::number_end(s, i)->0,
{
    let t = x + s;
    let n = x.len() as int;
    assert forall|k: int| 0 <= k < s.len() implies #[trigger] s[k] == t[n + k] by {}
    assert(t[n + i] == s[i]);
    let start = if s[i] == '-' {
        i + 1
    } else {
        i
    };
    digits_move(x, s, start);
    if start < s.len() {
        assert(t[n + start] == s[start]);
    }
    match json::whole_end(s, start) {
        Some(whole) => {
            assert(json::whole_end(t, n + start) == Some(n + whole));
            fractions_move(x, s, whole);
        },
        None => {
            assert(json::whole_end(t, n + start) is None);
        },
    }
}

proof fn fractions_move(x: Seq<char>, s: Seq<char>, i: int)
    requires
        0 <= i,
    ensures
        json::fraction_end(x + s, x.len() + i) == further(json::fraction_end(s, i), x.len() as int),
        json::fraction_end(s, i) is Some ==> json::exponent_end(
            x + s,
            x.len() + json::fraction_end(s, i)->0,
        ) == further(json::exponent_end(s, json::fraction_end(s, i)->0), x.len() as int),
        json::fraction_end(s, i) is Some ==> i <= json::fraction_end(s, i)->0,
        json::fraction_end(s, i) is Some && json::exponent_end(
            s,
            json::fraction_end(s, i)->0,
        ) is Some ==> i <= json::exponent_end(s, json::fraction_end(s, i)->0)->0,
{
    let t = x + s;
    let n = x.len() as int;
    digits_move(x, s, i + 1);
    if i < s.len() {
        assert(t[n + i] == s[i]);
    }
    match json::fraction_end(s, i) {
        Some(e) => {
            assert(0 <= e);
            digits_move(x, s, e + 1);
            digits_move(x, s, e + 2);
            if e < s.len() {
                assert(t[n + e] == s[e]);
            }
            if e + 1 < s.len() {
                assert(t[n + e + 1] == s[e + 1]);
            }
        },
        None => {},
    }
}

proof fn strings_move(x: Seq<char>, s: Seq<char>, i: int)
    requires
        0 <= i,
    ensures
        json::string_end(x + s, x.len() + i) == further(json::string_end(s, i), x.len() as int),
        json::string_end(s, i) is Some ==> i < json::string_end(s, i)->0 <= s.len(),
    decreases s.len() - i,
{
    let t = x + s;
    let n = x.len() as int;
    if i < s.len() {
        assert(t[n + i] == s[i]);
        if s[i] == '\\' {
            if i + 1 < s.len() {
                assert(t[n + i + 1] == s[i + 1]);
            }
            if i + 5 < s.len() {
                assert(t[n + i + 2] == s[i + 2]);
                assert(t[n + i + 3] == s[i + 3]);
                assert(t[n + i + 4] == s[i + 4]);
                assert(t[n + i + 5] == s[i + 5]);
            }
            if i + 1 < s.len() {
                strings_move(x, s, i + 2);
            }
            if i + 5 < s.len() {
                strings_move(x, s, i + 6);
            }
        } else if s[i] != '"' {
            strings_move(x, s, i + 1);
        }
    }
}

proof fn words_move(x: Seq<char>, s: Seq<char>, i: int)
    requires
        0 <= i,
    ensures
        json::word_end(x + s, x.len() + i) == further(json::word_end(s, i), x.len() as int),
        json::word_end(s, i) is Some ==> i < json::word_end(s, i)->0,
{
    a_word_moves(x, s, i, "true"@);
    a_word_moves(x, s, i, "false"@);
    a_word_moves(x, s, i, "null"@);
}

proof fn a_word_moves(x: Seq<char>, s: Seq<char>, i: int, word: Seq<char>)
    requires
        0 <= i,
    ensures
        json::has_word(x + s, x.len() + i, word) == json::has_word(s, i, word),
{
    if i + word.len() <= s.len() {
        assert((x + s).subrange(x.len() + i, x.len() + i + word.len()) =~= s.subrange(
            i,
            i + word.len(),
        ));
    }
}

proof fn names_move(x: Seq<char>, s: Seq<char>, i: int)
    requires
        0 <= i,
    ensures
        json::name_end(x + s, x.len() + i) == further(json::name_end(s, i), x.len() as int),
{
    let t = x + s;
    let n = x.len() as int;
    space_moves(x, s, i);
    let at = json::past_space(s, i);
    if at < s.len() {
        assert(t[n + at] == s[at]);
        strings_move(x, s, at + 1);
        if json::string_end(s, at + 1) is Some {
            let end = json::string_end(s, at + 1)->0;
            space_moves(x, s, end);
            let colon = json::past_space(s, end);
            if colon < s.len() {
                assert(t[n + colon] == s[colon]);
            }
        }
    }
}

proof fn values_move(x: Seq<char>, s: Seq<char>, i: int, depth: nat)
    requires
        0 <= i,
    ensures
        json::value_end(x + s, x.len() + i, depth) == further(
            json::value_end(s, i, depth),
            x.len() as int,
        ),
        json::value_end(s, i, depth) is Some ==> i < json::value_end(s, i, depth)->0,
    decreases depth, s.len() - i + 1, 0int,
{
    let t = x + s;
    let n = x.len() as int;
    space_moves(x, s, i);
    let at = json::past_space(s, i);
    if i <= at < s.len() {
        assert(t[n + at] == s[at]);
        if s[at] == '"' {
            strings_move(x, s, at + 1);
        } else if s[at] == '{' || s[at] == '[' {
            if depth > 0 {
                space_moves(x, s, at + 1);
                let first = json::past_space(s, at + 1);
                if first < s.len() {
                    assert(t[n + first] == s[first]);
                }
                members_move(x, s, at + 1, s[at] == '{', (depth - 1) as nat);
            }
        } else if s[at] == '-' || json::is_digit(s[at]) {
            numbers_move(x, s, at);
        } else {
            words_move(x, s, at);
        }
    }
}

proof fn members_move(x: Seq<char>, s: Seq<char>, i: int, object: bool, depth: nat)
    requires
        0 <= i,
    ensures
        json::members_end(x + s, x.len() + i, object, depth) == further(
            json::members_end(s, i, object, depth),
            x.len() as int,
        ),
        json::members_end(s, i, object, depth) is Some ==> i < json::members_end(
            s,
            i,
            object,
            depth,
        )->0,
    decreases depth, s.len() - i + 1, 1int,
{
    let t = x + s;
    let n = x.len() as int;
    names_move(x, s, i);
    let start = if object {
        json::name_end(s, i)
    } else {
        Some(i)
    };
    if start is Some && i <= start->0 <= s.len() {
        let from = start->0;
        values_move(x, s, from, depth);
        if json::value_end(s, from, depth) is Some {
            let end = json::value_end(s, from, depth)->0;
            if end >= 0 {
                space_moves(x, s, end);
                let next = json::past_space(s, end);
                if i < next < s.len() {
                    assert(t[n + next] == s[next]);
                    if s[next] == ',' {
                        members_move(x, s, next + 1, object, depth);
                    }
                }
            }
        }
    }
}

// ── What stands behind a value ──────────────────────────────────────────────

/// Whether a text begins with what may stand behind a member.
pub open spec fn ends_a_member(y: Seq<char>) -> bool {
    y.len() > 0 && (y[0] == ',' || y[0] == ']' || y[0] == '}')
}

proof fn space_stops(s: Seq<char>, y: Seq<char>, i: int)
    requires
        ends_a_member(y),
        0 <= i <= s.len(),
    ensures
        json::past_space(s + y, i) == json::past_space(s, i),
        i <= json::past_space(s, i) <= s.len(),
    decreases s.len() - i,
{
    if i < s.len() {
        assert((s + y)[i] == s[i]);
        if json::is_space(s[i]) {
            space_stops(s, y, i + 1);
        }
    } else {
        assert((s + y)[i] == y[0]);
    }
}

proof fn digits_stop(s: Seq<char>, y: Seq<char>, i: int)
    requires
        ends_a_member(y),
        0 <= i <= s.len(),
    ensures
        json::past_digits(s + y, i) == json::past_digits(s, i),
        i <= json::past_digits(s, i) <= s.len(),
    decreases s.len() - i,
{
    if i < s.len() {
        assert((s + y)[i] == s[i]);
        if json::is_digit(s[i]) {
            digits_stop(s, y, i + 1);
        }
    } else {
        assert((s + y)[i] == y[0]);
    }
}

proof fn numbers_stop(s: Seq<char>, y: Seq<char>, i: int)
    requires
        ends_a_member(y),
        0 <= i < s.len(),
    ensures
        json::number_end(s + y, i) == json::number_end(s, i),
        json::number_end(s, i) is Some ==> json::number_end(s, i)->0 <= s.len(),
{
    let t = s + y;
    assert(t[i] == s[i]);
    assert(t[s.len() as int] == y[0]);
    let start = if s[i] == '-' {
        i + 1
    } else {
        i
    };
    digits_stop(s, y, start);
    if start < s.len() {
        assert(t[start] == s[start]);
    }
    assert(json::whole_end(t, start) == json::whole_end(s, start));
    if json::whole_end(s, start) is Some {
        let whole = json::whole_end(s, start)->0;
        if whole < s.len() {
            assert(t[whole] == s[whole]);
            digits_stop(s, y, whole + 1);
        }
        assert(json::fraction_end(t, whole) == json::fraction_end(s, whole));
        if json::fraction_end(s, whole) is Some {
            let e = json::fraction_end(s, whole)->0;
            if e < s.len() {
                assert(t[e] == s[e]);
                digits_stop(s, y, e + 1);
                if e + 1 < s.len() {
                    assert(t[e + 1] == s[e + 1]);
                    digits_stop(s, y, e + 2);
                }
            }
            assert(json::exponent_end(t, e) == json::exponent_end(s, e));
        }
    }
}

proof fn strings_stop(s: Seq<char>, y: Seq<char>, i: int)
    requires
        0 <= i,
        json::string_end(s, i) is Some,
    ensures
        json::string_end(s + y, i) == json::string_end(s, i),
        json::string_end(s, i)->0 <= s.len(),
    decreases s.len() - i,
{
    let t = s + y;
    assert(t[i] == s[i]);
    if s[i] == '\\' {
        assert(t[i + 1] == s[i + 1]);
        if json::is_escape(s[i + 1]) {
            strings_stop(s, y, i + 2);
        } else {
            assert(t[i + 2] == s[i + 2]);
            assert(t[i + 3] == s[i + 3]);
            assert(t[i + 4] == s[i + 4]);
            assert(t[i + 5] == s[i + 5]);
            strings_stop(s, y, i + 6);
        }
    } else if s[i] != '"' {
        strings_stop(s, y, i + 1);
    }
}

proof fn words_stop(s: Seq<char>, y: Seq<char>, i: int)
    requires
        0 <= i,
        json::word_end(s, i) is Some,
    ensures
        json::word_end(s + y, i) == json::word_end(s, i),
        json::word_end(s, i)->0 <= s.len(),
{
    reveal_strlit("true");
    reveal_strlit("false");
    reveal_strlit("null");
    a_word_stops(s, y, i, "true"@);
    a_word_stops(s, y, i, "false"@);
    a_word_stops(s, y, i, "null"@);
}

proof fn a_word_stops(s: Seq<char>, y: Seq<char>, i: int, word: Seq<char>)
    requires
        0 <= i,
        word.len() > 0,
    ensures
        json::has_word(s, i, word) ==> json::has_word(s + y, i, word) && s[i] == word[0] && i
            + word.len() <= s.len(),
        json::has_word(s + y, i, word) ==> (s + y)[i] == word[0],
{
    let t = s + y;
    if json::has_word(s, i, word) {
        assert(t.subrange(i, i + word.len()) =~= s.subrange(i, i + word.len()));
        assert(s.subrange(i, i + word.len())[0] == s[i]);
    }
    if json::has_word(t, i, word) {
        assert(t.subrange(i, i + word.len())[0] == t[i]);
    }
}

proof fn names_stop(s: Seq<char>, y: Seq<char>, i: int)
    requires
        ends_a_member(y),
        0 <= i <= s.len(),
        json::name_end(s, i) is Some,
    ensures
        json::name_end(s + y, i) == json::name_end(s, i),
        json::name_end(s, i)->0 <= s.len(),
{
    let t = s + y;
    space_stops(s, y, i);
    let at = json::past_space(s, i);
    assert(t[at] == s[at]);
    strings_stop(s, y, at + 1);
    let end = json::string_end(s, at + 1)->0;
    strings_move(Seq::empty(), s, at + 1);
    space_stops(s, y, end);
    let colon = json::past_space(s, end);
    assert(t[colon] == s[colon]);
}

proof fn values_stop(s: Seq<char>, y: Seq<char>, i: int, depth: nat)
    requires
        ends_a_member(y),
        0 <= i <= s.len(),
        json::value_end(s, i, depth) is Some,
    ensures
        json::value_end(s + y, i, depth) == json::value_end(s, i, depth),
        i < json::value_end(s, i, depth)->0 <= s.len(),
    decreases depth, s.len() - i + 1, 0int,
{
    let t = s + y;
    values_move(Seq::empty(), s, i, depth);
    space_stops(s, y, i);
    let at = json::past_space(s, i);
    assert(t[at] == s[at]);
    if s[at] == '"' {
        strings_stop(s, y, at + 1);
    } else if s[at] == '{' || s[at] == '[' {
        space_stops(s, y, at + 1);
        let first = json::past_space(s, at + 1);
        let object = s[at] == '{';
        if first < s.len() {
            assert(t[first] == s[first]);
            if s[first] != (if object {
                '}'
            } else {
                ']'
            }) {
                members_stop(s, y, at + 1, object, (depth - 1) as nat);
            }
        } else {
            assert(json::name_end(s, at + 1) is None);
            assert(json::value_end(s, at + 1, (depth - 1) as nat) is None);
            assert(json::members_end(s, at + 1, object, (depth - 1) as nat) is None);
        }
    } else if s[at] == '-' || json::is_digit(s[at]) {
        numbers_stop(s, y, at);
    } else {
        words_stop(s, y, at);
    }
}

proof fn members_stop(s: Seq<char>, y: Seq<char>, i: int, object: bool, depth: nat)
    requires
        ends_a_member(y),
        0 <= i <= s.len(),
        json::members_end(s, i, object, depth) is Some,
    ensures
        json::members_end(s + y, i, object, depth) == json::members_end(s, i, object, depth),
        json::members_end(s, i, object, depth)->0 <= s.len(),
    decreases depth, s.len() - i + 1, 1int,
{
    let t = s + y;
    if object {
        names_stop(s, y, i);
    }
    let from = if object {
        json::name_end(s, i)->0
    } else {
        i
    };
    values_stop(s, y, from, depth);
    let end = json::value_end(s, from, depth)->0;
    space_stops(s, y, end);
    let next = json::past_space(s, end);
    assert(t[next] == s[next]);
    if s[next] == ',' {
        members_stop(s, y, next + 1, object, depth);
    }
}

/// Whether a text is one value with white space around it at most, so deeply
/// nested at most.
pub open spec fn is_value(v: Seq<char>, depth: nat) -> bool {
    json::value_end(v, 0, depth) is Some && json::past_space(
        v,
        json::value_end(v, 0, depth)->0,
    ) == v.len()
}

/// A value between brackets is JSON.
pub proof fn a_value_between_brackets_is_json(v: Seq<char>)
    requires
        is_value(v, 127),
    ensures
        json::is_json(seq!['['] + v + seq![']']),
{
    a_first_member_is_met(v, seq![']']);
    assert(seq!['['] + v + seq![']'] =~= seq!['['] + (v + seq![']']));
}

/// So are two with a comma between them.
pub proof fn values_with_a_comma_between_are_json(v: Seq<char>, w: Seq<char>)
    requires
        is_value(v, 127),
        is_value(w, 127),
    ensures
        json::is_json(seq!['['] + v + seq![','] + w + seq![']']),
{
    let two = seq!['['] + v + seq![','] + w + seq![']'];
    let behind = seq![','] + w + seq![']'];
    assert(two =~= seq!['['] + (v + behind));
    a_first_member_is_met(v, behind);
    let x = seq!['['] + v + seq![','];
    assert(two =~= x + (w + seq![']']));
    the_last_member_is_met(x, w);
}

proof fn the_last_member_is_met(x: Seq<char>, w: Seq<char>)
    requires
        is_value(w, 127),
    ensures
        ({
            let s = x + (w + seq![']']);
            json::members_end(s, x.len() as int, false, 127) == Some(s.len() as int)
        }),
{
    let y = seq![']'];
    let s = x + (w + y);
    values_stop(w, y, 0, 127);
    values_move(x, w + y, 0, 127);
    let end = json::value_end(w, 0, 127)->0;
    space_stops(w, y, end);
    space_moves(x, w + y, end);
    assert(s[x.len() as int + w.len()] == ']');
    assert(json::value_end(s, x.len() as int, 127) == Some(x.len() + end));
    assert(json::past_space(s, x.len() + end) == x.len() + w.len());
}

/// A value behind a name and a colon, between braces, is JSON.
pub proof fn a_named_value_between_braces_is_json(name: Seq<char>, v: Seq<char>)
    requires
        forall|i: int| 0 <= i < name.len() ==> stands_for_itself(#[trigger] name[i]),
        is_value(v, 127),
    ensures
        json::is_json(seq!['{', '"'] + name + seq!['"', ':'] + v + seq!['}']),
{
    let y = seq!['}'];
    let x = seq!['{', '"'] + name + seq!['"', ':'];
    let s = x + (v + y);
    let n = name.len() as int + 2;
    assert(s =~= seq!['{', '"'] + name + seq!['"', ':'] + v + y);
    assert(s[0] == '{' && s[1] == '"' && s[n] == '"' && s[n + 1] == ':');
    assert forall|k: int| 2 <= k < n implies stands_for_itself(#[trigger] s[k]) by {
        assert(s[k] == name[k - 2]);
    }
    a_string_is_walked(s, 2, n);
    assert(json::past_space(s, 0) == 0);
    assert(json::past_space(s, 1) == 1);
    assert(json::past_space(s, n + 1) == n + 1);
    assert(json::name_end(s, 1) == Some(x.len() as int));
    values_stop(v, y, 0, 127);
    values_move(x, v + y, 0, 127);
    let end = json::value_end(v, 0, 127)->0;
    space_stops(v, y, end);
    space_moves(x, v + y, end);
    assert(s[x.len() as int + v.len()] == '}');
    assert(json::value_end(s, x.len() as int, 127) == Some(x.len() + end));
    assert(json::past_space(s, x.len() + end) == x.len() + v.len());
    assert(json::members_end(s, 1, true, 127) == Some(s.len() as int));
    assert(json::value_end(s, 0, 128) == Some(s.len() as int));
}

/// No comma may stand behind the last value.
pub proof fn a_comma_behind_the_last_value_is_wrong(v: Seq<char>)
    requires
        is_value(v, 127),
    ensures
        !json::is_json(seq!['['] + v + seq![',', ']']),
{
    let s = seq!['['] + v + seq![',', ']'];
    let n = v.len() as int + 2;
    assert(s =~= seq!['['] + (v + seq![',', ']']));
    a_first_member_is_met(v, seq![',', ']']);
    assert(s[n] == ']');
    assert(json::past_space(s, n) == n);
    no_value_starts_with_a_bracket(s, n);
    assert(json::value_end(s, n, 127) is None);
    assert(json::members_end(s, n, false, 127) is None);
}

proof fn a_value_is_no_bracket(v: Seq<char>, depth: nat)
    requires
        json::value_end(v, 0, depth) is Some,
    ensures
        0 <= json::past_space(v, 0) < v.len(),
        v[json::past_space(v, 0)] != ']',
{
    let at = json::past_space(v, 0);
    if at < v.len() && v[at] == ']' {
        no_value_starts_with_a_bracket(v, 0);
    }
}

proof fn no_value_starts_with_a_bracket(s: Seq<char>, i: int)
    requires
        0 <= i <= json::past_space(s, i) < s.len(),
        s[json::past_space(s, i)] == ']',
    ensures
        forall|depth: nat| json::value_end(s, i, depth) is None,
{
    reveal_strlit("true");
    reveal_strlit("false");
    reveal_strlit("null");
    let at = json::past_space(s, i);
    a_word_stops(s, Seq::empty(), at, "true"@);
    a_word_stops(s, Seq::empty(), at, "false"@);
    a_word_stops(s, Seq::empty(), at, "null"@);
}

/// The first member of an array is met, and then what stands behind it.
proof fn a_first_member_is_met(v: Seq<char>, y: Seq<char>)
    requires
        is_value(v, 127),
        ends_a_member(y),
        y[0] != '}',
    ensures
        ({
            let s = seq!['['] + (v + y);
            let n = v.len() as int + 1;
            &&& s[n] == y[0]
            &&& y[0] == ']' ==> json::value_end(s, 0, 128) == Some(n + 1)
            &&& y[0] == ',' ==> json::value_end(s, 0, 128) == json::members_end(
                s,
                n + 1,
                false,
                127,
            )
        }),
{
    let x = seq!['['];
    let s = x + (v + y);
    let end = json::value_end(v, 0, 127)->0;
    values_stop(v, y, 0, 127);
    values_move(x, v + y, 0, 127);
    space_stops(v, y, end);
    space_moves(x, v + y, end);
    space_stops(v, y, 0);
    space_moves(x, v + y, 0);
    a_value_is_no_bracket(v, 127);
    let first = json::past_space(v, 0);
    assert(s[0] == '[');
    assert(s[first + 1] == v[first]);
    assert(s[v.len() as int + 1] == y[0]);
    assert(json::past_space(s, 0) == 0);
    assert(json::past_space(s, 1) == first + 1);
    assert(json::value_end(s, 1, 127) == Some(end + 1));
}

/// White space in front of a text changes nothing of whether it is JSON.
pub proof fn space_in_front_is_no_matter(s: Seq<char>, blank: char)
    requires
        blank == ' ' || blank == '\t' || blank == '\n' || blank == '\r',
    ensures
        json::is_json(seq![blank] + s) <==> json::is_json(s),
        json::looks_like_json(seq![blank] + s) <==> json::looks_like_json(s),
{
    let x = seq![blank];
    let t = x + s;
    let depth = json::MAX_DEPTH as nat;
    assert(t[0] == blank);
    space_moves(x, s, 0);
    values_move(x, s, 0, depth);
    assert(json::past_space(t, 0) == json::past_space(t, 1));
    assert(json::value_end(t, 0, depth) == json::value_end(t, 1, depth));
    if json::value_end(s, 0, depth) is Some {
        space_moves(x, s, json::value_end(s, 0, depth)->0);
    }
    let at = json::past_space(s, 0);
    if at < s.len() {
        assert(t[at + 1] == s[at]);
    }
}

} // verus!
