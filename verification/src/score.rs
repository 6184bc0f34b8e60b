//! Sorted-set scores, kept as the decimal literals they are read and written
//! as.

use vstd::prelude::*;

use crate::text;

verus! {

pub open spec fn is_digit(c: char) -> bool {
    '0' <= c <= '9'
}

/// How many digits `s` starts with.
pub open spec fn leading_digits(s: Seq<char>) -> nat
    decreases s.len(),
{
    if s.len() > 0 && is_digit(s[0]) {
        1 + leading_digits(s.skip(1))
    } else {
        0
    }
}

/// `s` without one sign in front.
pub open spec fn unsigned(s: Seq<char>) -> Seq<char> {
    if s.len() > 0 && (s[0] == '+' || s[0] == '-') {
        s.skip(1)
    } else {
        s
    }
}

/// Whether `s` spells `word`, which is in lower case, in either case.
pub open spec fn spells(s: Seq<char>, word: Seq<char>) -> bool {
    s.len() == word.len() && forall|i: int|
        0 <= i < s.len() ==> text::lower(#[trigger] s[i]) == word[i] as int
}

/// Digits with at most one point among them, and at least one digit: how far
/// they reach into `s`, if it starts with such a number at all.
pub open spec fn mantissa_end(s: Seq<char>) -> Option<nat> {
    let whole = leading_digits(s);
    if whole < s.len() && s[whole as int] == '.' {
        let part = leading_digits(s.skip(whole as int + 1));
        if whole + part > 0 {
            Some(whole + 1 + part)
        } else {
            None
        }
    } else if whole > 0 {
        Some(whole)
    } else {
        None
    }
}

/// `e` or `E`, a sign or none, and digits.
pub open spec fn is_exponent(s: Seq<char>) -> bool {
    s.len() > 0 && (s[0] == 'e' || s[0] == 'E') && {
        let power = unsigned(s.skip(1));
        power.len() > 0 && leading_digits(power) == power.len()
    }
}

/// A decimal number without a sign.
pub open spec fn is_number(s: Seq<char>) -> bool {
    mantissa_end(s) matches Some(end) && (end == s.len() || is_exponent(s.skip(end as int)))
}

/// An infinity, with a sign or none.
pub open spec fn is_infinity(s: Seq<char>) -> bool {
    spells(unsigned(s), "inf"@) || spells(unsigned(s), "infinity"@)
}

/// What a score may be written as: a decimal number or an infinity, with a
/// sign or none. `nan` is no score.
pub open spec fn is_score(s: Seq<char>) -> bool {
    is_number(unsigned(s)) || is_infinity(s)
}

proof fn leading_digits_bound(s: Seq<char>)
    ensures
        leading_digits(s) <= s.len(),
    decreases s.len(),
{
    if s.len() > 0 && is_digit(s[0]) {
        leading_digits_bound(s.skip(1));
    }
}

fn skip_digits(s: &Vec<char>, from: usize) -> (end: usize)
    requires
        from <= s@.len(),
    ensures
        end == from + leading_digits(s@.skip(from as int)),
        end <= s@.len(),
{
    let mut i: usize = from;
    while i < s.len() && '0' <= s[i] && s[i] <= '9'
        invariant
            from <= i <= s@.len(),
            i + leading_digits(s@.skip(i as int)) == from + leading_digits(s@.skip(from as int)),
        decreases s@.len() - i,
    {
        assert(s@.skip(i as int).skip(1) =~= s@.skip(i + 1));
        i = i + 1;
    }
    assert(leading_digits(s@.skip(i as int)) == 0);
    i
}

fn skip_sign(s: &Vec<char>, from: usize) -> (end: usize)
    requires
        from <= s@.len(),
    ensures
        from <= end <= s@.len(),
        s@.skip(end as int) == unsigned(s@.skip(from as int)),
{
    if from < s.len() && (s[from] == '+' || s[from] == '-') {
        assert(s@.skip(from as int).skip(1) =~= s@.skip(from + 1));
        from + 1
    } else {
        from
    }
}

fn number_at(s: &Vec<char>, from: usize) -> (r: bool)
    requires
        from <= s@.len(),
    ensures
        r == is_number(s@.skip(from as int)),
{
    let ghost value = s@.skip(from as int);
    proof {
        leading_digits_bound(value);
    }
    let whole_end: usize = skip_digits(s, from);
    let mut end: usize = whole_end;
    let mut digits: usize = whole_end - from;
    if whole_end < s.len() && s[whole_end] == '.' {
        end = skip_digits(s, whole_end + 1);
        assert(value.skip(whole_end - from + 1) =~= s@.skip(whole_end + 1));
        if end > whole_end + 1 {
            digits = 1;
        }
    }
    if digits == 0 {
        return false;
    }
    assert(mantissa_end(value) == Some((end - from) as nat));
    assert(value.skip(end - from) =~= s@.skip(end as int));
    if end == s.len() {
        return true;
    }
    if s[end] != 'e' && s[end] != 'E' {
        return false;
    }
    assert(s@.skip(end as int).skip(1) =~= s@.skip(end + 1));
    let power: usize = skip_sign(s, end + 1);
    proof {
        leading_digits_bound(s@.skip(power as int));
    }
    let last: usize = skip_digits(s, power);
    last == s.len() && last > power
}

fn spells_at(s: &Vec<char>, from: usize, word: &str) -> (r: bool)
    requires
        from <= s@.len(),
    ensures
        r == spells(s@.skip(from as int), word@),
{
    let letters = text::chars_of(word);
    let ghost value = s@.skip(from as int);
    let n: usize = s.len();
    if n - from != letters.len() {
        return false;
    }
    let mut i: usize = 0;
    while i < letters.len()
        invariant
            n == s@.len(),
            from <= s@.len(),
            i <= letters@.len(),
            letters@ == word@,
            value == s@.skip(from as int),
            value.len() == word@.len(),
            from + word@.len() == s@.len(),
            forall|j: int| 0 <= j < i ==> text::lower(#[trigger] value[j]) == word@[j] as int,
        decreases letters@.len() - i,
    {
        let c = s[from + i];
        assert(value[i as int] == c);
        if text::lower_code(c) != text::code(letters[i]) {
            assert(text::lower(value[i as int]) != word@[i as int] as int);
            return false;
        }
        i = i + 1;
    }
    true
}

/// Whether `text` is a score that may be written to the server.
pub fn is_valid_zset_score(text: &str) -> (valid: bool)
    ensures
        valid == is_score(text@),
{
    let s = text::chars_of(text);
    assert(s@.skip(0) =~= s@);
    let from: usize = skip_sign(&s, 0);
    number_at(&s, from) || spells_at(&s, from, "inf") || spells_at(&s, from, "infinity")
}

/// A score, by the literal it was read or typed as.
#[derive(Clone, Debug, PartialEq, Eq)]
pub struct Score {
    literal: String,
}

impl View for Score {
    type V = Seq<char>;

    closed spec fn view(&self) -> Seq<char> {
        self.literal@
    }
}

impl Score {
    /// The score that `literal` is, if it is one.
    pub fn parse(literal: &str) -> (score: Option<Score>)
        ensures
            score is Some <==> is_score(literal@),
            score is Some ==> score->0@ == literal@,
    {
        if is_valid_zset_score(literal) {
            Some(Score { literal: text::owned(literal) })
        } else {
            None
        }
    }

    pub fn literal(&self) -> (literal: &str)
        ensures
            literal@ == self@,
    {
        self.literal.as_str()
    }

    /// Whether the score is written as an infinity.
    pub fn is_infinite(&self) -> (infinite: bool)
        ensures
            infinite == is_infinity(self@),
    {
        let s = text::chars_of(self.literal.as_str());
        assert(s@.skip(0) =~= s@);
        let from: usize = skip_sign(&s, 0);
        spells_at(&s, from, "inf") || spells_at(&s, from, "infinity")
    }

    /// Whether two scores are written the same.
    pub fn is(&self, other: &Score) -> (same: bool)
        ensures
            same == (self@ == other@),
    {
        self.literal == other.literal
    }

    /// Another copy of this score.
    pub fn copy(&self) -> (score: Score)
        ensures
            score@ == self@,
    {
        Score { literal: self.literal.clone() }
    }
}

} // verus!
