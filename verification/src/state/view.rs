//! The flat list: which keys of the Loaded set are shown, and in what order.

use vstd::prelude::*;
use vstd::relations::*;

use crate::state::loaded::{KeyKind, LoadedSet, LoadedView};
use crate::text;

verus! {

#[derive(Clone, Copy, Debug, PartialEq, Eq, Structural)]
pub enum SortBy {
    Scan,
    Name,
    Ttl,
    Size,
    Kind,
}

impl SortBy {
    /// The order that `s` cycles to.
    pub open spec fn after(self) -> SortBy {
        match self {
            SortBy::Scan => SortBy::Name,
            SortBy::Name => SortBy::Ttl,
            SortBy::Ttl => SortBy::Size,
            SortBy::Size => SortBy::Kind,
            SortBy::Kind => SortBy::Scan,
        }
    }

    pub fn next(self) -> (next: SortBy)
        ensures
            next == self.after(),
    {
        match self {
            SortBy::Scan => SortBy::Name,
            SortBy::Name => SortBy::Ttl,
            SortBy::Ttl => SortBy::Size,
            SortBy::Size => SortBy::Kind,
            SortBy::Kind => SortBy::Scan,
        }
    }
}

#[derive(Clone, Copy, Debug, PartialEq, Eq, Structural)]
pub enum FilterMode {
    Glob,
    Fuzzy,
}

// ── Which keys match ────────────────────────────────────────────────────────

/// Whether the bytes of `pattern` occur in `name` in this order, with anything
/// between them.
pub open spec fn in_order(pattern: Seq<u8>, name: Seq<u8>) -> bool
    decreases name.len(),
{
    if pattern.len() == 0 {
        true
    } else if name.len() == 0 {
        false
    } else if pattern[0] == name[0] {
        in_order(pattern.skip(1), name.skip(1))
    } else {
        in_order(pattern, name.skip(1))
    }
}

/// Whether `name` fits `pattern`, in which `*` stands for any bytes and `?` for
/// any one.
pub open spec fn glob(pattern: Seq<u8>, name: Seq<u8>) -> bool
    decreases pattern.len(), name.len(),
{
    if pattern.len() == 0 {
        name.len() == 0
    } else if pattern[0] == 42 {
        glob(pattern.skip(1), name) || (name.len() > 0 && glob(pattern, name.skip(1)))
    } else {
        name.len() > 0 && (pattern[0] == 63 || pattern[0] == name[0]) && glob(
            pattern.skip(1),
            name.skip(1),
        )
    }
}

/// Whether `part` stands somewhere in `name`.
pub open spec fn occurs_in(part: Seq<u8>, name: Seq<u8>) -> bool {
    exists|at: int| occurs_at(part, name, at)
}

pub open spec fn occurs_at(part: Seq<u8>, name: Seq<u8>, at: int) -> bool {
    0 <= at && at + part.len() <= name.len() && name.subrange(at, at + part.len()) == part
}

pub open spec fn has_wildcard(pattern: Seq<u8>) -> bool {
    exists|i: int| 0 <= i < pattern.len() && (#[trigger] pattern[i] == 42 || pattern[i] == 63)
}

/// Whether a key passes the filter. A pattern with a wildcard describes the
/// whole name, one without only a part of it.
pub open spec fn passes(mode: FilterMode, pattern: Seq<u8>, name: Seq<u8>) -> bool {
    match mode {
        FilterMode::Fuzzy => in_order(pattern, name),
        FilterMode::Glob => if has_wildcard(pattern) {
            glob(pattern, name)
        } else {
            occurs_in(pattern, name)
        },
    }
}

fn fuzzy_match(pattern: &[u8], name: &[u8]) -> (r: bool)
    ensures
        r == in_order(pattern@, name@),
{
    let mut i: usize = 0;
    let mut j: usize = 0;
    assert(pattern@.skip(0) =~= pattern@);
    assert(name@.skip(0) =~= name@);
    while i < pattern.len() && j < name.len()
        invariant
            i <= pattern@.len(),
            j <= name@.len(),
            in_order(pattern@.skip(i as int), name@.skip(j as int)) == in_order(pattern@, name@),
        decreases name@.len() - j,
    {
        assert(pattern@.skip(i as int).skip(1) =~= pattern@.skip(i + 1));
        assert(name@.skip(j as int).skip(1) =~= name@.skip(j + 1));
        if pattern[i] == name[j] {
            i = i + 1;
        }
        j = j + 1;
    }
    i == pattern.len()
}

fn glob_match(pattern: &[u8], name: &[u8]) -> (r: bool)
    ensures
        r == glob(pattern@, name@),
{
    let n: usize = name.len();
    let mut i: usize = pattern.len();
    // `row[j]` tells whether the rest of the pattern fits the name from `j` on.
    let mut row: Vec<bool> = Vec::new();
    let mut k: usize = 0;
    while k < n
        invariant
            k <= n,
            n == name@.len(),
            row@.len() == k,
            i == pattern@.len(),
            forall|j: int|
                0 <= j < k ==> #[trigger] row@[j] == glob(pattern@.skip(i as int), name@.skip(j)),
        decreases n - k,
    {
        row.push(false);
        k = k + 1;
    }
    row.push(true);
    while i > 0
        invariant
            n == name@.len(),
            i <= pattern@.len(),
            row@.len() == n + 1,
            forall|j: int|
                0 <= j <= n ==> #[trigger] row@[j] == glob(pattern@.skip(i as int), name@.skip(j)),
        decreases i,
    {
        i = i - 1;
        let c: u8 = pattern[i];
        let ghost rest = pattern@.skip(i as int);
        assert(rest.skip(1) =~= pattern@.skip(i + 1));
        let mut after: bool = row[n];
        row.set(n, c == 42 && after);
        let mut j: usize = n;
        while j > 0
            invariant
                n == name@.len(),
                i < pattern@.len(),
                c == pattern@[i as int],
                rest == pattern@.skip(i as int),
                j <= n,
                row@.len() == n + 1,
                after == glob(rest.skip(1), name@.skip(j as int)),
                forall|m: int|
                    0 <= m < j ==> #[trigger] row@[m] == glob(rest.skip(1), name@.skip(m)),
                forall|m: int| j <= m <= n ==> #[trigger] row@[m] == glob(rest, name@.skip(m)),
            decreases j,
        {
            j = j - 1;
            assert(name@.skip(j as int).skip(1) =~= name@.skip(j + 1));
            let here: bool = row[j];
            let fits: bool = if c == 42 {
                here || row[j + 1]
            } else {
                (c == 63 || c == name[j]) && after
            };
            row.set(j, fits);
            after = here;
        }
    }
    assert(pattern@.skip(0) =~= pattern@);
    assert(name@.skip(0) =~= name@);
    row[0]
}

fn stands_at(part: &[u8], name: &[u8], at: usize) -> (r: bool)
    requires
        at + part@.len() <= name@.len(),
    ensures
        r == occurs_at(part@, name@, at as int),
{
    let ghost there = name@.subrange(at as int, at + part@.len());
    let total: usize = name.len();
    let mut i: usize = 0;
    while i < part.len()
        invariant
            i <= part@.len(),
            total == name@.len(),
            at + part@.len() <= total,
            there == name@.subrange(at as int, at + part@.len()),
            forall|j: int| 0 <= j < i ==> there[j] == part@[j],
        decreases part@.len() - i,
    {
        if part[i] != name[at + i] {
            assert(there[i as int] != part@[i as int]);
            return false;
        }
        i = i + 1;
    }
    assert(there =~= part@);
    true
}

fn substring_match(part: &[u8], name: &[u8]) -> (r: bool)
    ensures
        r == occurs_in(part@, name@),
{
    if part.len() > name.len() {
        return false;
    }
    let last: usize = name.len() - part.len();
    let mut at: usize = 0;
    loop
        invariant
            at <= last,
            last + part@.len() == name@.len(),
            forall|k: int| 0 <= k < at ==> !occurs_at(part@, name@, k),
        decreases last - at,
    {
        if stands_at(part, name, at) {
            return true;
        }
        if at == last {
            return false;
        }
        at = at + 1;
    }
}

fn wildcard(pattern: &[u8]) -> (r: bool)
    ensures
        r == has_wildcard(pattern@),
{
    let mut i: usize = 0;
    while i < pattern.len()
        invariant
            i <= pattern@.len(),
            forall|j: int| 0 <= j < i ==> (#[trigger] pattern@[j] != 42 && pattern@[j] != 63),
        decreases pattern@.len() - i,
    {
        if pattern[i] == 42 || pattern[i] == 63 {
            assert(pattern@[i as int] == 42 || pattern@[i as int] == 63);
            return true;
        }
        i = i + 1;
    }
    false
}

/// Whether a key called `name` passes the filter.
pub fn filter_matches(mode: FilterMode, pattern: &[u8], name: &[u8]) -> (r: bool)
    ensures
        r == passes(mode, pattern@, name@),
{
    match mode {
        FilterMode::Fuzzy => fuzzy_match(pattern, name),
        FilterMode::Glob => if wildcard(pattern) {
            glob_match(pattern, name)
        } else {
            substring_match(pattern, name)
        },
    }
}

/// An empty filter lets every key through.
pub proof fn an_empty_filter_passes_everything(mode: FilterMode, name: Seq<u8>)
    ensures
        passes(mode, Seq::empty(), name),
{
    assert(name.subrange(0, 0) =~= Seq::<u8>::empty());
    assert(occurs_at(Seq::empty(), name, 0));
}

// ── In what order ───────────────────────────────────────────────────────────

/// Whether `a` comes before `b` in the order of bytes, or is the same.
pub open spec fn bytes_le(a: Seq<u8>, b: Seq<u8>) -> bool
    decreases a.len(),
{
    if a.len() == 0 {
        true
    } else if b.len() == 0 {
        false
    } else if a[0] == b[0] {
        bytes_le(a.skip(1), b.skip(1))
    } else {
        a[0] < b[0]
    }
}

proof fn bytes_le_total(a: Seq<u8>, b: Seq<u8>)
    ensures
        bytes_le(a, a),
        bytes_le(a, b) || bytes_le(b, a),
    decreases a.len(),
{
    if a.len() > 0 {
        bytes_le_total(a.skip(1), b.skip(1));
    }
}

proof fn bytes_le_transitive(a: Seq<u8>, b: Seq<u8>, c: Seq<u8>)
    requires
        bytes_le(a, b),
        bytes_le(b, c),
    ensures
        bytes_le(a, c),
    decreases a.len(),
{
    if a.len() > 0 && b.len() > 0 && c.len() > 0 && a[0] == b[0] && b[0] == c[0] {
        bytes_le_transitive(a.skip(1), b.skip(1), c.skip(1));
    }
}

/// What stands between two byte strings with the same beginning begins the same.
pub proof fn what_is_between_begins_alike(a: Seq<u8>, b: Seq<u8>, c: Seq<u8>, start: Seq<u8>)
    requires
        bytes_le(a, b),
        bytes_le(b, c),
        start.len() <= a.len() && a.take(start.len() as int) == start,
        start.len() <= c.len() && c.take(start.len() as int) == start,
    ensures
        start.len() <= b.len() && b.take(start.len() as int) == start,
    decreases start.len(),
{
    let n = start.len() as int;
    if n == 0 {
        assert(b.take(0) =~= start);
    } else {
        assert(a[0] == a.take(n)[0]);
        assert(c[0] == c.take(n)[0]);
        assert(a.skip(1).take(n - 1) =~= a.take(n).skip(1));
        assert(c.skip(1).take(n - 1) =~= c.take(n).skip(1));
        what_is_between_begins_alike(a.skip(1), b.skip(1), c.skip(1), start.skip(1));
        assert(b.skip(1).take(n - 1) == start.skip(1));
        assert(b.take(n) =~= start) by {
            assert forall|k: int| 0 <= k < n implies b[k] == start[k] by {
                if k > 0 {
                    assert(b.skip(1).take(n - 1)[k - 1] == start.skip(1)[k - 1]);
                }
            }
        }
    }
}

/// The place of a type in the order of types.
pub open spec fn kind_rank(kind: KeyKind) -> int {
    match kind {
        KeyKind::String => 0,
        KeyKind::Hash => 1,
        KeyKind::List => 2,
        KeyKind::PlainSet => 3,
        KeyKind::ZSet => 4,
        KeyKind::Stream => 5,
        KeyKind::Json => 6,
    }
}

/// The number a key is sorted by: soonest to expire first, largest first, types
/// together. What is not known yet comes last.
pub open spec fn rank(keys: LoadedView, sort: SortBy, i: int) -> int {
    let row = keys.rows[i];
    match sort {
        SortBy::Ttl => match row.ttl {
            Some(ttl) => if ttl >= 0 {
                ttl as int
            } else {
                0x8000_0000
            },
            None => 0x8000_0001,
        },
        SortBy::Size => match row.size {
            Some(size) => -(size as int),
            None => 1,
        },
        SortBy::Kind => match row.kind {
            Some(kind) => kind_rank(kind),
            None => 7,
        },
        SortBy::Scan | SortBy::Name => 0,
    }
}

pub open spec fn name_or_empty(keys: LoadedView, i: int) -> Seq<u8> {
    match keys.name(i) {
        Some(name) => name,
        None => Seq::empty(),
    }
}

/// Whether key `i` may stand before key `j`.
pub open spec fn at_most(keys: LoadedView, sort: SortBy, i: usize, j: usize) -> bool {
    match sort {
        SortBy::Name => bytes_le(name_or_empty(keys, i as int), name_or_empty(keys, j as int)),
        _ => rank(keys, sort, i as int) <= rank(keys, sort, j as int),
    }
}

/// The order of the list: by the sort, and among equals as they were loaded.
pub open spec fn order_by(keys: LoadedView, sort: SortBy) -> spec_fn(usize, usize) -> bool {
    |i: usize, j: usize| at_most(keys, sort, i, j) && (at_most(keys, sort, j, i) ==> i <= j)
}

/// Whether key `i` passes the filter.
pub open spec fn shown(keys: LoadedView, mode: FilterMode, filter: Seq<char>) -> spec_fn(
    usize,
) -> bool {
    |i: usize| passes(mode, vstd::utf8::encode_utf8(filter), name_or_empty(keys, i as int))
}

/// The indices of all keys, as they were loaded.
pub open spec fn all_indices(keys: LoadedView) -> Seq<usize> {
    Seq::new(keys.rows.len(), |i: int| i as usize)
}

/// The list: the keys that pass the filter, in order.
pub open spec fn listed(
    keys: LoadedView,
    mode: FilterMode,
    filter: Seq<char>,
    sort: SortBy,
) -> Seq<usize> {
    all_indices(keys).filter(shown(keys, mode, filter)).sort_by(order_by(keys, sort))
}

proof fn order_is_total(keys: LoadedView, sort: SortBy)
    ensures
        total_ordering(order_by(keys, sort)),
{
    let le = order_by(keys, sort);
    assert forall|i: usize, j: usize| at_most(keys, sort, i, j) || at_most(keys, sort, j, i) by {
        bytes_le_total(name_or_empty(keys, i as int), name_or_empty(keys, j as int));
    }
    assert forall|i: usize, j: usize, k: usize|
        at_most(keys, sort, i, j) && at_most(keys, sort, j, k) implies at_most(
        keys,
        sort,
        i,
        k,
    ) by {
        if sort is Name {
            bytes_le_transitive(
                name_or_empty(keys, i as int),
                name_or_empty(keys, j as int),
                name_or_empty(keys, k as int),
            );
        }
    }
    assert forall|i: usize| #[trigger] le(i, i) by {
        assert(at_most(keys, sort, i, i) || at_most(keys, sort, i, i));
    }
    assert forall|i: usize, j: usize| #[trigger] le(i, j) || #[trigger] le(j, i) by {
        assert(at_most(keys, sort, i, j) || at_most(keys, sort, j, i));
    }
    assert forall|i: usize, j: usize, k: usize|
        #[trigger] le(i, j) && #[trigger] le(j, k) implies le(i, k) by {
        assert(at_most(keys, sort, i, k));
        if at_most(keys, sort, k, i) {
            assert(at_most(keys, sort, k, j));
            assert(at_most(keys, sort, j, i));
        }
    }
}

fn name_at_most(a: &[u8], b: &[u8]) -> (r: bool)
    ensures
        r == bytes_le(a@, b@),
{
    let mut i: usize = 0;
    assert(a@.skip(0) =~= a@);
    assert(b@.skip(0) =~= b@);
    while i < a.len() && i < b.len()
        invariant
            i <= a@.len(),
            i <= b@.len(),
            bytes_le(a@.skip(i as int), b@.skip(i as int)) == bytes_le(a@, b@),
        decreases a@.len() - i,
    {
        if a[i] != b[i] {
            return a[i] < b[i];
        }
        assert(a@.skip(i as int).skip(1) =~= a@.skip(i + 1));
        assert(b@.skip(i as int).skip(1) =~= b@.skip(i + 1));
        i = i + 1;
    }
    i == a.len()
}

fn rank_of(keys: &LoadedSet, sort: SortBy, i: usize) -> (r: i64)
    requires
        i < keys@.rows.len(),
    ensures
        r == rank(keys@, sort, i as int),
{
    match sort {
        SortBy::Ttl => match keys.ttl(i) {
            Some(ttl) => if ttl >= 0 {
                ttl as i64
            } else {
                0x8000_0000
            },
            None => 0x8000_0001,
        },
        SortBy::Size => match keys.size(i) {
            Some(size) => -(size as i64),
            None => 1,
        },
        SortBy::Kind => match keys.kind(i) {
            Some(KeyKind::String) => 0,
            Some(KeyKind::Hash) => 1,
            Some(KeyKind::List) => 2,
            Some(KeyKind::PlainSet) => 3,
            Some(KeyKind::ZSet) => 4,
            Some(KeyKind::Stream) => 5,
            Some(KeyKind::Json) => 6,
            None => 7,
        },
        SortBy::Scan => 0,
        SortBy::Name => 0,
    }
}

fn name_bytes(keys: &LoadedSet, i: usize) -> (name: Vec<u8>)
    ensures
        name@ == name_or_empty(keys@, i as int),
{
    match keys.name(i) {
        Some(name) => text::copy_bytes(name),
        None => Vec::new(),
    }
}

fn comes_first(keys: &LoadedSet, sort: SortBy, i: usize, j: usize) -> (r: bool)
    requires
        i < keys@.rows.len(),
        j < keys@.rows.len(),
    ensures
        r == order_by(keys@, sort)(i, j),
{
    if let SortBy::Name = sort {
        let a = name_bytes(keys, i);
        let b = name_bytes(keys, j);
        name_at_most(a.as_slice(), b.as_slice()) && (!name_at_most(b.as_slice(), a.as_slice())
            || i <= j)
    } else {
        let a: i64 = rank_of(keys, sort, i);
        let b: i64 = rank_of(keys, sort, j);
        a < b || (a == b && i <= j)
    }
}

/// Whether every item is the index of a key.
pub open spec fn indices_in(items: Seq<usize>, keys: LoadedView) -> bool {
    forall|i: int| 0 <= i < items.len() ==> (#[trigger] items[i]) < keys.rows.len()
}

proof fn taking_one(r: Seq<usize>, a: Seq<usize>, b: Seq<usize>, x: usize)
    requires
        r.to_multiset() == a.to_multiset().add(b.to_multiset()),
    ensures
        r.push(x).to_multiset() == a.push(x).to_multiset().add(b.to_multiset()),
        r.push(x).to_multiset() == a.to_multiset().add(b.push(x).to_multiset()),
{
    broadcast use vstd::multiset::group_multiset_axioms;

    r.to_multiset_ensures();
    a.to_multiset_ensures();
    b.to_multiset_ensures();
    assert(r.push(x).to_multiset() =~= a.push(x).to_multiset().add(b.to_multiset()));
    assert(r.push(x).to_multiset() =~= a.to_multiset().add(b.push(x).to_multiset()));
}

fn merge(keys: &LoadedSet, sort: SortBy, a: Vec<usize>, b: Vec<usize>) -> (r: Vec<usize>)
    requires
        indices_in(a@, keys@),
        indices_in(b@, keys@),
        sorted_by(a@, order_by(keys@, sort)),
        sorted_by(b@, order_by(keys@, sort)),
    ensures
        indices_in(r@, keys@),
        sorted_by(r@, order_by(keys@, sort)),
        r@.to_multiset() == a@.to_multiset().add(b@.to_multiset()),
{
    broadcast use {
        vstd::seq_lib::group_to_multiset_ensures,
        vstd::multiset::group_multiset_axioms,
    };

    let ghost le = order_by(keys@, sort);
    let mut r: Vec<usize> = Vec::new();
    let mut i: usize = 0;
    let mut j: usize = 0;
    proof {
        order_is_total(keys@, sort);
        assert(a@.take(0) =~= Seq::<usize>::empty());
        assert(b@.take(0) =~= Seq::<usize>::empty());
        assert(r@.to_multiset() =~= a@.take(0).to_multiset().add(b@.take(0).to_multiset()));
    }
    while i < a.len() || j < b.len()
        invariant
            i <= a@.len(),
            j <= b@.len(),
            le == order_by(keys@, sort),
            total_ordering(le),
            indices_in(a@, keys@),
            indices_in(b@, keys@),
            indices_in(r@, keys@),
            sorted_by(a@, le),
            sorted_by(b@, le),
            sorted_by(r@, le),
            forall|k: int, m: int|
                0 <= k < r@.len() && i <= m < a@.len() ==> #[trigger] le(r@[k], a@[m]),
            forall|k: int, m: int|
                0 <= k < r@.len() && j <= m < b@.len() ==> #[trigger] le(r@[k], b@[m]),
            r@.to_multiset() == a@.take(i as int).to_multiset().add(
                b@.take(j as int).to_multiset(),
            ),
        decreases a@.len() - i + b@.len() - j,
    {
        let from_a: bool = i < a.len() && (j >= b.len() || comes_first(keys, sort, a[i], b[j]));
        if from_a {
            assert(a@.take(i + 1) =~= a@.take(i as int).push(a@[i as int]));
            assert forall|m: int| j <= m < b@.len() implies #[trigger] le(a@[i as int], b@[m]) by {
                assert(le(a@[i as int], b@[j as int]));
                if m > j {
                    assert(le(b@[j as int], b@[m]));
                }
            }
            proof {
                taking_one(r@, a@.take(i as int), b@.take(j as int), a@[i as int]);
            }
            r.push(a[i]);
            i = i + 1;
        } else {
            assert(b@.take(j + 1) =~= b@.take(j as int).push(b@[j as int]));
            assert forall|m: int| i <= m < a@.len() implies #[trigger] le(b@[j as int], a@[m]) by {
                assert(le(a@[i as int], b@[j as int]) || le(b@[j as int], a@[i as int]));
                if m > i {
                    assert(le(a@[i as int], a@[m]));
                }
            }
            proof {
                taking_one(r@, a@.take(i as int), b@.take(j as int), b@[j as int]);
            }
            r.push(b[j]);
            j = j + 1;
        }
    }
    assert(a@.take(a@.len() as int) =~= a@);
    assert(b@.take(b@.len() as int) =~= b@);
    r
}

fn sorted(keys: &LoadedSet, sort: SortBy, items: Vec<usize>) -> (r: Vec<usize>)
    requires
        indices_in(items@, keys@),
    ensures
        indices_in(r@, keys@),
        sorted_by(r@, order_by(keys@, sort)),
        r@.to_multiset() == items@.to_multiset(),
    decreases items@.len(),
{
    if items.len() <= 1 {
        return items;
    }
    let ghost all = items@;
    let mut left = items;
    let half: usize = left.len() / 2;
    let right = left.split_off(half);
    assert(all =~= left@ + right@);
    proof {
        vstd::seq_lib::lemma_multiset_commutative(left@, right@);
    }
    let a = sorted(keys, sort, left);
    let b = sorted(keys, sort, right);
    merge(keys, sort, a, b)
}

/// The list a reader filters and sorts.
#[derive(Clone, Debug, PartialEq, Eq)]
pub struct ListView {
    pub filter: String,
    pub sort: SortBy,
    pub mode: FilterMode,
    order: Vec<usize>,
}

/// What the list is: how it is chosen, and the indices of its rows.
#[verifier::ext_equal]
pub struct ListModel {
    pub filter: Seq<char>,
    pub sort: SortBy,
    pub mode: FilterMode,
    pub order: Seq<usize>,
}

impl ListModel {
    pub open spec fn rebuilt(self, keys: LoadedView) -> ListModel {
        ListModel { order: listed(keys, self.mode, self.filter, self.sort), ..self }
    }

    pub open spec fn filtered_by(self, filter: Seq<char>) -> ListModel {
        ListModel { filter, ..self }
    }

    pub open spec fn sorted_by(self, sort: SortBy) -> ListModel {
        ListModel { sort, ..self }
    }

    /// The key on a row.
    pub open spec fn at(self, row: int) -> Option<usize> {
        if 0 <= row < self.order.len() {
            Some(self.order[row])
        } else {
            None
        }
    }
}

impl View for ListView {
    type V = ListModel;

    closed spec fn view(&self) -> ListModel {
        ListModel {
            filter: self.filter@,
            sort: self.sort,
            mode: self.mode,
            order: self.order@,
        }
    }
}

impl Default for ListView {
    fn default() -> (list: ListView)
        ensures
            list@ == (ListModel {
                filter: Seq::empty(),
                sort: SortBy::Scan,
                mode: FilterMode::Glob,
                order: Seq::empty(),
            }),
    {
        ListView {
            filter: String::new(),
            sort: SortBy::Scan,
            mode: FilterMode::Glob,
            order: Vec::new(),
        }
    }
}

impl ListView {
    pub fn len(&self) -> (len: usize)
        ensures
            len == self@.order.len(),
    {
        self.order.len()
    }

    /// The index of the key on a row.
    pub fn index_at(&self, row: usize) -> (index: Option<usize>)
        ensures
            index == self@.at(row as int),
    {
        if row < self.order.len() {
            Some(self.order[row])
        } else {
            None
        }
    }

    /// Types one more character into the filter.
    pub fn filter_push(&mut self, c: char)
        ensures
            final(self)@ == old(self)@.filtered_by(old(self)@.filter.push(c)),
    {
        self.filter.push(c);
    }

    /// Types a text into the filter.
    pub fn filter_push_str(&mut self, s: &str)
        ensures
            final(self)@ == old(self)@.filtered_by(old(self)@.filter + s@),
    {
        self.filter.append(s);
    }

    /// Takes the last character of the filter away.
    pub fn filter_pop(&mut self)
        ensures
            final(self)@ == old(self)@.filtered_by(text::without_last(old(self)@.filter)),
    {
        self.filter.pop();
    }

    pub fn filter_clear(&mut self)
        ensures
            final(self)@ == old(self)@.filtered_by(Seq::empty()),
    {
        self.filter = String::new();
    }

    pub fn sort_by(&self) -> (sort: SortBy)
        ensures
            sort == self@.sort,
    {
        self.sort
    }

    pub fn set_sort(&mut self, sort: SortBy)
        ensures
            final(self)@ == old(self)@.sorted_by(sort),
    {
        self.sort = sort;
    }

    /// Lists the keys anew.
    pub fn rebuild(&mut self, keys: &LoadedSet)
        ensures
            final(self)@ == old(self)@.rebuilt(keys@),
    {
        let ghost keep = shown(keys@, self.mode, self.filter@);
        let ghost all = all_indices(keys@);
        let pattern = self.filter.as_str().as_bytes();
        let mut chosen: Vec<usize> = Vec::new();
        let mut i: usize = 0;
        let n: usize = keys.len();
        while i < n
            invariant
                i <= n,
                n == keys@.rows.len(),
                all == all_indices(keys@),
                pattern@ == vstd::utf8::encode_utf8(self.filter@),
                keep == shown(keys@, self.mode, self.filter@),
                chosen@ == all.take(i as int).filter(keep),
                indices_in(chosen@, keys@),
            decreases n - i,
        {
            let name = name_bytes(keys, i);
            proof {
                reveal(Seq::filter);
                assert(all.take(i + 1).drop_last() =~= all.take(i as int));
                assert(all.take(i + 1).last() == i);
            }
            if filter_matches(self.mode, pattern, name.as_slice()) {
                chosen.push(i);
            }
            i = i + 1;
        }
        assert(all.take(n as int) =~= all);
        let ghost picked = chosen@;
        let order = sorted(keys, self.sort, chosen);
        proof {
            order_is_total(keys@, self.sort);
            picked.lemma_sort_by_ensures(order_by(keys@, self.sort));
            vstd::seq_lib::lemma_sorted_unique(
                order@,
                picked.sort_by(order_by(keys@, self.sort)),
                order_by(keys@, self.sort),
            );
        }
        self.order = order;
    }
}

/// The list shows exactly the keys that pass the filter.
pub proof fn a_key_is_listed_exactly_if_it_passes(
    keys: LoadedView,
    mode: FilterMode,
    filter: Seq<char>,
    sort: SortBy,
    i: usize,
)
    requires
        keys.rows.len() <= usize::MAX,
    ensures
        listed(keys, mode, filter, sort).contains(i) <==> i < keys.rows.len() && passes(
            mode,
            vstd::utf8::encode_utf8(filter),
            name_or_empty(keys, i as int),
        ),
{
    let all = all_indices(keys);
    let keep = shown(keys, mode, filter);
    let chosen = all.filter(keep);
    let order = chosen.sort_by(order_by(keys, sort));
    order_is_total(keys, sort);
    chosen.lemma_sort_by_ensures(order_by(keys, sort));
    chosen.to_multiset_ensures();
    order.to_multiset_ensures();
    assert(order.contains(i) <==> order.to_multiset().count(i) > 0);
    assert(chosen.contains(i) <==> chosen.to_multiset().count(i) > 0);
    assert(order.contains(i) <==> chosen.contains(i));
    if i < keys.rows.len() && keep(i) {
        assert(all[i as int] == i);
        all.lemma_filter_contains(keep, i as int);
    }
    if chosen.contains(i) {
        all.lemma_filter_contains_rev(keep, i);
        let j = choose|j: int| 0 <= j < all.len() && all[j] == i;
        assert(all[j] == j as usize);
        let k = choose|k: int| 0 <= k < chosen.len() && chosen[k] == i;
        all.lemma_filter_pred(keep, k);
    }
}

/// The list is in the order that is asked for: each row comes before or with
/// the next.
pub proof fn the_list_is_in_order(
    keys: LoadedView,
    mode: FilterMode,
    filter: Seq<char>,
    sort: SortBy,
)
    ensures
        sorted_by(listed(keys, mode, filter, sort), order_by(keys, sort)),
{
    order_is_total(keys, sort);
    all_indices(keys).filter(shown(keys, mode, filter)).lemma_sort_by_ensures(
        order_by(keys, sort),
    );
}

proof fn filtering_repeats_nothing(s: Seq<usize>, keep: spec_fn(usize) -> bool)
    requires
        s.no_duplicates(),
    ensures
        s.filter(keep).no_duplicates(),
    decreases s.len(),
{
    reveal(Seq::filter);
    if s.len() > 0 {
        let rest = s.drop_last();
        filtering_repeats_nothing(rest, keep);
        let kept = rest.filter(keep);
        assert forall|i: int| 0 <= i < kept.len() implies #[trigger] kept[i] != s.last() by {
            rest.lemma_filter_contains_rev(keep, kept[i]);
            let k = choose|k: int| 0 <= k < rest.len() && rest[k] == kept[i];
            assert(s[k] != s[s.len() - 1]);
        }
    }
}

/// The list holds each key once.
pub proof fn no_key_is_listed_twice(
    keys: LoadedView,
    mode: FilterMode,
    filter: Seq<char>,
    sort: SortBy,
    i: int,
    j: int,
)
    requires
        keys.rows.len() <= usize::MAX,
        0 <= i < j < listed(keys, mode, filter, sort).len(),
    ensures
        listed(keys, mode, filter, sort)[i] != listed(keys, mode, filter, sort)[j],
{
    let all = all_indices(keys);
    let keep = shown(keys, mode, filter);
    let chosen = all.filter(keep);
    let order = chosen.sort_by(order_by(keys, sort));
    order_is_total(keys, sort);
    chosen.lemma_sort_by_ensures(order_by(keys, sort));
    assert(all.no_duplicates());
    filtering_repeats_nothing(all, keep);
    chosen.lemma_multiset_has_no_duplicates();
    order.lemma_multiset_has_no_duplicates_conv();
}

} // verus!
