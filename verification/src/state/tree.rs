//! The keys folded into a tree: names that share a prefix up to a separator
//! stand under one group row.

use vstd::prelude::*;
use vstd::slice::slice_subrange;

use crate::state::loaded::{LoadedSet, LoadedView};
use crate::text;

verus! {

/// One row of the tree.
#[derive(Clone, Copy, Debug, PartialEq, Eq)]
pub enum Row {
    /// A key, under `depth` groups.
    Key { depth: usize, index: usize },
    /// A group, named by a segment that stands in the arena of the Loaded set.
    Group { depth: usize, offset: usize, len: usize, expanded: bool },
}

impl Row {
    pub open spec fn level(self) -> usize {
        match self {
            Row::Key { depth, .. } => depth,
            Row::Group { depth, .. } => depth,
        }
    }

    /// How many groups the row stands under.
    pub fn depth(&self) -> (depth: usize)
        ensures
            depth == self.level(),
    {
        match self {
            Row::Key { depth, .. } => *depth,
            Row::Group { depth, .. } => *depth,
        }
    }
}

/// The segments of a key's name. The last one names the key; those before it
/// name the groups it stands under.
pub open spec fn segments(keys: LoadedView, sep: char, index: usize) -> Seq<Seq<u8>> {
    text::split_by(crate::state::view::name_or_empty(keys, index as int), text::bytes_of(sep))
}

/// How far behind the start of the name segment `d` begins.
pub open spec fn segment_start(segs: Seq<Seq<u8>>, sep: char, d: int) -> int
    decreases d,
{
    if d <= 0 {
        0
    } else {
        segment_start(segs, sep, d - 1) + segs[d - 1].len() + text::bytes_of(sep).len()
    }
}

/// The prefix that group `d` of a name stands for, as text: its segment and
/// those of its ancestors, each with a separator behind it.
pub open spec fn prefix_text(segs: Seq<Seq<u8>>, sep: char, d: int) -> Seq<char>
    decreases d + 1,
{
    if d < 0 {
        Seq::empty()
    } else {
        (prefix_text(segs, sep, d - 1) + text::shown(segs[d])).push(sep)
    }
}

/// The bytes of that prefix.
pub open spec fn prefix_bytes(segs: Seq<Seq<u8>>, sep: char, d: int) -> Seq<u8>
    decreases d + 1,
{
    if d < 0 {
        Seq::empty()
    } else {
        prefix_bytes(segs, sep, d - 1) + segs[d] + text::bytes_of(sep)
    }
}

/// Whether two names stand under the same group at depth `d`.
pub open spec fn same_group(a: Seq<Seq<u8>>, b: Seq<Seq<u8>>, d: int) -> bool {
    a.len() > d + 1 && b.len() > d + 1 && forall|e: int|
        0 <= e <= d ==> #[trigger] a[e] == b[e]
}

/// A key of the list, and the one before it.
pub struct Listed {
    pub index: usize,
    pub offset: usize,
    pub segs: Seq<Seq<u8>>,
    pub before: Option<Seq<Seq<u8>>>,
}

impl Listed {
    pub open spec fn group_row(self, sep: char, collapsed: Set<Seq<char>>, d: int) -> Row {
        Row::Group {
            depth: d as usize,
            offset: (self.offset + segment_start(self.segs, sep, d)) as usize,
            len: self.segs[d].len() as usize,
            expanded: !collapsed.contains(prefix_text(self.segs, sep, d)),
        }
    }

    /// Whether group `d` of this key starts here: the key before, if there is
    /// one, does not stand under it.
    pub open spec fn starts(self, d: int) -> bool {
        self.before is None || !same_group(self.before->0, self.segs, d)
    }

    /// The rows this key adds from depth `d` on: each group that starts here,
    /// down to a collapsed one, and the key itself if none is.
    pub open spec fn rows_from(self, sep: char, collapsed: Set<Seq<char>>, d: int) -> Seq<Row>
        decreases self.segs.len() - d,
    {
        if d >= self.segs.len() - 1 {
            seq![Row::Key { depth: d as usize, index: self.index }]
        } else {
            let group = self.group_row(sep, collapsed, d);
            let head = if self.starts(d) {
                seq![group]
            } else {
                Seq::empty()
            };
            if group->expanded {
                head + self.rows_from(sep, collapsed, d + 1)
            } else {
                head
            }
        }
    }
}

/// The key on row `p` of the list, as the tree sees it.
pub open spec fn listed_key(keys: LoadedView, sep: char, order: Seq<usize>, p: int) -> Listed {
    Listed {
        index: order[p],
        offset: if order[p] < keys.rows.len() {
            keys.rows[order[p] as int].offset
        } else {
            0
        },
        segs: segments(keys, sep, order[p]),
        before: if p > 0 {
            Some(segments(keys, sep, order[p - 1]))
        } else {
            None
        },
    }
}

/// The rows that the first `n` keys of the list make.
pub open spec fn folded(
    keys: LoadedView,
    sep: char,
    collapsed: Set<Seq<char>>,
    order: Seq<usize>,
    n: int,
) -> Seq<Row>
    decreases n,
{
    if n <= 0 {
        Seq::empty()
    } else {
        folded(keys, sep, collapsed, order, n - 1) + listed_key(
            keys,
            sep,
            order,
            n - 1,
        ).rows_from(sep, collapsed, 0)
    }
}

/// What the tree is.
#[verifier::ext_equal]
pub struct TreeModel {
    pub separator: char,
    pub collapsed: Set<Seq<char>>,
    pub rows: Seq<Row>,
}

impl TreeModel {
    pub open spec fn at(self, row: int) -> Option<Row> {
        if 0 <= row < self.rows.len() {
            Some(self.rows[row])
        } else {
            None
        }
    }

    /// The key on a row, if it is a key's row.
    pub open spec fn key_at(self, row: int) -> Option<usize> {
        match self.at(row) {
            Some(Row::Key { index, .. }) => Some(index),
            _ => None,
        }
    }

    pub open spec fn without_rows(self) -> TreeModel {
        TreeModel { rows: Seq::empty(), ..self }
    }

    pub open spec fn rebuilt(self, keys: LoadedView, order: Seq<usize>) -> TreeModel {
        TreeModel {
            rows: folded(keys, self.separator, self.collapsed, order, order.len() as int),
            ..self
        }
    }

    /// The group called `prefix` collapsed if it was expanded, and the other
    /// way round. The rows follow when the tree is rebuilt.
    pub open spec fn toggled(self, prefix: Seq<char>) -> TreeModel {
        TreeModel {
            collapsed: if self.collapsed.contains(prefix) {
                self.collapsed.remove(prefix)
            } else {
                self.collapsed.insert(prefix)
            },
            ..self
        }
    }

    /// The nearest row above `row` that is a group one level up.
    pub open spec fn parent(self, row: int) -> Option<int> {
        match self.at(row) {
            Some(r) => if r.level() == 0 {
                None
            } else {
                self.group_above(row, r.level() - 1)
            },
            None => None,
        }
    }

    /// The nearest group row of depth `depth` above `row`.
    pub open spec fn group_above(self, row: int, depth: int) -> Option<int>
        decreases row,
    {
        if row <= 0 {
            None
        } else if self.is_group(row - 1, depth) {
            Some(row - 1)
        } else {
            self.group_above(row - 1, depth)
        }
    }

    pub open spec fn is_group(self, row: int, depth: int) -> bool {
        match self.at(row) {
            Some(Row::Group { depth: d, .. }) => d == depth,
            _ => false,
        }
    }
}

/// The names of the collapsed groups.
pub open spec fn names_in(collapsed: Seq<String>) -> Set<Seq<char>> {
    Set::new(|name: Seq<char>| exists|i: int| 0 <= i < collapsed.len() && collapsed[i]@ == name)
}

#[derive(Clone, Debug, PartialEq, Eq)]
pub struct Tree {
    pub separator: char,
    collapsed: Vec<String>,
    rows: Vec<Row>,
}

impl View for Tree {
    type V = TreeModel;

    closed spec fn view(&self) -> TreeModel {
        TreeModel {
            separator: self.separator,
            collapsed: names_in(self.collapsed@),
            rows: self.rows@,
        }
    }
}

impl Default for Tree {
    fn default() -> (tree: Tree)
        ensures
            tree@ == (TreeModel {
                separator: ':',
                collapsed: Set::empty(),
                rows: Seq::empty(),
            }),
    {
        let tree = Tree { separator: ':', collapsed: Vec::new(), rows: Vec::new() };
        assert(tree@.collapsed =~= Set::empty());
        tree
    }
}

/// Whether `bytes` end in `mark`.
fn bytes_end_in(bytes: &Vec<u8>, mark: &[u8]) -> (r: bool)
    ensures
        r == text::ends_in(bytes@, mark@),
{
    let n: usize = bytes.len();
    let m: usize = mark.len();
    if m > n {
        return false;
    }
    let end = slice_subrange(bytes.as_slice(), n - m, n);
    assert(end@ =~= bytes@.skip(n - m));
    text::same_bytes(end, mark)
}

/// Cuts `bytes` at every `mark`.
pub fn split_bytes(bytes: &[u8], mark: &[u8]) -> (pieces: Vec<Vec<u8>>)
    ensures
        text::byte_strings(pieces@) == text::split_by(bytes@, mark@),
{
    let mut pieces: Vec<Vec<u8>> = Vec::new();
    let mut piece: Vec<u8> = Vec::new();
    let mut i: usize = 0;
    assert(text::byte_strings(pieces@).push(piece@) =~= text::split_by(bytes@.take(0), mark@));
    while i < bytes.len()
        invariant
            i <= bytes@.len(),
            text::byte_strings(pieces@).push(piece@) == text::split_by(
                bytes@.take(i as int),
                mark@,
            ),
        decreases bytes@.len() - i,
    {
        let b: u8 = bytes[i];
        let ghost before = text::byte_strings(pieces@).push(piece@);
        assert(bytes@.take(i + 1).drop_last() =~= bytes@.take(i as int));
        piece.push(b);
        let ghost whole = piece@;
        if bytes_end_in(&piece, mark) {
            let kept: usize = piece.len() - mark.len();
            piece.truncate(kept);
            assert(piece@ =~= whole.take(kept as int));
            pieces.push(piece);
            piece = Vec::new();
            assert(text::byte_strings(pieces@).push(piece@) =~= before.update(
                before.len() - 1,
                whole.take(kept as int),
            ).push(Seq::empty()));
        } else {
            assert(text::byte_strings(pieces@).push(piece@) =~= before.update(
                before.len() - 1,
                before.last().push(b),
            ));
        }
        i = i + 1;
    }
    pieces.push(piece);
    assert(bytes@.take(bytes@.len() as int) =~= bytes@);
    assert(text::byte_strings(pieces@) =~= text::split_by(bytes@, mark@));
    pieces
}

/// The segments fill the name, with one separator behind each but the last.
pub proof fn segments_fill_the_name(name: Seq<u8>, sep: char)
    ensures
        ({
            let segs = text::split_by(name, text::bytes_of(sep));
            &&& segs.len() >= 1
            &&& segment_start(segs, sep, segs.len() as int) == name.len() + text::bytes_of(
                sep,
            ).len()
        }),
    decreases name.len(),
{
    let mark = text::bytes_of(sep);
    let segs = text::split_by(name, mark);
    if name.len() > 0 {
        let rest = name.drop_last();
        let pieces = text::split_by(rest, mark);
        segments_fill_the_name(rest, sep);
        let n = pieces.len() as int;
        starts_agree(segs, pieces, sep, n - 1);
        assert(segment_start(segs, sep, n) == segment_start(segs, sep, n - 1) + segs[n - 1].len()
            + mark.len());
    } else {
        assert(segment_start(segs, sep, 1) == segment_start(segs, sep, 0) + segs[0].len()
            + mark.len());
    }
}

/// A segment stands in the name where it is said to start.
pub proof fn a_segment_stands_at_its_start(name: Seq<u8>, sep: char, d: int)
    requires
        0 <= d < text::split_by(name, text::bytes_of(sep)).len(),
    ensures
        ({
            let segs = text::split_by(name, text::bytes_of(sep));
            let start = segment_start(segs, sep, d);
            &&& 0 <= start
            &&& start + segs[d].len() <= name.len()
            &&& name.subrange(start, start + segs[d].len()) == segs[d]
        }),
    decreases name.len(),
{
    let mark = text::bytes_of(sep);
    let segs = text::split_by(name, mark);
    let start = segment_start(segs, sep, d);
    if name.len() == 0 {
        assert(name.subrange(0, 0) =~= segs[0]);
    } else {
        let rest = name.drop_last();
        let pieces = text::split_by(rest, mark);
        let n = pieces.len() as int;
        segments_fill_the_name(rest, sep);
        segments_fill_the_name(name, sep);
        starts_grow(segs, sep, 0, d);
        if d < n {
            starts_agree(segs, pieces, sep, d);
            a_segment_stands_at_its_start(rest, sep, d);
            assert(segment_start(pieces, sep, n) == segment_start(pieces, sep, n - 1) + pieces[n
                - 1].len() + mark.len());
            assert(name.subrange(start, start + segs[d].len()) =~= segs[d]) by {
                let old = rest.subrange(start, start + pieces[d].len());
                assert(forall|k: int| 0 <= k < old.len() ==> old[k] == name[start + k]);
            }
        } else {
            assert(segment_start(segs, sep, n + 1) == start + segs[n].len() + mark.len());
            assert(name.subrange(start, start) =~= segs[d]);
        }
    }
}

/// A name starts with the prefix of each group it stands under.
pub proof fn a_name_starts_with_its_prefixes(name: Seq<u8>, sep: char, d: int)
    requires
        0 <= d < text::split_by(name, text::bytes_of(sep)).len(),
    ensures
        ({
            let segs = text::split_by(name, text::bytes_of(sep));
            let start = segment_start(segs, sep, d);
            &&& 0 <= start <= name.len()
            &&& name.take(start) == prefix_bytes(segs, sep, d - 1)
        }),
    decreases name.len(),
{
    let mark = text::bytes_of(sep);
    let segs = text::split_by(name, mark);
    let start = segment_start(segs, sep, d);
    a_segment_stands_at_its_start(name, sep, d);
    if name.len() == 0 {
        assert(name.take(0) =~= Seq::empty());
    } else {
        let rest = name.drop_last();
        let pieces = text::split_by(rest, mark);
        let n = pieces.len() as int;
        segments_fill_the_name(rest, sep);
        if d < n {
            starts_agree(segs, pieces, sep, d);
            byte_prefixes_agree(segs, pieces, sep, d - 1);
            a_name_starts_with_its_prefixes(rest, sep, d);
            assert(name.take(start) =~= rest.take(start));
        } else {
            let piece = pieces.last().push(name.last());
            let before = segment_start(pieces, sep, n - 1);
            starts_agree(segs, pieces, sep, n - 1);
            byte_prefixes_agree(segs, pieces, sep, n - 2);
            a_name_starts_with_its_prefixes(rest, sep, n - 1);
            a_segment_stands_at_its_start(rest, sep, n - 1);
            assert(segment_start(pieces, sep, n) == before + pieces[n - 1].len() + mark.len());
            assert(segment_start(segs, sep, n) == segment_start(segs, sep, n - 1) + segs[n
                - 1].len() + mark.len());
            assert(segs[n - 1] + mark =~= piece) by {
                assert(piece.skip(piece.len() - mark.len()) == mark);
                assert(piece.take(piece.len() - mark.len()) + piece.skip(
                    piece.len() - mark.len(),
                ) =~= piece);
            }
            assert(prefix_bytes(segs, sep, n - 1) =~= prefix_bytes(pieces, sep, n - 2) + piece) by {
                assert(prefix_bytes(segs, sep, n - 2) + segs[n - 1] + mark =~= prefix_bytes(
                    segs,
                    sep,
                    n - 2,
                ) + (segs[n - 1] + mark));
            }
            assert(name =~= rest.take(before) + piece) by {
                let last = rest.subrange(before, before + pieces[n - 1].len());
                assert(last == pieces[n - 1]);
                assert(forall|k: int| 0 <= k < last.len() ==> last[k] == name[before + k]);
            }
            assert(name.take(start) =~= name);
        }
    }
}

/// The part of a name in front of a segment is cut where the name is.
proof fn the_front_of_a_name_is_cut_alike(name: Seq<u8>, sep: char, d: int)
    requires
        0 < d < text::split_by(name, text::bytes_of(sep)).len(),
    ensures
        ({
            let segs = text::split_by(name, text::bytes_of(sep));
            let front = name.take(segment_start(segs, sep, d));
            text::split_by(front, text::bytes_of(sep)) == segs.take(d).push(Seq::empty())
        }),
    decreases name.len(),
{
    let mark = text::bytes_of(sep);
    let segs = text::split_by(name, mark);
    let start = segment_start(segs, sep, d);
    a_segment_stands_at_its_start(name, sep, d);
    if name.len() > 0 {
        let rest = name.drop_last();
        let pieces = text::split_by(rest, mark);
        let n = pieces.len() as int;
        segments_fill_the_name(rest, sep);
        segments_fill_the_name(name, sep);
        if d < n {
            starts_agree(segs, pieces, sep, d);
            a_segment_stands_at_its_start(rest, sep, d);
            the_front_of_a_name_is_cut_alike(rest, sep, d);
            assert(name.take(start) =~= rest.take(start));
            assert(segs.take(d) =~= pieces.take(d));
        } else {
            assert(segment_start(segs, sep, n + 1) == start + segs[n].len() + mark.len());
            assert(name.take(start) =~= name);
            assert(segs.take(d).push(Seq::empty()) =~= segs);
        }
    }
}

/// A name that starts with the prefix of a group stands under that group.
pub proof fn a_name_with_the_prefix_stands_under_the_group(
    other: Seq<u8>,
    name: Seq<u8>,
    sep: char,
    d: int,
)
    requires
        0 <= d < text::split_by(name, text::bytes_of(sep)).len() - 1,
        ({
            let prefix = prefix_bytes(text::split_by(name, text::bytes_of(sep)), sep, d);
            prefix.len() <= other.len() && other.take(prefix.len() as int) == prefix
        }),
    ensures
        same_group(
            text::split_by(other, text::bytes_of(sep)),
            text::split_by(name, text::bytes_of(sep)),
            d,
        ),
{
    let mark = text::bytes_of(sep);
    let segs = text::split_by(name, mark);
    let prefix = prefix_bytes(segs, sep, d);
    a_name_starts_with_its_prefixes(name, sep, d + 1);
    the_front_of_a_name_is_cut_alike(name, sep, d + 1);
    let rest = other.skip(prefix.len() as int);
    assert(other =~= prefix + rest);
    text::a_cut_starts_afresh(prefix, rest, mark);
    text::split_by_is_not_empty(rest, mark);
    let others = text::split_by(other, mark);
    assert(segs.take(d + 1).push(Seq::empty()).drop_last() =~= segs.take(d + 1));
    assert forall|e: int| 0 <= e <= d implies #[trigger] others[e] == segs[e] by {
        assert(segs.take(d + 1)[e] == segs[e]);
    }
}

/// Names that stand under the same groups have the same prefixes.
pub proof fn byte_prefixes_agree(a: Seq<Seq<u8>>, b: Seq<Seq<u8>>, sep: char, d: int)
    requires
        forall|e: int| 0 <= e <= d ==> #[trigger] a[e] == b[e],
    ensures
        prefix_bytes(a, sep, d) == prefix_bytes(b, sep, d),
    decreases d + 1,
{
    if d >= 0 {
        byte_prefixes_agree(a, b, sep, d - 1);
        assert(a[d] == b[d]);
    }
}

proof fn starts_agree(a: Seq<Seq<u8>>, b: Seq<Seq<u8>>, sep: char, d: int)
    requires
        0 <= d,
        forall|e: int| 0 <= e < d ==> #[trigger] a[e] == b[e],
    ensures
        segment_start(a, sep, d) == segment_start(b, sep, d),
    decreases d,
{
    if d > 0 {
        starts_agree(a, b, sep, d - 1);
    }
}

proof fn starts_grow(segs: Seq<Seq<u8>>, sep: char, d: int, e: int)
    requires
        0 <= d <= e,
    ensures
        0 <= segment_start(segs, sep, d) <= segment_start(segs, sep, e),
    decreases e,
{
    if d < e {
        starts_grow(segs, sep, d, e - 1);
    } else if d > 0 {
        starts_grow(segs, sep, d - 1, d - 1);
    }
}

fn shares_group(a: &Vec<Vec<u8>>, b: &Vec<Vec<u8>>, d: usize) -> (r: bool)
    requires
        d + 1 < b@.len(),
    ensures
        r == same_group(text::byte_strings(a@), text::byte_strings(b@), d as int),
{
    let ghost x = text::byte_strings(a@);
    let ghost y = text::byte_strings(b@);
    let deep: usize = b.len();
    if a.len() <= d + 1 {
        return false;
    }
    let mut e: usize = 0;
    while e <= d
        invariant
            d + 1 < a@.len(),
            d + 1 < b@.len(),
            d + 1 < deep,
            e <= d + 1,
            x == text::byte_strings(a@),
            y == text::byte_strings(b@),
            forall|f: int| 0 <= f < e ==> #[trigger] x[f] == y[f],
        decreases d + 1 - e,
    {
        if !text::same_bytes(a[e].as_slice(), b[e].as_slice()) {
            assert(x[e as int] != y[e as int]);
            return false;
        }
        e = e + 1;
    }
    true
}

impl Tree {
    pub fn len(&self) -> (len: usize)
        ensures
            len == self@.rows.len(),
    {
        self.rows.len()
    }

    pub fn row(&self, row: usize) -> (r: Option<Row>)
        ensures
            r == self@.at(row as int),
    {
        if row < self.rows.len() {
            Some(self.rows[row])
        } else {
            None
        }
    }

    /// The index of the key on a row, if it is a key's row.
    pub fn key_index(&self, row: usize) -> (index: Option<usize>)
        ensures
            index == self@.key_at(row as int),
    {
        match self.row(row) {
            Some(Row::Key { index, .. }) => Some(index),
            _ => None,
        }
    }

    /// What stands between two segments of a name.
    pub fn separator(&self) -> (separator: char)
        ensures
            separator == self@.separator,
    {
        self.separator
    }

    /// Takes the rows away, and remembers what is collapsed.
    pub fn clear(&mut self)
        ensures
            final(self)@ == old(self)@.without_rows(),
    {
        self.rows = Vec::new();
    }

    fn is_collapsed(&self, prefix: &String) -> (r: bool)
        ensures
            r == self@.collapsed.contains(prefix@),
    {
        let mut i: usize = 0;
        while i < self.collapsed.len()
            invariant
                i <= self.collapsed@.len(),
                forall|j: int| 0 <= j < i ==> (#[trigger] self.collapsed@[j])@ != prefix@,
            decreases self.collapsed@.len() - i,
        {
            if self.collapsed[i] == *prefix {
                assert(self.collapsed@[i as int]@ == prefix@);
                return true;
            }
            i = i + 1;
        }
        false
    }

    /// Collapses the group called `prefix`, or expands it again. The rows
    /// follow when the tree is rebuilt.
    pub fn toggle(&mut self, prefix: &String)
        ensures
            final(self)@ == old(self)@.toggled(prefix@),
    {
        if self.is_collapsed(prefix) {
            let mut kept: Vec<String> = Vec::new();
            let mut i: usize = 0;
            while i < self.collapsed.len()
                invariant
                    *self == *old(self),
                    i <= self.collapsed@.len(),
                    forall|j: int|
                        0 <= j < kept@.len() ==> (#[trigger] kept@[j])@ != prefix@ && names_in(
                            self.collapsed@,
                        ).contains(kept@[j]@),
                    forall|j: int|
                        0 <= j < i && (#[trigger] self.collapsed@[j])@ != prefix@ ==> names_in(
                            kept@,
                        ).contains(self.collapsed@[j]@),
                decreases self.collapsed@.len() - i,
            {
                if self.collapsed[i] != *prefix {
                    let ghost before = kept@;
                    let name = self.collapsed[i].clone();
                    kept.push(name);
                    assert(kept@[kept@.len() - 1]@ == self.collapsed@[i as int]@);
                    assert forall|j: int| 0 <= j < i && (#[trigger] self.collapsed@[j])@
                        != prefix@ implies names_in(kept@).contains(self.collapsed@[j]@) by {
                        let k = choose|k: int|
                            0 <= k < before.len() && before[k]@ == self.collapsed@[j]@;
                        assert(kept@[k]@ == self.collapsed@[j]@);
                    }
                }
                i = i + 1;
            }
            assert(names_in(kept@) =~= names_in(old(self).collapsed@).remove(prefix@));
            self.collapsed = kept;
        } else {
            let ghost before = self.collapsed@;
            self.collapsed.push(prefix.clone());
            assert(names_in(self.collapsed@) =~= names_in(before).insert(prefix@)) by {
                assert forall|name: Seq<char>|
                    names_in(before).insert(prefix@).contains(name) implies names_in(
                    self.collapsed@,
                ).contains(name) by {
                    if name == prefix@ {
                        assert(self.collapsed@[before.len() as int]@ == name);
                    } else {
                        let k = choose|k: int| 0 <= k < before.len() && before[k]@ == name;
                        assert(self.collapsed@[k]@ == name);
                    }
                }
            }
        }
    }

    /// Folds the keys of the list anew.
    pub fn rebuild(&mut self, keys: &LoadedSet, order: &crate::state::view::ListView)
        ensures
            final(self)@ == old(self)@.rebuilt(keys@, order@.order),
    {
        let mut rows: Vec<Row> = Vec::new();
        let mut before: Option<Vec<Vec<u8>>> = None;
        let mut p: usize = 0;
        let n: usize = order.len();
        while p < n
            invariant
                *self == *old(self),
                p <= n,
                n == order@.order.len(),
                rows@ == folded(
                    keys@,
                    self@.separator,
                    self@.collapsed,
                    order@.order,
                    p as int,
                ),
                p == 0 ==> before is None,
                p > 0 ==> before is Some && text::byte_strings(before->0@) == segments(
                    keys@,
                    self@.separator,
                    order@.order[p - 1],
                ),
            decreases n - p,
        {
            let index: usize = match order.index_at(p) {
                Some(index) => index,
                None => 0,
            };
            let segs = self.push_rows(keys, &mut rows, index, &before);
            before = Some(segs);
            p = p + 1;
        }
        self.rows = rows;
    }

    fn push_rows(
        &self,
        keys: &LoadedSet,
        rows: &mut Vec<Row>,
        index: usize,
        before: &Option<Vec<Vec<u8>>>,
    ) -> (segs: Vec<Vec<u8>>)
        ensures
            text::byte_strings(segs@) == segments(keys@, self@.separator, index),
            final(rows)@ == old(rows)@ + (Listed {
                index,
                offset: if index < keys@.rows.len() {
                    keys@.rows[index as int].offset
                } else {
                    0
                },
                segs: segments(keys@, self@.separator, index),
                before: match before {
                    Some(before) => Some(text::byte_strings(before@)),
                    None => None,
                },
            }).rows_from(self@.separator, self@.collapsed, 0),
    {
        let empty: Vec<u8> = Vec::new();
        let name = match keys.name(index) {
            Some(name) => name,
            None => empty.as_slice(),
        };
        let mark = text::char_bytes(self.separator);
        let width: usize = mark.len();
        let segs = split_bytes(name, mark.as_slice());
        let start: usize = match keys.row(index) {
            Some(row) => row.offset,
            None => 0,
        };
        let ghost key = Listed {
            index,
            offset: if index < keys@.rows.len() {
                keys@.rows[index as int].offset
            } else {
                0
            },
            segs: segments(keys@, self@.separator, index),
            before: match before {
                Some(before) => Some(text::byte_strings(before@)),
                None => None,
            },
        };
        assert(key.segs == text::byte_strings(segs@));
        proof {
            segments_fill_the_name(name@, self.separator);
        }
        let mut offset: usize = start;
        let mut prefix: String = String::new();
        let mut d: usize = 0;
        let last: usize = segs.len() - 1;
        while d < last
            invariant
                d <= last,
                last + 1 == segs@.len(),
                key.segs == text::byte_strings(segs@),
                key == (Listed {
                    index,
                    offset: if index < keys@.rows.len() {
                        keys@.rows[index as int].offset
                    } else {
                        0
                    },
                    segs: segments(keys@, self@.separator, index),
                    before: match before {
                        Some(before) => Some(text::byte_strings(before@)),
                        None => None,
                    },
                }),
                key.before == (match before {
                    Some(before) => Some(text::byte_strings(before@)),
                    None => None,
                }),
                key.offset == start,
                start + name@.len() <= usize::MAX || last == 0,
                segment_start(key.segs, self@.separator, segs@.len() as int) == name@.len() + width,
                width == text::bytes_of(self@.separator).len(),
                offset == start + segment_start(key.segs, self@.separator, d as int),
                prefix@ == prefix_text(key.segs, self@.separator, d - 1),
                rows@ + key.rows_from(self@.separator, self@.collapsed, d as int) == old(rows)@
                    + key.rows_from(self@.separator, self@.collapsed, 0),
            decreases last - d,
        {
            let ghost rows_before = rows@;
            proof {
                starts_grow(key.segs, self@.separator, d + 1, last as int);
                assert(segment_start(key.segs, self@.separator, last + 1) == segment_start(key.segs, self@.separator, last as int)
                    + key.segs[last as int].len() + width);
                starts_grow(key.segs, self@.separator, 0, d as int);
                assert(segment_start(key.segs, self@.separator, d + 1) == segment_start(key.segs, self@.separator, d as int)
                    + key.segs[d as int].len() + width);
            }
            let shown = text::lossy_text(segs[d].as_slice());
            prefix.append(shown.as_str());
            prefix.push(self.separator);
            assert(prefix@ =~= prefix_text(key.segs, self@.separator, d as int));
            let expanded: bool = !self.is_collapsed(&prefix);
            let starts: bool = match before {
                Some(before) => !shares_group(before, &segs, d),
                None => true,
            };
            if starts {
                rows.push(
                    Row::Group { depth: d, offset, len: segs[d].len(), expanded },
                );
            }
            if !expanded {
                assert(rows@ =~= rows_before + key.rows_from(
                    self@.separator,
                    self@.collapsed,
                    d as int,
                ));
                return segs;
            }
            assert(rows@ + key.rows_from(self@.separator, self@.collapsed, d + 1) =~= rows_before
                + key.rows_from(self@.separator, self@.collapsed, d as int));
            offset = offset + segs[d].len() + width;
            d = d + 1;
        }
        rows.push(Row::Key { depth: last, index });
        assert(rows@ =~= old(rows)@ + key.rows_from(self@.separator, self@.collapsed, 0));
        segs
    }
}

/// Folding is its own undoing: a group toggled twice is as it was.
pub proof fn toggling_twice_changes_nothing(tree: TreeModel, prefix: Seq<char>)
    ensures
        tree.toggled(prefix).toggled(prefix) == tree,
{
    assert(tree.toggled(prefix).toggled(prefix).collapsed =~= tree.collapsed);
}

} // verus!
