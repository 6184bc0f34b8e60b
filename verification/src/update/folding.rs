//! Why a group row stands for the prefix it is folded by and every key under it
//! starts with that prefix, and why collapsing a group and expanding it again
//! from the same row leaves the tree as it was.

use vstd::prelude::*;
use vstd::utf8::*;

use crate::state::loaded::LoadedView;
use crate::state::session::StateView;
use crate::state::tree::{self, Listed, Row, TreeModel};
use crate::state::view::{self, SortBy};
use crate::text;

verus! {

/// Whether two rows are the same but for whether a group is expanded.
pub open spec fn alike(a: Row, b: Row) -> bool {
    match (a, b) {
        (Row::Group { depth: d, offset: o, len: l, .. }, Row::Group { depth, offset, len, .. }) => d
            == depth && o == offset && l == len,
        _ => a == b,
    }
}

impl StateView {
    /// The session with other rows in its tree.
    pub open spec fn with_rows(self, rows: Seq<Row>) -> StateView {
        StateView { tree: TreeModel { rows, ..self.tree }, ..self }
    }

    /// Whether the nearest group row of depth `e` stands for what `key` stands
    /// under at that depth.
    pub open spec fn leads(self, key: Listed, e: int) -> bool {
        match self.tree.group_above(self.tree.rows.len() as int, e) {
            Some(row) => self.group_prefix(row) == Some(
                tree::prefix_text(key.segs, self.tree.separator, e),
            ) && self.group_bytes(row) == Some(
                tree::prefix_bytes(key.segs, self.tree.separator, e),
            ),
            None => false,
        }
    }

    /// Whether every group row above depth `d` leads to `key`.
    pub open spec fn leads_down_to(self, key: Listed, d: int) -> bool {
        forall|e: int| 0 <= e < d ==> #[trigger] self.leads(key, e)
    }

    /// Whether no group above depth `e` hides it.
    pub open spec fn shows(self, key: Listed, e: int) -> bool {
        e < key.segs.len() - 1 && forall|f: int|
            0 <= f < e ==> !self.tree.collapsed.contains(
                #[trigger] tree::prefix_text(key.segs, self.tree.separator, f),
            )
    }

    /// Whether the groups from depth `d` on that `key` shares with the key
    /// before it have their rows already.
    pub open spec fn inherits(self, key: Listed, d: int) -> bool {
        forall|e: int|
            d <= e && key.before is Some && tree::same_group(key.before->0, key.segs, e)
                && self.shows(key, e) ==> #[trigger] self.leads(key, e)
    }

    /// Whether each group row is expanded exactly if its prefix is not
    /// collapsed.
    pub open spec fn folds_honestly(self) -> bool {
        forall|r: int|
            0 <= r < self.tree.rows.len() && (#[trigger] self.tree.rows[r]) is Group
                ==> self.group_prefix(r) is Some && self.tree.rows[r]->expanded
                == !self.tree.collapsed.contains(self.group_prefix(r)->0)
    }

    /// Whether the key on row `r` stands at the depth of its name, and under the
    /// group that its name starts with.
    pub open spec fn keeps_under_its_group(self, r: int) -> bool {
        match self.tree.rows[r] {
            Row::Key { depth, index } => {
                let segs = tree::segments(self.keys, self.tree.separator, index);
                &&& depth == segs.len() - 1
                &&& depth > 0 ==> self.tree.parent(r) is Some && self.group_bytes(
                    self.tree.parent(r)->0,
                ) == Some(tree::prefix_bytes(segs, self.tree.separator, depth - 1))
            },
            _ => true,
        }
    }

    /// Whether every key does.
    pub open spec fn keeps_keys_under_their_groups(self) -> bool {
        forall|r: int|
            0 <= r < self.tree.rows.len() ==> #[trigger] self.keeps_under_its_group(r)
    }
}

impl TreeModel {
    /// Whether `row` stands under the group on row `group`, as its child or
    /// further down.
    pub open spec fn under(self, row: int, group: int) -> bool
        decreases row,
    {
        match self.parent(row) {
            Some(parent) => {
                proof {
                    self.parent_is_above(row);
                }
                parent == group || self.under(parent, group)
            },
            None => false,
        }
    }
}

/// Whether the segments of a key stand in the arena where its rows point.
pub open spec fn stands(keys: LoadedView, sep: char, key: Listed) -> bool {
    &&& key.segs == tree::segments(keys, sep, key.index)
    &&& key.segs.len() >= 1
    &&& key.segs.len() <= usize::MAX
    &&& forall|d: int|
        0 <= d < key.segs.len() ==> {
            let start = key.offset + tree::segment_start(key.segs, sep, d);
            &&& 0 <= start <= usize::MAX
            &&& (#[trigger] key.segs[d]).len() <= usize::MAX
            &&& keys.slice(start, key.segs[d].len() as int) == Some(key.segs[d])
        }
}

// ── Rows that agree, as far as they go ──────────────────────────────────────

proof fn groups_above_agree(a: TreeModel, b: TreeModel, row: int, depth: int)
    requires
        row <= a.rows.len(),
        row <= b.rows.len(),
        forall|q: int| 0 <= q < row ==> alike(#[trigger] a.rows[q], b.rows[q]),
    ensures
        a.group_above(row, depth) == b.group_above(row, depth),
    decreases row,
{
    if row > 0 {
        assert(alike(a.rows[row - 1], b.rows[row - 1]));
        groups_above_agree(a, b, row - 1, depth);
    }
}

/// A prefix depends on the rows down to its own alone, and not on what is
/// expanded.
proof fn prefixes_agree(a: StateView, b: StateView, row: int)
    requires
        a.keys == b.keys,
        a.tree.separator == b.tree.separator,
        0 <= row < a.tree.rows.len(),
        row < b.tree.rows.len(),
        forall|q: int| 0 <= q <= row ==> alike(#[trigger] a.tree.rows[q], b.tree.rows[q]),
    ensures
        a.group_prefix(row) == b.group_prefix(row),
        a.group_bytes(row) == b.group_bytes(row),
        a.tree.parent(row) == b.tree.parent(row),
    decreases row,
{
    assert(alike(a.tree.rows[row], b.tree.rows[row]));
    let depth = a.tree.rows[row].level();
    if depth > 0 {
        groups_above_agree(a.tree, b.tree, row, depth - 1);
    }
    a.tree.parent_is_above(row);
    match a.tree.parent(row) {
        Some(parent) => prefixes_agree(a, b, parent),
        None => {},
    }
}

/// One more row changes no prefix above it.
proof fn a_row_below_changes_no_prefix(s: StateView, rows: Seq<Row>, more: Seq<Row>, row: int)
    requires
        0 <= row < rows.len(),
    ensures
        s.with_rows(rows + more).group_prefix(row) == s.with_rows(rows).group_prefix(row),
        s.with_rows(rows + more).group_bytes(row) == s.with_rows(rows).group_bytes(row),
        s.with_rows(rows + more).tree.parent(row) == s.with_rows(rows).tree.parent(row),
{
    let a = s.with_rows(rows + more);
    let b = s.with_rows(rows);
    assert forall|q: int| 0 <= q <= row implies alike(#[trigger] a.tree.rows[q], b.tree.rows[q]) by {
        assert((rows + more)[q] == rows[q]);
    }
    prefixes_agree(a, b, row);
}

/// One more row that is no group of depth `e` leads where the rows led.
proof fn a_row_below_leads_on(s: StateView, rows: Seq<Row>, row: Row, key: Listed, e: int)
    requires
        s.with_rows(rows).leads(key, e),
        !(row matches Row::Group { depth, .. } && depth == e),
    ensures
        s.with_rows(rows.push(row)).leads(key, e),
{
    let a = s.with_rows(rows.push(row));
    let b = s.with_rows(rows);
    let n = rows.len() as int;
    assert forall|q: int| 0 <= q < n implies alike(#[trigger] a.tree.rows[q], b.tree.rows[q]) by {}
    groups_above_agree(a.tree, b.tree, n, e);
    assert(!a.tree.is_group(n, e));
    b.tree.group_above_is_above(n, e);
    let g = b.tree.group_above(n, e)->0;
    assert(rows.push(row) =~= rows + seq![row]);
    a_row_below_changes_no_prefix(s, rows, seq![row], g);
}

/// One more row keeps the rows above it honest.
proof fn honesty_above(s: StateView, rows: Seq<Row>, row: Row, r: int)
    requires
        s.with_rows(rows).folds_honestly(),
        0 <= r < rows.len(),
        rows[r] is Group,
    ensures
        ({
            let a = s.with_rows(rows.push(row));
            a.group_prefix(r) is Some && a.tree.rows[r]->expanded == !a.tree.collapsed.contains(
                a.group_prefix(r)->0,
            )
        }),
{
    assert(rows.push(row) =~= rows + seq![row]);
    a_row_below_changes_no_prefix(s, rows, seq![row], r);
    assert(s.with_rows(rows).tree.rows[r] is Group);
}

/// One more row leaves the keys above it where they are.
proof fn a_row_below_keeps_the_keys(s: StateView, rows: Seq<Row>, row: Row, r: int)
    requires
        s.with_rows(rows).keeps_under_its_group(r),
        0 <= r < rows.len(),
    ensures
        s.with_rows(rows.push(row)).keeps_under_its_group(r),
{
    assert(rows.push(row) =~= rows + seq![row]);
    a_row_below_changes_no_prefix(s, rows, seq![row], r);
    let b = s.with_rows(rows);
    b.tree.parent_is_above(r);
    match b.tree.parent(r) {
        Some(parent) => a_row_below_changes_no_prefix(s, rows, seq![row], parent),
        None => {},
    }
}

// ── The rows of one key ─────────────────────────────────────────────────────

/// What holds while the rows of `key` are put behind `rows`, from depth `d` on.
pub open spec fn underway(s: StateView, rows: Seq<Row>, key: Listed, d: int) -> bool {
    &&& 0 <= d < key.segs.len()
    &&& s.with_rows(rows).folds_honestly()
    &&& s.with_rows(rows).keeps_keys_under_their_groups()
    &&& s.with_rows(rows).leads_down_to(key, d)
    &&& s.with_rows(rows).inherits(key, d)
    &&& d < key.segs.len() - 1 ==> s.shows(key, d)
}

pub open spec fn group_of(s: StateView, key: Listed, d: int) -> Row {
    key.group_row(s.tree.separator, s.tree.collapsed, d)
}

/// A group that starts with this key: its row stands for its prefix.
proof fn a_group_starts(s: StateView, rows: Seq<Row>, key: Listed, d: int)
    requires
        underway(s, rows, key, d),
        stands(s.keys, s.tree.separator, key),
        d < key.segs.len() - 1,
        key.starts(d),
    ensures
        ({
            let after = s.with_rows(rows.push(group_of(s, key, d)));
            &&& after.group_prefix(rows.len() as int) == Some(
                tree::prefix_text(key.segs, s.tree.separator, d),
            )
            &&& after.folds_honestly()
            &&& after.keeps_keys_under_their_groups()
            &&& after.leads_down_to(key, d + 1)
            &&& after.inherits(key, d + 1)
        }),
{
    let row = group_of(s, key, d);
    let more = rows.push(row);
    let before = s.with_rows(rows);
    let after = s.with_rows(more);
    let n = rows.len() as int;
    let sep = s.tree.separator;
    let start = key.offset + tree::segment_start(key.segs, sep, d);
    assert(key.segs[d].len() <= usize::MAX);
    assert(more[n] == row);
    assert(row == Row::Group {
        depth: d as usize,
        offset: start as usize,
        len: key.segs[d].len() as usize,
        expanded: row->expanded,
    });
    let own = text::shown(key.segs[d]).push(sep);
    assert(after.tree.at(n) == Some(row));
    assert(after.group_segment(n) == Some(own));
    let above = tree::prefix_text(key.segs, sep, d - 1);
    if d > 0 {
        assert(before.leads(key, d - 1));
        assert forall|q: int| 0 <= q < n implies alike(
            #[trigger] after.tree.rows[q],
            before.tree.rows[q],
        ) by {}
        groups_above_agree(after.tree, before.tree, n, d - 1);
        before.tree.group_above_is_above(n, d - 1);
        let g = before.tree.group_above(n, d - 1)->0;
        assert(more =~= rows + seq![row]);
        a_row_below_changes_no_prefix(s, rows, seq![row], g);
        assert(after.tree.parent(n) == Some(g));
    } else {
        assert(after.tree.parent(n) is None);
        assert(above + own =~= own);
    }
    assert(above + own =~= tree::prefix_text(key.segs, sep, d));
    let own_bytes = key.segs[d] + text::bytes_of(sep);
    let bytes_above = tree::prefix_bytes(key.segs, sep, d - 1);
    assert(after.group_name(n) == Some(key.segs[d]));
    assert(bytes_above + own_bytes =~= tree::prefix_bytes(key.segs, sep, d));
    assert(d == 0 ==> bytes_above + own_bytes =~= own_bytes);
    assert(after.group_bytes(n) == Some(tree::prefix_bytes(key.segs, sep, d)));
    assert forall|r: int|
        0 <= r < after.tree.rows.len() implies #[trigger] after.keeps_under_its_group(r) by {
        if r < n {
            assert(before.keeps_under_its_group(r));
            a_row_below_keeps_the_keys(s, rows, row, r);
        }
    }
    assert forall|r: int|
        0 <= r < after.tree.rows.len() && (#[trigger] after.tree.rows[r]) is Group implies after.group_prefix(
        r,
    ) is Some && after.tree.rows[r]->expanded == !after.tree.collapsed.contains(
        after.group_prefix(r)->0,
    ) by {
        if r < n {
            assert(rows[r] == more[r]);
            honesty_above(s, rows, row, r);
        }
    }
    assert forall|e: int| 0 <= e < d + 1 implies #[trigger] after.leads(key, e) by {
        if e < d {
            assert(before.leads(key, e));
            a_row_below_leads_on(s, rows, row, key, e);
        } else {
            assert(after.tree.is_group(n, d));
            assert(after.tree.group_above(n + 1, d) == Some(n));
        }
    }
    assert forall|e: int|
        d + 1 <= e && key.before is Some && tree::same_group(key.before->0, key.segs, e)
            && after.shows(key, e) implies #[trigger] after.leads(key, e) by {
        assert(tree::same_group(key.before->0, key.segs, d));
    }
}

/// A group that the key before this one started: its row is there already.
proof fn a_group_goes_on(s: StateView, rows: Seq<Row>, key: Listed, d: int)
    requires
        underway(s, rows, key, d),
        d < key.segs.len() - 1,
        !key.starts(d),
    ensures
        s.with_rows(rows).leads(key, d),
        s.with_rows(rows).leads_down_to(key, d + 1),
        s.with_rows(rows).inherits(key, d + 1),
{
    let at = s.with_rows(rows);
    assert(at.shows(key, d)) by {
        assert(s.shows(key, d));
    }
    assert(at.leads(key, d));
}

/// The row of the key itself stands under the last of its groups.
proof fn a_key_stands_under_its_group(s: StateView, rows: Seq<Row>, key: Listed, d: int)
    requires
        underway(s, rows, key, d),
        stands(s.keys, s.tree.separator, key),
        d == key.segs.len() - 1,
    ensures
        s.with_rows(
            rows.push(Row::Key { depth: d as usize, index: key.index }),
        ).keeps_under_its_group(rows.len() as int),
{
    let row = Row::Key { depth: d as usize, index: key.index };
    let more = rows.push(row);
    let before = s.with_rows(rows);
    let after = s.with_rows(more);
    let n = rows.len() as int;
    assert(more[n] == row);
    if d > 0 {
        assert(before.leads(key, d - 1));
        assert forall|q: int| 0 <= q < n implies alike(
            #[trigger] after.tree.rows[q],
            before.tree.rows[q],
        ) by {}
        groups_above_agree(after.tree, before.tree, n, d - 1);
        before.tree.group_above_is_above(n, d - 1);
        let g = before.tree.group_above(n, d - 1)->0;
        assert(more =~= rows + seq![row]);
        a_row_below_changes_no_prefix(s, rows, seq![row], g);
        assert(after.tree.parent(n) == Some(g));
    }
}

/// The rows of a key put behind those of the keys before it: what holds of the
/// rows goes on holding, and every group that the key shows leads to it.
proof fn a_key_is_folded(s: StateView, rows: Seq<Row>, key: Listed, d: int)
    requires
        underway(s, rows, key, d),
        stands(s.keys, s.tree.separator, key),
    ensures
        ({
            let after = s.with_rows(
                rows + key.rows_from(s.tree.separator, s.tree.collapsed, d),
            );
            &&& after.folds_honestly()
            &&& after.keeps_keys_under_their_groups()
            &&& forall|e: int| 0 <= e && s.shows(key, e) ==> #[trigger] after.leads(key, e)
        }),
    decreases key.segs.len() - d,
{
    let sep = s.tree.separator;
    let collapsed = s.tree.collapsed;
    let own = key.rows_from(sep, collapsed, d);
    let after = s.with_rows(rows + own);
    if d >= key.segs.len() - 1 {
        let row = Row::Key { depth: d as usize, index: key.index };
        let more = rows.push(row);
        assert(rows + own =~= more);
        assert forall|r: int|
            0 <= r < after.tree.rows.len() && (#[trigger] after.tree.rows[r]) is Group implies after.group_prefix(
            r,
        ) is Some && after.tree.rows[r]->expanded == !after.tree.collapsed.contains(
            after.group_prefix(r)->0,
        ) by {
            assert(r < rows.len());
            assert(rows[r] == more[r]);
            honesty_above(s, rows, row, r);
        }
        assert forall|r: int|
            0 <= r < after.tree.rows.len() implies #[trigger] after.keeps_under_its_group(r) by {
            if r < rows.len() {
                assert(s.with_rows(rows).keeps_under_its_group(r));
                a_row_below_keeps_the_keys(s, rows, row, r);
            } else {
                a_key_stands_under_its_group(s, rows, key, d);
            }
        }
        assert forall|e: int| 0 <= e && s.shows(key, e) implies #[trigger] after.leads(key, e) by {
            assert(s.with_rows(rows).leads(key, e));
            a_row_below_leads_on(s, rows, row, key, e);
        }
    } else {
        let group = group_of(s, key, d);
        let head = if key.starts(d) {
            seq![group]
        } else {
            Seq::empty()
        };
        let more = rows + head;
        if key.starts(d) {
            a_group_starts(s, rows, key, d);
            assert(more =~= rows.push(group));
        } else {
            a_group_goes_on(s, rows, key, d);
            assert(more =~= rows);
        }
        if group->expanded {
            assert(rows + own =~= more + key.rows_from(sep, collapsed, d + 1));
            if d + 1 < key.segs.len() - 1 {
                assert forall|f: int| 0 <= f < d + 1 implies !collapsed.contains(
                    #[trigger] tree::prefix_text(key.segs, sep, f),
                ) by {
                    assert(s.shows(key, d));
                }
                assert(s.shows(key, d + 1));
            }
            a_key_is_folded(s, more, key, d + 1);
        } else {
            assert(rows + own =~= more);
            assert forall|e: int| 0 <= e && s.shows(key, e) implies #[trigger] after.leads(
                key,
                e,
            ) by {
                if e > d {
                    assert(collapsed.contains(tree::prefix_text(key.segs, sep, d)));
                }
                assert(s.with_rows(more).leads(key, e));
            }
        }
    }
}

// ── The rows of a list ──────────────────────────────────────────────────────

/// Whether the keys of a list can be found in the arena.
pub open spec fn listable(keys: LoadedView, order: Seq<usize>) -> bool {
    &&& keys.wf()
    &&& keys.arena.len() < usize::MAX
    &&& view::indices_in(order, keys)
}

proof fn a_listed_key_stands(keys: LoadedView, sep: char, order: Seq<usize>, p: int)
    requires
        listable(keys, order),
        0 <= p < order.len(),
    ensures
        stands(keys, sep, tree::listed_key(keys, sep, order, p)),
{
    let key = tree::listed_key(keys, sep, order, p);
    let i = order[p] as int;
    assert(order[p] < keys.rows.len());
    let row = keys.rows[i];
    assert(row.offset + row.len <= keys.arena.len());
    let name = keys.arena.subrange(row.offset as int, row.offset + row.len);
    assert(view::name_or_empty(keys, i) == name);
    tree::segments_fill_the_name(name, sep);
    let n = key.segs.len() as int;
    few_segments(key.segs, sep, n);
    assert forall|d: int| 0 <= d < key.segs.len() implies {
        let start = key.offset + tree::segment_start(key.segs, sep, d);
        &&& 0 <= start <= usize::MAX
        &&& (#[trigger] key.segs[d]).len() <= usize::MAX
        &&& keys.slice(start, key.segs[d].len() as int) == Some(key.segs[d])
    } by {
        tree::a_segment_stands_at_its_start(name, sep, d);
        let start = tree::segment_start(key.segs, sep, d);
        assert(keys.arena.subrange(row.offset + start, row.offset + start + key.segs[d].len())
            =~= name.subrange(start, start + key.segs[d].len()));
    }
}

proof fn few_segments(segs: Seq<Seq<u8>>, sep: char, n: int)
    requires
        0 < n <= segs.len(),
    ensures
        n - 1 + text::bytes_of(sep).len() <= tree::segment_start(segs, sep, n),
    decreases n,
{
    text::a_character_has_bytes(sep);
    assert(tree::segment_start(segs, sep, 0) == 0);
    if n > 1 {
        few_segments(segs, sep, n - 1);
    }
}

proof fn prefixes_of_a_group_agree(a: Seq<Seq<u8>>, b: Seq<Seq<u8>>, sep: char, d: int, e: int)
    requires
        tree::same_group(a, b, d),
        e <= d,
    ensures
        tree::prefix_text(a, sep, e) == tree::prefix_text(b, sep, e),
        tree::prefix_bytes(a, sep, e) == tree::prefix_bytes(b, sep, e),
    decreases e + 1,
{
    if e >= 0 {
        prefixes_of_a_group_agree(a, b, sep, d, e - 1);
        assert(a[e] == b[e]);
    }
}

/// The rows that the first `n` keys of the list make.
pub open spec fn rows_of(s: StateView, order: Seq<usize>, n: int) -> Seq<Row> {
    tree::folded(s.keys, s.tree.separator, s.tree.collapsed, order, n)
}

/// The state of things before the rows of key `n` are put behind the others.
proof fn a_key_comes_next(s: StateView, order: Seq<usize>, n: int)
    requires
        listable(s.keys, order),
        0 <= n < order.len(),
    ensures
        underway(
            s,
            rows_of(s, order, n),
            tree::listed_key(s.keys, s.tree.separator, order, n),
            0,
        ),
    decreases n, 1int,
{
    let sep = s.tree.separator;
    let key = tree::listed_key(s.keys, sep, order, n);
    let rows = rows_of(s, order, n);
    let at = s.with_rows(rows);
    keys_are_folded(s, order, n);
    a_listed_key_stands(s.keys, sep, order, n);
    assert forall|e: int|
        0 <= e && key.before is Some && tree::same_group(key.before->0, key.segs, e) && at.shows(
            key,
            e,
        ) implies #[trigger] at.leads(key, e) by {
        let last = tree::listed_key(s.keys, sep, order, n - 1);
        assert(key.before->0 == last.segs);
        prefixes_of_a_group_agree(last.segs, key.segs, sep, e, e);
        assert forall|f: int| 0 <= f < e implies !s.tree.collapsed.contains(
            #[trigger] tree::prefix_text(last.segs, sep, f),
        ) by {
            prefixes_of_a_group_agree(last.segs, key.segs, sep, e, f);
            assert(at.shows(key, e));
            assert(at.tree.separator == sep);
            assert(!at.tree.collapsed.contains(
                tree::prefix_text(key.segs, at.tree.separator, f),
            ));
        }
        assert(s.shows(last, e));
        assert(at.leads(last, e));
    }
}

proof fn keys_are_folded(s: StateView, order: Seq<usize>, n: int)
    requires
        listable(s.keys, order),
        0 <= n <= order.len(),
    ensures
        s.with_rows(rows_of(s, order, n)).folds_honestly(),
        s.with_rows(rows_of(s, order, n)).keeps_keys_under_their_groups(),
        n > 0 ==> forall|e: int|
            0 <= e && s.shows(tree::listed_key(s.keys, s.tree.separator, order, n - 1), e)
                ==> #[trigger] s.with_rows(rows_of(s, order, n)).leads(
                tree::listed_key(s.keys, s.tree.separator, order, n - 1),
                e,
            ),
    decreases n, 0int,
{
    if n > 0 {
        let key = tree::listed_key(s.keys, s.tree.separator, order, n - 1);
        a_key_comes_next(s, order, n - 1);
        a_listed_key_stands(s.keys, s.tree.separator, order, n - 1);
        a_key_is_folded(s, rows_of(s, order, n - 1), key, 0);
    }
}

/// A group row stands for the prefix it is folded by: in a tree made from the
/// list, each group is expanded exactly if the prefix built from its row and
/// those above it is not collapsed, and no other row has a prefix.
pub proof fn a_group_row_stands_for_its_prefix(s: StateView)
    requires
        listable(s.keys, s.list.order),
        s.tree == s.tree.rebuilt(s.keys, s.list.order),
    ensures
        s.folds_honestly(),
        forall|r: int| #[trigger]
            s.group_prefix(r) is Some <==> s.tree.at(r) is Some && s.tree.at(r)->0 is Group,
{
    keys_are_folded(s, s.list.order, s.list.order.len() as int);
    assert(s.with_rows(rows_of(s, s.list.order, s.list.order.len() as int)) == s);
    assert forall|r: int| #[trigger]
        s.group_prefix(r) is Some <==> s.tree.at(r) is Some && s.tree.at(r)->0 is Group by {
        if s.tree.at(r) is Some && s.tree.at(r)->0 is Group {
            assert(s.tree.rows[r] is Group);
        }
    }
}

/// Whether `s` starts with `start`.
pub open spec fn starts_with<T>(s: Seq<T>, start: Seq<T>) -> bool {
    start.len() <= s.len() && s.take(start.len() as int) == start
}

/// The prefix of a group starts with that of every group it stands under.
proof fn prefixes_start_with_those_above(s: StateView, row: int, group: int)
    requires
        s.group_bytes(row) is Some,
        row == group || s.tree.under(row, group),
    ensures
        s.group_bytes(group) is Some,
        starts_with(s.group_bytes(row)->0, s.group_bytes(group)->0),
    decreases row,
{
    let bytes = s.group_bytes(row)->0;
    if row == group {
        assert(bytes.take(bytes.len() as int) =~= bytes);
    } else {
        let parent = s.tree.parent(row)->0;
        s.tree.parent_is_above(row);
        prefixes_start_with_those_above(s, parent, group);
        let above = s.group_bytes(parent)->0;
        let start = s.group_bytes(group)->0;
        assert(bytes.take(start.len() as int) =~= above.take(start.len() as int));
    }
}

/// A prefix ends in the separator.
proof fn prefixes_end_in_the_separator(s: StateView, row: int)
    requires
        s.group_bytes(row) is Some,
    ensures
        ({
            let bytes = s.group_bytes(row)->0;
            let mark = text::bytes_of(s.tree.separator);
            mark.len() <= bytes.len() && bytes.take(bytes.len() - mark.len()) + mark == bytes
        }),
{
    let bytes = s.group_bytes(row)->0;
    let mark = text::bytes_of(s.tree.separator);
    assert(bytes.take(bytes.len() - mark.len()) + mark =~= bytes);
}

/// Where the bytes of a prefix are UTF-8, the prefix is the text they encode.
pub proof fn a_prefix_reads_as_its_bytes(s: StateView, row: int)
    requires
        s.group_bytes(row) is Some,
        valid_utf8(s.group_bytes(row)->0),
    ensures
        s.group_prefix(row) == Some(decode_utf8(s.group_bytes(row)->0)),
    decreases row,
{
    let sep = s.tree.separator;
    let mark = text::bytes_of(sep);
    let name = s.group_name(row)->0;
    let bytes = s.group_bytes(row)->0;
    s.tree.parent_is_above(row);
    match s.tree.parent(row) {
        Some(parent) => {
            let above = s.group_bytes(parent)->0;
            assert(bytes =~= (above + name) + mark + Seq::empty());
            text::a_character_parts_a_text(above + name, sep, Seq::empty());
            prefixes_end_in_the_separator(s, parent);
            let head = above.take(above.len() - mark.len());
            assert(above + name =~= head + mark + name);
            text::a_character_parts_a_text(head, sep, name);
            a_prefix_reads_as_its_bytes(s, parent);
            assert(bytes =~= (above + name) + mark);
            assert(decode_utf8(above) + decode_utf8(name).push(sep) =~= (decode_utf8(above)
                + decode_utf8(name)).push(sep));
        },
        None => {
            assert(bytes =~= name + mark + Seq::empty());
            text::a_character_parts_a_text(name, sep, Seq::empty());
        },
    }
}

/// Where a name is text, a prefix that it starts with is text, and the name reads
/// so too.
proof fn a_prefix_of_a_text_is_text(s: StateView, group: int, name: Seq<u8>)
    requires
        s.group_bytes(group) is Some,
        starts_with(name, s.group_bytes(group)->0),
        valid_utf8(name),
    ensures
        valid_utf8(s.group_bytes(group)->0),
        s.group_prefix(group) == Some(decode_utf8(s.group_bytes(group)->0)),
        starts_with(decode_utf8(name), s.group_prefix(group)->0),
{
    let sep = s.tree.separator;
    let mark = text::bytes_of(sep);
    let bytes = s.group_bytes(group)->0;
    prefixes_end_in_the_separator(s, group);
    let head = bytes.take(bytes.len() - mark.len());
    let tail = name.skip(bytes.len() as int);
    assert(name =~= bytes + tail);
    text::a_character_parts_a_text(head, sep, tail);
    a_prefix_reads_as_its_bytes(s, group);
    assert(decode_utf8(name).take(decode_utf8(bytes).len() as int) =~= decode_utf8(bytes));
}

/// A key that stands under a group starts with the prefix of the nearest.
proof fn a_key_starts_with_the_prefix_above_it(s: StateView, row: int)
    requires
        s.keeps_keys_under_their_groups(),
        s.tree.key_at(row) is Some,
        s.tree.parent(row) is Some,
    ensures
        s.group_bytes(s.tree.parent(row)->0) is Some,
        s.keys.name(s.tree.key_at(row)->0 as int) is Some,
        starts_with(
            s.keys.name(s.tree.key_at(row)->0 as int)->0,
            s.group_bytes(s.tree.parent(row)->0)->0,
        ),
{
    let sep = s.tree.separator;
    assert(s.keeps_under_its_group(row));
    let index = s.tree.key_at(row)->0;
    let segs = tree::segments(s.keys, sep, index);
    if s.keys.name(index as int) is None {
        assert(segs.len() == 1);
    }
    let depth = s.tree.rows[row].level();
    tree::a_name_starts_with_its_prefixes(s.keys.name(index as int)->0, sep, depth as int);
}

/// Every key under a group starts with the group's prefix: its name does, byte
/// by byte, and where the name is UTF-8 its text starts with that of the prefix.
pub proof fn a_key_starts_with_the_prefix_of_its_group(s: StateView, row: int, group: int)
    requires
        listable(s.keys, s.list.order),
        s.tree == s.tree.rebuilt(s.keys, s.list.order),
        s.tree.key_at(row) is Some,
        s.tree.under(row, group),
    ensures
        s.group_bytes(group) is Some,
        s.group_prefix(group) is Some,
        s.keys.name(s.tree.key_at(row)->0 as int) is Some,
        ({
            let name = s.keys.name(s.tree.key_at(row)->0 as int)->0;
            let bytes = s.group_bytes(group)->0;
            &&& starts_with(name, bytes)
            &&& valid_utf8(name) ==> starts_with(decode_utf8(name), s.group_prefix(group)->0)
        }),
{
    let order = s.list.order;
    keys_are_folded(s, order, order.len() as int);
    assert(s.with_rows(rows_of(s, order, order.len() as int)) == s);
    a_group_row_stands_for_its_prefix(s);
    let parent = s.tree.parent(row)->0;
    a_key_starts_with_the_prefix_above_it(s, row);
    prefixes_start_with_those_above(s, parent, group);
    let name = s.keys.name(s.tree.key_at(row)->0 as int)->0;
    let whole = s.group_bytes(parent)->0;
    let bytes = s.group_bytes(group)->0;
    assert(name.take(bytes.len() as int) =~= whole.take(bytes.len() as int));
    assert(s.group_prefix(group) is Some) by {
        assert(s.group_name(group) is Some);
        assert(s.tree.at(group)->0 is Group);
    }
    if valid_utf8(name) {
        a_prefix_of_a_text_is_text(s, group, name);
    }
}

// ── Collapsing one group ────────────────────────────────────────────────────

/// The session with one more prefix collapsed, and nothing listed anew yet.
pub open spec fn collapsing(s: StateView, prefix: Seq<char>) -> StateView {
    StateView {
        tree: TreeModel { collapsed: s.tree.collapsed.insert(prefix), ..s.tree },
        ..s
    }
}

/// Whether no group row above row `r` stands for `prefix`.
pub open spec fn first_at(s: StateView, prefix: Seq<char>, r: int) -> bool {
    forall|q: int|
        0 <= q < r && (#[trigger] s.tree.rows[q]) is Group ==> s.group_prefix(q) != Some(prefix)
}

proof fn rows_only_grow(s: StateView, order: Seq<usize>, n: int, m: int)
    requires
        0 <= n <= m,
    ensures
        rows_of(s, order, n).len() <= rows_of(s, order, m).len(),
        rows_of(s, order, m).take(rows_of(s, order, n).len() as int) == rows_of(s, order, n),
    decreases m - n,
{
    let small = rows_of(s, order, n);
    let big = rows_of(s, order, m);
    if n < m {
        rows_only_grow(s, order, n, m - 1);
        let mid = rows_of(s, order, m - 1);
        assert(big.take(small.len() as int) =~= mid.take(small.len() as int));
    } else {
        assert(big.take(big.len() as int) =~= big);
    }
}

/// A prefix read off the first rows is that read off all of them.
proof fn prefixes_of_the_first_rows(s: StateView, all: Seq<Row>, n: int, row: int)
    requires
        0 <= row < n <= all.len(),
    ensures
        s.with_rows(all.take(n)).group_prefix(row) == s.with_rows(all).group_prefix(row),
{
    assert(all =~= all.take(n) + all.skip(n));
    a_row_below_changes_no_prefix(s, all.take(n), all.skip(n), row);
}

/// What leads to a key does not stand for `prefix`, as long as it is above the
/// first row that does.
proof fn what_leads_is_another(
    s: StateView,
    all: Seq<Row>,
    n: int,
    key: Listed,
    e: int,
    prefix: Seq<char>,
    r: int,
)
    requires
        0 <= n <= r <= all.len(),
        first_at(s.with_rows(all), prefix, r),
        s.with_rows(all.take(n)).leads(key, e),
    ensures
        tree::prefix_text(key.segs, s.tree.separator, e) != prefix,
{
    let at = s.with_rows(all.take(n));
    at.tree.group_above_is_above(n, e);
    let g = at.tree.group_above(n, e)->0;
    assert(at.tree.is_group(g, e));
    assert(all.take(n)[g] == all[g]);
    assert(s.with_rows(all).tree.rows[g] is Group);
    prefixes_of_the_first_rows(s, all, n, g);
}

/// A key none of whose groups on screen is collapsed makes the rows it made.
proof fn other_keys_fold_alike(s: StateView, key: Listed, prefix: Seq<char>, d: int)
    requires
        0 <= d < key.segs.len(),
        d < key.segs.len() - 1 ==> s.shows(key, d),
        forall|e: int|
            d <= e && #[trigger] s.shows(key, e) ==> tree::prefix_text(
                key.segs,
                s.tree.separator,
                e,
            ) != prefix,
    ensures
        key.rows_from(s.tree.separator, s.tree.collapsed, d) == key.rows_from(
            s.tree.separator,
            s.tree.collapsed.insert(prefix),
            d,
        ),
    decreases key.segs.len() - d,
{
    if d < key.segs.len() - 1 {
        assert(s.shows(key, d));
        if !s.tree.collapsed.contains(tree::prefix_text(key.segs, s.tree.separator, d)) {
            if d + 1 < key.segs.len() - 1 {
                it_shows_one_more(s, key, d);
            }
            other_keys_fold_alike(s, key, prefix, d + 1);
        }
    }
}

proof fn it_shows_one_more(s: StateView, key: Listed, d: int)
    requires
        s.shows(key, d),
        d + 1 < key.segs.len() - 1,
        !s.tree.collapsed.contains(tree::prefix_text(key.segs, s.tree.separator, d)),
    ensures
        s.shows(key, d + 1),
{
    assert forall|f: int| 0 <= f < d + 1 implies !s.tree.collapsed.contains(
        #[trigger] tree::prefix_text(key.segs, s.tree.separator, f),
    ) by {
        if f < d {
            assert(s.shows(key, d));
        }
    }
}

/// The keys whose rows are all above the group make the rows they made.
proof fn keys_above_fold_alike(
    s: StateView,
    order: Seq<usize>,
    prefix: Seq<char>,
    r: int,
    n: int,
)
    requires
        listable(s.keys, order),
        0 <= n <= order.len(),
        rows_of(s, order, n).len() <= r <= rows_of(s, order, order.len() as int).len(),
        first_at(s.with_rows(rows_of(s, order, order.len() as int)), prefix, r),
    ensures
        rows_of(collapsing(s, prefix), order, n) == rows_of(s, order, n),
    decreases n,
{
    if n > 0 {
        let all = rows_of(s, order, order.len() as int);
        let key = tree::listed_key(s.keys, s.tree.separator, order, n - 1);
        let len = rows_of(s, order, n).len() as int;
        rows_only_grow(s, order, n - 1, n);
        rows_only_grow(s, order, n, order.len() as int);
        keys_above_fold_alike(s, order, prefix, r, n - 1);
        keys_are_folded(s, order, n);
        a_key_comes_next(s, order, n - 1);
        assert forall|e: int| 0 <= e && #[trigger] s.shows(key, e) implies tree::prefix_text(
            key.segs,
            s.tree.separator,
            e,
        ) != prefix by {
            assert(s.with_rows(rows_of(s, order, n)).leads(key, e));
            what_leads_is_another(s, all, len, key, e, prefix, r);
        }
        other_keys_fold_alike(s, key, prefix, 0);
    }
}

/// The key that the group's row belongs to: the rows above are as they were, the
/// group is collapsed, and the key makes no more rows.
proof fn the_groups_key_stops_there(
    s: StateView,
    all: Seq<Row>,
    rows: Seq<Row>,
    key: Listed,
    d: int,
    prefix: Seq<char>,
    r: int,
)
    requires
        underway(s, rows, key, d),
        stands(s.keys, s.tree.separator, key),
        rows.len() <= r < rows.len() + key.rows_from(
            s.tree.separator,
            s.tree.collapsed,
            d,
        ).len() <= all.len(),
        rows + key.rows_from(s.tree.separator, s.tree.collapsed, d) == all.take(
            rows.len() as int + key.rows_from(s.tree.separator, s.tree.collapsed, d).len(),
        ),
        first_at(s.with_rows(all), prefix, r),
        all[r] is Group,
        s.with_rows(all).group_prefix(r) == Some(prefix),
        !s.tree.collapsed.contains(prefix),
    ensures
        ({
            let after = rows + key.rows_from(
                s.tree.separator,
                s.tree.collapsed.insert(prefix),
                d,
            );
            &&& after.len() == r + 1
            &&& after.take(r) == all.take(r)
            &&& alike(after[r], all[r])
            &&& after[r] is Group
            &&& !(after[r]->expanded)
        }),
    decreases key.segs.len() - d,
{
    let sep = s.tree.separator;
    let collapsed = s.tree.collapsed;
    let own = key.rows_from(sep, collapsed, d);
    let now = key.rows_from(sep, collapsed.insert(prefix), d);
    let n = rows.len() as int;
    assert(all.take(n) =~= rows) by {
        assert(all.take(n + own.len()).take(n) =~= all.take(n));
        assert((rows + own).take(n) =~= rows);
    }
    assert(all.take(n + own.len())[r] == all[r]);
    assert((rows + own)[r] == own[r - n]);
    if d >= key.segs.len() - 1 {
        assert(own[0] is Key);
        assert(false);
    } else {
        let group = group_of(s, key, d);
        let text = tree::prefix_text(key.segs, sep, d);
        if key.starts(d) {
            a_group_starts(s, rows, key, d);
            let more = rows.push(group);
            assert(own[0] == group);
            assert(all.take(n + own.len())[n] == all[n]);
            assert((rows + own)[n] == own[0]);
            assert(all.take(n + 1) =~= more);
            prefixes_of_the_first_rows(s, all, n + 1, n);
            assert(s.with_rows(all).group_prefix(n) == Some(text));
            if n == r {
                assert(text == prefix);
                let shut = key.group_row(sep, collapsed.insert(prefix), d);
                assert(now =~= seq![shut]);
                assert(rows + now =~= rows.push(shut));
                assert((rows + now).take(r) =~= all.take(r));
            } else {
                assert(s.with_rows(all).tree.rows[n] is Group);
                assert(text != prefix);
                if group->expanded {
                    let rest = key.rows_from(sep, collapsed, d + 1);
                    if d + 1 < key.segs.len() - 1 {
                        it_shows_one_more(s, key, d);
                    }
                    assert(more + rest =~= rows + own);
                    the_groups_key_stops_there(s, all, more, key, d + 1, prefix, r);
                    assert(more + key.rows_from(sep, collapsed.insert(prefix), d + 1) =~= rows
                        + now);
                } else {
                    assert(own =~= seq![group]);
                    assert(false);
                }
            }
        } else {
            a_group_goes_on(s, rows, key, d);
            what_leads_is_another(s, all, n, key, d, prefix, r);
            if group->expanded {
                let rest = key.rows_from(sep, collapsed, d + 1);
                if d + 1 < key.segs.len() - 1 {
                    it_shows_one_more(s, key, d);
                }
                assert(own =~= rest);
                the_groups_key_stops_there(s, all, rows, key, d + 1, prefix, r);
                assert(now =~= key.rows_from(sep, collapsed.insert(prefix), d + 1));
            } else {
                assert(own.len() == 0);
                assert(false);
            }
        }
    }
}

/// A key whose group starts with it adds a row.
proof fn a_starting_group_has_a_row(key: Listed, sep: char, collapsed: Set<Seq<char>>, d: int)
    requires
        0 <= d < key.segs.len(),
        d < key.segs.len() - 1 ==> key.starts(d),
    ensures
        key.rows_from(sep, collapsed, d).len() > 0,
        key.rows_from(sep, collapsed, d)[0].level() == d as usize,
{
}

/// An expanded group is followed by what stands under it.
proof fn an_expanded_group_is_not_last(
    key: Listed,
    sep: char,
    collapsed: Set<Seq<char>>,
    d: int,
    i: int,
)
    requires
        0 <= d < key.segs.len() <= usize::MAX,
        0 <= i < key.rows_from(sep, collapsed, d).len(),
        key.rows_from(sep, collapsed, d)[i] is Group,
        key.rows_from(sep, collapsed, d)[i]->expanded,
    ensures
        i + 1 < key.rows_from(sep, collapsed, d).len(),
        key.rows_from(sep, collapsed, d)[i + 1].level() == key.rows_from(
            sep,
            collapsed,
            d,
        )[i].level() + 1,
    decreases key.segs.len() - d,
{
    if d < key.segs.len() - 1 {
        let group = key.group_row(sep, collapsed, d);
        let rest = key.rows_from(sep, collapsed, d + 1);
        if key.starts(d) && i == 0 {
            if d + 1 < key.segs.len() - 1 && key.before is Some {
                assert(tree::same_group(key.before->0, key.segs, d + 1) ==> tree::same_group(
                    key.before->0,
                    key.segs,
                    d,
                ));
            }
            a_starting_group_has_a_row(key, sep, collapsed, d + 1);
            assert(key.rows_from(sep, collapsed, d) =~= seq![group] + rest);
        } else if group->expanded {
            if key.starts(d) {
                assert(key.rows_from(sep, collapsed, d) =~= seq![group] + rest);
                an_expanded_group_is_not_last(key, sep, collapsed, d + 1, i - 1);
            } else {
                assert(key.rows_from(sep, collapsed, d) =~= rest);
                an_expanded_group_is_not_last(key, sep, collapsed, d + 1, i);
            }
        }
    }
}

/// Collapsing a group adds no row to any key.
proof fn collapsing_adds_no_row(
    key: Listed,
    sep: char,
    collapsed: Set<Seq<char>>,
    prefix: Seq<char>,
    d: int,
)
    requires
        0 <= d,
    ensures
        key.rows_from(sep, collapsed.insert(prefix), d).len() <= key.rows_from(
            sep,
            collapsed,
            d,
        ).len(),
    decreases key.segs.len() - d,
{
    if d < key.segs.len() - 1 {
        collapsing_adds_no_row(key, sep, collapsed, prefix, d + 1);
    }
}

/// The keys from the `m`th on make no more rows than they made.
proof fn later_keys_make_no_more_rows(
    s: StateView,
    order: Seq<usize>,
    prefix: Seq<char>,
    m: int,
    n: int,
)
    requires
        0 <= m <= n,
    ensures
        rows_of(collapsing(s, prefix), order, n).len() - rows_of(
            collapsing(s, prefix),
            order,
            m,
        ).len() <= rows_of(s, order, n).len() - rows_of(s, order, m).len(),
    decreases n - m,
{
    if m < n {
        later_keys_make_no_more_rows(s, order, prefix, m, n - 1);
        let key = tree::listed_key(s.keys, s.tree.separator, order, n - 1);
        collapsing_adds_no_row(key, s.tree.separator, s.tree.collapsed, prefix, 0);
    }
}

/// Which key the row `r` belongs to.
proof fn the_key_of_a_row(s: StateView, order: Seq<usize>, r: int, n: int) -> (m: int)
    requires
        0 <= r < rows_of(s, order, n).len(),
        0 <= n,
    ensures
        0 <= m < n,
        rows_of(s, order, m).len() <= r < rows_of(s, order, m + 1).len(),
    decreases n,
{
    if r < rows_of(s, order, n - 1).len() {
        the_key_of_a_row(s, order, r, n - 1)
    } else {
        n - 1
    }
}

/// The row that follows an expanded group belongs to the same key.
proof fn an_expanded_group_stays_in_its_key(s: StateView, order: Seq<usize>, m: int, r: int)
    requires
        listable(s.keys, order),
        0 <= m < order.len(),
        rows_of(s, order, m).len() <= r < rows_of(s, order, m + 1).len(),
        rows_of(s, order, m + 1)[r] matches Row::Group { expanded: true, .. },
    ensures
        r + 1 < rows_of(s, order, m + 1).len(),
        rows_of(s, order, m + 1)[r + 1].level() == rows_of(s, order, m + 1)[r].level() + 1,
{
    let sep = s.tree.separator;
    let key = tree::listed_key(s.keys, sep, order, m);
    a_listed_key_stands(s.keys, sep, order, m);
    let before = rows_of(s, order, m);
    let own = key.rows_from(sep, s.tree.collapsed, 0);
    assert(rows_of(s, order, m + 1) == before + own);
    an_expanded_group_is_not_last(key, sep, s.tree.collapsed, 0, r - before.len());
}

/// In a tree made from the list, an expanded group is followed by a row that
/// stands right under it.
proof fn an_expanded_group_has_a_child(s: StateView, order: Seq<usize>, r: int)
    requires
        listable(s.keys, order),
        s.tree.rows == rows_of(s, order, order.len() as int),
        s.tree.at(r) matches Some(Row::Group { expanded: true, .. }),
    ensures
        r + 1 < s.tree.rows.len(),
        s.tree.parent(r + 1) == Some(r),
{
    let n = order.len() as int;
    let all = rows_of(s, order, n);
    let m = the_key_of_a_row(s, order, r, n);
    rows_only_grow(s, order, m + 1, n);
    let some = rows_of(s, order, m + 1);
    assert(all.take(some.len() as int)[r] == all[r]);
    an_expanded_group_stays_in_its_key(s, order, m, r);
    assert(all.take(some.len() as int)[r + 1] == all[r + 1]);
    assert(s.tree.is_group(r, all[r].level() as int));
}

/// Collapsing a group changes no row above it and leaves the group where it is,
/// collapsed, with fewer rows below.
proof fn collapsing_keeps_the_rows_above(
    s: StateView,
    order: Seq<usize>,
    prefix: Seq<char>,
    r: int,
)
    requires
        listable(s.keys, order),
        0 <= r < rows_of(s, order, order.len() as int).len(),
        rows_of(s, order, order.len() as int)[r] is Group,
        s.with_rows(rows_of(s, order, order.len() as int)).group_prefix(r) == Some(prefix),
        first_at(s.with_rows(rows_of(s, order, order.len() as int)), prefix, r),
        !s.tree.collapsed.contains(prefix),
    ensures
        ({
            let all = rows_of(s, order, order.len() as int);
            let after = rows_of(collapsing(s, prefix), order, order.len() as int);
            &&& r < after.len()
            &&& after.take(r) == all.take(r)
            &&& alike(after[r], all[r])
            &&& after[r] is Group
            &&& !(after[r]->expanded)
            &&& after.len() < all.len()
        }),
{
    let n = order.len() as int;
    let all = rows_of(s, order, n);
    let t = collapsing(s, prefix);
    let m = the_key_of_a_row(s, order, r, n);
    let key = tree::listed_key(s.keys, s.tree.separator, order, m);
    keys_above_fold_alike(s, order, prefix, r, m);
    a_key_comes_next(s, order, m);
    a_listed_key_stands(s.keys, s.tree.separator, order, m);
    rows_only_grow(s, order, m + 1, n);
    the_groups_key_stops_there(s, all, rows_of(s, order, m), key, 0, prefix, r);
    rows_only_grow(t, order, m + 1, n);
    let some = rows_of(t, order, m + 1);
    let after = rows_of(t, order, n);
    let at = s.with_rows(all);
    keys_are_folded(s, order, n);
    assert(at.tree.rows[r] is Group);
    an_expanded_group_stays_in_its_key(s, order, m, r);
    later_keys_make_no_more_rows(s, order, prefix, m + 1, n);
    assert(after.take(r) =~= after.take(some.len() as int).take(r));
    assert(after[r] == after.take(some.len() as int)[r]);
}

/// Whether the list and the tree are as they are made from the keys.
pub open spec fn freshly_listed(s: StateView) -> bool {
    s.tree_mode && s.relisted() == s
}

/// Listing the keys anew in the tree leaves the list and the tree as they are
/// made from the keys, and moving the cursor about keeps them so.
pub proof fn a_rebuilt_tree_is_freshly_listed(s: StateView)
    requires
        s.tree_mode,
    ensures
        freshly_listed(s.rebuilt()),
        freshly_listed(s) ==> freshly_listed(s.after_move().0),
{
}

/// Collapsing a group and expanding it again are one operation done twice: from
/// the row of an expanded group, closing it leaves the cursor on that row with
/// the group collapsed and the tree shorter, and opening it there leaves the
/// tree, the list and the cursor as they were. Left out is a group whose prefix
/// reads the same as that of a group above it, as it may where names are not text; where they are, none
/// does ([`groups_of_text_are_told_apart`]).
pub proof fn collapsing_and_expanding_is_no_change(s: StateView)
    requires
        freshly_listed(s),
        listable(s.keys, s.list.order),
        !s.cursor_active(),
        s.tree.at(s.view.selected as int) matches Some(Row::Group { expanded: true, .. }),
        first_at(
            s,
            s.group_prefix(s.view.selected as int)->0,
            s.view.selected as int,
        ),
    ensures
        ({
            let closed = s.row_closed().0;
            let opened = closed.row_opened().0;
            let r = s.view.selected;
            &&& closed.view.selected == r
            &&& closed.tree.at(r as int) matches Some(Row::Group { expanded: false, .. })
            &&& closed.tree.rows.len() < s.tree.rows.len()
            &&& opened.view.selected == r
            &&& opened.tree == s.tree
            &&& opened.list == s.list
        }),
{
    let order = s.list.order;
    let r = s.view.selected as int;
    let all = rows_of(s, order, order.len() as int);
    assert(s.tree.rows == all);
    assert(s.with_rows(all) == s);
    a_group_row_stands_for_its_prefix(s);
    assert(s.tree.rows[r] is Group);
    let prefix = s.group_prefix(r)->0;
    assert(!s.tree.collapsed.contains(prefix));
    collapsing_keeps_the_rows_above(s, order, prefix, r);
    let toggled = StateView { tree: s.tree.toggled(prefix), ..s };
    assert(toggled == collapsing(s, prefix));
    let closed = s.row_closed().0;
    let now = rows_of(collapsing(s, prefix), order, order.len() as int);
    assert(toggled.relisted().tree.rows == now);
    assert(closed.tree.rows == now);
    assert(closed.keys == s.keys);
    assert forall|q: int| 0 <= q <= r implies alike(
        #[trigger] closed.tree.rows[q],
        s.tree.rows[q],
    ) by {
        if q < r {
            assert(now.take(r)[q] == all.take(r)[q]);
        }
    }
    prefixes_agree(closed, s, r);
    assert(closed.group_prefix(r) == Some(prefix));
    let again = StateView { tree: closed.tree.toggled(prefix), ..closed };
    assert(again.tree.collapsed =~= s.tree.collapsed);
    assert(again.relisted().tree.rows == all);
    assert(closed.row_opened() == closed.refolded(r).after_move());
}

/// Opening a group that is expanded never collapses it: the cursor steps to the
/// next row, which is the first that stands under the group.
pub proof fn an_expanded_group_is_stepped_into(s: StateView)
    requires
        freshly_listed(s),
        listable(s.keys, s.list.order),
        !s.cursor_active(),
        s.tree.at(s.view.selected as int) matches Some(Row::Group { expanded: true, .. }),
        s.tree.rows.len() <= usize::MAX,
    ensures
        ({
            let opened = s.row_opened().0;
            let r = s.view.selected;
            &&& opened.view.selected == r + 1
            &&& opened.tree == s.tree
            &&& opened.list == s.list
            &&& s.tree.parent(r + 1) == Some(r as int)
        }),
{
    an_expanded_group_has_a_child(s, s.list.order, s.view.selected as int);
}

/// Where no group row stands for a prefix, collapsing it changes no row.
proof fn an_unseen_prefix_changes_no_row(s: StateView, order: Seq<usize>, prefix: Seq<char>)
    requires
        listable(s.keys, order),
        first_at(
            s.with_rows(rows_of(s, order, order.len() as int)),
            prefix,
            rows_of(s, order, order.len() as int).len() as int,
        ),
    ensures
        rows_of(collapsing(s, prefix), order, order.len() as int) == rows_of(
            s,
            order,
            order.len() as int,
        ),
{
    let n = order.len() as int;
    keys_above_fold_alike(s, order, prefix, rows_of(s, order, n).len() as int, n);
}

/// The first group row that stands for a prefix, or the end of the rows.
proof fn the_first_row_of_a_prefix(s: StateView, prefix: Seq<char>, upto: int) -> (r: int)
    requires
        0 <= upto <= s.tree.rows.len(),
    ensures
        0 <= r <= upto,
        first_at(s, prefix, r),
        r < upto ==> s.tree.rows[r] is Group && s.group_prefix(r) == Some(prefix),
    decreases upto,
{
    if upto == 0 {
        0
    } else {
        let r = the_first_row_of_a_prefix(s, prefix, upto - 1);
        if r < upto - 1 {
            r
        } else if s.tree.rows[upto - 1] is Group && s.group_prefix(upto - 1) == Some(prefix) {
            upto - 1
        } else {
            upto
        }
    }
}

/// Expanding a group changes no row above it either.
proof fn expanding_keeps_the_rows_above(s: StateView, order: Seq<usize>, prefix: Seq<char>, r: int)
    requires
        listable(s.keys, order),
        !s.tree.collapsed.contains(prefix),
        ({
            let shut = rows_of(collapsing(s, prefix), order, order.len() as int);
            &&& 0 <= r < shut.len()
            &&& shut[r] is Group
            &&& collapsing(s, prefix).with_rows(shut).group_prefix(r) == Some(prefix)
            &&& first_at(collapsing(s, prefix).with_rows(shut), prefix, r)
        }),
    ensures
        ({
            let all = rows_of(s, order, order.len() as int);
            let shut = rows_of(collapsing(s, prefix), order, order.len() as int);
            &&& r < all.len()
            &&& shut.take(r) == all.take(r)
            &&& alike(shut[r], all[r])
            &&& all[r] is Group
            &&& all[r]->expanded
        }),
{
    let n = order.len() as int;
    let all = rows_of(s, order, n);
    let t = collapsing(s, prefix);
    let shut = rows_of(t, order, n);
    let open = s.with_rows(all);
    let closed = t.with_rows(shut);
    let first = the_first_row_of_a_prefix(open, prefix, all.len() as int);
    keys_are_folded(s, order, n);
    if first == all.len() {
        an_unseen_prefix_changes_no_row(s, order, prefix);
        assert forall|q: int| 0 <= q <= r implies alike(
            #[trigger] open.tree.rows[q],
            closed.tree.rows[q],
        ) by {}
        prefixes_agree(open, closed, r);
        assert(open.tree.rows[r] is Group);
        assert(false);
    } else {
        collapsing_keeps_the_rows_above(s, order, prefix, first);
        assert forall|q: int| 0 <= q <= first implies alike(
            #[trigger] open.tree.rows[q],
            closed.tree.rows[q],
        ) by {
            if q < first {
                assert(shut.take(first)[q] == all.take(first)[q]);
            }
        }
        prefixes_agree(open, closed, first);
        if first < r {
            assert(closed.tree.rows[first] is Group);
            assert(false);
        } else if r < first {
            assert(shut.take(first)[r] == all.take(first)[r]);
            prefixes_agree(open, closed, r);
            assert(open.tree.rows[r] is Group);
            assert(false);
        }
    }
}

/// Folding a group changes neither its row nor its prefix: collapsed or expanded
/// again, the row still stands for the same prefix, so that it can be folded
/// back from there. Left out is a group whose prefix reads the same as that of a
/// group above it, as it may where names are not text; where they are, none does
/// ([`groups_of_text_are_told_apart`]).
pub proof fn folding_a_group_keeps_its_prefix(s: StateView, row: int)
    requires
        freshly_listed(s),
        listable(s.keys, s.list.order),
        s.tree.at(row) is Some,
        s.tree.at(row)->0 is Group,
        first_at(s, s.group_prefix(row)->0, row),
    ensures
        s.group_prefix(row) is Some,
        ({
            let folded = s.refolded(row);
            &&& folded.group_prefix(row) == s.group_prefix(row)
            &&& folded.group_bytes(row) == s.group_bytes(row)
            &&& folded.tree.at(row) is Some
            &&& alike(folded.tree.at(row)->0, s.tree.at(row)->0)
            &&& folded.tree.at(row)->0->expanded == !(s.tree.at(row)->0->expanded)
        }),
{
    let order = s.list.order;
    let n = order.len() as int;
    let all = rows_of(s, order, n);
    assert(s.tree.rows == all);
    assert(s.with_rows(all) == s);
    a_group_row_stands_for_its_prefix(s);
    assert(s.tree.rows[row] is Group);
    let prefix = s.group_prefix(row)->0;
    let folded = s.refolded(row);
    let toggled = StateView { tree: s.tree.toggled(prefix), ..s };
    let now = rows_of(toggled, order, n);
    assert(toggled.relisted().tree.rows == now);
    assert(folded.tree.rows == now);
    if s.tree.collapsed.contains(prefix) {
        assert(collapsing(toggled, prefix).tree.collapsed =~= s.tree.collapsed);
        assert(collapsing(toggled, prefix) == s);
        expanding_keeps_the_rows_above(toggled, order, prefix, row);
    } else {
        assert(toggled == collapsing(s, prefix));
        collapsing_keeps_the_rows_above(s, order, prefix, row);
    }
    assert forall|q: int| 0 <= q <= row implies alike(
        #[trigger] folded.tree.rows[q],
        s.tree.rows[q],
    ) by {
        if q < row {
            assert(now.take(row)[q] == all.take(row)[q]);
        }
    }
    prefixes_agree(folded, s, row);
}

// ── Groups of text are told apart ───────────────────────────────────────────

/// Which of a key's groups a row of it stands for.
proof fn a_row_stands_for_a_group_of_its_key(
    s: StateView,
    rows: Seq<Row>,
    key: Listed,
    d: int,
    r: int,
) -> (e: int)
    requires
        underway(s, rows, key, d),
        stands(s.keys, s.tree.separator, key),
        ({
            let all = rows + key.rows_from(s.tree.separator, s.tree.collapsed, d);
            rows.len() <= r < all.len() && all[r] is Group
        }),
    ensures
        d <= e < key.segs.len() - 1,
        key.starts(e),
        ({
            let all = rows + key.rows_from(s.tree.separator, s.tree.collapsed, d);
            &&& all[r].level() == e
            &&& s.with_rows(all).group_bytes(r) == Some(
                tree::prefix_bytes(key.segs, s.tree.separator, e),
            )
        }),
    decreases key.segs.len() - d,
{
    let sep = s.tree.separator;
    let collapsed = s.tree.collapsed;
    let own = key.rows_from(sep, collapsed, d);
    let all = rows + own;
    let n = rows.len() as int;
    assert(all[r] == own[r - n]);
    if d >= key.segs.len() - 1 {
        assert(own[0] is Key);
        d
    } else {
        let group = group_of(s, key, d);
        let rest = key.rows_from(sep, collapsed, d + 1);
        let more = if key.starts(d) {
            rows.push(group)
        } else {
            rows
        };
        if key.starts(d) {
            a_group_starts(s, rows, key, d);
            assert(s.with_rows(more).leads(key, d));
            s.with_rows(more).tree.group_above_is_above(n + 1, d);
            assert(s.with_rows(more).tree.is_group(n, d));
            assert(s.with_rows(more).tree.group_above(n + 1, d) == Some(n));
        } else {
            a_group_goes_on(s, rows, key, d);
        }
        if key.starts(d) && r == n {
            let below = all.skip(n + 1);
            assert(own[0] == group);
            assert(all =~= more + below);
            a_row_below_changes_no_prefix(s, more, below, n);
            d
        } else {
            if group->expanded {
                if d + 1 < key.segs.len() - 1 {
                    it_shows_one_more(s, key, d);
                }
                assert(more + rest =~= all);
            } else {
                assert(more =~= all);
                assert(false);
            }
            a_row_stands_for_a_group_of_its_key(s, more, key, d + 1, r)
        }
    }
}

/// Whether the names that are listed are text.
pub open spec fn lists_text(s: StateView) -> bool {
    forall|p: int|
        0 <= p < s.list.order.len() ==> valid_utf8(
            view::name_or_empty(s.keys, #[trigger] s.list.order[p] as int),
        )
}

/// The key and the group of it that a row of the tree stands for.
proof fn a_row_of_the_tree_stands_for_a_group(s: StateView, r: int) -> (found: (int, int))
    requires
        listable(s.keys, s.list.order),
        s.tree == s.tree.rebuilt(s.keys, s.list.order),
        0 <= r < s.tree.rows.len(),
        s.tree.rows[r] is Group,
    ensures
        ({
            let (m, e) = found;
            let key = tree::listed_key(s.keys, s.tree.separator, s.list.order, m);
            &&& 0 <= m < s.list.order.len()
            &&& rows_of(s, s.list.order, m).len() <= r < rows_of(s, s.list.order, m + 1).len()
            &&& 0 <= e < key.segs.len() - 1
            &&& key.starts(e)
            &&& s.tree.rows[r].level() == e
            &&& s.group_bytes(r) == Some(tree::prefix_bytes(key.segs, s.tree.separator, e))
        }),
{
    let order = s.list.order;
    let n = order.len() as int;
    let sep = s.tree.separator;
    let all = rows_of(s, order, n);
    assert(s.tree.rows == all);
    assert(s.with_rows(all) == s);
    let m = the_key_of_a_row(s, order, r, n);
    let key = tree::listed_key(s.keys, sep, order, m);
    a_key_comes_next(s, order, m);
    a_listed_key_stands(s.keys, sep, order, m);
    rows_only_grow(s, order, m + 1, n);
    let some = rows_of(s, order, m + 1);
    let k = some.len() as int;
    assert(all.take(k)[r] == all[r]);
    let e = a_row_stands_for_a_group_of_its_key(s, rows_of(s, order, m), key, 0, r);
    assert(all =~= all.take(k) + all.skip(k));
    a_row_below_changes_no_prefix(s, all.take(k), all.skip(k), r);
    (m, e)
}

/// A deeper prefix is longer.
proof fn prefixes_grow(segs: Seq<Seq<u8>>, sep: char, d: int, e: int)
    requires
        -1 <= d < e,
    ensures
        tree::prefix_bytes(segs, sep, d).len() < tree::prefix_bytes(segs, sep, e).len(),
    decreases e,
{
    text::a_character_has_bytes(sep);
    if d < e - 1 {
        prefixes_grow(segs, sep, d, e - 1);
    }
}

/// Within the rows of one key, each group stands above those under it.
proof fn deeper_groups_stand_lower(
    key: Listed,
    sep: char,
    collapsed: Set<Seq<char>>,
    d: int,
    i: int,
    j: int,
)
    requires
        0 <= d < key.segs.len() <= usize::MAX,
        0 <= i < j < key.rows_from(sep, collapsed, d).len(),
    ensures
        d <= key.rows_from(sep, collapsed, d)[i].level() < key.rows_from(
            sep,
            collapsed,
            d,
        )[j].level(),
    decreases key.segs.len() - d,
{
    if d < key.segs.len() - 1 {
        let group = key.group_row(sep, collapsed, d);
        let rest = key.rows_from(sep, collapsed, d + 1);
        let own = key.rows_from(sep, collapsed, d);
        if key.starts(d) {
            assert(group->expanded);
            assert(own =~= seq![group] + rest);
            if i > 0 {
                deeper_groups_stand_lower(key, sep, collapsed, d + 1, i - 1, j - 1);
            } else {
                rows_are_as_deep(key, sep, collapsed, d + 1, j - 1);
            }
        } else {
            assert(own =~= rest);
            deeper_groups_stand_lower(key, sep, collapsed, d + 1, i, j);
        }
    }
}

proof fn rows_are_as_deep(key: Listed, sep: char, collapsed: Set<Seq<char>>, d: int, i: int)
    requires
        0 <= d < key.segs.len() <= usize::MAX,
        0 <= i < key.rows_from(sep, collapsed, d).len(),
    ensures
        d <= key.rows_from(sep, collapsed, d)[i].level(),
    decreases key.segs.len() - d,
{
    if d < key.segs.len() - 1 {
        let group = key.group_row(sep, collapsed, d);
        let rest = key.rows_from(sep, collapsed, d + 1);
        let own = key.rows_from(sep, collapsed, d);
        if group->expanded {
            if key.starts(d) {
                assert(own =~= seq![group] + rest);
                if i > 0 {
                    rows_are_as_deep(key, sep, collapsed, d + 1, i - 1);
                }
            } else {
                assert(own =~= rest);
                rows_are_as_deep(key, sep, collapsed, d + 1, i);
            }
        }
    }
}

/// Two groups of one key are of different depths.
proof fn groups_of_one_key_differ(s: StateView, m: int, q: int, r: int)
    requires
        listable(s.keys, s.list.order),
        0 <= m < s.list.order.len(),
        s.tree.rows == rows_of(s, s.list.order, s.list.order.len() as int),
        rows_of(s, s.list.order, m).len() <= q < r < rows_of(s, s.list.order, m + 1).len(),
        r < s.tree.rows.len(),
    ensures
        s.tree.rows[q].level() < s.tree.rows[r].level(),
{
    let order = s.list.order;
    let sep = s.tree.separator;
    let key = tree::listed_key(s.keys, sep, order, m);
    a_listed_key_stands(s.keys, sep, order, m);
    let before = rows_of(s, order, m);
    let some = rows_of(s, order, m + 1);
    rows_only_grow(s, order, m + 1, order.len() as int);
    assert(s.tree.rows.take(some.len() as int) == some);
    assert(some[q] == s.tree.rows[q]);
    assert(some[r] == s.tree.rows[r]);
    deeper_groups_stand_lower(
        key,
        sep,
        s.tree.collapsed,
        0,
        q - before.len(),
        r - before.len(),
    );
}

/// A group that starts with a key is not one that an earlier key stands under:
/// names with the same beginning stand together in the list.
proof fn a_group_that_starts_is_new(s: StateView, j: int, d: int, m: int, e: int)
    requires
        s.list.order == view::listed(s.keys, s.list.mode, s.list.filter, SortBy::Name),
        0 <= j < m < s.list.order.len(),
        0 <= d < tree::segments(s.keys, s.tree.separator, s.list.order[j]).len() - 1,
        0 <= e < tree::segments(s.keys, s.tree.separator, s.list.order[m]).len() - 1,
        tree::listed_key(s.keys, s.tree.separator, s.list.order, m).starts(e),
    ensures
        tree::prefix_bytes(
            tree::segments(s.keys, s.tree.separator, s.list.order[j]),
            s.tree.separator,
            d,
        ) != tree::prefix_bytes(
            tree::segments(s.keys, s.tree.separator, s.list.order[m]),
            s.tree.separator,
            e,
        ),
{
    let order = s.list.order;
    let sep = s.tree.separator;
    let a = view::name_or_empty(s.keys, order[j] as int);
    let b = view::name_or_empty(s.keys, order[m - 1] as int);
    let c = view::name_or_empty(s.keys, order[m] as int);
    let prefix = tree::prefix_bytes(tree::segments(s.keys, sep, order[m]), sep, e);
    if tree::prefix_bytes(tree::segments(s.keys, sep, order[j]), sep, d) == prefix {
        view::the_list_is_in_order(s.keys, s.list.mode, s.list.filter, SortBy::Name);
        tree::a_name_starts_with_its_prefixes(a, sep, d + 1);
        tree::a_name_starts_with_its_prefixes(c, sep, e + 1);
        let ordered = view::order_by(s.keys, SortBy::Name);
        assert(ordered(order[m - 1], order[m]));
        if j < m - 1 {
            assert(ordered(order[j], order[m - 1]));
            view::what_is_between_begins_alike(a, b, c, prefix);
        }
        tree::a_name_with_the_prefix_stands_under_the_group(b, c, sep, e);
        assert(false);
    }
}

/// Two group rows of a tree stand for different bytes: the keys that share a
/// prefix stand together in the list, and have one row for it.
proof fn groups_have_bytes_of_their_own(s: StateView, q: int, r: int)
    requires
        freshly_listed(s),
        listable(s.keys, s.list.order),
        0 <= q < r < s.tree.rows.len(),
        s.tree.rows[q] is Group,
        s.tree.rows[r] is Group,
    ensures
        s.group_bytes(q) != s.group_bytes(r),
{
    let order = s.list.order;
    let sep = s.tree.separator;
    let (j, d) = a_row_of_the_tree_stands_for_a_group(s, q);
    let (m, e) = a_row_of_the_tree_stands_for_a_group(s, r);
    if j > m {
        rows_only_grow(s, order, m + 1, j);
    } else if j == m {
        groups_of_one_key_differ(s, m, q, r);
        prefixes_grow(tree::listed_key(s.keys, sep, order, m).segs, sep, d, e);
    } else {
        assert(s.list.sort == SortBy::Name);
        a_group_that_starts_is_new(s, j, d, m, e);
    }
}

/// Where the names that are listed are text, no two groups read the same: every
/// group row is the first, and the only one, that stands for its prefix.
pub proof fn groups_of_text_are_told_apart(s: StateView, r: int)
    requires
        freshly_listed(s),
        listable(s.keys, s.list.order),
        lists_text(s),
        s.tree.at(r) is Some,
        s.tree.at(r)->0 is Group,
    ensures
        s.group_prefix(r) is Some,
        first_at(s, s.group_prefix(r)->0, r),
{
    a_group_row_stands_for_its_prefix(s);
    a_text_group_has_text(s, r);
    assert forall|q: int|
        0 <= q < r && (#[trigger] s.tree.rows[q]) is Group implies s.group_prefix(q) != Some(
        s.group_prefix(r)->0,
    ) by {
        a_text_group_has_text(s, q);
        groups_have_bytes_of_their_own(s, q, r);
        decode_utf8_encode_utf8(s.group_bytes(q)->0);
        decode_utf8_encode_utf8(s.group_bytes(r)->0);
    }
}

proof fn a_text_group_has_text(s: StateView, r: int)
    requires
        freshly_listed(s),
        listable(s.keys, s.list.order),
        lists_text(s),
        0 <= r < s.tree.rows.len(),
        s.tree.rows[r] is Group,
    ensures
        s.group_bytes(r) is Some,
        valid_utf8(s.group_bytes(r)->0),
        s.group_prefix(r) == Some(decode_utf8(s.group_bytes(r)->0)),
{
    let (m, e) = a_row_of_the_tree_stands_for_a_group(s, r);
    let name = view::name_or_empty(s.keys, s.list.order[m] as int);
    tree::a_name_starts_with_its_prefixes(name, s.tree.separator, e + 1);
    a_prefix_of_a_text_is_text(s, r, name);
}

} // verus!
