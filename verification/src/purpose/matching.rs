//! What a filter lets through, what an order means, what a key is bound to and
//! where the panes are.

use vstd::prelude::*;
use vstd::relations::*;

use crate::input::KeyPress;
use crate::keymap::{self, Action};
use crate::layout::{self, Pane, Rect};
use crate::state::loaded::{KeyKind, LoadedView};
use crate::state::session::StateView;
use crate::state::view::{self, FilterMode, SortBy};

verus! {

// ── The filter ──────────────────────────────────────────────────────────────

/// Whether these places in a name hold the bytes of a pattern, from left to
/// right.
pub open spec fn picks(pattern: Seq<u8>, name: Seq<u8>, at: Seq<int>) -> bool {
    &&& at.len() == pattern.len()
    &&& forall|i: int|
        0 <= i < at.len() ==> 0 <= #[trigger] at[i] < name.len() && pattern[i] == name[at[i]]
    &&& forall|i: int, j: int| 0 <= i < j < at.len() ==> #[trigger] at[i] < #[trigger] at[j]
}

/// The loose filter lets a name through if the bytes of the pattern stand in it
/// in that order.
pub proof fn a_picked_name_passes(pattern: Seq<u8>, name: Seq<u8>, at: Seq<int>)
    requires
        picks(pattern, name, at),
    ensures
        view::passes(FilterMode::Fuzzy, pattern, name),
    decreases name.len(),
{
    if pattern.len() > 0 {
        assert(at[0] < name.len());
        if pattern[0] == name[0] {
            let rest = Seq::new((at.len() - 1) as nat, |i: int| at[i + 1] - 1);
            assert(picks(pattern.skip(1), name.skip(1), rest)) by {
                assert forall|i: int| 0 <= i < rest.len() implies 0 <= #[trigger] rest[i]
                    < name.skip(1).len() && pattern.skip(1)[i] == name.skip(1)[rest[i]] by {
                    assert(at[0] < at[i + 1]);
                    assert(0 <= at[i + 1] < name.len());
                }
                assert forall|i: int, j: int| 0 <= i < j < rest.len() implies #[trigger] rest[i]
                    < #[trigger] rest[j] by {
                    assert(at[i + 1] < at[j + 1]);
                }
            }
            a_picked_name_passes(pattern.skip(1), name.skip(1), rest);
        } else {
            let back = Seq::new(at.len(), |i: int| at[i] - 1);
            assert(picks(pattern, name.skip(1), back)) by {
                assert forall|i: int| 0 <= i < back.len() implies 0 <= #[trigger] back[i]
                    < name.skip(1).len() && pattern[i] == name.skip(1)[back[i]] by {
                    if i > 0 {
                        assert(at[0] < at[i]);
                    }
                    assert(0 <= at[i] < name.len());
                }
                assert forall|i: int, j: int| 0 <= i < j < back.len() implies #[trigger] back[i]
                    < #[trigger] back[j] by {
                    assert(at[i] < at[j]);
                }
            }
            a_picked_name_passes(pattern, name.skip(1), back);
        }
    }
}

/// And only then.
pub proof fn what_passes_is_picked(pattern: Seq<u8>, name: Seq<u8>) -> (at: Seq<int>)
    requires
        view::passes(FilterMode::Fuzzy, pattern, name),
    ensures
        picks(pattern, name, at),
    decreases name.len(),
{
    if pattern.len() == 0 {
        Seq::empty()
    } else if pattern[0] == name[0] {
        let rest = what_passes_is_picked(pattern.skip(1), name.skip(1));
        let at = Seq::new(rest.len() + 1, |i: int| if i == 0 { 0 } else { rest[i - 1] + 1 });
        assert forall|i: int| 0 <= i < at.len() implies 0 <= #[trigger] at[i] < name.len()
            && pattern[i] == name[at[i]] by {
            if i > 0 {
                assert(0 <= rest[i - 1] < name.skip(1).len());
            }
        }
        assert forall|i: int, j: int| 0 <= i < j < at.len() implies #[trigger] at[i]
            < #[trigger] at[j] by {
            assert(0 <= rest[j - 1]);
            if i > 0 {
                assert(rest[i - 1] < rest[j - 1]);
            }
        }
        at
    } else {
        let back = what_passes_is_picked(pattern, name.skip(1));
        let at = Seq::new(back.len(), |i: int| back[i] + 1);
        assert forall|i: int| 0 <= i < at.len() implies 0 <= #[trigger] at[i] < name.len()
            && pattern[i] == name[at[i]] by {
            assert(0 <= back[i] < name.skip(1).len());
        }
        assert forall|i: int, j: int| 0 <= i < j < at.len() implies #[trigger] at[i]
            < #[trigger] at[j] by {
            assert(back[i] < back[j]);
        }
        at
    }
}

/// A pattern without a wildcard lets a name through if it stands somewhere in it
/// as it is, and only then.
pub proof fn a_plain_pattern_stands_in_the_name(pattern: Seq<u8>, name: Seq<u8>)
    requires
        forall|i: int| 0 <= i < pattern.len() ==> #[trigger] pattern[i] != 42 && pattern[i] != 63,
    ensures
        view::passes(FilterMode::Glob, pattern, name) <==> exists|a: Seq<u8>, b: Seq<u8>|
            #![trigger a + pattern + b]
            name == a + pattern + b,
{
    assert(!view::has_wildcard(pattern));
    if view::passes(FilterMode::Glob, pattern, name) {
        let at = choose|at: int| view::occurs_at(pattern, name, at);
        assert(name =~= name.take(at) + pattern + name.skip(at + pattern.len()));
    }
    if exists|a: Seq<u8>, b: Seq<u8>| #![trigger a + pattern + b] name == a + pattern + b {
        let (a, b) = choose|a: Seq<u8>, b: Seq<u8>|
            #![trigger a + pattern + b]
            name == a + pattern + b;
        assert(name.subrange(a.len() as int, (a.len() + pattern.len()) as int) =~= pattern);
        assert(view::occurs_at(pattern, name, a.len() as int));
    }
}

/// A pattern with a wildcard is one for the whole name.
pub proof fn a_wildcard_pattern_is_for_the_whole_name(pattern: Seq<u8>, name: Seq<u8>, i: int)
    requires
        0 <= i < pattern.len(),
        pattern[i] == 42 || pattern[i] == 63,
    ensures
        view::passes(FilterMode::Glob, pattern, name) <==> view::glob(pattern, name),
{
}

/// A star stands for anything, a question mark for any one byte, any other byte
/// for itself, and no pattern for nothing.
pub proof fn each_part_of_a_pattern_stands_for_something(c: u8, name: Seq<u8>)
    ensures
        view::glob(seq![42u8], name),
        view::glob(seq![63u8], name) <==> name.len() == 1,
        c != 42 && c != 63 ==> (view::glob(seq![c], name) <==> name == seq![c]),
        view::glob(Seq::empty(), name) <==> name.len() == 0,
    decreases name.len(),
{
    let none: Seq<u8> = Seq::empty();
    assert(seq![42u8].skip(1) =~= none);
    assert(seq![63u8].skip(1) =~= none);
    assert(seq![c].skip(1) =~= none);
    reveal_with_fuel(view::glob, 3);
    if name.len() > 0 {
        each_part_of_a_pattern_stands_for_something(c, name.skip(1));
        if name.len() == 1 {
            assert(name.skip(1) =~= none);
            assert(name =~= seq![name[0]]);
        }
    }
}

/// A pattern made of two is for a name made of two: the first part for the one,
/// the second for the other.
pub proof fn parts_of_a_pattern_are_for_parts_of_a_name(p: Seq<u8>, q: Seq<u8>, name: Seq<u8>)
    ensures
        view::glob(p + q, name) <==> exists|i: int|
            0 <= i <= name.len() && view::glob(p, #[trigger] name.take(i)) && view::glob(
                q,
                name.skip(i),
            ),
    decreases p.len(), name.len(),
{
    let none: Seq<u8> = Seq::empty();
    if p.len() == 0 {
        assert(p + q =~= q);
        assert(name.take(0) =~= none);
        assert(name.skip(0) =~= name);
        assert(view::glob(p, name.take(0)));
    } else {
        assert((p + q)[0] == p[0]);
        assert((p + q).skip(1) =~= p.skip(1) + q);
        let rest = name.skip(1);
        if p[0] == 42 {
            parts_of_a_pattern_are_for_parts_of_a_name(p.skip(1), q, name);
            if name.len() > 0 {
                parts_of_a_pattern_are_for_parts_of_a_name(p, q, rest);
            }
            if view::glob(p.skip(1) + q, name) {
                let i = choose|i: int|
                    0 <= i <= name.len() && view::glob(p.skip(1), #[trigger] name.take(i))
                        && view::glob(q, name.skip(i));
                assert(view::glob(p, name.take(i)));
            } else if name.len() > 0 && view::glob(p + q, rest) {
                let i = choose|i: int|
                    0 <= i <= rest.len() && view::glob(p, #[trigger] rest.take(i)) && view::glob(
                        q,
                        rest.skip(i),
                    );
                assert(name.take(i + 1).skip(1) =~= rest.take(i));
                assert(name.skip(i + 1) =~= rest.skip(i));
                assert(view::glob(p, name.take(i + 1)));
            }
            if exists|i: int|
                0 <= i <= name.len() && view::glob(p, #[trigger] name.take(i)) && view::glob(
                    q,
                    name.skip(i),
                ) {
                let i = choose|i: int|
                    0 <= i <= name.len() && view::glob(p, #[trigger] name.take(i)) && view::glob(
                        q,
                        name.skip(i),
                    );
                if view::glob(p.skip(1), name.take(i)) {
                    assert(view::glob(p.skip(1) + q, name));
                } else {
                    assert(i > 0);
                    assert(name.take(i).skip(1) =~= rest.take(i - 1));
                    assert(name.skip(i) =~= rest.skip(i - 1));
                    assert(view::glob(p, rest.take(i - 1)));
                    assert(view::glob(p + q, rest));
                }
                assert(view::glob(p + q, name));
            }
        } else {
            if name.len() > 0 {
                parts_of_a_pattern_are_for_parts_of_a_name(p.skip(1), q, rest);
            }
            if view::glob(p + q, name) {
                let i = choose|i: int|
                    0 <= i <= rest.len() && view::glob(p.skip(1), #[trigger] rest.take(i))
                        && view::glob(q, rest.skip(i));
                assert(name.take(i + 1).skip(1) =~= rest.take(i));
                assert(name.skip(i + 1) =~= rest.skip(i));
                assert(name.take(i + 1)[0] == name[0]);
                assert(view::glob(p, name.take(i + 1)));
            }
            if exists|i: int|
                0 <= i <= name.len() && view::glob(p, #[trigger] name.take(i)) && view::glob(
                    q,
                    name.skip(i),
                ) {
                let i = choose|i: int|
                    0 <= i <= name.len() && view::glob(p, #[trigger] name.take(i)) && view::glob(
                        q,
                        name.skip(i),
                    );
                assert(name.take(i).len() > 0);
                assert(name.take(i)[0] == name[0]);
                assert(name.take(i).skip(1) =~= rest.take(i - 1));
                assert(name.skip(i) =~= rest.skip(i - 1));
                assert(view::glob(p.skip(1) + q, rest));
                assert(view::glob(p + q, name));
            }
        }
    }
}

// ── The order ───────────────────────────────────────────────────────────────

/// Whether `a` comes before `b` where the first byte that differs is the lesser,
/// or `a` is the beginning of `b`.
pub open spec fn is_before(a: Seq<u8>, b: Seq<u8>, at: int) -> bool {
    &&& 0 <= at <= a.len()
    &&& at <= b.len()
    &&& forall|k: int| 0 <= k < at ==> #[trigger] a[k] == b[k]
    &&& at == a.len() || (at < b.len() && a[at] < b[at])
}

/// Names are in the order of bytes: at the first byte that differs the lesser
/// comes first, and a beginning comes before what it begins.
pub proof fn names_are_in_the_order_of_bytes(a: Seq<u8>, b: Seq<u8>)
    ensures
        view::bytes_le(a, b) <==> exists|at: int| is_before(a, b, at),
    decreases a.len(),
{
    if a.len() == 0 {
        assert(is_before(a, b, 0));
    } else if b.len() > 0 && a[0] == b[0] {
        names_are_in_the_order_of_bytes(a.skip(1), b.skip(1));
        if view::bytes_le(a, b) {
            let at = choose|at: int| is_before(a.skip(1), b.skip(1), at);
            assert forall|k: int| 0 <= k < at + 1 implies #[trigger] a[k] == b[k] by {
                if k > 0 {
                    assert(a.skip(1)[k - 1] == b.skip(1)[k - 1]);
                }
            }
            assert(is_before(a, b, at + 1));
        }
        if exists|at: int| is_before(a, b, at) {
            let at = choose|at: int| is_before(a, b, at);
            assert(at > 0);
            assert(is_before(a.skip(1), b.skip(1), at - 1));
        }
    } else {
        if view::bytes_le(a, b) {
            assert(is_before(a, b, 0));
        }
        if exists|at: int| is_before(a, b, at) {
            let at = choose|at: int| is_before(a, b, at);
            if at > 0 {
                assert(a[0] == b[0]);
            }
        }
    }
}

/// What an order means, for two keys of which the first stands above the second:
/// as they were loaded; by name; what expires sooner first, then what never
/// expires, then what is not known; what is larger first, then what is not known;
/// by type, then what is not known. Among equals, as they were loaded.
pub open spec fn is_in_order(keys: LoadedView, sort: SortBy, i: usize, j: usize) -> bool {
    let a = keys.rows[i as int];
    let b = keys.rows[j as int];
    match sort {
        SortBy::Scan => i <= j,
        SortBy::Name => {
            let x = keys.name(i as int);
            let y = keys.name(j as int);
            x is Some && y is Some ==> view::bytes_le(x->0, y->0) && (x->0 == y->0 ==> i <= j)
        },
        SortBy::Ttl => {
            &&& a.ttl is None ==> b.ttl is None
            &&& a.ttl is Some && b.ttl is Some && a.ttl->0 < 0 ==> b.ttl->0 < 0
            &&& a.ttl is Some && b.ttl is Some && a.ttl->0 >= 0 && b.ttl->0 >= 0 ==> a.ttl->0
                <= b.ttl->0
            &&& a.ttl == b.ttl ==> i <= j
        },
        SortBy::Size => {
            &&& a.size is None ==> b.size is None
            &&& a.size is Some && b.size is Some ==> a.size->0 >= b.size->0
            &&& a.size == b.size ==> i <= j
        },
        SortBy::Kind => {
            &&& a.kind is None ==> b.kind is None
            &&& a.kind is Some && b.kind is Some ==> is_type_before(a.kind->0, b.kind->0)
            &&& a.kind == b.kind ==> i <= j
        },
    }
}

/// Whether the first type is not behind the second: strings, hashes, lists, sets,
/// sorted sets, streams, JSON.
pub open spec fn is_type_before(a: KeyKind, b: KeyKind) -> bool {
    match a {
        KeyKind::String => true,
        KeyKind::Hash => !(b is String),
        KeyKind::List => !(b is String) && !(b is Hash),
        KeyKind::PlainSet => b is PlainSet || b is ZSet || b is Stream || b is Json,
        KeyKind::ZSet => b is ZSet || b is Stream || b is Json,
        KeyKind::Stream => b is Stream || b is Json,
        KeyKind::Json => b is Json,
    }
}

/// Whatever order is asked for, every row of the list is in it with every row
/// below.
pub proof fn the_list_is_in_the_order_asked_for(
    keys: LoadedView,
    mode: FilterMode,
    filter: Seq<char>,
    sort: SortBy,
    a: int,
    b: int,
)
    requires
        0 <= a < b < view::listed(keys, mode, filter, sort).len(),
    ensures
        is_in_order(
            keys,
            sort,
            view::listed(keys, mode, filter, sort)[a],
            view::listed(keys, mode, filter, sort)[b],
        ),
{
    view::the_list_is_in_order(keys, mode, filter, sort);
    let order = view::listed(keys, mode, filter, sort);
    let le = view::order_by(keys, sort);
    assert(le(order[a], order[b]));
}

// ── The keymap ──────────────────────────────────────────────────────────────

/// A key performs what the first binding of it says, and nothing where there is
/// none.
pub proof fn the_first_binding_counts(bindings: Seq<(KeyPress, Action)>, key: KeyPress)
    ensures
        match keymap::lookup(bindings, key) {
            Some(action) => exists|i: int|
                0 <= i < bindings.len() && #[trigger] bindings[i] == (key, action) && forall|j: int|
                    0 <= j < i ==> (#[trigger] bindings[j]).0 != key,
            None => forall|i: int| 0 <= i < bindings.len() ==> (#[trigger] bindings[i]).0 != key,
        },
    decreases bindings.len(),
{
    if bindings.len() > 0 && bindings[0].0 != key {
        let rest = bindings.skip(1);
        the_first_binding_counts(rest, key);
        match keymap::lookup(bindings, key) {
            Some(action) => {
                let i = choose|i: int|
                    0 <= i < rest.len() && #[trigger] rest[i] == (key, action) && forall|j: int|
                        0 <= j < i ==> (#[trigger] rest[j]).0 != key;
                assert(bindings[i + 1] == (key, action));
                assert forall|j: int| 0 <= j < i + 1 implies (#[trigger] bindings[j]).0 != key by {
                    if j > 0 {
                        assert(rest[j - 1].0 != key);
                    }
                }
            },
            None => {
                assert forall|i: int| 0 <= i < bindings.len() implies (
                #[trigger] bindings[i]).0 != key by {
                    if i > 0 {
                        assert(rest[i - 1].0 != key);
                    }
                }
            },
        }
    } else if bindings.len() > 0 {
        assert(bindings[0] == (key, bindings[0].1));
    }
}

/// Binding a key takes it from what it did before, and takes the action's other
/// keys away; every other key does what it did.
pub proof fn binding_gives_up_what_was_bound(
    bindings: Seq<(KeyPress, Action)>,
    action: Action,
    key: KeyPress,
    other: KeyPress,
)
    requires
        other != key,
    ensures
        ({
            let after = keymap::rebound(bindings, action, key);
            &&& keymap::lookup(after, key) == Some(action)
            &&& keymap::lookup(after, other) != Some(action)
            &&& keymap::lookup(bindings, other) is None ==> keymap::lookup(after, other) is None
            &&& forall|i: int|
                0 <= i < after.len() ==> (#[trigger] after[i] == (key, action) || (
                bindings.contains(after[i]) && after[i].0 != key && after[i].1 != action))
            &&& forall|i: int|
                0 <= i < bindings.len() && (#[trigger] bindings[i]).0 != key && bindings[i].1
                    != action ==> after.contains(bindings[i])
        }),
{
    keymap::a_bound_key_performs_its_action(bindings, action, key);
    let keep = keymap::unrelated(action, key);
    let kept = bindings.filter(keep);
    let after = kept.push((key, action));
    assert forall|i: int| 0 <= i < after.len() implies (#[trigger] after[i] == (key, action) || (
    bindings.contains(after[i]) && after[i].0 != key && after[i].1 != action)) by {
        if i < kept.len() {
            bindings.lemma_filter_pred(keep, i);
            assert(kept.contains(kept[i]));
            bindings.lemma_filter_contains_rev(keep, kept[i]);
        }
    }
    assert forall|i: int|
        0 <= i < bindings.len() && (#[trigger] bindings[i]).0 != key && bindings[i].1
            != action implies after.contains(bindings[i]) by {
        bindings.lemma_filter_contains(keep, i);
        let k = choose|k: int| 0 <= k < kept.len() && kept[k] == bindings[i];
        assert(after[k] == bindings[i]);
    }
    the_first_binding_counts(after, other);
    the_first_binding_counts(bindings, other);
    if keymap::lookup(after, other) is Some {
        let found = keymap::lookup(after, other)->0;
        let i = choose|i: int|
            0 <= i < after.len() && #[trigger] after[i] == (other, found) && forall|j: int|
                0 <= j < i ==> (#[trigger] after[j]).0 != other;
        assert(after[i].0 == other);
    }
}

// ── The panes ───────────────────────────────────────────────────────────────

/// On a wide terminal the keys pane is two fifths of it, moved as far as asked,
/// and neither pane is narrower than twenty columns. The panes stand between the
/// first and the last row.
pub proof fn the_keys_pane_is_two_fifths(area: Rect, focus: Pane, adjust: int)
    requires
        area.fits(),
        area.width >= 70,
    ensures
        ({
            let plan = layout::plan(area, focus, adjust);
            let wanted = area.width * 2 / 5 + adjust;
            let keys = plan.keys;
            let value = plan.value->0;
            &&& plan.value is Some
            &&& 20 <= keys.width && 20 <= value.width
            &&& 20 <= wanted <= area.width - 21 ==> keys.width == wanted
            &&& wanted < 20 ==> keys.width == 20
            &&& wanted > area.width - 21 ==> value.width == 20
            &&& keys.x == area.x
            &&& value.x == keys.x + keys.width + 1
            &&& value.x + value.width == area.x + area.width
            &&& area.height >= 2 ==> {
                &&& keys.y == area.y + 1
                &&& value.y == area.y + 1
                &&& keys.height == area.height - 2
                &&& value.height == area.height - 2
            }
        }),
{
}

/// On a narrow terminal the pane in focus has it all but the first and the last
/// row, and the other is not drawn.
pub proof fn a_narrow_terminal_has_one_pane(area: Rect, focus: Pane, adjust: int)
    requires
        area.fits(),
        area.width < 70,
        area.height >= 2,
    ensures
        ({
            let plan = layout::plan(area, focus, adjust);
            let all = Rect {
                x: area.x,
                y: (area.y + 1) as u16,
                width: area.width,
                height: (area.height - 2) as u16,
            };
            &&& focus == Pane::Keys ==> plan.keys == all && plan.value is None
            &&& focus == Pane::Value ==> plan.keys.width == 0 && plan.value == Some(all)
        }),
{
}

/// As many rows of the list are on screen as the terminal has but three, and a
/// string is wrapped two columns inside its pane.
pub proof fn the_screen_has_room(s: StateView)
    ensures
        s.visible_rows() == (if s.rows >= 3 {
            s.rows - 3
        } else {
            0
        }),
        s.cols >= 70 ==> ({
            let whole = Rect { x: 0, y: 0, width: s.cols, height: s.rows };
            s.wrap_width() == layout::plan(
                whole,
                Pane::Value,
                s.split_adjust as int,
            ).value->0.width - 2
        }),
        4 <= s.cols < 70 ==> s.wrap_width() == s.cols - 2,
        s.cols < 4 ==> s.wrap_width() == 1,
        s.wrap_width() >= 1,
{
}

} // verus!
