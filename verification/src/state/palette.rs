//! The command palette: every action by name, narrowed by what is typed.

use vstd::prelude::*;

use crate::keymap::{self, Action};
use crate::layout;
use crate::state::status::moved_by;
use crate::text;

verus! {

/// Whether the letters of `query` occur in `name` in this order, in either
/// case, with anything between them.
pub open spec fn fuzzy(query: Seq<char>, name: Seq<char>) -> bool
    decreases name.len(),
{
    if query.len() == 0 {
        true
    } else if name.len() == 0 {
        false
    } else if text::lower(query[0]) == text::lower(name[0]) {
        fuzzy(query.skip(1), name.skip(1))
    } else {
        fuzzy(query, name.skip(1))
    }
}

fn fuzzy_match(query: &Vec<char>, name: &Vec<char>) -> (r: bool)
    ensures
        r == fuzzy(query@, name@),
{
    let mut i: usize = 0;
    let mut j: usize = 0;
    assert(query@.skip(0) =~= query@);
    assert(name@.skip(0) =~= name@);
    while i < query.len() && j < name.len()
        invariant
            i <= query@.len(),
            j <= name@.len(),
            fuzzy(query@.skip(i as int), name@.skip(j as int)) == fuzzy(query@, name@),
        decreases name@.len() - j,
    {
        assert(query@.skip(i as int).skip(1) =~= query@.skip(i + 1));
        assert(name@.skip(j as int).skip(1) =~= name@.skip(j + 1));
        if text::lower_code(query[i]) == text::lower_code(name[j]) {
            i = i + 1;
        }
        j = j + 1;
    }
    i == query.len()
}

/// Whether an action is called something that `query` asks for.
pub open spec fn asked_for(query: Seq<char>) -> spec_fn(Action) -> bool {
    |action: Action| fuzzy(query, action.name())
}

#[derive(Clone, Debug, PartialEq, Eq)]
pub struct PaletteState {
    pub query: String,
    pub matches: Vec<Action>,
    pub selected: usize,
}

#[verifier::ext_equal]
pub struct PaletteView {
    pub query: Seq<char>,
    pub matches: Seq<Action>,
    pub selected: usize,
}

impl View for PaletteState {
    type V = PaletteView;

    open spec fn view(&self) -> PaletteView {
        PaletteView { query: self.query@, matches: self.matches@, selected: self.selected }
    }
}

impl PaletteView {
    pub open spec fn fresh() -> PaletteView {
        PaletteView { query: Seq::empty(), matches: Action::all(), selected: 0 }
    }

    /// The palette with another query: the list follows it, from the top.
    pub open spec fn asking(self, query: Seq<char>) -> PaletteView {
        PaletteView { query, matches: Action::all().filter(asked_for(query)), selected: 0 }
    }

    pub open spec fn highlighted(self) -> Option<Action> {
        if self.selected < self.matches.len() {
            Some(self.matches[self.selected as int])
        } else {
            None
        }
    }

    /// The selection moved by `by` rows, as far as there are rows.
    pub open spec fn moved(self, by: int) -> PaletteView {
        PaletteView {
            selected: if self.matches.len() == 0 {
                0
            } else {
                layout::clamped(self.selected + by, 0, self.matches.len() - 1) as usize
            },
            ..self
        }
    }
}

impl PaletteState {
    /// Every action listed, nothing typed yet.
    pub fn new() -> (palette: PaletteState)
        ensures
            palette@ == PaletteView::fresh(),
    {
        PaletteState { query: String::new(), matches: keymap::all_actions(), selected: 0 }
    }

    /// Lists the actions that the query asks for.
    pub fn refresh(&mut self)
        ensures
            final(self)@ == old(self)@.asking(old(self)@.query),
    {
        let ghost keep = asked_for(self.query@);
        let all = keymap::all_actions();
        let query = text::chars_of(self.query.as_str());
        let mut matches: Vec<Action> = Vec::new();
        let mut i: usize = 0;
        while i < all.len()
            invariant
                i <= all@.len(),
                query@ == self.query@,
                keep == asked_for(self.query@),
                matches@ == all@.take(i as int).filter(keep),
            decreases all@.len() - i,
        {
            let action = all[i];
            let name = text::chars_of(action.label());
            proof {
                reveal(Seq::filter);
                assert(all@.take(i + 1).drop_last() =~= all@.take(i as int));
            }
            if fuzzy_match(&query, &name) {
                matches.push(action);
            }
            i = i + 1;
        }
        assert(all@.take(all@.len() as int) =~= all@);
        self.matches = matches;
        self.selected = 0;
    }

    /// The action that `Enter` would perform.
    pub fn highlighted(&self) -> (action: Option<Action>)
        ensures
            action == self@.highlighted(),
    {
        if self.selected < self.matches.len() {
            Some(self.matches[self.selected])
        } else {
            None
        }
    }

    pub fn move_selection(&mut self, by: isize)
        ensures
            final(self)@ == old(self)@.moved(by as int),
    {
        self.selected = moved_by(self.selected, by, self.matches.len());
    }
}

/// An empty query lists every action, so erasing what was typed widens the list
/// back to all of it.
pub proof fn an_empty_query_lists_everything(palette: PaletteView)
    ensures
        palette.asking(Seq::empty()) == PaletteView::fresh(),
{
    let keep = asked_for(Seq::empty());
    keeping_all(Action::all(), keep);
}

proof fn keeping_all(actions: Seq<Action>, keep: spec_fn(Action) -> bool)
    requires
        forall|action: Action| #[trigger] keep(action),
    ensures
        actions.filter(keep) == actions,
    decreases actions.len(),
{
    reveal(Seq::filter);
    if actions.len() > 0 {
        keeping_all(actions.drop_last(), keep);
        assert(keep(actions.last()));
        assert(actions =~= actions.drop_last().push(actions.last()));
    }
}

} // verus!
