//! The words of the chrome that follow from the state alone.

use vstd::prelude::*;

use crate::layout::Pane;
use crate::state::session::{State, StateView};

verus! {

impl StateView {
    /// The hints below the panes. While the filter captures they say how to
    /// leave it, and otherwise what the keys do in the focused pane.
    pub open spec fn hints(self) -> Seq<char> {
        if self.filtering {
            "type to filter · Enter keep · Esc clear & exit"@
        } else {
            match self.focus {
                Pane::Keys => "/ filter · s sort · t tree · r rescan · ? help"@,
                Pane::Value => "e edit · a add · d remove · r refetch · ? help"@,
            }
        }
    }
}

/// The hints below the panes.
pub fn hint_bar(state: &State) -> (hints: &'static str)
    ensures
        hints@ == state@.hints(),
{
    if state.filtering {
        "type to filter · Enter keep · Esc clear & exit"
    } else {
        match state.focus {
            Pane::Keys => "/ filter · s sort · t tree · r rescan · ? help",
            Pane::Value => "e edit · a add · d remove · r refetch · ? help",
        }
    }
}

} // verus!
