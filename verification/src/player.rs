//! Player identities and the player capability contract.
//!
//! A `PlayerId` is the value the board and the rules evaluator know a side
//! by: nothing but its display marker. The `Player` trait is the pluggable
//! move-selection capability the game loop drives; any strategy (scripted,
//! interactive, search-based) may implement it.

use vstd::prelude::*;
use crate::board::{Board, CellReference};

verus! {

/// A player identity. Two identities denote the same side exactly when
/// their markers are equal as strings; no other state takes part in
/// win attribution.
#[derive(Debug)]
pub struct PlayerId {
    marker: String,
}

impl View for PlayerId {
    type V = Seq<char>;

    closed spec fn view(&self) -> Seq<char> {
        self.marker@
    }
}

impl PlayerId {
    /// Creates the identity of the side shown by `marker`.
    pub fn new(marker: String) -> (p: PlayerId)
        ensures
            p@ == marker@,
    {
        PlayerId { marker }
    }

    /// The display marker of this side.
    pub fn get_marker(&self) -> (m: String)
        ensures
            m@ == self@,
    {
        self.marker.clone()
    }
}

impl Clone for PlayerId {
    fn clone(&self) -> (p: Self)
        ensures
            p == *self,
    {
        PlayerId { marker: self.marker.clone() }
    }
}

impl PartialEq for PlayerId {
    /// Identities compare by marker alone.
    fn eq(&self, other: &Self) -> (r: bool) {
        self.marker == other.marker
    }
}

impl vstd::std_specs::cmp::PartialEqSpecImpl for PlayerId {
    open spec fn obeys_eq_spec() -> bool {
        true
    }

    open spec fn eq_spec(&self, other: &Self) -> bool {
        self@ == other@
    }
}

/// The move-selection capability of one side. The game loop holds one
/// implementation per player and asks it for a cell each turn; the loop
/// itself validates every returned reference, so implementations carry
/// no obligation beyond reporting a stable marker.
pub trait Player {
    /// The marker this capability plays under, as a specification value.
    spec fn marker_spec(&self) -> Seq<char>;

    /// The marker this capability plays under.
    fn get_marker(&self) -> (m: String)
        ensures
            m@ == self.marker_spec(),
    ;

    /// Chooses the cell to occupy next, given the opposing side's
    /// identity and the current board.
    fn get_move(&self, other_player: &PlayerId, board: &Board) -> (r: CellReference);
}

} // verus!
