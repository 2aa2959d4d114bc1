//! The rules evaluator: a pure classification of a board as pending,
//! drawn, or won, built on the board's fixed segment enumeration.

use vstd::prelude::*;
use crate::board::{Board, BoardView, Cell, board_full, seg_index};
use crate::player::PlayerId;

verus! {

/// The outcome the rules evaluator reports for a board.
#[derive(Debug)]
pub enum GameState {
    /// The game can still go on: no winning line, and an empty cell is left.
    Pending,
    /// The board is full and no line is won.
    Draw,
    /// A line is won by the side with this identity.
    Win(PlayerId),
}

impl PartialEq for GameState {
    /// `Pending` and `Draw` compare by tag; `Win` compares by the winning
    /// side's marker, never by instance identity.
    fn eq(&self, other: &Self) -> (r: bool) {
        match (self, other) {
            (GameState::Pending, GameState::Pending) => true,
            (GameState::Draw, GameState::Draw) => true,
            (GameState::Win(player), GameState::Win(other_player)) => player == other_player,
            _ => false,
        }
    }
}

impl vstd::std_specs::cmp::PartialEqSpecImpl for GameState {
    open spec fn obeys_eq_spec() -> bool {
        true
    }

    open spec fn eq_spec(&self, other: &Self) -> bool {
        match (self, other) {
            (GameState::Pending, GameState::Pending) => true,
            (GameState::Draw, GameState::Draw) => true,
            (GameState::Win(player), GameState::Win(other_player)) => player@ == other_player@,
            _ => false,
        }
    }
}

/// The winner of one line of three markers: the first cell's marker, when
/// it is present and the two other cells match it.
pub open spec fn line_winner(
    a: Option<Seq<char>>,
    b: Option<Seq<char>>,
    c: Option<Seq<char>>,
) -> Option<Seq<char>> {
    match a {
        None => None,
        Some(m) => if b == Some(m) && c == Some(m) {
            Some(m)
        } else {
            None
        },
    }
}

/// The winner of segment `k` of the board, if that line is won.
pub open spec fn segment_winner(b: BoardView, k: int) -> Option<Seq<char>> {
    line_winner(b[seg_index(k, 0)], b[seg_index(k, 1)], b[seg_index(k, 2)])
}

/// The winner of the first winning segment at or after `k`, in the fixed
/// enumeration order.
pub open spec fn winner_from(b: BoardView, k: int) -> Option<Seq<char>>
    decreases 8 - k,
{
    if k < 0 || k >= 8 {
        None
    } else {
        match segment_winner(b, k) {
            Some(m) => Some(m),
            None => winner_from(b, k + 1),
        }
    }
}

/// The marker of the board's winner: the winner of the first winning
/// segment in the fixed enumeration order, if any segment is won.
pub open spec fn board_winner(b: BoardView) -> Option<Seq<char>> {
    winner_from(b, 0)
}

/// A won board holds its winner's marker in some cell: the winner of the
/// first winning segment at or after `k` occupies that segment's first cell.
pub proof fn lemma_winner_is_an_occupant(b: BoardView, k: int, m: Seq<char>)
    requires
        b.len() == 9,
        0 <= k <= 8,
        winner_from(b, k) == Some(m),
    ensures
        exists|i: int| 0 <= i < 9 && b[i] == Some(m),
    decreases 8 - k,
{
    if segment_winner(b, k) is Some {
        assert(0 <= seg_index(k, 0) < 9);
        assert(b[seg_index(k, 0)] == Some(m));
    } else {
        lemma_winner_is_an_occupant(b, k + 1, m);
    }
}

/// Classifies a board: the win of the first winning segment in the fixed
/// enumeration order, if any segment is won; otherwise a draw when the
/// board is full, and pending when an empty cell is left.
pub fn analyze_game_state(board: &Board) -> (r: GameState)
    ensures
        board@.len() == 9,
        match board_winner(board@) {
            Some(m) => r matches GameState::Win(p) && p@ == m,
            None => if board_full(board@) {
                r matches GameState::Draw
            } else {
                r matches GameState::Pending
            },
        },
{
    let segs = board.segments();
    for k in 0..8usize
        invariant
            board@.len() == 9,
            segs@.len() == 8,
            forall|k2: int| 0 <= k2 < 8 ==> (#[trigger] segs@[k2])@.len() == 3,
            forall|k2: int, j: int| 0 <= k2 < 8 && 0 <= j < 3 ==> (#[trigger] segs@[k2]@[j]).occupant_marker()
                == board@[seg_index(k2, j)],
            winner_from(board@, 0) == winner_from(board@, k as int),
    {
        match get_segment_winner(&segs[k]) {
            Some(winner) => {
                return GameState::Win(winner);
            },
            None => {},
        }
    }
    proof {
        crate::board::lemma_empty_refs(board@);
    }
    if board.empty_cells().len() == 0 {
        GameState::Draw
    } else {
        GameState::Pending
    }
}

/// The winner of one segment of three cells: the first cell's occupant,
/// when that cell is occupied and the markers of the two other cells
/// equal its marker.
fn get_segment_winner(segment: &Vec<Cell>) -> (r: Option<PlayerId>)
    requires
        segment@.len() == 3,
    ensures
        match line_winner(
            segment@[0].occupant_marker(),
            segment@[1].occupant_marker(),
            segment@[2].occupant_marker(),
        ) {
            Some(m) => r matches Some(p) && p@ == m,
            None => r is None,
        },
{
    match segment[0].get_occupant() {
        None => None,
        Some(first_cell_occupant) => {
            let first_marker = first_cell_occupant.get_marker();
            let second_matches = match segment[1].get_marker() {
                Some(marker) => first_marker == marker,
                None => false,
            };
            let third_matches = match segment[2].get_marker() {
                Some(marker) => first_marker == marker,
                None => false,
            };
            if second_matches && third_matches {
                Some(first_cell_occupant)
            } else {
                None
            }
        },
    }
}

} // verus!
