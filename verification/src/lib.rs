//! A verified 3x3 two-player grid game engine.
//!
//! The board is an immutable snapshot of nine cells; every move produces a
//! new board. A pure rules evaluator classifies a board as pending, drawn,
//! or won, by scanning the eight winnable lines in a fixed order. A small
//! turn loop drives two pluggable player capabilities until the game ends.

use vstd::prelude::*;

pub mod board;
pub mod player;
pub mod rules;

use crate::board::{Board, BoardView, GameError, empty_refs, lemma_empty_refs_update};
use crate::player::{Player, PlayerId};
use crate::rules::{GameState, analyze_game_state, lemma_winner_is_an_occupant};

verus! {

/// Whether every occupied cell of the board holds one of the two given
/// markers.
pub open spec fn occupants_limited(b: BoardView, m1: Seq<char>, m2: Seq<char>) -> bool {
    forall|i: int|
        0 <= i < b.len() ==> match #[trigger] b[i] {
            Some(m) => m == m1 || m == m2,
            None => true,
        }
}

/// Runs a game from the empty board to its end. The first player moves
/// first and the two strictly alternate; each turn the active player
/// capability chooses a cell, the move is applied to produce the next
/// board, and the rules evaluator reclassifies. The run ends with the
/// first terminal state, or with an `InvalidMove` error naming the
/// player that chose an out-of-range or occupied cell.
pub fn play_game<P: Player, Q: Player>(player_one: &P, player_two: &Q) -> (r: Result<
    GameState,
    GameError,
>)
    ensures
        (r matches Ok(s) ==> !(s matches GameState::Pending)),
        (r matches Ok(GameState::Win(p)) ==> p@ == player_one.marker_spec() || p@
            == player_two.marker_spec()),
        (r matches Err(e) ==> e matches GameError::InvalidMove(m, i) && (m@
            == player_one.marker_spec() || m@ == player_two.marker_spec())),
{
    let id_one = PlayerId::new(player_one.get_marker());
    let id_two = PlayerId::new(player_two.get_marker());
    let mut board = Board::empty_board();
    let mut one_to_move: bool = true;
    loop
        invariant
            board@.len() == 9,
            occupants_limited(board@, player_one.marker_spec(), player_two.marker_spec()),
            id_one@ == player_one.marker_spec(),
            id_two@ == player_two.marker_spec(),
        decreases empty_refs(board@).len(),
    {
        let state = analyze_game_state(&board);
        match state {
            GameState::Pending => {
                let player_move = if one_to_move {
                    player_one.get_move(&id_two, &board)
                } else {
                    player_two.get_move(&id_one, &board)
                };
                let current = if one_to_move {
                    &id_one
                } else {
                    &id_two
                };
                let index = player_move.index();
                match board.occupy_cell(current.clone(), &player_move) {
                    Ok(next_board) => {
                        proof {
                            lemma_empty_refs_update(board@, player_move@, current@);
                        }
                        board = next_board;
                        one_to_move = !one_to_move;
                    },
                    Err(_) => {
                        return Err(GameError::InvalidMove(current.get_marker(), index));
                    },
                }
            },
            game_state => {
                proof {
                    match &game_state {
                        GameState::Win(p) => {
                            lemma_winner_is_an_occupant(board@, 0, p@);
                        },
                        _ => {},
                    }
                }
                return Ok(game_state);
            },
        }
    }
}

} // verus!
