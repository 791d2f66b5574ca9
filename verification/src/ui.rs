//! The turn-indicator label shown beside the board.

use vstd::prelude::*;

use crate::board::PlayerTurn;
use crate::pieces::PieceColor;

verus! {

/// The text of the turn indicator for the side to move.
pub fn turn_label(turn: &PlayerTurn) -> (label: &'static str)
    ensures
        turn.0 == PieceColor::White ==> label@ == "next move: white"@,
        turn.0 == PieceColor::Black ==> label@ == "next move: black"@,
{
    match turn.0 {
        PieceColor::White => "next move: white",
        PieceColor::Black => "next move: black",
    }
}

} // verus!
