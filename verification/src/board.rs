//! The 8x8 board: square identity, the light/dark colouring rule, and the
//! palette rule for highlighting the square under the pointer or the
//! selected square.

use vstd::prelude::*;

use crate::pieces::PieceColor;

verus! {

/// One cell of the 8x8 grid; coordinates range over `[0, 7]`.
#[derive(Clone, Copy, PartialEq, Eq, Structural, Debug)]
pub struct Square {
    pub x: u8,
    pub y: u8,
}

/// True iff `(x, y)` lies on the 8x8 board.
pub open spec fn on_board(x: int, y: int) -> bool {
    0 <= x < 8 && 0 <= y < 8
}

/// The colouring rule: a square is light iff `(x + y + 1)` is even.
pub open spec fn square_is_light(x: int, y: int) -> bool {
    (x + y + 1) % 2 == 0
}

impl Square {
    /// Whether this square is one of the light ones.
    pub fn is_white(&self) -> (light: bool)
        ensures
            light == square_is_light(self.x as int, self.y as int),
    {
        (self.x as u16 + self.y as u16 + 1) % 2 == 0
    }
}

/// The two square colours of the checkerboard pattern.
#[derive(Clone, Copy, PartialEq, Eq, Structural, Debug)]
pub enum SquareColor {
    Light,
    Dark,
}

/// The colour of the square at `(x, y)`.
pub open spec fn square_color_spec(x: int, y: int) -> SquareColor {
    if square_is_light(x, y) {
        SquareColor::Light
    } else {
        SquareColor::Dark
    }
}

/// Computes the colour of the square at `(x, y)`.
pub fn square_color(x: u8, y: u8) -> (color: SquareColor)
    ensures
        color == square_color_spec(x as int, y as int),
{
    if (x as u16 + y as u16 + 1) % 2 == 0 {
        SquareColor::Light
    } else {
        SquareColor::Dark
    }
}

/// Squares that differ by one in exactly one coordinate never share a colour.
pub proof fn lemma_adjacent_squares_opposite(x1: int, y1: int, x2: int, y2: int)
    requires
        on_board(x1, y1),
        on_board(x2, y2),
        (x1 == x2 && (y1 - y2 == 1 || y2 - y1 == 1)) || (y1 == y2 && (x1 - x2 == 1 || x2 - x1
            == 1)),
    ensures
        square_is_light(x1, y1) != square_is_light(x2, y2),
{
}

/// Enumerates the 64 squares exactly once, in row-major `(x, y)` order.
pub fn all_squares() -> (squares: Vec<Square>)
    ensures
        squares@.len() == 64,
        forall|i: int|
            0 <= i < 64 ==> #[trigger] squares@[i] == (Square {
                x: (i / 8) as u8,
                y: (i % 8) as u8,
            }),
{
    let mut squares: Vec<Square> = Vec::new();
    let mut k: usize = 0;
    while k < 64
        invariant
            k <= 64,
            squares@.len() == k,
            forall|i: int|
                0 <= i < k ==> #[trigger] squares@[i] == (Square {
                    x: (i / 8) as u8,
                    y: (i % 8) as u8,
                }),
        decreases 64 - k,
    {
        squares.push(Square { x: (k / 8) as u8, y: (k % 8) as u8 });
        k += 1;
    }
    squares
}

/// Whose turn it is; a fresh match starts with White to move.
#[derive(Clone, Copy, PartialEq, Eq, Structural, Debug)]
pub struct PlayerTurn(pub PieceColor);

impl Default for PlayerTurn {
    /// A fresh turn tracker: White moves first.
    fn default() -> (turn: Self)
        ensures
            turn.0 == PieceColor::White,
    {
        Self(PieceColor::White)
    }
}

/// How a square should be painted, in order of precedence: the square under
/// the pointer, then the selected square, then its base checkerboard colour.
#[derive(Clone, Copy, PartialEq, Eq, Structural, Debug)]
pub enum SquareShade {
    Hovered,
    Selected,
    Light,
    Dark,
}

/// The painting rule: hovering beats selection, which beats the base colour.
pub open spec fn square_shade_spec(hovered: bool, selected: bool, light: bool) -> SquareShade {
    if hovered {
        SquareShade::Hovered
    } else if selected {
        SquareShade::Selected
    } else if light {
        SquareShade::Light
    } else {
        SquareShade::Dark
    }
}

/// Picks the shade for one square from its hover, selection and colour flags.
pub fn square_shade(hovered: bool, selected: bool, light: bool) -> (shade: SquareShade)
    ensures
        shade == square_shade_spec(hovered, selected, light),
{
    if hovered {
        SquareShade::Hovered
    } else if selected {
        SquareShade::Selected
    } else if light {
        SquareShade::Light
    } else {
        SquareShade::Dark
    }
}

} // verus!
