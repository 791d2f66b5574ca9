//! Pieces and their movement law: colour, kind and position of each piece,
//! occupancy of a board snapshot, and the per-kind geometric rule that
//! decides whether a move is legal.

use vstd::prelude::*;

use crate::board::on_board;

verus! {

/// The two sides of the match.
#[derive(Clone, Copy, PartialEq, Eq, Structural, Debug)]
pub enum PieceColor {
    White,
    Black,
}

impl PieceColor {
    /// The other side.
    pub open spec fn opposite_spec(self) -> PieceColor {
        match self {
            PieceColor::White => PieceColor::Black,
            PieceColor::Black => PieceColor::White,
        }
    }

    /// Returns the other side.
    pub fn opposite(self) -> (other: PieceColor)
        ensures
            other == self.opposite_spec(),
    {
        match self {
            PieceColor::White => PieceColor::Black,
            PieceColor::Black => PieceColor::White,
        }
    }
}

/// The six kinds of chess piece.
#[derive(Clone, Copy, PartialEq, Eq, Structural, Debug)]
pub enum PieceType {
    King,
    Queen,
    Bishop,
    Knight,
    Rook,
    Pawn,
}

/// A live piece: its side, its kind and its current position.
#[derive(Clone, Copy, PartialEq, Eq, Structural, Debug)]
pub struct Piece {
    pub color: PieceColor,
    pub piece_type: PieceType,
    pub x: u8,
    pub y: u8,
}

/// Whether piece `p` stands on `(x, y)`.
pub open spec fn at_pos(p: Piece, x: int, y: int) -> bool {
    p.x == x && p.y == y
}

/// Whether piece `p` stands somewhere on the board.
pub open spec fn piece_on_board(p: Piece) -> bool {
    on_board(p.x as int, p.y as int)
}

/// Whether some piece of the snapshot stands on `(x, y)`.
pub open spec fn occupied_at(s: Seq<Piece>, x: int, y: int) -> bool {
    exists|i: int| 0 <= i < s.len() && #[trigger] at_pos(s[i], x, y)
}

/// Whether a piece of colour `c` stands on `(x, y)`.
pub open spec fn occupied_by(s: Seq<Piece>, c: PieceColor, x: int, y: int) -> bool {
    exists|i: int| 0 <= i < s.len() && #[trigger] at_pos(s[i], x, y) && s[i].color == c
}

/// No two pieces of the snapshot share a position.
pub open spec fn positions_distinct(s: Seq<Piece>) -> bool {
    forall|i: int, j: int|
        #![trigger s[i], s[j]]
        0 <= i < s.len() && 0 <= j < s.len() && i != j ==> !(s[i].x == s[j].x && s[i].y
            == s[j].y)
}

/// A well-formed snapshot: every piece on the board, no shared positions.
pub open spec fn pieces_wf(s: Seq<Piece>) -> bool {
    positions_distinct(s) && forall|i: int| 0 <= i < s.len() ==> #[trigger] piece_on_board(s[i])
}

/// The piece standing on `(x, y)`, if any. Under `positions_distinct` it is
/// the unique such piece.
pub open spec fn occupant(s: Seq<Piece>, x: int, y: int) -> Option<Piece> {
    if occupied_at(s, x, y) {
        Some(s[choose|i: int| 0 <= i < s.len() && at_pos(s[i], x, y)])
    } else {
        None
    }
}

/// On a snapshot without shared positions, the occupant of piece `i`'s own
/// square is piece `i` itself.
pub proof fn lemma_occupant_of_index(s: Seq<Piece>, i: int)
    requires
        positions_distinct(s),
        0 <= i < s.len(),
    ensures
        occupant(s, s[i].x as int, s[i].y as int) == Some(s[i]),
{
    let x = s[i].x as int;
    let y = s[i].y as int;
    assert(at_pos(s[i], x, y));
    let j = choose|j: int| 0 <= j < s.len() && at_pos(s[j], x, y);
    assert(j == i);
}

/// The absolute value of a coordinate difference.
pub open spec fn magnitude(d: int) -> int {
    if d < 0 {
        -d
    } else {
        d
    }
}

/// One step in any of the eight directions: how a king moves.
pub open spec fn king_step(dx: int, dy: int) -> bool {
    (dx != 0 || dy != 0) && -1 <= dx <= 1 && -1 <= dy <= 1
}

/// A (1, 2) or (2, 1) offset: how a knight jumps.
pub open spec fn knight_jump(dx: int, dy: int) -> bool {
    (magnitude(dx) == 1 && magnitude(dy) == 2) || (magnitude(dx) == 2 && magnitude(dy) == 1)
}

/// A non-trivial horizontal or vertical offset: how a rook slides.
pub open spec fn straight_line(dx: int, dy: int) -> bool {
    (dx == 0) != (dy == 0)
}

/// A non-trivial diagonal offset: how a bishop slides.
pub open spec fn diagonal_line(dx: int, dy: int) -> bool {
    dx != 0 && magnitude(dx) == magnitude(dy)
}

/// `b` lies strictly between `a` and `c`.
pub open spec fn strictly_between(a: int, b: int, c: int) -> bool {
    (a < b && b < c) || (c < b && b < a)
}

/// `(x, y)` lies strictly between `(fx, fy)` and `(tx, ty)` on the straight
/// or diagonal line joining them. Meaningful only when the endpoints are
/// joined by such a line.
pub open spec fn on_open_segment(fx: int, fy: int, tx: int, ty: int, x: int, y: int) -> bool {
    if fy == ty {
        y == fy && strictly_between(fx, x, tx)
    } else if fx == tx {
        x == fx && strictly_between(fy, y, ty)
    } else if tx - fx == ty - fy {
        x - fx == y - fy && strictly_between(fx, x, tx)
    } else {
        x - fx == fy - y && strictly_between(fx, x, tx)
    }
}

/// Every square strictly between the two endpoints is empty.
pub open spec fn path_clear(s: Seq<Piece>, fx: int, fy: int, tx: int, ty: int) -> bool {
    forall|x: int, y: int|
        on_open_segment(fx, fy, tx, ty, x, y) ==> !#[trigger] occupied_at(s, x, y)
}

/// The row a pawn of colour `c` advances towards: White climbs, Black descends.
pub open spec fn pawn_dir(c: PieceColor) -> int {
    match c {
        PieceColor::White => 1,
        PieceColor::Black => -1,
    }
}

/// The row a pawn of colour `c` starts the match on.
pub open spec fn pawn_start_row(c: PieceColor) -> int {
    match c {
        PieceColor::White => 1,
        PieceColor::Black => 6,
    }
}

/// The pawn rule adopted by this engine: one square straight ahead onto an
/// empty square; two squares straight ahead from the pawn's starting row
/// when both squares ahead are empty; or one square diagonally ahead, and
/// then only onto a piece of the other colour. There is no en passant.
pub open spec fn pawn_move(s: Seq<Piece>, c: PieceColor, fx: int, fy: int, tx: int, ty: int) -> bool {
    ||| (tx == fx + pawn_dir(c) && ty == fy && !occupied_at(s, tx, ty))
    ||| (fx == pawn_start_row(c) && tx == fx + 2 * pawn_dir(c) && ty == fy && !occupied_at(
        s,
        fx + pawn_dir(c),
        fy,
    ) && !occupied_at(s, tx, ty))
    ||| (tx == fx + pawn_dir(c) && magnitude(ty - fy) == 1 && occupied_by(
        s,
        c.opposite_spec(),
        tx,
        ty,
    ))
}

/// The geometric rule of piece `p`'s kind for reaching `(tx, ty)`, including
/// the empty-path demand of the sliding kinds.
pub open spec fn geometry_ok(s: Seq<Piece>, p: Piece, tx: int, ty: int) -> bool {
    let fx = p.x as int;
    let fy = p.y as int;
    let dx = tx - fx;
    let dy = ty - fy;
    match p.piece_type {
        PieceType::King => king_step(dx, dy),
        PieceType::Queen => (straight_line(dx, dy) || diagonal_line(dx, dy)) && path_clear(
            s,
            fx,
            fy,
            tx,
            ty,
        ),
        PieceType::Rook => straight_line(dx, dy) && path_clear(s, fx, fy, tx, ty),
        PieceType::Bishop => diagonal_line(dx, dy) && path_clear(s, fx, fy, tx, ty),
        PieceType::Knight => knight_jump(dx, dy),
        PieceType::Pawn => pawn_move(s, p.color, fx, fy, tx, ty),
    }
}

/// The movement law: the target lies on the board, no piece of the mover's
/// own colour stands there, and the mover's kind can reach it geometrically.
/// Capture needs no separate rule: reaching an enemy-held square is capture.
pub open spec fn is_legal_move_spec(s: Seq<Piece>, p: Piece, tx: int, ty: int) -> bool {
    &&& on_board(tx, ty)
    &&& !occupied_by(s, p.color, tx, ty)
    &&& geometry_ok(s, p, tx, ty)
}

/// Decides whether any piece stands on `(x, y)`.
pub fn occupied(pieces: &Vec<Piece>, x: u8, y: u8) -> (found: bool)
    ensures
        found == occupied_at(pieces@, x as int, y as int),
{
    let mut i: usize = 0;
    while i < pieces.len()
        invariant
            i <= pieces@.len(),
            forall|j: int| 0 <= j < i ==> !at_pos(#[trigger] pieces@[j], x as int, y as int),
        decreases pieces@.len() - i,
    {
        if pieces[i].x == x && pieces[i].y == y {
            assert(at_pos(pieces@[i as int], x as int, y as int));
            return true;
        }
        i += 1;
    }
    false
}

/// Decides whether a piece of colour `c` stands on `(x, y)`.
pub fn occupied_by_color(pieces: &Vec<Piece>, c: PieceColor, x: u8, y: u8) -> (found: bool)
    ensures
        found == occupied_by(pieces@, c, x as int, y as int),
{
    let mut i: usize = 0;
    while i < pieces.len()
        invariant
            i <= pieces@.len(),
            forall|j: int|
                0 <= j < i ==> !(at_pos(#[trigger] pieces@[j], x as int, y as int) && pieces@[j].color
                    == c),
        decreases pieces@.len() - i,
    {
        if pieces[i].x == x && pieces[i].y == y && pieces[i].color == c {
            assert(at_pos(pieces@[i as int], x as int, y as int));
            return true;
        }
        i += 1;
    }
    false
}

/// Finds the index of the piece standing on `(x, y)`, if any.
pub fn find_piece_at(pieces: &Vec<Piece>, x: u8, y: u8) -> (found: Option<usize>)
    ensures
        match found {
            Some(i) => i < pieces@.len() && at_pos(pieces@[i as int], x as int, y as int),
            None => !occupied_at(pieces@, x as int, y as int),
        },
{
    let mut i: usize = 0;
    while i < pieces.len()
        invariant
            i <= pieces@.len(),
            forall|j: int| 0 <= j < i ==> !at_pos(#[trigger] pieces@[j], x as int, y as int),
        decreases pieces@.len() - i,
    {
        if pieces[i].x == x && pieces[i].y == y {
            assert(at_pos(pieces@[i as int], x as int, y as int));
            return Some(i);
        }
        i += 1;
    }
    None
}

/// One step of the walk along an open segment: a point strictly inside the
/// extended segment is either strictly inside the old one or is its former
/// endpoint.
proof fn lemma_open_segment_step(
    fx: int,
    fy: int,
    cx: int,
    cy: int,
    sx: int,
    sy: int,
    x: int,
    y: int,
)
    requires
        -1 <= sx <= 1,
        -1 <= sy <= 1,
        sx != 0 || sy != 0,
        sx == 0 ==> cx == fx,
        sx == 1 ==> cx > fx,
        sx == -1 ==> cx < fx,
        sy == 0 ==> cy == fy,
        sy == 1 ==> cy > fy,
        sy == -1 ==> cy < fy,
        sx != 0 && sy != 0 ==> magnitude(cx - fx) == magnitude(cy - fy),
        on_open_segment(fx, fy, cx + sx, cy + sy, x, y),
    ensures
        on_open_segment(fx, fy, cx, cy, x, y) || (x == cx && y == cy),
{
}

/// Decides whether every square strictly between the two endpoints is empty.
/// The endpoints must be joined by a horizontal, vertical or diagonal line.
fn path_is_clear(pieces: &Vec<Piece>, fx: u8, fy: u8, tx: u8, ty: u8) -> (clear: bool)
    requires
        straight_line(tx - fx, ty - fy) || diagonal_line(tx - fx, ty - fy),
    ensures
        clear == path_clear(pieces@, fx as int, fy as int, tx as int, ty as int),
{
    let fxi: i16 = fx as i16;
    let fyi: i16 = fy as i16;
    let txi: i16 = tx as i16;
    let tyi: i16 = ty as i16;
    let sx: i16 = if txi > fxi {
        1
    } else if txi < fxi {
        -1
    } else {
        0
    };
    let sy: i16 = if tyi > fyi {
        1
    } else if tyi < fyi {
        -1
    } else {
        0
    };
    let mut cx: i16 = fxi + sx;
    let mut cy: i16 = fyi + sy;
    while cx != txi || cy != tyi
        invariant
            straight_line(txi - fxi, tyi - fyi) || diagonal_line(txi - fxi, tyi - fyi),
            fxi == fx && fyi == fy && txi == tx && tyi == ty,
            sx == (if txi > fxi { 1int } else if txi < fxi { -1int } else { 0int }),
            sy == (if tyi > fyi { 1int } else if tyi < fyi { -1int } else { 0int }),
            sx == 0 ==> cx == fxi,
            sx == 1 ==> fxi < cx <= txi,
            sx == -1 ==> txi <= cx < fxi,
            sy == 0 ==> cy == fyi,
            sy == 1 ==> fyi < cy <= tyi,
            sy == -1 ==> tyi <= cy < fyi,
            sx != 0 && sy != 0 ==> magnitude(cx - fxi) == magnitude(cy - fyi),
            forall|x: int, y: int|
                on_open_segment(fxi as int, fyi as int, cx as int, cy as int, x, y)
                    ==> !#[trigger] occupied_at(pieces@, x, y),
        decreases magnitude(txi - cx) + magnitude(tyi - cy),
    {
        if occupied(pieces, cx as u8, cy as u8) {
            assert(on_open_segment(fx as int, fy as int, tx as int, ty as int, cx as int, cy as int));
            return false;
        }
        proof {
            assert forall|x: int, y: int|
                on_open_segment(fx as int, fy as int, cx + sx, cy + sy, x, y) implies (
            on_open_segment(fx as int, fy as int, cx as int, cy as int, x, y) || (x == cx && y
                == cy)) by {
                lemma_open_segment_step(fx as int, fy as int, cx as int, cy as int, sx as int, sy as int, x, y);
            }
        }
        cx = cx + sx;
        cy = cy + sy;
    }
    true
}

/// Decides the movement law for piece `p` and target `(tx, ty)` against the
/// snapshot `pieces`.
pub fn legal_move_check(pieces: &Vec<Piece>, p: Piece, tx: u8, ty: u8) -> (legal: bool)
    ensures
        legal == is_legal_move_spec(pieces@, p, tx as int, ty as int),
{
    if tx >= 8 || ty >= 8 {
        return false;
    }
    if occupied_by_color(pieces, p.color, tx, ty) {
        return false;
    }
    let dx: i16 = tx as i16 - p.x as i16;
    let dy: i16 = ty as i16 - p.y as i16;
    let adx: i16 = if dx < 0 {
        -dx
    } else {
        dx
    };
    let ady: i16 = if dy < 0 {
        -dy
    } else {
        dy
    };
    match p.piece_type {
        PieceType::King => (dx != 0 || dy != 0) && adx <= 1 && ady <= 1,
        PieceType::Queen => ((dx == 0) != (dy == 0) || (dx != 0 && adx == ady)) && path_is_clear(
            pieces,
            p.x,
            p.y,
            tx,
            ty,
        ),
        PieceType::Rook => (dx == 0) != (dy == 0) && path_is_clear(pieces, p.x, p.y, tx, ty),
        PieceType::Bishop => dx != 0 && adx == ady && path_is_clear(pieces, p.x, p.y, tx, ty),
        PieceType::Knight => (adx == 1 && ady == 2) || (adx == 2 && ady == 1),
        PieceType::Pawn => {
            let dir: i16 = match p.color {
                PieceColor::White => 1,
                PieceColor::Black => -1,
            };
            let start: i16 = match p.color {
                PieceColor::White => 1,
                PieceColor::Black => 6,
            };
            if dx == dir && dy == 0 {
                !occupied(pieces, tx, ty)
            } else if p.x as i16 == start && dx == 2 * dir && dy == 0 {
                !occupied(pieces, (p.x as i16 + dir) as u8, p.y) && !occupied(pieces, tx, ty)
            } else if dx == dir && ady == 1 {
                occupied_by_color(pieces, p.color.opposite(), tx, ty)
            } else {
                false
            }
        },
    }
}

impl Piece {
    /// Decides whether this piece may move to `new_position` given the
    /// snapshot of all live pieces.
    pub fn is_move_valid(&self, new_position: (u8, u8), pieces: Vec<Piece>) -> (legal: bool)
        ensures
            legal == is_legal_move_spec(
                pieces@,
                *self,
                new_position.0 as int,
                new_position.1 as int,
            ),
    {
        legal_move_check(&pieces, *self, new_position.0, new_position.1)
    }
}

/// What the movement law guarantees: a move onto a piece of the mover's own
/// colour is never legal; a legal move onto an occupied square always lands
/// on the other colour; and a legal move of a sliding kind has every square
/// strictly between source and target empty.
pub proof fn lemma_legal_move_characterization(s: Seq<Piece>, p: Piece, tx: int, ty: int)
    ensures
        occupied_by(s, p.color, tx, ty) ==> !is_legal_move_spec(s, p, tx, ty),
        is_legal_move_spec(s, p, tx, ty) && occupied_at(s, tx, ty) ==> occupied_by(
            s,
            p.color.opposite_spec(),
            tx,
            ty,
        ),
        is_legal_move_spec(s, p, tx, ty) ==> geometry_ok(s, p, tx, ty),
        is_legal_move_spec(s, p, tx, ty) && (p.piece_type == PieceType::Queen || p.piece_type
            == PieceType::Rook || p.piece_type == PieceType::Bishop) ==> path_clear(
            s,
            p.x as int,
            p.y as int,
            tx,
            ty,
        ),
{
    if is_legal_move_spec(s, p, tx, ty) && occupied_at(s, tx, ty) {
        let i = choose|i: int| 0 <= i < s.len() && at_pos(s[i], tx, ty);
        if s[i].color == p.color {
            assert(occupied_by(s, p.color, tx, ty));
        } else {
            assert(s[i].color == p.color.opposite_spec());
            assert(occupied_by(s, p.color.opposite_spec(), tx, ty));
        }
    }
}

} // verus!
