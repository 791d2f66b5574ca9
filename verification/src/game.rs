//! The game state: the authoritative set of live pieces, the click-driven
//! selection machine, the move resolver with capture, the turn tracker and
//! the king-capture termination signal.

use vstd::prelude::*;

use crate::board::{on_board, PlayerTurn, Square};
use crate::pieces::{
    at_pos, find_piece_at, is_legal_move_spec, legal_move_check, lemma_occupant_of_index,
    occupant, occupied_at, occupied_by, occupied_by_color, pieces_wf, piece_on_board,
    positions_distinct, Piece, PieceColor, PieceType,
};

verus! {

/// What a move attempt came to: the move was applied, or it broke the
/// movement law and nothing changed.
#[derive(Clone, Copy, PartialEq, Eq, Structural, Debug)]
pub enum MoveOutcome {
    Applied,
    Rejected,
}

/// The colour to move after `n` applied moves of a match that starts with
/// White: each applied move hands the turn to the other side.
pub open spec fn color_after(n: nat) -> PieceColor
    decreases n,
{
    if n == 0 {
        PieceColor::White
    } else {
        color_after((n - 1) as nat).opposite_spec()
    }
}

/// Turn alternation: after `n` applied moves the active colour is White
/// exactly when `n` is even.
pub proof fn lemma_turn_alternation(n: nat)
    ensures
        (color_after(n) == PieceColor::White) <==> (n % 2 == 0),
    decreases n,
{
    if n > 0 {
        lemma_turn_alternation((n - 1) as nat);
    }
}

/// Whether a piece stands on `from` and may legally move to `target`.
pub open spec fn move_allowed(s: Seq<Piece>, from: (u8, u8), target: (u8, u8)) -> bool {
    occupant(s, from.0 as int, from.1 as int) matches Some(p) && is_legal_move_spec(
        s,
        p,
        target.0 as int,
        target.1 as int,
    )
}

/// Whether the piece standing on `target` is a king, so that capturing it
/// ends the match.
pub open spec fn king_captured(s: Seq<Piece>, target: (u8, u8)) -> bool {
    occupant(s, target.0 as int, target.1 as int) matches Some(q) && q.piece_type
        == PieceType::King
}

/// How the snapshot changes when piece `p` moves to `target`: `p` now
/// stands on `target`, its old square is empty, every other square is as it
/// was, and the occupant `target` had, if any, is gone from the live set.
pub open spec fn board_after_move(pre: Seq<Piece>, post: Seq<Piece>, p: Piece, target: (u8, u8)) -> bool {
    let fx = p.x as int;
    let fy = p.y as int;
    let tx = target.0 as int;
    let ty = target.1 as int;
    let moved = (Piece { color: p.color, piece_type: p.piece_type, x: target.0, y: target.1 });
    &&& occupant(post, tx, ty) == Some(moved)
    &&& occupant(post, fx, fy) is None
    &&& (forall|x: int, y: int|
        !(x == fx && y == fy) && !(x == tx && y == ty) ==> #[trigger] occupant(post, x, y)
            == occupant(pre, x, y))
    &&& post.len() == pre.len() - (if occupied_at(pre, tx, ty) {
        1int
    } else {
        0int
    })
}

/// How a whole state changes on an applied move: the board changes as
/// `board_after_move` says, the turn passes to the other side, and the
/// match ends exactly if it was already over or a king stood on `target`.
pub open spec fn applied_move(pre: GameState, post: GameState, from: (u8, u8), target: (u8, u8)) -> bool {
    &&& move_allowed(pre.live_pieces(), from, target)
    &&& (occupant(pre.live_pieces(), from.0 as int, from.1 as int) matches Some(p)
        ==> board_after_move(pre.live_pieces(), post.live_pieces(), p, target))
    &&& post.active_color() == pre.active_color().opposite_spec()
    &&& post.game_over_view() == (pre.game_over_view() || king_captured(
        pre.live_pieces(),
        target,
    ))
    &&& post.applied_moves() == pre.applied_moves() + 1
}

/// Moving piece `mi` onto an empty square: the updated snapshot relates to
/// the old one as `board_after_move` says.
proof fn lemma_apply_no_capture(pre: Seq<Piece>, mi: int, target: (u8, u8))
    requires
        pieces_wf(pre),
        0 <= mi < pre.len(),
        !occupied_at(pre, target.0 as int, target.1 as int),
        on_board(target.0 as int, target.1 as int),
    ensures
        ({
            let p = pre[mi];
            let moved = (Piece {
                color: p.color,
                piece_type: p.piece_type,
                x: target.0,
                y: target.1,
            });
            let post = pre.update(mi, moved);
            &&& pieces_wf(post)
            &&& board_after_move(pre, post, p, target)
        }),
{
    let p = pre[mi];
    let fx = p.x as int;
    let fy = p.y as int;
    let tx = target.0 as int;
    let ty = target.1 as int;
    let moved = (Piece { color: p.color, piece_type: p.piece_type, x: target.0, y: target.1 });
    let post = pre.update(mi, moved);
    assert forall|j: int| 0 <= j < pre.len() implies !at_pos(#[trigger] pre[j], tx, ty) by {
        if at_pos(pre[j], tx, ty) {
            assert(occupied_at(pre, tx, ty));
        }
    }
    assert(!(fx == tx && fy == ty));
    assert(positions_distinct(post));
    assert(pieces_wf(post));
    lemma_occupant_of_index(post, mi);
    assert(occupant(post, tx, ty) == Some(moved));
    assert forall|k: int| 0 <= k < post.len() implies !at_pos(#[trigger] post[k], fx, fy) by {
        if k != mi && at_pos(post[k], fx, fy) {
            assert(pre[k].x == pre[mi].x && pre[k].y == pre[mi].y);
        }
    }
    assert(occupant(post, fx, fy) is None);
    assert forall|x: int, y: int| !(x == fx && y == fy) && !(x == tx && y == ty) implies #[trigger] occupant(
        post,
        x,
        y,
    ) == occupant(pre, x, y) by {
        if occupied_at(pre, x, y) {
            let i = choose|i: int| 0 <= i < pre.len() && at_pos(pre[i], x, y);
            assert(i != mi);
            lemma_occupant_of_index(pre, i);
            lemma_occupant_of_index(post, i);
        } else {
            assert forall|k: int| 0 <= k < post.len() implies !at_pos(#[trigger] post[k], x, y) by {
                if k != mi {
                    assert(!at_pos(pre[k], x, y));
                }
            }
            assert(!occupied_at(post, x, y));
        }
    }
}

/// Moving piece `mi` onto the square held by piece `ci`: removing `ci` and
/// updating the mover relates the snapshots as `board_after_move` says.
proof fn lemma_apply_capture(pre: Seq<Piece>, mi: int, ci: int, target: (u8, u8))
    requires
        pieces_wf(pre),
        0 <= mi < pre.len(),
        0 <= ci < pre.len(),
        mi != ci,
        at_pos(pre[ci], target.0 as int, target.1 as int),
        !at_pos(pre[mi], target.0 as int, target.1 as int),
        on_board(target.0 as int, target.1 as int),
    ensures
        ({
            let p = pre[mi];
            let moved = (Piece {
                color: p.color,
                piece_type: p.piece_type,
                x: target.0,
                y: target.1,
            });
            let mi2 = if mi > ci {
                mi - 1
            } else {
                mi
            };
            let post = pre.remove(ci).update(mi2, moved);
            &&& pieces_wf(post)
            &&& board_after_move(pre, post, p, target)
        }),
{
    let p = pre[mi];
    let fx = p.x as int;
    let fy = p.y as int;
    let tx = target.0 as int;
    let ty = target.1 as int;
    let moved = (Piece { color: p.color, piece_type: p.piece_type, x: target.0, y: target.1 });
    let mid = pre.remove(ci);
    let mi2 = if mi > ci {
        mi - 1
    } else {
        mi
    };
    let post = mid.update(mi2, moved);
    // each index of `post` other than the mover's carries a piece of `pre`
    // that is neither the mover nor the captured piece
    assert forall|k: int| 0 <= k < post.len() && k != mi2 implies post[k] == pre[
        if k < ci {
            k
        } else {
            k + 1
        }
    ] && (if k < ci {
        k
    } else {
        k + 1
    }) != mi by {}
    assert(mid[mi2] == pre[mi]);
    assert(post[mi2] == moved);
    // no piece of `pre` other than `ci` stands on the target square
    assert forall|j: int| 0 <= j < pre.len() && j != ci implies !at_pos(
        #[trigger] pre[j],
        tx,
        ty,
    ) by {
        if at_pos(pre[j], tx, ty) {
            assert(pre[j].x == pre[ci].x && pre[j].y == pre[ci].y);
        }
    }
    assert(positions_distinct(post));
    assert(pieces_wf(post));
    lemma_occupant_of_index(post, mi2);
    assert(occupant(post, tx, ty) == Some(moved));
    assert forall|k: int| 0 <= k < post.len() implies !at_pos(#[trigger] post[k], fx, fy) by {
        if k != mi2 {
            let k0 = if k < ci {
                k
            } else {
                k + 1
            };
            if at_pos(pre[k0], fx, fy) {
                assert(pre[k0].x == pre[mi].x && pre[k0].y == pre[mi].y);
            }
        }
    }
    assert(occupant(post, fx, fy) is None);
    assert(at_pos(pre[ci], tx, ty) && occupied_at(pre, tx, ty));
    assert forall|x: int, y: int| !(x == fx && y == fy) && !(x == tx && y == ty) implies #[trigger] occupant(
        post,
        x,
        y,
    ) == occupant(pre, x, y) by {
        if occupied_at(pre, x, y) {
            let i = choose|i: int| 0 <= i < pre.len() && at_pos(pre[i], x, y);
            assert(i != mi && i != ci);
            let k = if i < ci {
                i
            } else {
                i - 1
            };
            assert(post[k] == pre[i]);
            lemma_occupant_of_index(pre, i);
            lemma_occupant_of_index(post, k);
        } else {
            assert forall|k: int| 0 <= k < post.len() implies !at_pos(#[trigger] post[k], x, y) by {
                if k != mi2 {
                    let k0 = if k < ci {
                        k
                    } else {
                        k + 1
                    };
                    assert(!at_pos(pre[k0], x, y));
                }
            }
            assert(!occupied_at(post, x, y));
        }
    }
}

/// The kind standing at file `y` of a back rank: rook, knight, bishop,
/// queen on file 3, king on file 4, bishop, knight, rook.
pub open spec fn back_rank_kind(y: int) -> PieceType {
    if y == 0 || y == 7 {
        PieceType::Rook
    } else if y == 1 || y == 6 {
        PieceType::Knight
    } else if y == 2 || y == 5 {
        PieceType::Bishop
    } else if y == 3 {
        PieceType::Queen
    } else {
        PieceType::King
    }
}

/// Piece `i` of the opening position: White's back rank on row 0 and pawns
/// on row 1, Black's back rank on row 7 and pawns on row 6.
pub open spec fn initial_piece(i: int) -> Piece {
    if i < 8 {
        Piece { color: PieceColor::White, piece_type: back_rank_kind(i), x: 0, y: i as u8 }
    } else if i < 16 {
        Piece { color: PieceColor::White, piece_type: PieceType::Pawn, x: 1, y: (i - 8) as u8 }
    } else if i < 24 {
        Piece {
            color: PieceColor::Black,
            piece_type: back_rank_kind(i - 16),
            x: 7,
            y: (i - 16) as u8,
        }
    } else {
        Piece { color: PieceColor::Black, piece_type: PieceType::Pawn, x: 6, y: (i - 24) as u8 }
    }
}

/// The 32 pieces of the opening position.
pub open spec fn initial_board() -> Seq<Piece> {
    Seq::new(32, |i: int| initial_piece(i))
}

/// The opening position is well formed: every piece on the board, no two
/// pieces on one square.
pub proof fn lemma_initial_board_wf()
    ensures
        pieces_wf(initial_board()),
{
    let s = initial_board();
    assert forall|i: int| 0 <= i < s.len() implies #[trigger] piece_on_board(s[i]) by {
        assert(s[i] == initial_piece(i));
    }
    assert forall|i: int, j: int|
        #![trigger s[i], s[j]]
        0 <= i < s.len() && 0 <= j < s.len() && i != j implies !(s[i].x == s[j].x && s[i].y
        == s[j].y) by {
        assert(s[i] == initial_piece(i));
        assert(s[j] == initial_piece(j));
    }
}

/// One two-player match: the live pieces, the selection, whose turn it is,
/// and whether a king has been captured.
pub struct GameState {
    pieces: Vec<Piece>,
    selected_square: Option<Square>,
    selected_piece: Option<Square>,
    turn: PlayerTurn,
    game_over: bool,
    applied: Ghost<nat>,
}

impl GameState {
    /// The snapshot of live pieces.
    pub closed spec fn live_pieces(&self) -> Seq<Piece> {
        self.pieces@
    }

    /// The square last clicked, while a selection is pending.
    pub closed spec fn selected_square_view(&self) -> Option<Square> {
        self.selected_square
    }

    /// The square of the piece chosen to move, if one is chosen.
    pub closed spec fn selected_piece_view(&self) -> Option<Square> {
        self.selected_piece
    }

    /// The colour whose turn it is.
    pub closed spec fn active_color(&self) -> PieceColor {
        self.turn.0
    }

    /// Whether a king has been captured and the match is over.
    pub closed spec fn game_over_view(&self) -> bool {
        self.game_over
    }

    /// How many moves have been applied since the match began.
    pub closed spec fn applied_moves(&self) -> nat {
        self.applied@
    }

    /// The standing invariant: every piece on the board and no two pieces
    /// on one square; a chosen piece only while a square is chosen; and the
    /// active colour determined by the number of applied moves.
    pub open spec fn wf(&self) -> bool {
        &&& pieces_wf(self.live_pieces())
        &&& (self.selected_piece_view() is Some ==> self.selected_square_view() is Some)
        &&& self.active_color() == color_after(self.applied_moves())
    }

    /// Reports whose turn it is.
    pub fn current_turn(&self) -> (color: PieceColor)
        ensures
            color == self.active_color(),
    {
        self.turn.0
    }

    /// Reports the pending selection: the selected square, and the square
    /// of the selected piece.
    pub fn current_selection(&self) -> (selection: (Option<Square>, Option<Square>))
        ensures
            selection.0 == self.selected_square_view(),
            selection.1 == self.selected_piece_view(),
    {
        (self.selected_square, self.selected_piece)
    }

    /// Reports whether a king has been captured.
    pub fn is_game_over(&self) -> (over: bool)
        ensures
            over == self.game_over_view(),
    {
        self.game_over
    }

    /// Reports how many pieces are still in play.
    pub fn live_piece_count(&self) -> (count: usize)
        ensures
            count == self.live_pieces().len(),
    {
        self.pieces.len()
    }

    /// Reports the piece standing on `(x, y)`, if any.
    pub fn piece_at(&self, x: u8, y: u8) -> (found: Option<Piece>)
        requires
            self.wf(),
        ensures
            found == occupant(self.live_pieces(), x as int, y as int),
    {
        match find_piece_at(&self.pieces, x, y) {
            Some(i) => {
                proof {
                    lemma_occupant_of_index(self.pieces@, i as int);
                }
                Some(self.pieces[i])
            },
            None => None,
        }
    }

    /// Sets up the opening position: White to move, no selection pending.
    pub fn new() -> (state: GameState)
        ensures
            state.wf(),
            state.live_pieces() == initial_board(),
            state.selected_square_view() is None,
            state.selected_piece_view() is None,
            state.active_color() == PieceColor::White,
            !state.game_over_view(),
            state.applied_moves() == 0,
    {
        let mut pieces: Vec<Piece> = Vec::new();
        pieces.push(Piece { color: PieceColor::White, piece_type: PieceType::Rook, x: 0, y: 0 });
        pieces.push(Piece { color: PieceColor::White, piece_type: PieceType::Knight, x: 0, y: 1 });
        pieces.push(Piece { color: PieceColor::White, piece_type: PieceType::Bishop, x: 0, y: 2 });
        pieces.push(Piece { color: PieceColor::White, piece_type: PieceType::Queen, x: 0, y: 3 });
        pieces.push(Piece { color: PieceColor::White, piece_type: PieceType::King, x: 0, y: 4 });
        pieces.push(Piece { color: PieceColor::White, piece_type: PieceType::Bishop, x: 0, y: 5 });
        pieces.push(Piece { color: PieceColor::White, piece_type: PieceType::Knight, x: 0, y: 6 });
        pieces.push(Piece { color: PieceColor::White, piece_type: PieceType::Rook, x: 0, y: 7 });
        let mut f: u8 = 0;
        while f < 8
            invariant
                f <= 8,
                pieces@.len() == 8 + f,
                forall|j: int| 0 <= j < 8 + f ==> #[trigger] pieces@[j] == initial_piece(j),
            decreases 8 - f,
        {
            pieces.push(Piece { color: PieceColor::White, piece_type: PieceType::Pawn, x: 1, y: f });
            f += 1;
        }
        pieces.push(Piece { color: PieceColor::Black, piece_type: PieceType::Rook, x: 7, y: 0 });
        pieces.push(Piece { color: PieceColor::Black, piece_type: PieceType::Knight, x: 7, y: 1 });
        pieces.push(Piece { color: PieceColor::Black, piece_type: PieceType::Bishop, x: 7, y: 2 });
        pieces.push(Piece { color: PieceColor::Black, piece_type: PieceType::Queen, x: 7, y: 3 });
        pieces.push(Piece { color: PieceColor::Black, piece_type: PieceType::King, x: 7, y: 4 });
        pieces.push(Piece { color: PieceColor::Black, piece_type: PieceType::Bishop, x: 7, y: 5 });
        pieces.push(Piece { color: PieceColor::Black, piece_type: PieceType::Knight, x: 7, y: 6 });
        pieces.push(Piece { color: PieceColor::Black, piece_type: PieceType::Rook, x: 7, y: 7 });
        let mut g: u8 = 0;
        while g < 8
            invariant
                g <= 8,
                pieces@.len() == 24 + g,
                forall|j: int| 0 <= j < 24 + g ==> #[trigger] pieces@[j] == initial_piece(j),
            decreases 8 - g,
        {
            pieces.push(Piece { color: PieceColor::Black, piece_type: PieceType::Pawn, x: 6, y: g });
            g += 1;
        }
        proof {
            assert(pieces@ =~= initial_board());
            lemma_initial_board_wf();
        }
        GameState {
            pieces,
            selected_square: None,
            selected_piece: None,
            turn: PlayerTurn(PieceColor::White),
            game_over: false,
            applied: Ghost(0),
        }
    }

    /// Builds a match from an arbitrary set of pieces, White to move and no
    /// selection pending; refuses a set with a piece off the board or two
    /// pieces on one square.
    pub fn with_pieces(pieces: Vec<Piece>) -> (state: Option<GameState>)
        ensures
            state is Some <==> pieces_wf(pieces@),
            state matches Some(g) ==> {
                &&& g.wf()
                &&& g.live_pieces() == pieces@
                &&& g.selected_square_view() is None
                &&& g.selected_piece_view() is None
                &&& g.active_color() == PieceColor::White
                &&& !g.game_over_view()
                &&& g.applied_moves() == 0
            },
    {
        let n = pieces.len();
        let mut i: usize = 0;
        while i < n
            invariant
                n == pieces@.len(),
                i <= n,
                forall|a: int| 0 <= a < i ==> #[trigger] piece_on_board(pieces@[a]),
            decreases n - i,
        {
            if pieces[i].x >= 8 || pieces[i].y >= 8 {
                assert(!piece_on_board(pieces@[i as int]));
                return None;
            }
            i += 1;
        }
        let mut a: usize = 0;
        while a < n
            invariant
                n == pieces@.len(),
                a <= n,
                forall|c: int| 0 <= c < n ==> #[trigger] piece_on_board(pieces@[c]),
                forall|c: int, d: int|
                    #![trigger pieces@[c], pieces@[d]]
                    0 <= c < a && 0 <= d < n && c != d ==> !(pieces@[c].x == pieces@[d].x
                        && pieces@[c].y == pieces@[d].y),
            decreases n - a,
        {
            let mut b: usize = a + 1;
            while b < n
                invariant
                    n == pieces@.len(),
                    a < b || a + 1 == b,
                    a < n,
                    a + 1 <= b <= n,
                    forall|c: int, d: int|
                        #![trigger pieces@[c], pieces@[d]]
                        0 <= c < a && 0 <= d < n && c != d ==> !(pieces@[c].x == pieces@[d].x
                            && pieces@[c].y == pieces@[d].y),
                    forall|d: int|
                        a < d < b ==> !(pieces@[a as int].x == #[trigger] pieces@[d].x
                            && pieces@[a as int].y == pieces@[d].y),
                decreases n - b,
            {
                if pieces[a].x == pieces[b].x && pieces[a].y == pieces[b].y {
                    assert(pieces@[a as int].x == pieces@[b as int].x && pieces@[a as int].y
                        == pieces@[b as int].y);
                    assert(!positions_distinct(pieces@));
                    return None;
                }
                b += 1;
            }
            a += 1;
        }
        Some(
            GameState {
                pieces,
                selected_square: None,
                selected_piece: None,
                turn: PlayerTurn(PieceColor::White),
                game_over: false,
                applied: Ghost(0),
            },
        )
    }

    /// Tries to move the piece standing on `from` to `target`. A legal move
    /// is applied: the occupant of `target`, if any, is captured (capture
    /// of a king ends the match), the mover is relocated, and the turn
    /// passes to the other side. An illegal move, or a `from` square with
    /// no piece on it, changes nothing. The pending selection is left to
    /// the caller in either case.
    pub fn attempt_move(&mut self, from: (u8, u8), target: (u8, u8)) -> (outcome: MoveOutcome)
        requires
            old(self).wf(),
        ensures
            final(self).wf(),
            (outcome == MoveOutcome::Applied) <==> move_allowed(
                old(self).live_pieces(),
                from,
                target,
            ),
            outcome == MoveOutcome::Rejected ==> *final(self) == *old(self),
            outcome == MoveOutcome::Applied ==> applied_move(*old(self), *final(self), from, target),
            final(self).selected_square_view() == old(self).selected_square_view(),
            final(self).selected_piece_view() == old(self).selected_piece_view(),
    {
        let ghost pre = self.pieces@;
        let mi: usize = match find_piece_at(&self.pieces, from.0, from.1) {
            None => {
                return MoveOutcome::Rejected;
            },
            Some(i) => i,
        };
        proof {
            lemma_occupant_of_index(pre, mi as int);
        }
        let p = self.pieces[mi];
        if !legal_move_check(&self.pieces, p, target.0, target.1) {
            return MoveOutcome::Rejected;
        }
        let tx: Ghost<int> = Ghost(target.0 as int);
        let ty: Ghost<int> = Ghost(target.1 as int);
        proof {
            if at_pos(p, tx@, ty@) {
                assert(occupied_by(pre, p.color, tx@, ty@));
            }
        }
        let mut mover_idx: usize = mi;
        match find_piece_at(&self.pieces, target.0, target.1) {
            Some(ci) => {
                let q = self.pieces[ci];
                proof {
                    if q.color == p.color {
                        assert(occupied_by(pre, p.color, tx@, ty@));
                    }
                    assert(mi != ci);
                    lemma_occupant_of_index(pre, ci as int);
                    lemma_apply_capture(pre, mi as int, ci as int, target);
                }
                if q.piece_type == PieceType::King {
                    self.game_over = true;
                }
                self.pieces.remove(ci);
                if mover_idx > ci {
                    mover_idx -= 1;
                }
            },
            None => {
                proof {
                    lemma_apply_no_capture(pre, mi as int, target);
                }
            },
        }
        let moved = Piece { color: p.color, piece_type: p.piece_type, x: target.0, y: target.1 };
        self.pieces.set(mover_idx, moved);
        self.turn = PlayerTurn(self.turn.0.opposite());
        self.applied = Ghost(self.applied@ + 1);
        MoveOutcome::Applied
    }

    /// Reports the whole board for rendering: the 64 squares in row-major
    /// order, each with the colour and kind of its occupant, if any.
    pub fn current_board_state(&self) -> (board: Vec<(Square, Option<(PieceColor, PieceType)>)>)
        requires
            self.wf(),
        ensures
            board@.len() == 64,
            forall|i: int|
                0 <= i < 64 ==> {
                    &&& (#[trigger] board@[i]).0 == (Square { x: (i / 8) as u8, y: (i % 8) as u8 })
                    &&& board@[i].1 == (match occupant(self.live_pieces(), i / 8, i % 8) {
                        Some(p) => Some((p.color, p.piece_type)),
                        None => None,
                    })
                },
    {
        let mut board: Vec<(Square, Option<(PieceColor, PieceType)>)> = Vec::new();
        let mut k: usize = 0;
        while k < 64
            invariant
                self.wf(),
                k <= 64,
                board@.len() == k,
                forall|i: int|
                    0 <= i < k ==> {
                        &&& (#[trigger] board@[i]).0 == (Square {
                            x: (i / 8) as u8,
                            y: (i % 8) as u8,
                        })
                        &&& board@[i].1 == (match occupant(self.live_pieces(), i / 8, i % 8) {
                            Some(p) => Some((p.color, p.piece_type)),
                            None => None,
                        })
                    },
            decreases 64 - k,
        {
            let x = (k / 8) as u8;
            let y = (k % 8) as u8;
            let occ = match self.piece_at(x, y) {
                Some(p) => Some((p.color, p.piece_type)),
                None => None,
            };
            board.push((Square { x, y }, occ));
            k += 1;
        }
        board
    }

    /// Consumes one left-click, resolved by the host to a board square or
    /// to nothing. A click outside the board clears the selection. With a
    /// piece already chosen, the click is a move attempt to the clicked
    /// square, and the selection is cleared whatever the outcome. With no
    /// piece chosen, the clicked square is remembered, and the piece on it
    /// becomes the chosen piece exactly when it belongs to the side to
    /// move.
    pub fn on_pointer_click(&mut self, resolved_square: Option<(u8, u8)>) -> (attempt: Option<
        MoveOutcome,
    >)
        requires
            old(self).wf(),
            resolved_square matches Some(sq) ==> sq.0 < 8 && sq.1 < 8,
        ensures
            final(self).wf(),
            match resolved_square {
                None => {
                    &&& attempt is None
                    &&& final(self).selected_square_view() is None
                    &&& final(self).selected_piece_view() is None
                    &&& final(self).live_pieces() == old(self).live_pieces()
                    &&& final(self).active_color() == old(self).active_color()
                    &&& final(self).game_over_view() == old(self).game_over_view()
                    &&& final(self).applied_moves() == old(self).applied_moves()
                },
                Some(sq) => match old(self).selected_piece_view() {
                    Some(ps) => {
                        &&& final(self).selected_square_view() is None
                        &&& final(self).selected_piece_view() is None
                        &&& attempt matches Some(outcome) && ((outcome == MoveOutcome::Applied)
                            <==> move_allowed(old(self).live_pieces(), (ps.x, ps.y), sq))
                        &&& attempt == Some(MoveOutcome::Rejected) ==> {
                            &&& final(self).live_pieces() == old(self).live_pieces()
                            &&& final(self).active_color() == old(self).active_color()
                            &&& final(self).game_over_view() == old(self).game_over_view()
                            &&& final(self).applied_moves() == old(self).applied_moves()
                        }
                        &&& attempt == Some(MoveOutcome::Applied) ==> applied_move(
                            *old(self),
                            *final(self),
                            (ps.x, ps.y),
                            sq,
                        )
                    },
                    None => {
                        &&& attempt is None
                        &&& final(self).live_pieces() == old(self).live_pieces()
                        &&& final(self).active_color() == old(self).active_color()
                        &&& final(self).game_over_view() == old(self).game_over_view()
                        &&& final(self).applied_moves() == old(self).applied_moves()
                        &&& final(self).selected_square_view() == Some(
                            (Square { x: sq.0, y: sq.1 }),
                        )
                        &&& final(self).selected_piece_view() == (if occupied_by(
                            old(self).live_pieces(),
                            old(self).active_color(),
                            sq.0 as int,
                            sq.1 as int,
                        ) {
                            Some((Square { x: sq.0, y: sq.1 }))
                        } else {
                            None
                        })
                    },
                },
            },
    {
        match resolved_square {
            None => {
                self.selected_square = None;
                self.selected_piece = None;
                None
            },
            Some((x, y)) => {
                self.selected_square = Some(Square { x, y });
                match self.selected_piece {
                    Some(chosen) => {
                        let outcome = self.attempt_move((chosen.x, chosen.y), (x, y));
                        self.selected_square = None;
                        self.selected_piece = None;
                        Some(outcome)
                    },
                    None => {
                        if occupied_by_color(&self.pieces, self.turn.0, x, y) {
                            self.selected_piece = Some(Square { x, y });
                        }
                        None
                    },
                }
            },
        }
    }
}

} // verus!
