use chess_engine::game::{GameState, MoveOutcome};
use chess_engine::pieces::{Piece, PieceColor, PieceType};

fn piece(color: PieceColor, piece_type: PieceType, x: u8, y: u8) -> Piece {
    Piece { color, piece_type, x, y }
}

fn game_with(pieces: Vec<Piece>) -> GameState {
    GameState::with_pieces(pieces).expect("the piece set should be well formed")
}

#[test]
fn the_opening_position_has_thirty_two_pieces_in_place() {
    let game = GameState::new();
    assert_eq!(game.live_piece_count(), 32);
    assert_eq!(game.current_turn(), PieceColor::White);
    assert_eq!(game.current_selection(), (None, None));
    assert!(!game.is_game_over());

    assert_eq!(game.piece_at(0, 0), Some(piece(PieceColor::White, PieceType::Rook, 0, 0)));
    assert_eq!(game.piece_at(0, 3), Some(piece(PieceColor::White, PieceType::Queen, 0, 3)));
    assert_eq!(game.piece_at(0, 4), Some(piece(PieceColor::White, PieceType::King, 0, 4)));
    assert_eq!(game.piece_at(1, 5), Some(piece(PieceColor::White, PieceType::Pawn, 1, 5)));
    assert_eq!(game.piece_at(7, 3), Some(piece(PieceColor::Black, PieceType::Queen, 7, 3)));
    assert_eq!(game.piece_at(7, 4), Some(piece(PieceColor::Black, PieceType::King, 7, 4)));
    assert_eq!(game.piece_at(7, 6), Some(piece(PieceColor::Black, PieceType::Knight, 7, 6)));
    assert_eq!(game.piece_at(6, 2), Some(piece(PieceColor::Black, PieceType::Pawn, 6, 2)));
    assert_eq!(game.piece_at(3, 3), None);
}

#[test]
fn with_pieces_refuses_two_pieces_on_one_square() {
    let doubled = vec![
        piece(PieceColor::White, PieceType::Rook, 2, 2),
        piece(PieceColor::Black, PieceType::Pawn, 2, 2),
    ];
    assert!(GameState::with_pieces(doubled).is_none());
}

#[test]
fn with_pieces_refuses_a_piece_off_the_board() {
    let outside = vec![piece(PieceColor::White, PieceType::Rook, 8, 0)];
    assert!(GameState::with_pieces(outside).is_none());
    let outside_other_way = vec![piece(PieceColor::Black, PieceType::King, 3, 9)];
    assert!(GameState::with_pieces(outside_other_way).is_none());
}

#[test]
fn with_pieces_accepts_an_empty_board() {
    let game = game_with(Vec::new());
    assert_eq!(game.live_piece_count(), 0);
    assert_eq!(game.current_turn(), PieceColor::White);
}

#[test]
fn a_rook_capture_removes_the_pawn_and_flips_the_turn() {
    // a White rook on (0,0) and a Black pawn on (0,3); (0,1) and (0,2) empty
    let mut game = game_with(vec![
        piece(PieceColor::White, PieceType::Rook, 0, 0),
        piece(PieceColor::Black, PieceType::Pawn, 0, 3),
    ]);
    let outcome = game.attempt_move((0, 0), (0, 3));
    assert_eq!(outcome, MoveOutcome::Applied);
    assert_eq!(game.piece_at(0, 3), Some(piece(PieceColor::White, PieceType::Rook, 0, 3)));
    assert_eq!(game.piece_at(0, 0), None);
    assert_eq!(game.live_piece_count(), 1, "the captured pawn is gone");
    assert_eq!(game.current_turn(), PieceColor::Black);
    assert!(!game.is_game_over());
}

#[test]
fn a_blocked_rook_move_is_rejected_and_changes_nothing() {
    // the same setup with a White pawn in the way on (0,2)
    let mut game = game_with(vec![
        piece(PieceColor::White, PieceType::Rook, 0, 0),
        piece(PieceColor::Black, PieceType::Pawn, 0, 3),
        piece(PieceColor::White, PieceType::Pawn, 0, 2),
    ]);
    let outcome = game.attempt_move((0, 0), (0, 3));
    assert_eq!(outcome, MoveOutcome::Rejected);
    assert_eq!(game.piece_at(0, 0), Some(piece(PieceColor::White, PieceType::Rook, 0, 0)));
    assert_eq!(game.piece_at(0, 2), Some(piece(PieceColor::White, PieceType::Pawn, 0, 2)));
    assert_eq!(game.piece_at(0, 3), Some(piece(PieceColor::Black, PieceType::Pawn, 0, 3)));
    assert_eq!(game.live_piece_count(), 3);
    assert_eq!(game.current_turn(), PieceColor::White);
    assert!(!game.is_game_over());
}

#[test]
fn capturing_the_king_ends_the_match_once() {
    // a White king on (4,0) and a Black queen that legally reaches it
    let mut game = game_with(vec![
        piece(PieceColor::White, PieceType::King, 4, 0),
        piece(PieceColor::Black, PieceType::Queen, 4, 7),
        piece(PieceColor::Black, PieceType::King, 7, 4),
    ]);
    assert!(!game.is_game_over());
    let outcome = game.attempt_move((4, 7), (4, 0));
    assert_eq!(outcome, MoveOutcome::Applied);
    assert!(game.is_game_over());
    assert_eq!(game.piece_at(4, 0), Some(piece(PieceColor::Black, PieceType::Queen, 4, 0)));
    assert_eq!(game.live_piece_count(), 2);

    // the signal is one-shot: a later move never takes it back
    let later = game.attempt_move((4, 0), (4, 3));
    assert_eq!(later, MoveOutcome::Applied);
    assert!(game.is_game_over());
}

#[test]
fn an_illegal_attempt_from_an_empty_square_is_rejected() {
    let mut game = game_with(vec![piece(PieceColor::White, PieceType::Rook, 0, 0)]);
    let outcome = game.attempt_move((5, 5), (5, 6));
    assert_eq!(outcome, MoveOutcome::Rejected);
    assert_eq!(game.current_turn(), PieceColor::White);
    assert_eq!(game.live_piece_count(), 1);
}

#[test]
fn the_turn_alternates_on_applied_moves_only() {
    let mut game = GameState::new();
    // White pushes a pawn: one applied move, Black to move
    assert_eq!(game.attempt_move((1, 0), (2, 0)), MoveOutcome::Applied);
    assert_eq!(game.current_turn(), PieceColor::Black);
    // a rejected move leaves the turn alone
    assert_eq!(game.attempt_move((6, 0), (3, 0)), MoveOutcome::Rejected);
    assert_eq!(game.current_turn(), PieceColor::Black);
    // Black pushes a pawn back: two applied moves, White again
    assert_eq!(game.attempt_move((6, 0), (5, 0)), MoveOutcome::Applied);
    assert_eq!(game.current_turn(), PieceColor::White);
    // three applied moves: Black
    assert_eq!(game.attempt_move((2, 0), (3, 0)), MoveOutcome::Applied);
    assert_eq!(game.current_turn(), PieceColor::Black);
    // four applied moves: White
    assert_eq!(game.attempt_move((5, 0), (4, 0)), MoveOutcome::Applied);
    assert_eq!(game.current_turn(), PieceColor::White);
}

#[test]
fn clicking_a_piece_then_a_legal_target_moves_it() {
    let mut game = GameState::new();
    // choose the White pawn on (1,4)
    assert_eq!(game.on_pointer_click(Some((1, 4))), None);
    let (selected_square, selected_piece) = game.current_selection();
    assert!(selected_square.is_some());
    assert!(selected_piece.is_some());
    // click its double-step target
    assert_eq!(game.on_pointer_click(Some((3, 4))), Some(MoveOutcome::Applied));
    assert_eq!(game.current_selection(), (None, None));
    assert_eq!(game.piece_at(3, 4), Some(piece(PieceColor::White, PieceType::Pawn, 3, 4)));
    assert_eq!(game.piece_at(1, 4), None);
    assert_eq!(game.current_turn(), PieceColor::Black);
}

#[test]
fn a_rejected_click_move_clears_the_selection_and_keeps_the_turn() {
    let mut game = GameState::new();
    // the White rook on (0,0) is walled in by its own pawn
    assert_eq!(game.on_pointer_click(Some((0, 0))), None);
    assert_eq!(game.on_pointer_click(Some((3, 0))), Some(MoveOutcome::Rejected));
    assert_eq!(game.current_selection(), (None, None));
    assert_eq!(game.piece_at(0, 0), Some(piece(PieceColor::White, PieceType::Rook, 0, 0)));
    assert_eq!(game.current_turn(), PieceColor::White);
    assert_eq!(game.live_piece_count(), 32);
}

#[test]
fn clicking_an_opponent_piece_while_idle_selects_no_piece() {
    let mut game = GameState::new();
    assert_eq!(game.on_pointer_click(Some((7, 0))), None);
    let (selected_square, selected_piece) = game.current_selection();
    assert!(selected_square.is_some(), "the clicked square is remembered");
    assert!(selected_piece.is_none(), "a Black piece cannot be chosen on White's turn");
}

#[test]
fn clicking_empty_squares_while_idle_never_selects_a_piece() {
    let mut game = game_with(vec![
        piece(PieceColor::White, PieceType::Rook, 0, 0),
        piece(PieceColor::Black, PieceType::King, 7, 4),
    ]);
    assert_eq!(game.on_pointer_click(Some((3, 3))), None);
    let (_, selected_piece) = game.current_selection();
    assert!(selected_piece.is_none());
    assert_eq!(game.on_pointer_click(Some((4, 4))), None);
    let (_, selected_piece) = game.current_selection();
    assert!(selected_piece.is_none());
    assert_eq!(game.live_piece_count(), 2);
    assert_eq!(game.current_turn(), PieceColor::White);
    assert_eq!(game.piece_at(0, 0), Some(piece(PieceColor::White, PieceType::Rook, 0, 0)));
}

#[test]
fn clicking_off_the_board_clears_the_selection() {
    let mut game = GameState::new();
    assert_eq!(game.on_pointer_click(Some((1, 2))), None);
    let (_, selected_piece) = game.current_selection();
    assert!(selected_piece.is_some());
    assert_eq!(game.on_pointer_click(None), None);
    assert_eq!(game.current_selection(), (None, None));
    assert_eq!(game.live_piece_count(), 32);
}

#[test]
fn current_board_state_reports_all_squares_with_their_occupants() {
    let game = game_with(vec![
        piece(PieceColor::White, PieceType::Rook, 0, 0),
        piece(PieceColor::Black, PieceType::Pawn, 0, 3),
    ]);
    let board = game.current_board_state();
    assert_eq!(board.len(), 64);
    for (i, (square, occupant)) in board.iter().enumerate() {
        assert_eq!(square.x, (i / 8) as u8);
        assert_eq!(square.y, (i % 8) as u8);
        let expected = match (square.x, square.y) {
            (0, 0) => Some((PieceColor::White, PieceType::Rook)),
            (0, 3) => Some((PieceColor::Black, PieceType::Pawn)),
            _ => None,
        };
        assert_eq!(*occupant, expected);
    }
}
