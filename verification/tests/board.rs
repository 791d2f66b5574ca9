use chess_engine::board::{
    all_squares, square_color, square_shade, PlayerTurn, Square, SquareColor, SquareShade,
};
use chess_engine::pieces::PieceColor;
use chess_engine::ui::turn_label;

#[test]
fn corner_squares_follow_the_colouring_formula() {
    // (x + y + 1) even means light
    assert_eq!(square_color(0, 0), SquareColor::Dark);
    assert_eq!(square_color(0, 1), SquareColor::Light);
    assert_eq!(square_color(1, 0), SquareColor::Light);
    assert_eq!(square_color(7, 7), SquareColor::Dark);
    assert_eq!(square_color(7, 0), SquareColor::Light);
    assert_eq!(square_color(0, 7), SquareColor::Light);
}

#[test]
fn is_white_matches_square_color() {
    for x in 0..8u8 {
        for y in 0..8u8 {
            let sq = Square { x, y };
            let light = (x as u16 + y as u16 + 1) % 2 == 0;
            assert_eq!(sq.is_white(), light);
            assert_eq!(
                square_color(x, y),
                if light { SquareColor::Light } else { SquareColor::Dark }
            );
        }
    }
}

#[test]
fn adjacent_squares_have_opposite_colors() {
    for x in 0..8u8 {
        for y in 0..8u8 {
            let here = Square { x, y }.is_white();
            if x + 1 < 8 {
                assert_ne!(here, Square { x: x + 1, y }.is_white());
            }
            if y + 1 < 8 {
                assert_ne!(here, Square { x, y: y + 1 }.is_white());
            }
        }
    }
}

#[test]
fn all_squares_enumerates_the_board_once_in_row_major_order() {
    let squares = all_squares();
    assert_eq!(squares.len(), 64);
    for (i, sq) in squares.iter().enumerate() {
        assert_eq!(sq.x, (i / 8) as u8);
        assert_eq!(sq.y, (i % 8) as u8);
    }
    for a in 0..64 {
        for b in (a + 1)..64 {
            assert!(squares[a] != squares[b]);
        }
    }
}

#[test]
fn shade_precedence_is_hover_then_selection_then_base() {
    assert_eq!(square_shade(true, true, true), SquareShade::Hovered);
    assert_eq!(square_shade(true, false, false), SquareShade::Hovered);
    assert_eq!(square_shade(false, true, true), SquareShade::Selected);
    assert_eq!(square_shade(false, true, false), SquareShade::Selected);
    assert_eq!(square_shade(false, false, true), SquareShade::Light);
    assert_eq!(square_shade(false, false, false), SquareShade::Dark);
}

#[test]
fn a_fresh_turn_tracker_starts_with_white() {
    let turn = PlayerTurn::default();
    assert_eq!(turn.0, PieceColor::White);
}

#[test]
fn turn_label_names_the_side_to_move() {
    assert_eq!(turn_label(&PlayerTurn(PieceColor::White)), "next move: white");
    assert_eq!(turn_label(&PlayerTurn(PieceColor::Black)), "next move: black");
}
