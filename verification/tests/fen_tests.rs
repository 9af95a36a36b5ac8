use xiangqi_ai::fen::{
    apply_move_to_fen, parse_board, parse_captured, parse_fen, pieces_to_fen, FenError, MoveError,
};
use xiangqi_ai::types::{Color, PieceType, Position};

#[test]
fn test_parse_initial_fen() {
    let fen = "xxxxkxxxx/9/1x5x1/x1x1x1x1x/9/9/X1X1X1X1X/1X5X1/9/XXXXKXXXX -:- r r";
    let state = parse_fen(fen).unwrap();

    assert_eq!(state.pieces.len(), 32);
    assert_eq!(state.turn, Color::Red);
    assert_eq!(state.viewer, Color::Red);

    let mut hidden_count = 0;
    let mut king_count = 0;
    for piece in &state.pieces {
        if piece.is_hidden {
            hidden_count += 1;
            assert!(piece.piece_type.is_none());
        } else {
            king_count += 1;
            assert_eq!(piece.piece_type, Some(PieceType::King));
        }
    }
    assert_eq!(hidden_count, 30);
    assert_eq!(king_count, 2);
}

#[test]
fn test_parse_mid_game_fen() {
    let fen = "4k4/9/3R5/x1x3x1x/4X4/4x4/X1X3X1X/1C5C1/9/4K4 RP??:raHC r r";
    let state = parse_fen(fen).unwrap();

    assert_eq!(state.turn, Color::Red);
    assert_eq!(state.viewer, Color::Red);

    assert_eq!(state.captured.red_captured.len(), 4);
    assert_eq!(state.captured.black_captured.len(), 4);
}

#[test]
fn test_fen_roundtrip() {
    let fen = "xxxxkxxxx/9/1x5x1/x1x1x1x1x/9/9/X1X1X1X1X/1X5X1/9/XXXXKXXXX -:- r r";
    let state = parse_fen(fen).unwrap();
    let regenerated = pieces_to_fen(&state.pieces, &state.captured, state.turn, state.viewer);
    assert_eq!(fen, regenerated);
}

#[test]
fn test_apply_move() {
    let fen = "4k4/9/9/9/9/4R4/9/9/9/4K4 -:- r r";
    let new_fen = apply_move_to_fen(fen, "e4e5", None).unwrap();

    let state = parse_fen(&new_fen).unwrap();
    assert_eq!(state.turn, Color::Black);

    let rook = state
        .pieces
        .iter()
        .find(|p| p.piece_type == Some(PieceType::Rook))
        .unwrap();
    assert_eq!(rook.position, Position::new(5, 4));
}

#[test]
fn round_trip_over_a_corpus() {
    let corpus = [
        "xxxxkxxxx/9/1x5x1/x1x1x1x1x/9/9/X1X1X1X1X/1X5X1/9/XXXXKXXXX -:- r r",
        "4k4/9/9/9/4c4/4R4/9/9/9/4K4 -:- r r",
        "4k4/4R4/9/9/9/9/9/9/9/4K4 -:- b r",
        "4k4/9/3R5/x1x3x1x/4X4/4x4/X1X3X1X/1C5C1/9/4K4 RP??:raHC r r",
        "4k4/9/9/9/9/9/9/9/9/4K4 rP?c:CH?p b b",
        "9/9/9/9/9/9/9/9/9/9 ?:? b b",
        "rheakaehr/9/1c5c1/p1p1p1p1p/9/9/P1P1P1P1P/1C5C1/9/RHEAKAEHR -:- r b",
    ];
    for fen in corpus {
        let state = parse_fen(fen).unwrap();
        let again = pieces_to_fen(&state.pieces, &state.captured, state.turn, state.viewer);
        assert_eq!(fen, again);
    }
}

#[test]
fn empty_runs_are_written_canonically() {
    let state = parse_fen("4k4/45/0009/9/9/9/9/9/9/4K4 -:- r r").unwrap();
    let again = pieces_to_fen(&state.pieces, &state.captured, state.turn, state.viewer);
    assert_eq!(again, "4k4/9/9/9/9/9/9/9/9/4K4 -:- r r");
}

#[test]
fn captured_letters_show_the_face_at_capture() {
    let state = parse_fen("4k4/9/9/9/9/9/9/9/9/4K4 RP??:raHC r r").unwrap();
    let red = &state.captured.red_captured;
    assert_eq!(red[0].piece_type, Some(PieceType::Rook));
    assert!(!red[0].was_hidden);
    assert_eq!(red[2].piece_type, None);
    assert!(red[2].was_hidden);
    let black = &state.captured.black_captured;
    assert_eq!(black[0].piece_type, Some(PieceType::Rook));
    assert!(black[0].was_hidden);
    assert_eq!(black[2].piece_type, Some(PieceType::Horse));
    assert!(!black[2].was_hidden);
    let again = pieces_to_fen(&state.pieces, &state.captured, state.turn, state.viewer);
    assert_eq!(again, "4k4/9/9/9/9/9/9/9/9/4K4 RP??:raHC r r");
}

#[test]
fn each_fen_error_has_an_input() {
    assert_eq!(parse_fen("4k4/9/9/9/9/9/9/9/9/4K4 -:- r").err(), Some(FenError::FieldCount));
    assert_eq!(parse_fen("").err(), Some(FenError::FieldCount));
    assert_eq!(parse_fen("4k4/9/9/9/9/9/9/9/4K4 -:- r r").err(), Some(FenError::RowCount));
    assert_eq!(parse_fen("4k4/9/9/9/9/9/9/9/8/4K4 -:- r r").err(), Some(FenError::RowWidth));
    assert_eq!(parse_fen("4k5/9/9/9/9/9/9/9/9/4K4 -:- r r").err(), Some(FenError::RowWidth));
    assert_eq!(parse_fen("55/9/9/9/9/9/9/9/9/4K4 -:- r r").err(), Some(FenError::RowWidth));
    assert_eq!(parse_fen("9p/9/9/9/9/9/9/9/9/9 -:- r r").err(), Some(FenError::RowWidth));
    assert_eq!(parse_fen("4k4/9/9/9/9/9/9/9/9/4K40 -:- r r").err(), Some(FenError::RowWidth));
    assert_eq!(parse_fen("4k4/9/9/9/9/9/9/9/9/X8XXXX -:- r r").err(), Some(FenError::RowWidth));
    assert_eq!(parse_fen("/9/9/9/9/9/9/9/9/4K4 -:- r r").err(), Some(FenError::RowWidth));
    assert_eq!(
        parse_fen("4k4/9/9/9/4z4/9/9/9/9/4K4 -:- r r").err(),
        Some(FenError::InvalidCharacter)
    );
    assert_eq!(
        parse_fen("4k4/9/9/9/4*4/9/9/9/9/4K4 -:- r r").err(),
        Some(FenError::InvalidCharacter)
    );
    assert_eq!(
        parse_fen("4k4/9/9/9/9/9/9/9/9/4K4 - r r").err(),
        Some(FenError::CapturedFormat)
    );
    assert_eq!(
        parse_fen("4k4/9/9/9/9/9/9/9/9/4K4 -:-:- r r").err(),
        Some(FenError::CapturedFormat)
    );
    assert_eq!(
        parse_fen("4k4/9/9/9/9/9/9/9/9/4K4 R1:- r r").err(),
        Some(FenError::InvalidCharacter)
    );
    assert_eq!(parse_fen("4k4/9/9/9/9/9/9/9/9/4K4 -:- w r").err(), Some(FenError::InvalidTurn));
    assert_eq!(parse_fen("4k4/9/9/9/9/9/9/9/9/4K4 -:- rr r").err(), Some(FenError::InvalidTurn));
    assert_eq!(parse_fen("4k4/9/9/9/9/9/9/9/9/4K4 -:- r x").err(), Some(FenError::InvalidViewer));
}

#[test]
fn fields_and_rows_can_be_read_alone() {
    let pieces = parse_board("4k4/9/9/9/4c4/4R4/9/9/9/4K4").unwrap();
    assert_eq!(pieces.len(), 4);
    assert_eq!(pieces[0].position, Position::new(9, 4));
    assert_eq!(pieces[0].color, Color::Black);
    assert_eq!(pieces[3].position, Position::new(0, 4));
    assert_eq!(pieces[3].color, Color::Red);
    let captured = parse_captured("-:p?").unwrap();
    assert_eq!(captured.red_captured.len(), 0);
    assert_eq!(captured.black_captured.len(), 2);
}

#[test]
fn white_space_between_fields_is_free() {
    let state = parse_fen("  4k4/9/9/9/9/9/9/9/9/4K4\t-:-  b\n r ").unwrap();
    assert_eq!(state.turn, Color::Black);
    assert_eq!(state.viewer, Color::Red);
    assert_eq!(state.pieces.len(), 2);
}

#[test]
fn rook_takes_cannon_in_the_fen() {
    let fen = "4k4/9/9/9/4c4/4R4/9/9/9/4K4 -:- r r";
    let after = apply_move_to_fen(fen, "e4e5", None).unwrap();
    assert_eq!(after, "4k4/9/9/9/4R4/9/9/9/9/4K4 -:C b r");
    let state = parse_fen(&after).unwrap();
    assert_eq!(state.turn, Color::Black);
    assert_eq!(state.captured.black_captured.len(), 1);
    assert_eq!(state.captured.black_captured[0].piece_type, Some(PieceType::Cannon));
    assert!(!state.captured.black_captured[0].was_hidden);
    assert!(state.pieces.iter().all(|p| p.position != Position::new(4, 4)));
    let rook = state.pieces.iter().find(|p| p.position == Position::new(5, 4)).unwrap();
    assert_eq!(rook.piece_type, Some(PieceType::Rook));
    assert_eq!(rook.color, Color::Red);
}

#[test]
fn reveal_in_the_fen_uses_the_given_kind() {
    let fen = "xxxxkxxxx/9/1x5x1/x1x1x1x1x/9/9/X1X1X1X1X/1X5X1/9/XXXXKXXXX -:- r r";
    let after = apply_move_to_fen(fen, "+a0a1", Some(PieceType::Pawn)).unwrap();
    assert_eq!(after, "xxxxkxxxx/9/1x5x1/x1x1x1x1x/9/9/X1X1X1X1X/1X5X1/P8/1XXXKXXXX -:- b r");
    let by_square = apply_move_to_fen(fen, "+a0a1", None).unwrap();
    assert_eq!(by_square, "xxxxkxxxx/9/1x5x1/x1x1x1x1x/9/9/X1X1X1X1X/1X5X1/R8/1XXXKXXXX -:- b r");
}

#[test]
fn capturing_a_face_down_piece_records_it_unknown() {
    let fen = "4k4/9/9/9/4x4/4R4/9/9/9/4K4 -:- r r";
    let after = apply_move_to_fen(fen, "e4e5", None).unwrap();
    assert_eq!(after, "4k4/9/9/9/4R4/9/9/9/9/4K4 -:? b r");
}

#[test]
fn each_move_error_has_an_input() {
    let fen = "4k4/9/9/9/9/4R4/9/9/9/4K4 -:- r r";
    assert_eq!(
        apply_move_to_fen("nonsense", "e4e5", None).err(),
        Some(MoveError::InvalidFen(FenError::FieldCount))
    );
    assert_eq!(apply_move_to_fen(fen, "e4", None).err(), Some(MoveError::InvalidMoveText));
    assert_eq!(apply_move_to_fen(fen, "a0a1", None).err(), Some(MoveError::NoPiece));
}

#[test]
fn reading_the_written_text_gives_the_state() {
    let texts = [
        "xxxxkxxxx/9/1x5x1/x1x1x1x1x/9/9/X1X1X1X1X/1X5X1/9/XXXXKXXXX -:- r r",
        "4k4/45/0009/9/9/9/9/9/9/4K4   Rc?:?Cr\tb   r",
        "4k4/9/3R5/x1x3x1x/4X4/4x4/X1X3X1X/1C5C1/9/4K4 RP??:raHC r r",
        "9/9/9/9/9/9/9/9/9/9 ?:? b b",
    ];
    for text in texts {
        let state = parse_fen(text).unwrap();
        let written = pieces_to_fen(&state.pieces, &state.captured, state.turn, state.viewer);
        let again = parse_fen(&written).unwrap();
        assert_eq!(again.pieces.len(), state.pieces.len());
        for (a, b) in again.pieces.iter().zip(state.pieces.iter()) {
            assert_eq!(a.position, b.position);
            assert_eq!(a.color, b.color);
            assert_eq!(a.is_hidden, b.is_hidden);
            assert_eq!(a.piece_type, b.piece_type);
        }
        let sides = [
            (&again.captured.red_captured, &state.captured.red_captured),
            (&again.captured.black_captured, &state.captured.black_captured),
        ];
        for (a, b) in sides {
            assert_eq!(a.len(), b.len());
            for (x, y) in a.iter().zip(b.iter()) {
                assert_eq!(x.piece_type, y.piece_type);
                assert_eq!(x.was_hidden, y.was_hidden);
            }
        }
        assert_eq!(again.turn, state.turn);
        assert_eq!(again.viewer, state.viewer);
        let board = xiangqi_ai::board::Board::from_fen(text).unwrap();
        assert_eq!(board.to_fen(), written);
    }
}
