use xiangqi_ai::board::Board;
use xiangqi_ai::test_positions::{
    CHECK_POSITIONS, EARLY_POSITIONS, END_POSITIONS, MATE_POSITIONS, MID_POSITIONS,
    SPECIAL_POSITIONS, START,
};

#[test]
fn test_start_position_valid() {
    let board = Board::from_fen(START);
    assert!(board.is_ok(), "START position invalid: {:?}", board.err());
}

#[test]
fn test_all_early_positions_valid() {
    for (i, fen) in EARLY_POSITIONS.iter().enumerate() {
        let board = Board::from_fen(fen);
        assert!(board.is_ok(), "EARLY_{} invalid: {:?}", i + 1, board.err());
    }
}

#[test]
fn test_all_mid_positions_valid() {
    for (i, fen) in MID_POSITIONS.iter().enumerate() {
        let board = Board::from_fen(fen);
        assert!(board.is_ok(), "MID_{} invalid: {:?}", i + 1, board.err());
    }
}

#[test]
fn test_all_end_positions_valid() {
    for (i, fen) in END_POSITIONS.iter().enumerate() {
        let board = Board::from_fen(fen);
        assert!(board.is_ok(), "END_{} invalid: {:?}", i + 1, board.err());
    }
}

#[test]
fn test_all_check_positions_valid() {
    for (i, fen) in CHECK_POSITIONS.iter().enumerate() {
        let board = Board::from_fen(fen);
        assert!(board.is_ok(), "CHECK_{} invalid: {:?}", i + 1, board.err());
    }
}

#[test]
fn test_all_mate_positions_valid() {
    for (i, fen) in MATE_POSITIONS.iter().enumerate() {
        let board = Board::from_fen(fen);
        assert!(board.is_ok(), "MATE_{} invalid: {:?}", i + 1, board.err());
    }
}

#[test]
fn test_all_special_positions_valid() {
    for (i, fen) in SPECIAL_POSITIONS.iter().enumerate() {
        let board = Board::from_fen(fen);
        assert!(board.is_ok(), "SPECIAL_{} invalid: {:?}", i + 1, board.err());
    }
}

#[test]
fn boards_write_back_the_fen_they_were_read_from() {
    for fen in MID_POSITIONS.iter().chain(END_POSITIONS.iter()).chain(SPECIAL_POSITIONS.iter()) {
        let board = Board::from_fen(fen).unwrap();
        assert_eq!(board.to_fen(), *fen);
    }
}
