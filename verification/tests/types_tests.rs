use xiangqi_ai::types::{
    get_position_piece_type, ActionType, Color, JieqiMove, PieceType, Position,
};

#[test]
fn test_position_from_fen_str() {
    assert_eq!(Position::from_fen_str("a0"), Some(Position::new(0, 0)));
    assert_eq!(Position::from_fen_str("e4"), Some(Position::new(4, 4)));
    assert_eq!(Position::from_fen_str("i9"), Some(Position::new(9, 8)));
    assert_eq!(Position::from_fen_str("j0"), None);
}

#[test]
fn test_position_to_fen_str() {
    assert_eq!(Position::new(0, 0).to_fen_str(), "a0");
    assert_eq!(Position::new(4, 4).to_fen_str(), "e4");
    assert_eq!(Position::new(9, 8).to_fen_str(), "i9");
}

#[test]
fn test_move_from_fen_str() {
    let (m, rt) = JieqiMove::from_fen_str("a0a1").unwrap();
    assert_eq!(m.action_type, ActionType::Move);
    assert_eq!(m.from_pos, Position::new(0, 0));
    assert_eq!(m.to_pos, Position::new(1, 0));
    assert!(rt.is_none());

    let (m, rt) = JieqiMove::from_fen_str("+e3e4").unwrap();
    assert_eq!(m.action_type, ActionType::RevealAndMove);
    assert!(rt.is_none());

    let (m, rt) = JieqiMove::from_fen_str("+e3e4=R").unwrap();
    assert_eq!(m.action_type, ActionType::RevealAndMove);
    assert_eq!(rt, Some(PieceType::Rook));
}

#[test]
fn test_position_piece_type() {
    assert_eq!(get_position_piece_type(Position::new(0, 0)), Some(PieceType::Rook));
    assert_eq!(get_position_piece_type(Position::new(0, 4)), Some(PieceType::King));
    assert_eq!(get_position_piece_type(Position::new(2, 1)), Some(PieceType::Cannon));
    assert_eq!(get_position_piece_type(Position::new(3, 0)), Some(PieceType::Pawn));
    assert_eq!(get_position_piece_type(Position::new(9, 4)), Some(PieceType::King));
    assert_eq!(get_position_piece_type(Position::new(4, 4)), None);
}

#[test]
fn color_letters_and_opposites() {
    assert_eq!(Color::Red.opposite(), Color::Black);
    assert_eq!(Color::Black.opposite(), Color::Red);
    assert_eq!(Color::from_fen_char('r'), Some(Color::Red));
    assert_eq!(Color::from_fen_char('b'), Some(Color::Black));
    assert_eq!(Color::from_fen_char('R'), None);
    assert_eq!(Color::Red.to_fen_char(), 'r');
    assert_eq!(Color::Black.to_fen_char(), 'b');
}

#[test]
fn piece_type_letters_and_values() {
    let all = [
        (PieceType::King, 'k', 100000),
        (PieceType::Advisor, 'a', 200),
        (PieceType::Elephant, 'e', 200),
        (PieceType::Horse, 'h', 400),
        (PieceType::Rook, 'r', 900),
        (PieceType::Cannon, 'c', 450),
        (PieceType::Pawn, 'p', 100),
    ];
    for (t, c, v) in all {
        assert_eq!(t.to_fen_char(), c);
        assert_eq!(t.upper_char(), c.to_ascii_uppercase());
        assert_eq!(PieceType::from_fen_char(c), Some(t));
        assert_eq!(PieceType::from_fen_char(c.to_ascii_uppercase()), Some(t));
        assert_eq!(t.value(), v);
    }
    assert_eq!(PieceType::from_fen_char('x'), None);
    assert_eq!(PieceType::from_fen_char('?'), None);
}

#[test]
fn position_index_is_row_major() {
    assert_eq!(Position::new(0, 0).to_index(), 0);
    assert_eq!(Position::new(0, 8).to_index(), 8);
    assert_eq!(Position::new(1, 0).to_index(), 9);
    assert_eq!(Position::new(9, 8).to_index(), 89);
    assert_eq!(Position::from_index(40), Position::new(4, 4));
}

#[test]
fn position_regions() {
    assert!(Position::new(0, 3).is_in_palace(Color::Red));
    assert!(Position::new(2, 5).is_in_palace(Color::Red));
    assert!(!Position::new(3, 4).is_in_palace(Color::Red));
    assert!(!Position::new(1, 2).is_in_palace(Color::Red));
    assert!(Position::new(7, 4).is_in_palace(Color::Black));
    assert!(!Position::new(6, 4).is_in_palace(Color::Black));
    assert!(Position::new(4, 0).is_on_own_side(Color::Red));
    assert!(!Position::new(5, 0).is_on_own_side(Color::Red));
    assert!(Position::new(5, 0).is_on_own_side(Color::Black));
    assert!(!Position::new(4, 0).is_on_own_side(Color::Black));
    assert!(Position::new(9, 8).is_valid());
    assert!(!Position::new(10, 0).is_valid());
    assert!(!Position::new(0, 9).is_valid());
    assert!(!Position::new(-1, 0).is_valid());
    assert_eq!(Position::new(4, 4).offset(-2, 1), Position::new(2, 5));
}

#[test]
fn move_text_round_trip() {
    let m = JieqiMove::regular_move(Position::new(4, 4), Position::new(5, 4));
    assert_eq!(m.to_fen_str(None), "e4e5");
    let r = JieqiMove::reveal_move(Position::new(0, 0), Position::new(1, 0));
    assert_eq!(r.to_fen_str(None), "+a0a1");
    assert_eq!(r.to_fen_str(Some(PieceType::Rook)), "+a0a1=R");
    assert_eq!(JieqiMove::from_fen_str("+a0a1=R"), Some((r, Some(PieceType::Rook))));
    assert_eq!(JieqiMove::from_fen_str("  e4e5\n"), Some((m, None)));
}

#[test]
fn malformed_move_texts_are_refused() {
    assert_eq!(JieqiMove::from_fen_str(""), None);
    assert_eq!(JieqiMove::from_fen_str("e4"), None);
    assert_eq!(JieqiMove::from_fen_str("e4e"), None);
    assert_eq!(JieqiMove::from_fen_str("j4e5"), None);
    assert_eq!(JieqiMove::from_fen_str("e4e5="), None);
    assert_eq!(JieqiMove::from_fen_str("-e4e5"), None);
    assert_eq!(JieqiMove::from_fen_str("e4e5e6"), None);
    let (_, rt) = JieqiMove::from_fen_str("+e4e5=Z").unwrap();
    assert_eq!(rt, None);
}

#[test]
fn coordinates_need_two_characters() {
    assert_eq!(Position::from_fen_str(""), None);
    assert_eq!(Position::from_fen_str("a"), None);
    assert_eq!(Position::from_fen_str("a00"), None);
    assert_eq!(Position::from_fen_str("A0"), None);
    assert_eq!(Position::from_fen_str("0a"), None);
}
