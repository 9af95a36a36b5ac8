//! Colors, piece types, board coordinates and move records.

use vstd::prelude::*;
use crate::text::{
    chars_of, find_char, find_from, slice_vec, string_of, trim, trim_chars, digit_char,
    digit_to_char,
};

verus! {

/// One of the two sides.
#[derive(Debug, Clone, Copy, PartialEq, Eq, Structural, Hash)]
pub enum Color {
    Red,
    Black,
}

impl Color {
    /// The other side.
    pub open spec fn spec_opposite(&self) -> Color {
        match self {
            Color::Red => Color::Black,
            Color::Black => Color::Red,
        }
    }

    /// The other side.
    #[verifier::when_used_as_spec(spec_opposite)]
    pub fn opposite(&self) -> (r: Color)
        ensures
            r == self.spec_opposite(),
    {
        match self {
            Color::Red => Color::Black,
            Color::Black => Color::Red,
        }
    }

    /// The side that the letter `c` names: `r` for Red, `b` for Black.
    pub open spec fn spec_from_fen_char(c: char) -> Option<Color> {
        if c == 'r' {
            Some(Color::Red)
        } else if c == 'b' {
            Some(Color::Black)
        } else {
            None
        }
    }

    /// Reads a side from its letter.
    #[verifier::when_used_as_spec(spec_from_fen_char)]
    pub fn from_fen_char(c: char) -> (r: Option<Color>)
        ensures
            r == Color::spec_from_fen_char(c),
    {
        if c == 'r' {
            Some(Color::Red)
        } else if c == 'b' {
            Some(Color::Black)
        } else {
            None
        }
    }

    /// The letter that names this side.
    pub open spec fn spec_to_fen_char(&self) -> char {
        match self {
            Color::Red => 'r',
            Color::Black => 'b',
        }
    }

    /// The letter that names this side.
    #[verifier::when_used_as_spec(spec_to_fen_char)]
    pub fn to_fen_char(&self) -> (c: char)
        ensures
            c == self.spec_to_fen_char(),
            Color::spec_from_fen_char(c) == Some(*self),
    {
        match self {
            Color::Red => 'r',
            Color::Black => 'b',
        }
    }
}

/// The seven kinds of piece.
#[derive(Debug, Clone, Copy, PartialEq, Eq, Structural, Hash)]
pub enum PieceType {
    King,
    Advisor,
    Elephant,
    Horse,
    Rook,
    Cannon,
    Pawn,
}

impl PieceType {
    /// The kind that the letter `c` names, in either case.
    pub open spec fn spec_from_fen_char(c: char) -> Option<PieceType> {
        if c == 'k' || c == 'K' {
            Some(PieceType::King)
        } else if c == 'a' || c == 'A' {
            Some(PieceType::Advisor)
        } else if c == 'e' || c == 'E' {
            Some(PieceType::Elephant)
        } else if c == 'h' || c == 'H' {
            Some(PieceType::Horse)
        } else if c == 'r' || c == 'R' {
            Some(PieceType::Rook)
        } else if c == 'c' || c == 'C' {
            Some(PieceType::Cannon)
        } else if c == 'p' || c == 'P' {
            Some(PieceType::Pawn)
        } else {
            None
        }
    }

    /// Reads a kind from its letter, in either case.
    #[verifier::when_used_as_spec(spec_from_fen_char)]
    pub fn from_fen_char(c: char) -> (r: Option<PieceType>)
        ensures
            r == PieceType::spec_from_fen_char(c),
    {
        if c == 'k' || c == 'K' {
            Some(PieceType::King)
        } else if c == 'a' || c == 'A' {
            Some(PieceType::Advisor)
        } else if c == 'e' || c == 'E' {
            Some(PieceType::Elephant)
        } else if c == 'h' || c == 'H' {
            Some(PieceType::Horse)
        } else if c == 'r' || c == 'R' {
            Some(PieceType::Rook)
        } else if c == 'c' || c == 'C' {
            Some(PieceType::Cannon)
        } else if c == 'p' || c == 'P' {
            Some(PieceType::Pawn)
        } else {
            None
        }
    }

    /// The lower-case letter of this kind.
    pub open spec fn spec_to_fen_char(&self) -> char {
        match self {
            PieceType::King => 'k',
            PieceType::Advisor => 'a',
            PieceType::Elephant => 'e',
            PieceType::Horse => 'h',
            PieceType::Rook => 'r',
            PieceType::Cannon => 'c',
            PieceType::Pawn => 'p',
        }
    }

    /// The lower-case letter of this kind.
    #[verifier::when_used_as_spec(spec_to_fen_char)]
    pub fn to_fen_char(&self) -> (c: char)
        ensures
            c == self.spec_to_fen_char(),
            PieceType::spec_from_fen_char(c) == Some(*self),
    {
        match self {
            PieceType::King => 'k',
            PieceType::Advisor => 'a',
            PieceType::Elephant => 'e',
            PieceType::Horse => 'h',
            PieceType::Rook => 'r',
            PieceType::Cannon => 'c',
            PieceType::Pawn => 'p',
        }
    }

    /// The upper-case letter of this kind.
    pub open spec fn spec_upper_char(&self) -> char {
        match self {
            PieceType::King => 'K',
            PieceType::Advisor => 'A',
            PieceType::Elephant => 'E',
            PieceType::Horse => 'H',
            PieceType::Rook => 'R',
            PieceType::Cannon => 'C',
            PieceType::Pawn => 'P',
        }
    }

    /// The upper-case letter of this kind.
    #[verifier::when_used_as_spec(spec_upper_char)]
    pub fn upper_char(&self) -> (c: char)
        ensures
            c == self.spec_upper_char(),
            PieceType::spec_from_fen_char(c) == Some(*self),
    {
        match self {
            PieceType::King => 'K',
            PieceType::Advisor => 'A',
            PieceType::Elephant => 'E',
            PieceType::Horse => 'H',
            PieceType::Rook => 'R',
            PieceType::Cannon => 'C',
            PieceType::Pawn => 'P',
        }
    }

    /// The material value of this kind, in points.
    pub open spec fn spec_value(&self) -> int {
        match self {
            PieceType::King => 100000,
            PieceType::Rook => 900,
            PieceType::Cannon => 450,
            PieceType::Horse => 400,
            PieceType::Elephant => 200,
            PieceType::Advisor => 200,
            PieceType::Pawn => 100,
        }
    }

    /// The material value of this kind, in points.
    pub fn value(&self) -> (v: i32)
        ensures
            v == self.spec_value(),
    {
        match self {
            PieceType::King => 100000,
            PieceType::Rook => 900,
            PieceType::Cannon => 450,
            PieceType::Horse => 400,
            PieceType::Elephant => 200,
            PieceType::Advisor => 200,
            PieceType::Pawn => 100,
        }
    }

    /// The name of this kind.
    pub open spec fn spec_name(&self) -> Seq<char> {
        match self {
            PieceType::King => "King"@,
            PieceType::Advisor => "Advisor"@,
            PieceType::Elephant => "Elephant"@,
            PieceType::Horse => "Horse"@,
            PieceType::Rook => "Rook"@,
            PieceType::Cannon => "Cannon"@,
            PieceType::Pawn => "Pawn"@,
        }
    }

    /// The name of this kind.
    pub fn name(&self) -> (s: &'static str)
        ensures
            s@ == self.spec_name(),
    {
        match self {
            PieceType::King => "King",
            PieceType::Advisor => "Advisor",
            PieceType::Elephant => "Elephant",
            PieceType::Horse => "Horse",
            PieceType::Rook => "Rook",
            PieceType::Cannon => "Cannon",
            PieceType::Pawn => "Pawn",
        }
    }

    /// The place of this kind in the order King, Advisor, Elephant, Horse,
    /// Rook, Cannon, Pawn.
    pub open spec fn spec_index(&self) -> int {
        match self {
            PieceType::King => 0,
            PieceType::Advisor => 1,
            PieceType::Elephant => 2,
            PieceType::Horse => 3,
            PieceType::Rook => 4,
            PieceType::Cannon => 5,
            PieceType::Pawn => 6,
        }
    }

    /// The kind at place `i` of that order.
    pub open spec fn spec_from_index(i: int) -> PieceType {
        if i == 0 {
            PieceType::King
        } else if i == 1 {
            PieceType::Advisor
        } else if i == 2 {
            PieceType::Elephant
        } else if i == 3 {
            PieceType::Horse
        } else if i == 4 {
            PieceType::Rook
        } else if i == 5 {
            PieceType::Cannon
        } else {
            PieceType::Pawn
        }
    }
}

/// A square of the board. Row 0 is Red's back rank, row 9 Black's; columns
/// run from 0 to 8.
#[derive(Debug, Clone, Copy, PartialEq, Eq, Structural, Hash)]
pub struct Position {
    pub row: i8,
    pub col: i8,
}

impl Position {
    pub fn new(row: i8, col: i8) -> (p: Position)
        ensures
            p.row == row,
            p.col == col,
    {
        Position { row, col }
    }

    /// Whether the square lies on the board.
    pub open spec fn spec_is_valid(&self) -> bool {
        0 <= self.row <= 9 && 0 <= self.col <= 8
    }

    /// Whether the square lies on the board.
    #[verifier::when_used_as_spec(spec_is_valid)]
    pub fn is_valid(&self) -> (r: bool)
        ensures
            r == self.spec_is_valid(),
    {
        0 <= self.row && self.row <= 9 && 0 <= self.col && self.col <= 8
    }

    /// Whether the square lies in the palace of `color`.
    pub open spec fn spec_is_in_palace(&self, color: Color) -> bool {
        &&& 3 <= self.col <= 5
        &&& match color {
            Color::Red => 0 <= self.row <= 2,
            Color::Black => 7 <= self.row <= 9,
        }
    }

    /// Whether the square lies in the palace of `color`.
    #[verifier::when_used_as_spec(spec_is_in_palace)]
    pub fn is_in_palace(&self, color: Color) -> (r: bool)
        ensures
            r == self.spec_is_in_palace(color),
    {
        if !(3 <= self.col && self.col <= 5) {
            return false;
        }
        match color {
            Color::Red => 0 <= self.row && self.row <= 2,
            Color::Black => 7 <= self.row && self.row <= 9,
        }
    }

    /// Whether the square lies in the half of the board that belongs to
    /// `color`.
    pub open spec fn spec_is_on_own_side(&self, color: Color) -> bool {
        match color {
            Color::Red => 0 <= self.row <= 4,
            Color::Black => 5 <= self.row <= 9,
        }
    }

    /// Whether the square lies in the half of the board that belongs to
    /// `color`.
    #[verifier::when_used_as_spec(spec_is_on_own_side)]
    pub fn is_on_own_side(&self, color: Color) -> (r: bool)
        ensures
            r == self.spec_is_on_own_side(color),
    {
        match color {
            Color::Red => 0 <= self.row && self.row <= 4,
            Color::Black => 5 <= self.row && self.row <= 9,
        }
    }

    /// The square `row_delta` rows and `col_delta` columns away.
    pub open spec fn spec_offset(&self, row_delta: i8, col_delta: i8) -> Position {
        Position { row: (self.row + row_delta) as i8, col: (self.col + col_delta) as i8 }
    }

    /// The square `row_delta` rows and `col_delta` columns away.
    #[verifier::when_used_as_spec(spec_offset)]
    pub fn offset(&self, row_delta: i8, col_delta: i8) -> (p: Position)
        requires
            -128 <= self.row + row_delta <= 127,
            -128 <= self.col + col_delta <= 127,
        ensures
            p == self.spec_offset(row_delta, col_delta),
            p.row == self.row + row_delta,
            p.col == self.col + col_delta,
    {
        Position { row: self.row + row_delta, col: self.col + col_delta }
    }

    /// The number of the square, counting along the rows from row 0.
    pub open spec fn spec_to_index(&self) -> int {
        self.row * 9 + self.col
    }

    /// The number of the square, from 0 to 89.
    pub fn to_index(&self) -> (i: usize)
        requires
            self.is_valid(),
        ensures
            i == self.spec_to_index(),
            i < 90,
    {
        (self.row as usize) * 9 + (self.col as usize)
    }

    /// The square with number `idx`.
    pub open spec fn spec_from_index(idx: int) -> Position {
        Position { row: (idx / 9) as i8, col: (idx % 9) as i8 }
    }

    /// The square with number `idx`.
    pub fn from_index(idx: usize) -> (p: Position)
        requires
            idx < 90,
        ensures
            p == Position::spec_from_index(idx as int),
            p.is_valid(),
            p.spec_to_index() == idx,
    {
        Position { row: (idx / 9) as i8, col: (idx % 9) as i8 }
    }

    /// The square that a two-character coordinate names: a file letter
    /// `a` to `i` for the column, then a digit for the row.
    pub open spec fn parse(s: Seq<char>) -> Option<Position> {
        if s.len() == 2 && 'a' as u32 <= s[0] as u32 <= 'i' as u32 && '0' as u32 <= s[1] as u32
            <= '9' as u32 {
            Some(
                Position {
                    row: (s[1] as u32 - '0' as u32) as i8,
                    col: (s[0] as u32 - 'a' as u32) as i8,
                },
            )
        } else {
            None
        }
    }

    /// The two-character coordinate of a square on the board.
    pub open spec fn text(&self) -> Seq<char> {
        seq![(self.col + 97) as u8 as char, digit_char(self.row as int)]
    }

    /// Reads a square from its two-character coordinate.
    pub fn from_chars(v: &Vec<char>) -> (r: Option<Position>)
        ensures
            r == Position::parse(v@),
            r is Some ==> r->0.is_valid(),
    {
        if v.len() != 2 {
            return None;
        }
        let f: u32 = v[0] as u32;
        let d: u32 = v[1] as u32;
        if 97 <= f && f <= 105 && 48 <= d && d <= 57 {
            Some(Position { row: (d - 48) as i8, col: (f - 97) as i8 })
        } else {
            None
        }
    }

    /// Reads a square from its two-character coordinate, such as `e4`.
    pub fn from_fen_str(s: &str) -> (r: Option<Position>)
        ensures
            r == Position::parse(s@),
            r is Some ==> r->0.is_valid(),
    {
        let v = chars_of(s);
        Position::from_chars(&v)
    }

    /// Appends the coordinate of this square to `out`.
    pub fn push_text(&self, out: &mut Vec<char>)
        requires
            self.is_valid(),
        ensures
            final(out)@ == old(out)@ + self.text(),
    {
        let f: char = ((self.col as u8) + 97u8) as char;
        let d: char = digit_to_char(self.row as u8);
        out.push(f);
        out.push(d);
        assert(out@ =~= old(out)@ + self.text());
    }

    /// The two-character coordinate of this square, such as `e4`.
    pub fn to_fen_str(&self) -> (s: String)
        requires
            self.is_valid(),
        ensures
            s@ == self.text(),
            Position::parse(s@) == Some(*self),
    {
        let mut v: Vec<char> = Vec::new();
        self.push_text(&mut v);
        assert(v@ =~= self.text());
        string_of(&v)
    }
}

/// What a move does besides moving.
#[derive(Debug, Clone, Copy, PartialEq, Eq, Structural, Hash)]
pub enum ActionType {
    /// A face-down piece is turned face-up and moves.
    RevealAndMove,
    /// A face-up piece moves.
    Move,
}

/// A move: what it does, from where, to where.
#[derive(Debug, Clone, Copy, PartialEq, Eq, Structural, Hash)]
pub struct JieqiMove {
    pub action_type: ActionType,
    pub from_pos: Position,
    pub to_pos: Position,
}

impl JieqiMove {
    /// A move of a face-up piece.
    pub fn regular_move(from: Position, to: Position) -> (m: JieqiMove)
        ensures
            m == (JieqiMove { action_type: ActionType::Move, from_pos: from, to_pos: to }),
    {
        JieqiMove { action_type: ActionType::Move, from_pos: from, to_pos: to }
    }

    /// A move that turns a face-down piece face-up.
    pub fn reveal_move(from: Position, to: Position) -> (m: JieqiMove)
        ensures
            m == (JieqiMove { action_type: ActionType::RevealAndMove, from_pos: from, to_pos: to }),
    {
        JieqiMove { action_type: ActionType::RevealAndMove, from_pos: from, to_pos: to }
    }

    /// What a move text says, or `None` where it is malformed. Surrounding
    /// white space is ignored. A text is an optional `+` for a reveal,
    /// the coordinates of the two squares, and optionally `=` with the
    /// letter of the kind that was revealed; a letter that names no kind
    /// leaves the kind unknown.
    pub open spec fn parse(s: Seq<char>) -> Option<(JieqiMove, Option<PieceType>)> {
        let t = trim(s);
        let eq = find_from(t, '=', 0);
        if eq < t.len() && eq + 1 >= t.len() {
            None
        } else {
            let revealed = if eq < t.len() {
                PieceType::spec_from_fen_char(t[eq + 1])
            } else {
                None
            };
            let body = t.take(eq);
            let reveal = body.len() > 0 && body[0] == '+';
            let coords = if reveal {
                body.skip(1)
            } else {
                body
            };
            if coords.len() != 4 {
                None
            } else {
                match (
                    Position::parse(coords.subrange(0, 2)),
                    Position::parse(coords.subrange(2, 4)),
                ) {
                    (Some(from), Some(to)) => Some(
                        (
                            JieqiMove {
                                action_type: if reveal {
                                    ActionType::RevealAndMove
                                } else {
                                    ActionType::Move
                                },
                                from_pos: from,
                                to_pos: to,
                            },
                            revealed,
                        ),
                    ),
                    _ => None,
                }
            }
        }
    }

    /// The text of this move, with the revealed kind where one is given.
    pub open spec fn text(&self, revealed_type: Option<PieceType>) -> Seq<char> {
        let prefix = match self.action_type {
            ActionType::RevealAndMove => seq!['+'],
            ActionType::Move => Seq::<char>::empty(),
        };
        let suffix = match revealed_type {
            Some(pt) => seq!['=', pt.spec_upper_char()],
            None => Seq::<char>::empty(),
        };
        prefix + self.from_pos.text() + self.to_pos.text() + suffix
    }

    /// Reads a move from its characters.
    pub fn from_chars(v: &Vec<char>) -> (r: Option<(JieqiMove, Option<PieceType>)>)
        ensures
            r == JieqiMove::parse(v@),
            r matches Some(p) ==> p.0.from_pos.is_valid() && p.0.to_pos.is_valid(),
    {
        let t = trim_chars(v);
        let eq = find_char(&t, '=');
        let mut revealed: Option<PieceType> = None;
        if eq < t.len() {
            if eq + 1 >= t.len() {
                return None;
            }
            revealed = PieceType::from_fen_char(t[eq + 1]);
        }
        let body = slice_vec(&t, 0, eq);
        assert(body@ =~= t@.take(eq as int));
        let reveal = body.len() > 0 && body[0] == '+';
        let coords = if reveal {
            let c = slice_vec(&body, 1, body.len());
            assert(c@ =~= body@.skip(1));
            c
        } else {
            body
        };
        if coords.len() != 4 {
            return None;
        }
        let a = slice_vec(&coords, 0, 2);
        let b = slice_vec(&coords, 2, 4);
        match (Position::from_chars(&a), Position::from_chars(&b)) {
            (Some(from), Some(to)) => Some(
                (
                    JieqiMove {
                        action_type: if reveal {
                            ActionType::RevealAndMove
                        } else {
                            ActionType::Move
                        },
                        from_pos: from,
                        to_pos: to,
                    },
                    revealed,
                ),
            ),
            _ => None,
        }
    }

    /// Reads a move from its text: `a0a1`, `+a0a1` or `+a0a1=R`.
    pub fn from_fen_str(s: &str) -> (r: Option<(JieqiMove, Option<PieceType>)>)
        ensures
            r == JieqiMove::parse(s@),
            r matches Some(p) ==> p.0.from_pos.is_valid() && p.0.to_pos.is_valid(),
    {
        let v = chars_of(s);
        JieqiMove::from_chars(&v)
    }

    /// The characters of this move's text.
    pub fn to_chars(&self, revealed_type: Option<PieceType>) -> (v: Vec<char>)
        requires
            self.from_pos.is_valid(),
            self.to_pos.is_valid(),
        ensures
            v@ == self.text(revealed_type),
    {
        let mut v: Vec<char> = Vec::new();
        match self.action_type {
            ActionType::RevealAndMove => {
                v.push('+');
            },
            ActionType::Move => {},
        }
        self.from_pos.push_text(&mut v);
        self.to_pos.push_text(&mut v);
        match revealed_type {
            Some(pt) => {
                v.push('=');
                v.push(pt.upper_char());
            },
            None => {},
        }
        assert(v@ =~= self.text(revealed_type));
        v
    }

    /// The text of this move, with the revealed kind where one is given.
    pub fn to_fen_str(&self, revealed_type: Option<PieceType>) -> (s: String)
        requires
            self.from_pos.is_valid(),
            self.to_pos.is_valid(),
        ensures
            s@ == self.text(revealed_type),
    {
        let v = self.to_chars(revealed_type);
        string_of(&v)
    }
}

/// How a game stands.
#[derive(Debug, Clone, Copy, PartialEq, Eq, Structural)]
pub enum GameResult {
    Ongoing,
    RedWin,
    BlackWin,
    Draw,
}

/// The kind that a face-down piece on square `pos` moves as: the kind that
/// starts on that square in the opening position, for either side. Squares
/// on which no piece starts give `None`.
pub open spec fn start_type(pos: Position) -> Option<PieceType> {
    if pos.row == 0 || pos.row == 9 {
        if pos.col == 0 || pos.col == 8 {
            Some(PieceType::Rook)
        } else if pos.col == 1 || pos.col == 7 {
            Some(PieceType::Horse)
        } else if pos.col == 2 || pos.col == 6 {
            Some(PieceType::Elephant)
        } else if pos.col == 3 || pos.col == 5 {
            Some(PieceType::Advisor)
        } else if pos.col == 4 {
            Some(PieceType::King)
        } else {
            None
        }
    } else if (pos.row == 2 || pos.row == 7) && (pos.col == 1 || pos.col == 7) {
        Some(PieceType::Cannon)
    } else if (pos.row == 3 || pos.row == 6) && pos.col % 2 == 0 {
        Some(PieceType::Pawn)
    } else {
        None
    }
}

/// The kind that a face-down piece on square `pos` moves as.
pub fn get_position_piece_type(pos: Position) -> (r: Option<PieceType>)
    ensures
        r == start_type(pos),
{
    if pos.row == 0 || pos.row == 9 {
        if pos.col == 0 || pos.col == 8 {
            Some(PieceType::Rook)
        } else if pos.col == 1 || pos.col == 7 {
            Some(PieceType::Horse)
        } else if pos.col == 2 || pos.col == 6 {
            Some(PieceType::Elephant)
        } else if pos.col == 3 || pos.col == 5 {
            Some(PieceType::Advisor)
        } else if pos.col == 4 {
            Some(PieceType::King)
        } else {
            None
        }
    } else if (pos.row == 2 || pos.row == 7) && (pos.col == 1 || pos.col == 7) {
        Some(PieceType::Cannon)
    } else if (pos.row == 3 || pos.row == 6) && (pos.col as i16 + 128) % 2 == 0 {
        Some(PieceType::Pawn)
    } else {
        None
    }
}

/// The name of a side in lower case.
pub fn color_to_str(color: Color) -> (s: &'static str)
    ensures
        s@ == (match color {
            Color::Red => "red"@,
            Color::Black => "black"@,
        }),
{
    match color {
        Color::Red => "red",
        Color::Black => "black",
    }
}

/// A flat estimate of what a face-down piece is worth, in points.
pub const HIDDEN_PIECE_VALUE: i32 = 320;

} // verus!
