//! The FEN codec: the text form of a position as one player sees it.
//!
//! A FEN has four fields separated by white space: the board, the captured
//! pieces, the side to move and the viewer. The board is ten rows from
//! row 9 down to row 0, separated by `/`; in a row a digit stands for that
//! many empty squares, an upper-case letter for a Red piece, a lower-case
//! letter for a Black piece, and `X` or `x` for a face-down piece. The
//! captured field is the captured Red pieces, `:`, and the captured Black
//! pieces, each `-` where there are none.

use vstd::prelude::*;
use crate::text::{
    chars_of, digit_char, digit_to_char, digit_value, fields, is_digit, char_is_digit,
    char_digit_value, split_chars, split_fields, split_on, string_of, views,
};
use crate::types::{start_type, get_position_piece_type, ActionType, Color, JieqiMove, PieceType, Position};

verus! {

/// A piece as a FEN shows it.
#[derive(Debug, Clone, Copy)]
pub struct FenPiece {
    pub position: Position,
    pub color: Color,
    pub is_hidden: bool,
    /// The kind of the piece; `None` for a face-down piece.
    pub piece_type: Option<PieceType>,
}

/// A captured piece as a FEN records it.
#[derive(Debug, Clone, Copy)]
pub struct CapturedPieceInfo {
    /// The kind of the piece; `None` where it was never revealed.
    pub piece_type: Option<PieceType>,
    /// Whether the piece was face-down when it was captured.
    pub was_hidden: bool,
}

/// The captured pieces of both sides, each in the order of capture.
#[derive(Debug, Clone, Default)]
pub struct CapturedInfo {
    /// The Red pieces that were captured.
    pub red_captured: Vec<CapturedPieceInfo>,
    /// The Black pieces that were captured.
    pub black_captured: Vec<CapturedPieceInfo>,
}

/// What a FEN says.
#[derive(Debug, Clone)]
pub struct FenState {
    pub pieces: Vec<FenPiece>,
    pub captured: CapturedInfo,
    pub turn: Color,
    pub viewer: Color,
}

/// The mathematical content of a `FenState`.
pub struct FenStateView {
    pub pieces: Seq<FenPiece>,
    pub red_captured: Seq<CapturedPieceInfo>,
    pub black_captured: Seq<CapturedPieceInfo>,
    pub turn: Color,
    pub viewer: Color,
}

impl View for FenState {
    type V = FenStateView;

    open spec fn view(&self) -> FenStateView {
        FenStateView {
            pieces: self.pieces@,
            red_captured: self.captured.red_captured@,
            black_captured: self.captured.black_captured@,
            turn: self.turn,
            viewer: self.viewer,
        }
    }
}

/// Why a text is no FEN.
#[derive(Debug, Clone, Copy, PartialEq, Eq, Structural)]
pub enum FenError {
    /// The text does not have four fields.
    FieldCount,
    /// The board does not have ten rows.
    RowCount,
    /// A row does not fill exactly nine columns.
    RowWidth,
    /// A character stands where no piece or digit is named by it.
    InvalidCharacter,
    /// The captured field does not have two sides.
    CapturedFormat,
    /// The side to move is not one of the letters `r` and `b`.
    InvalidTurn,
    /// The viewer is not one of the letters `r` and `b`.
    InvalidViewer,
}

/// Whether `c` is an upper-case letter of the basic alphabet.
pub open spec fn is_upper(c: char) -> bool {
    'A' as u32 <= c as u32 <= 'Z' as u32
}

/// The piece that the character `ch` stands for on square `pos`.
pub open spec fn piece_of_glyph(ch: char, pos: Position) -> Option<FenPiece> {
    if ch == 'X' {
        Some(FenPiece { position: pos, color: Color::Red, is_hidden: true, piece_type: None })
    } else if ch == 'x' {
        Some(FenPiece { position: pos, color: Color::Black, is_hidden: true, piece_type: None })
    } else {
        match PieceType::spec_from_fen_char(ch) {
            Some(t) => Some(
                FenPiece {
                    position: pos,
                    color: if is_upper(ch) {
                        Color::Red
                    } else {
                        Color::Black
                    },
                    is_hidden: false,
                    piece_type: Some(t),
                },
            ),
            None => None,
        }
    }
}

/// The pieces of row `row` as the row text `s` gives them from its index
/// `i` on, behind those in `acc`, where the characters before `i` have
/// filled `col` columns. Characters are read from the left; a row must
/// fill nine columns, no more and no fewer. The first fault decides the
/// error.
pub open spec fn parse_row_from(
    s: Seq<char>,
    row: i8,
    i: int,
    col: int,
    acc: Seq<FenPiece>,
) -> Result<Seq<FenPiece>, FenError>
    decreases s.len() - i,
{
    if i < 0 || i >= s.len() {
        if col == 9 {
            Ok(acc)
        } else {
            Err(FenError::RowWidth)
        }
    } else if col >= 9 {
        Err(FenError::RowWidth)
    } else if is_digit(s[i]) {
        parse_row_from(s, row, i + 1, col + digit_value(s[i]), acc)
    } else {
        match piece_of_glyph(s[i], Position { row, col: col as i8 }) {
            None => Err(FenError::InvalidCharacter),
            Some(fp) => parse_row_from(s, row, i + 1, col + 1, acc.push(fp)),
        }
    }
}

/// The pieces that the row texts `rows` give from the text with index `r`
/// on, behind those in `acc`. The text with index `r` is row `9 - r`.
pub open spec fn parse_rows_from(rows: Seq<Seq<char>>, r: int, acc: Seq<FenPiece>) -> Result<
    Seq<FenPiece>,
    FenError,
>
    decreases 10 - r,
{
    if r < 0 || r >= 10 {
        Ok(acc)
    } else {
        match parse_row_from(rows[r], (9 - r) as i8, 0, 0, acc) {
            Ok(more) => parse_rows_from(rows, r + 1, more),
            Err(e) => Err(e),
        }
    }
}

/// The pieces that a board field gives, row 9 first and each row from
/// column 0.
pub open spec fn spec_parse_board(s: Seq<char>) -> Result<Seq<FenPiece>, FenError> {
    let rows = split_on(s, '/');
    if rows.len() != 10 {
        Err(FenError::RowCount)
    } else {
        parse_rows_from(rows, 0, Seq::empty())
    }
}

/// The captured piece that the character `ch` records: `?` one that was
/// never revealed, a letter one of that kind, which was face-down when it
/// was captured if the letter is lower-case.
pub open spec fn captured_of_glyph(ch: char) -> Option<CapturedPieceInfo> {
    if ch == '?' {
        Some(CapturedPieceInfo { piece_type: None, was_hidden: true })
    } else {
        match PieceType::spec_from_fen_char(ch) {
            Some(t) => Some(CapturedPieceInfo { piece_type: Some(t), was_hidden: !is_upper(ch) }),
            None => None,
        }
    }
}

/// The captured pieces that the text `s` records from its index `i` on,
/// behind those in `acc`.
pub open spec fn parse_side_from(s: Seq<char>, i: int, acc: Seq<CapturedPieceInfo>) -> Result<
    Seq<CapturedPieceInfo>,
    FenError,
>
    decreases s.len() - i,
{
    if i < 0 || i >= s.len() {
        Ok(acc)
    } else {
        match captured_of_glyph(s[i]) {
            Some(c) => parse_side_from(s, i + 1, acc.push(c)),
            None => Err(FenError::InvalidCharacter),
        }
    }
}

/// The captured pieces of one side: none for `-`.
pub open spec fn spec_parse_side(s: Seq<char>) -> Result<Seq<CapturedPieceInfo>, FenError> {
    if s == seq!['-'] {
        Ok(Seq::empty())
    } else {
        parse_side_from(s, 0, Seq::empty())
    }
}

/// The captured pieces that a captured field records, Red's first.
pub open spec fn spec_parse_captured(s: Seq<char>) -> Result<
    (Seq<CapturedPieceInfo>, Seq<CapturedPieceInfo>),
    FenError,
> {
    let parts = split_on(s, ':');
    if parts.len() != 2 {
        Err(FenError::CapturedFormat)
    } else {
        match spec_parse_side(parts[0]) {
            Err(e) => Err(e),
            Ok(red) => match spec_parse_side(parts[1]) {
                Err(e) => Err(e),
                Ok(black) => Ok((red, black)),
            },
        }
    }
}

/// The side that a field of a single letter names.
pub open spec fn spec_parse_color(s: Seq<char>) -> Option<Color> {
    if s.len() == 1 {
        Color::spec_from_fen_char(s[0])
    } else {
        None
    }
}

/// What a text says as a FEN, or why it is none. The fields are examined
/// in their order, and the first fault decides the error.
pub open spec fn spec_parse_fen(s: Seq<char>) -> Result<FenStateView, FenError> {
    let f = fields(s);
    if f.len() != 4 {
        Err(FenError::FieldCount)
    } else {
        match spec_parse_board(f[0]) {
            Err(e) => Err(e),
            Ok(pieces) => match spec_parse_captured(f[1]) {
                Err(e) => Err(e),
                Ok(captured) => match spec_parse_color(f[2]) {
                    None => Err(FenError::InvalidTurn),
                    Some(turn) => match spec_parse_color(f[3]) {
                        None => Err(FenError::InvalidViewer),
                        Some(viewer) => Ok(
                            FenStateView {
                                pieces,
                                red_captured: captured.0,
                                black_captured: captured.1,
                                turn,
                                viewer,
                            },
                        ),
                    },
                },
            },
        }
    }
}

fn glyph_piece(ch: char, pos: Position) -> (r: Option<FenPiece>)
    ensures
        r == piece_of_glyph(ch, pos),
{
    if ch == 'X' {
        Some(FenPiece { position: pos, color: Color::Red, is_hidden: true, piece_type: None })
    } else if ch == 'x' {
        Some(FenPiece { position: pos, color: Color::Black, is_hidden: true, piece_type: None })
    } else {
        match PieceType::from_fen_char(ch) {
            Some(t) => {
                let n: u32 = ch as u32;
                let color = if 65 <= n && n <= 90 {
                    Color::Red
                } else {
                    Color::Black
                };
                Some(FenPiece { position: pos, color, is_hidden: false, piece_type: Some(t) })
            },
            None => None,
        }
    }
}

/// Reads one row of a board field and appends its pieces to `out`. On an
/// error `out` may have grown by the pieces read before the fault.
fn parse_row(s: &Vec<char>, row: i8, out: &mut Vec<FenPiece>) -> (r: Result<(), FenError>)
    ensures
        match r {
            Ok(_) => parse_row_from(s@, row, 0, 0, old(out)@) == Ok::<Seq<FenPiece>, FenError>(
                final(out)@,
            ),
            Err(e) => parse_row_from(s@, row, 0, 0, old(out)@) == Err::<Seq<FenPiece>, FenError>(
                e,
            ),
        },
{
    let mut col: u8 = 0;
    let mut i: usize = 0;
    while i < s.len()
        invariant
            i <= s.len(),
            col <= 18,
            parse_row_from(s@, row, i as int, col as int, out@) == parse_row_from(
                s@,
                row,
                0,
                0,
                old(out)@,
            ),
        decreases s.len() - i,
    {
        if col >= 9 {
            return Err(FenError::RowWidth);
        }
        let ch = s[i];
        if char_is_digit(ch) {
            col = col + char_digit_value(ch);
        } else {
            match glyph_piece(ch, Position { row, col: col as i8 }) {
                None => {
                    return Err(FenError::InvalidCharacter);
                },
                Some(fp) => {
                    out.push(fp);
                    col = col + 1;
                },
            }
        }
        i += 1;
    }
    if col == 9 {
        Ok(())
    } else {
        Err(FenError::RowWidth)
    }
}

/// Reads a board field.
pub fn parse_board_chars(s: &Vec<char>) -> (r: Result<Vec<FenPiece>, FenError>)
    ensures
        match r {
            Ok(pieces) => spec_parse_board(s@) == Ok::<Seq<FenPiece>, FenError>(pieces@),
            Err(e) => spec_parse_board(s@) == Err::<Seq<FenPiece>, FenError>(e),
        },
{
    let rows = split_chars(s, '/');
    if rows.len() != 10 {
        return Err(FenError::RowCount);
    }
    let mut pieces: Vec<FenPiece> = Vec::new();
    let mut r: usize = 0;
    while r < 10
        invariant
            r <= 10,
            rows.len() == 10,
            views(rows@) == split_on(s@, '/'),
            parse_rows_from(views(rows@), r as int, pieces@) == spec_parse_board(s@),
        decreases 10 - r,
    {
        assert(views(rows@)[r as int] == rows@[r as int]@);
        match parse_row(&rows[r], (9 - r) as i8, &mut pieces) {
            Ok(_) => {},
            Err(e) => {
                return Err(e);
            },
        }
        r += 1;
    }
    Ok(pieces)
}

/// Reads a board field.
pub fn parse_board(board_str: &str) -> (r: Result<Vec<FenPiece>, FenError>)
    ensures
        match r {
            Ok(pieces) => spec_parse_board(board_str@) == Ok::<Seq<FenPiece>, FenError>(pieces@),
            Err(e) => spec_parse_board(board_str@) == Err::<Seq<FenPiece>, FenError>(e),
        },
{
    let v = chars_of(board_str);
    parse_board_chars(&v)
}

fn glyph_captured(ch: char) -> (r: Option<CapturedPieceInfo>)
    ensures
        r == captured_of_glyph(ch),
{
    if ch == '?' {
        Some(CapturedPieceInfo { piece_type: None, was_hidden: true })
    } else {
        match PieceType::from_fen_char(ch) {
            Some(t) => {
                let n: u32 = ch as u32;
                Some(CapturedPieceInfo { piece_type: Some(t), was_hidden: !(65 <= n && n <= 90) })
            },
            None => None,
        }
    }
}

fn parse_side(s: &Vec<char>) -> (r: Result<Vec<CapturedPieceInfo>, FenError>)
    ensures
        match r {
            Ok(list) => spec_parse_side(s@) == Ok::<Seq<CapturedPieceInfo>, FenError>(list@),
            Err(e) => spec_parse_side(s@) == Err::<Seq<CapturedPieceInfo>, FenError>(e),
        },
{
    let mut list: Vec<CapturedPieceInfo> = Vec::new();
    if s.len() == 1 && s[0] == '-' {
        assert(s@ =~= seq!['-']);
        return Ok(list);
    }
    assert(s@ != seq!['-']) by {
        if s@ == seq!['-'] {
            assert(seq!['-'].len() == 1);
            assert(seq!['-'][0] == '-');
        }
    }
    let mut i: usize = 0;
    while i < s.len()
        invariant
            i <= s.len(),
            s@ != seq!['-'],
            parse_side_from(s@, i as int, list@) == parse_side_from(s@, 0, Seq::empty()),
        decreases s.len() - i,
    {
        match glyph_captured(s[i]) {
            Some(c) => {
                list.push(c);
            },
            None => {
                return Err(FenError::InvalidCharacter);
            },
        }
        i += 1;
    }
    Ok(list)
}

/// Reads a captured field.
pub fn parse_captured_chars(s: &Vec<char>) -> (r: Result<CapturedInfo, FenError>)
    ensures
        match r {
            Ok(info) => spec_parse_captured(s@) == Ok::<
                (Seq<CapturedPieceInfo>, Seq<CapturedPieceInfo>),
                FenError,
            >((info.red_captured@, info.black_captured@)),
            Err(e) => spec_parse_captured(s@) == Err::<
                (Seq<CapturedPieceInfo>, Seq<CapturedPieceInfo>),
                FenError,
            >(e),
        },
{
    let parts = split_chars(s, ':');
    if parts.len() != 2 {
        return Err(FenError::CapturedFormat);
    }
    assert(views(parts@)[0] == parts@[0]@);
    assert(views(parts@)[1] == parts@[1]@);
    let red = match parse_side(&parts[0]) {
        Ok(list) => list,
        Err(e) => {
            return Err(e);
        },
    };
    let black = match parse_side(&parts[1]) {
        Ok(list) => list,
        Err(e) => {
            return Err(e);
        },
    };
    Ok(CapturedInfo { red_captured: red, black_captured: black })
}

/// Reads a captured field.
pub fn parse_captured(captured_str: &str) -> (r: Result<CapturedInfo, FenError>)
    ensures
        match r {
            Ok(info) => spec_parse_captured(captured_str@) == Ok::<
                (Seq<CapturedPieceInfo>, Seq<CapturedPieceInfo>),
                FenError,
            >((info.red_captured@, info.black_captured@)),
            Err(e) => spec_parse_captured(captured_str@) == Err::<
                (Seq<CapturedPieceInfo>, Seq<CapturedPieceInfo>),
                FenError,
            >(e),
        },
{
    let v = chars_of(captured_str);
    parse_captured_chars(&v)
}

fn parse_color(s: &Vec<char>) -> (r: Option<Color>)
    ensures
        r == spec_parse_color(s@),
{
    if s.len() == 1 {
        Color::from_fen_char(s[0])
    } else {
        None
    }
}

/// Reads a FEN from its characters.
pub fn parse_fen_chars(v: &Vec<char>) -> (r: Result<FenState, FenError>)
    ensures
        match r {
            Ok(state) => spec_parse_fen(v@) == Ok::<FenStateView, FenError>(state@),
            Err(e) => spec_parse_fen(v@) == Err::<FenStateView, FenError>(e),
        },
{
    let parts = split_fields(v);
    if parts.len() != 4 {
        return Err(FenError::FieldCount);
    }
    assert(views(parts@)[0] == parts@[0]@);
    assert(views(parts@)[1] == parts@[1]@);
    assert(views(parts@)[2] == parts@[2]@);
    assert(views(parts@)[3] == parts@[3]@);
    let pieces = match parse_board_chars(&parts[0]) {
        Ok(p) => p,
        Err(e) => {
            return Err(e);
        },
    };
    let captured = match parse_captured_chars(&parts[1]) {
        Ok(c) => c,
        Err(e) => {
            return Err(e);
        },
    };
    let turn = match parse_color(&parts[2]) {
        Some(c) => c,
        None => {
            return Err(FenError::InvalidTurn);
        },
    };
    let viewer = match parse_color(&parts[3]) {
        Some(c) => c,
        None => {
            return Err(FenError::InvalidViewer);
        },
    };
    Ok(FenState { pieces, captured, turn, viewer })
}

/// Reads a FEN.
pub fn parse_fen(fen: &str) -> (r: Result<FenState, FenError>)
    ensures
        match r {
            Ok(state) => spec_parse_fen(fen@) == Ok::<FenStateView, FenError>(state@),
            Err(e) => spec_parse_fen(fen@) == Err::<FenStateView, FenError>(e),
        },
{
    let v = chars_of(fen);
    parse_fen_chars(&v)
}

/// The character that shows the piece `fp` on a board: `X` or `x` for a
/// face-down piece, else the letter of its kind, upper-case for Red. A
/// face-up piece without a kind is not shown.
pub open spec fn glyph(fp: FenPiece) -> Seq<char> {
    if fp.is_hidden {
        seq![match fp.color {
            Color::Red => 'X',
            Color::Black => 'x',
        }]
    } else {
        match fp.piece_type {
            Some(t) => seq![match fp.color {
                Color::Red => t.spec_upper_char(),
                Color::Black => t.spec_to_fen_char(),
            }],
            None => Seq::empty(),
        }
    }
}

/// The text of a run of `n` empty squares: its digit, or nothing for an
/// empty run.
pub open spec fn run_text(n: int) -> Seq<char> {
    if n > 0 {
        seq![digit_char(n)]
    } else {
        Seq::empty()
    }
}

/// The text of row `row` of `grid` from column `col` on, after a run of
/// `pending` empty squares.
pub open spec fn row_text_from(grid: Seq<Option<FenPiece>>, row: int, col: int, pending: int) -> Seq<
    char,
>
    decreases 9 - col,
{
    if col < 0 || col >= 9 {
        run_text(pending)
    } else {
        match grid[row * 9 + col] {
            None => row_text_from(grid, row, col + 1, pending + 1),
            Some(fp) => run_text(pending) + glyph(fp) + row_text_from(grid, row, col + 1, 0),
        }
    }
}

/// The text of row `row` of `grid`: its pieces from column 0, with each
/// maximal run of empty squares written as one digit.
pub open spec fn row_text(grid: Seq<Option<FenPiece>>, row: int) -> Seq<char> {
    row_text_from(grid, row, 0, 0)
}

/// The texts of the rows from `r` down to 0, separated by `/`.
pub open spec fn board_text_from(grid: Seq<Option<FenPiece>>, r: int) -> Seq<char>
    decreases r,
{
    if r <= 0 {
        row_text(grid, 0)
    } else {
        row_text(grid, r) + seq!['/'] + board_text_from(grid, r - 1)
    }
}

/// The board field for `grid`: the ten rows from row 9 down to row 0.
pub open spec fn board_text(grid: Seq<Option<FenPiece>>) -> Seq<char> {
    board_text_from(grid, 9)
}

/// The character that records the captured piece `c`: the letter of its
/// kind, upper-case where the piece was face-up when it was captured and
/// lower-case where it was face-down, or `?` where the kind is unknown.
pub open spec fn captured_glyph(c: CapturedPieceInfo) -> char {
    match c.piece_type {
        Some(t) => if c.was_hidden {
            t.spec_to_fen_char()
        } else {
            t.spec_upper_char()
        },
        None => '?',
    }
}

/// The text of the captured pieces `list` of one side: `-` for none.
pub open spec fn captured_text(list: Seq<CapturedPieceInfo>) -> Seq<char> {
    if list.len() == 0 {
        seq!['-']
    } else {
        Seq::new(list.len(), |i: int| captured_glyph(list[i]))
    }
}

/// The ninety squares after the first `n` of `pieces` have been put on
/// their squares, a later piece replacing an earlier one; pieces off the
/// board are left out.
pub open spec fn grid_from(pieces: Seq<FenPiece>, n: int) -> Seq<Option<FenPiece>>
    decreases n,
{
    if n <= 0 {
        Seq::new(90, |i: int| None)
    } else {
        let grid = grid_from(pieces, n - 1);
        let fp = pieces[n - 1];
        if fp.position.is_valid() {
            grid.update(fp.position.spec_to_index(), Some(fp))
        } else {
            grid
        }
    }
}

/// The ninety squares with `pieces` on them.
pub open spec fn grid_of(pieces: Seq<FenPiece>) -> Seq<Option<FenPiece>> {
    grid_from(pieces, pieces.len() as int)
}

/// The FEN of the squares `grid`, the captured pieces, the side to move
/// and the viewer.
pub open spec fn fen_text(
    grid: Seq<Option<FenPiece>>,
    red_captured: Seq<CapturedPieceInfo>,
    black_captured: Seq<CapturedPieceInfo>,
    turn: Color,
    viewer: Color,
) -> Seq<char> {
    board_text(grid) + seq![' '] + captured_text(red_captured) + seq![':'] + captured_text(black_captured) + seq![
        ' ',
        turn.spec_to_fen_char(),
        ' ',
        viewer.spec_to_fen_char(),
    ]
}

impl FenStateView {
    /// The FEN of this state.
    pub open spec fn text(&self) -> Seq<char> {
        fen_text(
            grid_of(self.pieces),
            self.red_captured,
            self.black_captured,
            self.turn,
            self.viewer,
        )
    }
}

fn build_grid(pieces: &[FenPiece]) -> (grid: Vec<Option<FenPiece>>)
    ensures
        grid@ == grid_of(pieces@),
        grid.len() == 90,
{
    let mut grid: Vec<Option<FenPiece>> = Vec::with_capacity(90);
    let mut i: usize = 0;
    while i < 90
        invariant
            i <= 90,
            grid@ == Seq::new(i as nat, |k: int| None::<FenPiece>),
        decreases 90 - i,
    {
        grid.push(None);
        assert(grid@ =~= Seq::new((i + 1) as nat, |k: int| None::<FenPiece>));
        i += 1;
    }
    let mut n: usize = 0;
    while n < pieces.len()
        invariant
            n <= pieces.len(),
            grid.len() == 90,
            grid@ == grid_from(pieces@, n as int),
        decreases pieces.len() - n,
    {
        let fp = pieces[n];
        if fp.position.is_valid() {
            grid.set(fp.position.to_index(), Some(fp));
        }
        n += 1;
    }
    grid
}

fn push_glyph(fp: &FenPiece, out: &mut Vec<char>)
    ensures
        final(out)@ == old(out)@ + glyph(*fp),
{
    if fp.is_hidden {
        let c = match fp.color {
            Color::Red => 'X',
            Color::Black => 'x',
        };
        out.push(c);
        assert(out@ =~= old(out)@ + glyph(*fp));
    } else {
        match fp.piece_type {
            Some(t) => {
                let c = match fp.color {
                    Color::Red => t.upper_char(),
                    Color::Black => t.to_fen_char(),
                };
                out.push(c);
                assert(out@ =~= old(out)@ + glyph(*fp));
            },
            None => {
                assert(out@ =~= old(out)@ + glyph(*fp));
            },
        }
    }
}

fn push_run(pending: u8, out: &mut Vec<char>)
    requires
        pending <= 9,
    ensures
        final(out)@ == old(out)@ + run_text(pending as int),
{
    if pending > 0 {
        out.push(digit_to_char(pending));
        assert(out@ =~= old(out)@ + run_text(pending as int));
    } else {
        assert(out@ =~= old(out)@ + run_text(pending as int));
    }
}

fn push_row(grid: &Vec<Option<FenPiece>>, row: usize, out: &mut Vec<char>)
    requires
        grid.len() == 90,
        row < 10,
    ensures
        final(out)@ == old(out)@ + row_text(grid@, row as int),
{
    let mut col: usize = 0;
    let mut pending: u8 = 0;
    assert(out@ + row_text_from(grid@, row as int, 0, 0) == old(out)@ + row_text(
        grid@,
        row as int,
    ));
    while col < 9
        invariant
            col <= 9,
            pending <= col,
            row < 10,
            grid.len() == 90,
            out@ + row_text_from(grid@, row as int, col as int, pending as int) == old(out)@
                + row_text(grid@, row as int),
        decreases 9 - col,
    {
        let ghost before = out@;
        let ghost run = pending as int;
        let ghost rest = row_text_from(grid@, row as int, col + 1, 0);
        match grid[row * 9 + col] {
            Some(fp) => {
                push_run(pending, out);
                push_glyph(&fp, out);
                pending = 0;
                assert(out@ + rest =~= before + (run_text(run) + glyph(fp) + rest))
                    by {
                    assert(out@ == before + run_text(run) + glyph(fp));
                }
            },
            None => {
                pending = pending + 1;
            },
        }
        col += 1;
    }
    let ghost before = out@;
    push_run(pending, out);
}

fn push_board(grid: &Vec<Option<FenPiece>>, out: &mut Vec<char>)
    requires
        grid.len() == 90,
    ensures
        final(out)@ == old(out)@ + board_text(grid@),
{
    let mut r: usize = 9;
    assert(out@ + board_text_from(grid@, 9) == old(out)@ + board_text(grid@));
    while r > 0
        invariant
            r <= 9,
            grid.len() == 90,
            out@ + board_text_from(grid@, r as int) == old(out)@ + board_text(grid@),
        decreases r,
    {
        let ghost before = out@;
        push_row(grid, r, out);
        out.push('/');
        assert(out@ + board_text_from(grid@, r - 1) =~= before + (row_text(grid@, r as int)
            + seq!['/'] + board_text_from(grid@, r - 1))) by {
            assert(out@ == (before + row_text(grid@, r as int)).push('/'));
        }
        r -= 1;
    }
    push_row(grid, 0, out);
}

fn push_captured(list: &Vec<CapturedPieceInfo>, out: &mut Vec<char>)
    ensures
        final(out)@ == old(out)@ + captured_text(list@),
{
    if list.len() == 0 {
        out.push('-');
        assert(out@ =~= old(out)@ + captured_text(list@));
        return ;
    }
    let mut i: usize = 0;
    while i < list.len()
        invariant
            i <= list.len(),
            out@ == old(out)@ + Seq::new(i as nat, |k: int| captured_glyph(list@[k])),
        decreases list.len() - i,
    {
        let c = list[i];
        let ch = match c.piece_type {
            Some(t) => if c.was_hidden {
                t.to_fen_char()
            } else {
                t.upper_char()
            },
            None => '?',
        };
        out.push(ch);
        assert(out@ =~= old(out)@ + Seq::new((i + 1) as nat, |k: int| captured_glyph(list@[k])));
        i += 1;
    }
}

/// The FEN of the squares `grid`, the captured pieces, the side to move
/// and the viewer.
pub fn grid_to_fen(
    grid: &Vec<Option<FenPiece>>,
    red_captured: &Vec<CapturedPieceInfo>,
    black_captured: &Vec<CapturedPieceInfo>,
    turn: Color,
    viewer: Color,
) -> (s: String)
    requires
        grid.len() == 90,
    ensures
        s@ == fen_text(grid@, red_captured@, black_captured@, turn, viewer),
{
    let mut out: Vec<char> = Vec::new();
    push_board(grid, &mut out);
    out.push(' ');
    push_captured(red_captured, &mut out);
    out.push(':');
    push_captured(black_captured, &mut out);
    out.push(' ');
    out.push(turn.to_fen_char());
    out.push(' ');
    out.push(viewer.to_fen_char());
    assert(out@ =~= fen_text(grid@, red_captured@, black_captured@, turn, viewer));
    string_of(&out)
}

/// The FEN of the given pieces, captured pieces, side to move and viewer.
/// Where two pieces name one square the later one is shown; pieces off
/// the board are left out.
pub fn pieces_to_fen(pieces: &[FenPiece], captured: &CapturedInfo, turn: Color, viewer: Color) -> (s:
    String)
    ensures
        s@ == fen_text(
            grid_of(pieces@),
            captured.red_captured@,
            captured.black_captured@,
            turn,
            viewer,
        ),
{
    let grid = build_grid(pieces);
    grid_to_fen(&grid, &captured.red_captured, &captured.black_captured, turn, viewer)
}

/// Why a move could not be applied to a FEN.
#[derive(Debug, Clone, Copy, PartialEq, Eq)]
pub enum MoveError {
    /// The position text is no FEN.
    InvalidFen(FenError),
    /// The move text is malformed.
    InvalidMoveText,
    /// No piece stands on the square that the move starts from.
    NoPiece,
    /// The move is not among the legal moves of the side to move.
    IllegalMove,
}

/// The pieces among the first `n` of `pieces` that stand neither on
/// `from` nor on `to`, in their order; the last of them that stands on
/// `from`; and the last of them that stands on `to` and not on `from`.
pub open spec fn scan_from(pieces: Seq<FenPiece>, from: Position, to: Position, n: int) -> (
    Seq<FenPiece>,
    Option<FenPiece>,
    Option<FenPiece>,
)
    decreases n,
{
    if n <= 0 {
        (Seq::empty(), None, None)
    } else {
        let (rest, moved, taken) = scan_from(pieces, from, to, n - 1);
        let fp = pieces[n - 1];
        if fp.position == from {
            (rest, Some(fp), taken)
        } else if fp.position == to {
            (rest, moved, Some(fp))
        } else {
            (rest.push(fp), moved, taken)
        }
    }
}

/// The piece `fp` after move `mv` has carried it to its target: a reveal
/// turns it face-up as `revealed_type`, or where that is not given as
/// the kind that starts on the square it left.
pub open spec fn carried(fp: FenPiece, mv: JieqiMove, revealed_type: Option<PieceType>) -> FenPiece {
    match mv.action_type {
        ActionType::RevealAndMove => FenPiece {
            position: mv.to_pos,
            is_hidden: false,
            piece_type: if revealed_type is Some {
                revealed_type
            } else {
                start_type(mv.from_pos)
            },
            ..fp
        },
        ActionType::Move => FenPiece { position: mv.to_pos, ..fp },
    }
}

/// The record of the capture of `fp`.
pub open spec fn capture_record(fp: FenPiece) -> CapturedPieceInfo {
    CapturedPieceInfo { piece_type: fp.piece_type, was_hidden: fp.is_hidden }
}

impl FenStateView {
    /// This state after move `mv`, or `None` where no piece stands on the
    /// square the move starts from. The moved piece comes last in the
    /// list of pieces; a captured piece joins the captured pieces of its
    /// side; the turn passes. Nothing is checked against the rules of
    /// movement.
    pub open spec fn apply_move(&self, mv: JieqiMove, revealed_type: Option<PieceType>) -> Option<
        FenStateView,
    > {
        let (rest, moved, taken) = scan_from(
            self.pieces,
            mv.from_pos,
            mv.to_pos,
            self.pieces.len() as int,
        );
        match moved {
            None => None,
            Some(fp) => Some(
                FenStateView {
                    pieces: rest.push(carried(fp, mv, revealed_type)),
                    red_captured: match taken {
                        Some(c) if c.color == Color::Red => self.red_captured.push(
                            capture_record(c),
                        ),
                        _ => self.red_captured,
                    },
                    black_captured: match taken {
                        Some(c) if c.color == Color::Black => self.black_captured.push(
                            capture_record(c),
                        ),
                        _ => self.black_captured,
                    },
                    turn: self.turn.opposite(),
                    viewer: self.viewer,
                },
            ),
        }
    }
}

/// The FEN after the move with text `move_text` on the position with text
/// `fen`, or why there is none. A kind that the move text itself names is
/// not used: the revealed kind is `revealed_type`.
pub open spec fn spec_apply_move_to_fen(
    fen: Seq<char>,
    move_text: Seq<char>,
    revealed_type: Option<PieceType>,
) -> Result<Seq<char>, MoveError> {
    match spec_parse_fen(fen) {
        Err(e) => Err(MoveError::InvalidFen(e)),
        Ok(state) => match JieqiMove::parse(move_text) {
            None => Err(MoveError::InvalidMoveText),
            Some(parsed) => match state.apply_move(parsed.0, revealed_type) {
                None => Err(MoveError::NoPiece),
                Some(next) => Ok(next.text()),
            },
        },
    }
}

/// Applies move `mv` to `state`.
pub fn apply_move(state: FenState, mv: &JieqiMove, revealed_type: Option<PieceType>) -> (r: Option<
    FenState,
>)
    ensures
        match r {
            Some(next) => state@.apply_move(*mv, revealed_type) == Some(next@),
            None => state@.apply_move(*mv, revealed_type) is None,
        },
{
    let FenState { pieces, captured, turn, viewer } = state;
    let CapturedInfo { red_captured, black_captured } = captured;
    let mut red = red_captured;
    let mut black = black_captured;
    let mut rest: Vec<FenPiece> = Vec::new();
    let mut moved: Option<FenPiece> = None;
    let mut taken: Option<FenPiece> = None;
    let mut n: usize = 0;
    while n < pieces.len()
        invariant
            n <= pieces.len(),
            (rest@, moved, taken) == scan_from(pieces@, mv.from_pos, mv.to_pos, n as int),
        decreases pieces.len() - n,
    {
        let fp = pieces[n];
        if fp.position == mv.from_pos {
            moved = Some(fp);
        } else if fp.position == mv.to_pos {
            taken = Some(fp);
        } else {
            rest.push(fp);
        }
        n += 1;
    }
    let fp = match moved {
        Some(fp) => fp,
        None => {
            return None;
        },
    };
    let arrived = match mv.action_type {
        ActionType::RevealAndMove => FenPiece {
            position: mv.to_pos,
            is_hidden: false,
            piece_type: match revealed_type {
                Some(t) => Some(t),
                None => get_position_piece_type(mv.from_pos),
            },
            color: fp.color,
        },
        ActionType::Move => FenPiece { position: mv.to_pos, ..fp },
    };
    rest.push(arrived);
    match taken {
        Some(c) => {
            let info = CapturedPieceInfo { piece_type: c.piece_type, was_hidden: c.is_hidden };
            match c.color {
                Color::Red => {
                    red.push(info);
                },
                Color::Black => {
                    black.push(info);
                },
            }
        },
        None => {},
    }
    Some(
        FenState {
            pieces: rest,
            captured: CapturedInfo { red_captured: red, black_captured: black },
            turn: turn.opposite(),
            viewer,
        },
    )
}

/// Makes the move with text `move_str` on the position with text `fen`
/// and returns the FEN of the position that results. A reveal turns the
/// piece face-up as `revealed_type`, or where that is `None` as the kind
/// that starts on the square it left. A captured piece joins the captured
/// pieces of its side, and the turn passes.
pub fn apply_move_to_fen(fen: &str, move_str: &str, revealed_type: Option<PieceType>) -> (r: Result<
    String,
    MoveError,
>)
    ensures
        match r {
            Ok(s) => spec_apply_move_to_fen(fen@, move_str@, revealed_type) == Ok::<
                Seq<char>,
                MoveError,
            >(s@),
            Err(e) => spec_apply_move_to_fen(fen@, move_str@, revealed_type) == Err::<
                Seq<char>,
                MoveError,
            >(e),
        },
{
    let state = match parse_fen(fen) {
        Ok(s) => s,
        Err(e) => {
            return Err(MoveError::InvalidFen(e));
        },
    };
    let mv = match JieqiMove::from_fen_str(move_str) {
        Some(parsed) => parsed.0,
        None => {
            return Err(MoveError::InvalidMoveText);
        },
    };
    match apply_move(state, &mv, revealed_type) {
        Some(next) => Ok(pieces_to_fen(&next.pieces, &next.captured, next.turn, next.viewer)),
        None => Err(MoveError::NoPiece),
    }
}

} // verus!
