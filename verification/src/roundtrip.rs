//! The FEN that is written for a position reads back as that position.

use vstd::prelude::*;
use crate::board::{board_of, lemma_index_bijection, placed, spec_board_from_fen};
use crate::fen::{
    board_text, board_text_from, captured_glyph, captured_of_glyph, captured_text, fen_text, glyph,
    grid_from, grid_of, parse_row_from, parse_rows_from, parse_side_from,
    piece_of_glyph, row_text, row_text_from, run_text, spec_parse_board, spec_parse_captured,
    spec_parse_color, spec_parse_fen, spec_parse_side, CapturedPieceInfo, FenError, FenPiece,
    FenStateView,
};
use crate::text::{digit_char, digit_value, fields, fields_from, is_digit, is_space, split_from, split_on};
use crate::types::{Color, PieceType, Position};

verus! {

/// Splitting runs through a stretch without separators by gathering it.
pub proof fn lemma_split_stretch(s: Seq<char>, sep: char, i: int, j: int, cur: Seq<char>)
    requires
        0 <= i <= j <= s.len(),
        forall|k: int| i <= k < j ==> s[k] != sep,
    ensures
        split_from(s, sep, i, cur) == split_from(s, sep, j, cur + s.subrange(i, j)),
    decreases j - i,
{
    if i < j {
        lemma_split_stretch(s, sep, i + 1, j, cur.push(s[i]));
        assert(cur.push(s[i]) + s.subrange(i + 1, j) =~= cur + s.subrange(i, j));
    } else {
        assert(cur + s.subrange(i, j) =~= cur);
    }
}

/// Taking fields runs through a stretch without white space by gathering
/// it.
pub proof fn lemma_fields_stretch(s: Seq<char>, i: int, j: int, cur: Seq<char>)
    requires
        0 <= i <= j <= s.len(),
        forall|k: int| i <= k < j ==> !is_space(s[k]),
    ensures
        fields_from(s, i, cur) == fields_from(s, j, cur + s.subrange(i, j)),
    decreases j - i,
{
    if i < j {
        lemma_fields_stretch(s, i + 1, j, cur.push(s[i]));
        assert(cur.push(s[i]) + s.subrange(i + 1, j) =~= cur + s.subrange(i, j));
    } else {
        assert(cur + s.subrange(i, j) =~= cur);
    }
}

/// The digit of a number below ten is a digit and stands for the number.
pub proof fn lemma_digit_char(n: int)
    requires
        0 <= n <= 9,
    ensures
        is_digit(digit_char(n)),
        digit_value(digit_char(n)) == n,
        !is_space(digit_char(n)),
        digit_char(n) != '/',
{
    let b = (n + 48) as u8;
    assert(b as char as u32 == b as u32);
}

/// Whether a piece is as a FEN can show it: on the board, and with a
/// kind exactly if it is face-up.
pub open spec fn tidy(fp: FenPiece) -> bool {
    fp.position.is_valid() && (fp.is_hidden <==> fp.piece_type is None)
}

/// Whether the squares are as a FEN can show them: ninety of them, each
/// piece tidy and on the square that it names.
pub open spec fn clean(grid: Seq<Option<FenPiece>>) -> bool {
    &&& grid.len() == 90
    &&& forall|i: int|
        0 <= i < 90 ==> (#[trigger] grid[i] matches Some(fp) ==> tidy(fp) && fp.position
            == Position::spec_from_index(i))
}

/// Whether `c` can stand in a board field for a piece or a run of empty
/// squares.
pub open spec fn board_char(c: char) -> bool {
    is_digit(c) || c == 'X' || c == 'x' || PieceType::spec_from_fen_char(c) is Some
}

/// A tidy piece is shown by one character, which reads back as the
/// piece.
pub proof fn lemma_glyph_reads_back(fp: FenPiece)
    requires
        tidy(fp),
    ensures
        glyph(fp).len() == 1,
        !is_digit(glyph(fp)[0]),
        board_char(glyph(fp)[0]),
        piece_of_glyph(glyph(fp)[0], fp.position) == Some(fp),
{
    if !fp.is_hidden {
        let t = fp.piece_type->0;
        match t {
            PieceType::King => {},
            PieceType::Advisor => {},
            PieceType::Elephant => {},
            PieceType::Horse => {},
            PieceType::Rook => {},
            PieceType::Cannon => {},
            PieceType::Pawn => {},
        }
    }
}

/// The pieces of row `row` of `grid` from column `col` on, in the order
/// of the columns.
pub open spec fn row_pieces_from(grid: Seq<Option<FenPiece>>, row: int, col: int) -> Seq<FenPiece>
    decreases 9 - col,
{
    if col < 0 || col >= 9 {
        Seq::empty()
    } else {
        match grid[row * 9 + col] {
            Some(fp) => seq![fp] + row_pieces_from(grid, row, col + 1),
            None => row_pieces_from(grid, row, col + 1),
        }
    }
}

/// The text of a row holds board characters only.
pub proof fn lemma_row_text_chars(grid: Seq<Option<FenPiece>>, row: int, col: int, pending: int)
    requires
        clean(grid),
        0 <= row < 10,
        0 <= pending <= col <= 9,
    ensures
        forall|k: int|
            0 <= k < row_text_from(grid, row, col, pending).len() ==> board_char(
                #[trigger] row_text_from(grid, row, col, pending)[k],
            ),
    decreases 9 - col,
{
    let text = row_text_from(grid, row, col, pending);
    lemma_digit_char(pending);
    if col >= 9 {
        if pending > 0 {
            assert(text == seq![digit_char(pending)]);
            assert(text[0] == digit_char(pending));
        }
    } else {
        match grid[row * 9 + col] {
            None => {
                lemma_row_text_chars(grid, row, col + 1, pending + 1);
                assert(text == row_text_from(grid, row, col + 1, pending + 1));
            },
            Some(fp) => {
                lemma_row_text_chars(grid, row, col + 1, 0);
                lemma_glyph_reads_back(fp);
                let rest = row_text_from(grid, row, col + 1, 0);
                assert(text == run_text(pending) + glyph(fp) + rest);
                assert forall|k: int| 0 <= k < text.len() implies board_char(
                    #[trigger] text[k],
                ) by {
                    let head = run_text(pending) + glyph(fp);
                    if k < run_text(pending).len() {
                        assert(text[k] == digit_char(pending));
                    } else if k < head.len() {
                        assert(text[k] == glyph(fp)[0]);
                    } else {
                        assert(text[k] == rest[k - head.len()]);
                    }
                }
            },
        }
    }
}

/// Reading the text of a row gives the pieces of the row. The text is
/// read inside a longer text `s` from index `i`, where it ends the text
/// or a character that is no board character follows it; the run of
/// empty squares that is still to be written has not been read.
#[verifier::rlimit(30)]
pub proof fn lemma_row_reads_back(
    grid: Seq<Option<FenPiece>>,
    row: int,
    col: int,
    pending: int,
    s: Seq<char>,
    i: int,
    acc: Seq<FenPiece>,
)
    requires
        clean(grid),
        0 <= row < 10,
        0 <= pending <= col <= 9,
        0 <= i <= s.len(),
        s.skip(i) == row_text_from(grid, row, col, pending),
    ensures
        parse_row_from(s, row as i8, i, col - pending, acc) == Ok::<Seq<FenPiece>, FenError>(
            acc + row_pieces_from(grid, row, col),
        ),
    decreases 9 - col,
{
    lemma_index_bijection();
    lemma_digit_char(pending);
    let text = row_text_from(grid, row, col, pending);
    if col >= 9 {
        if pending > 0 {
            assert(text == seq![digit_char(pending)]);
            assert(s.skip(i)[0] == digit_char(pending));
            assert(s[i] == digit_char(pending));
            assert(is_digit(s[i]) && digit_value(s[i]) == pending);
            assert(s.skip(i).len() == 1);
            assert(i + 1 == s.len());
            assert(acc + row_pieces_from(grid, row, col) =~= acc);
            assert(parse_row_from(s, row as i8, i + 1, 9, acc) == Ok::<Seq<FenPiece>, FenError>(
                acc,
            ));
            assert(parse_row_from(s, row as i8, i, col - pending, acc) == parse_row_from(
                s,
                row as i8,
                i + 1,
                9,
                acc,
            ));
        } else {
            assert(text.len() == 0);
            assert(s.skip(i).len() == 0);
            assert(acc + row_pieces_from(grid, row, col) =~= acc);
        }
    } else {
        match grid[row * 9 + col] {
            None => {
                lemma_row_reads_back(grid, row, col + 1, pending + 1, s, i, acc);
            },
            Some(fp) => {
                lemma_glyph_reads_back(fp);
                let rest = row_text_from(grid, row, col + 1, 0);
                assert(text == run_text(pending) + glyph(fp) + rest);
                assert(fp.position == Position::spec_from_index(row * 9 + col));
                assert(fp.position == Position { row: row as i8, col: col as i8 });
                let j = if pending > 0 {
                    i + 1
                } else {
                    i
                };
                if pending > 0 {
                    assert(s.skip(i)[0] == digit_char(pending));
                    assert(s[i] == digit_char(pending));
                    assert(is_digit(s[i]) && digit_value(s[i]) == pending);
                    assert(parse_row_from(s, row as i8, i, col - pending, acc) == parse_row_from(
                        s,
                        row as i8,
                        j,
                        col,
                        acc,
                    ));
                }
                assert(text[j - i] == glyph(fp)[0]);
                assert(s.skip(i)[j - i] == glyph(fp)[0]);
                assert(s[j] == glyph(fp)[0]);
                assert(j < s.len());
                assert(parse_row_from(s, row as i8, j, col, acc) == parse_row_from(
                    s,
                    row as i8,
                    j + 1,
                    col + 1,
                    acc.push(fp),
                ));
                assert(s.skip(j + 1) =~= rest) by {
                    assert(s.skip(j + 1) =~= s.skip(i).skip(j + 1 - i));
                    assert(text.skip(j + 1 - i) =~= rest);
                }
                lemma_row_reads_back(grid, row, col + 1, 0, s, j + 1, acc.push(fp));
                assert(acc.push(fp) + row_pieces_from(grid, row, col + 1) =~= acc + (seq![fp]
                    + row_pieces_from(grid, row, col + 1)));
            },
        }
    }
}

/// The texts of the rows from `r` down to 0, one after the other.
pub open spec fn rows_from(grid: Seq<Option<FenPiece>>, r: int) -> Seq<Seq<char>>
    decreases r + 1,
{
    if r < 0 {
        Seq::empty()
    } else {
        seq![row_text(grid, r)] + rows_from(grid, r - 1)
    }
}

/// The pieces of the rows from `r` down to 0, each row from column 0.
pub open spec fn pieces_from(grid: Seq<Option<FenPiece>>, r: int) -> Seq<FenPiece>
    decreases r + 1,
{
    if r < 0 {
        Seq::empty()
    } else {
        row_pieces_from(grid, r, 0) + pieces_from(grid, r - 1)
    }
}

/// The pieces on `grid` in the order in which a FEN shows them.
pub open spec fn shown_pieces(grid: Seq<Option<FenPiece>>) -> Seq<FenPiece> {
    pieces_from(grid, 9)
}

/// The board text from row `r` down, found inside a longer text from
/// index `i` to its end, splits at `/` into the texts of the rows.
#[verifier::rlimit(30)]
pub proof fn lemma_board_splits(grid: Seq<Option<FenPiece>>, r: int, s: Seq<char>, i: int)
    requires
        clean(grid),
        0 <= r <= 9,
        0 <= i <= s.len(),
        s.skip(i) == board_text_from(grid, r),
    ensures
        split_from(s, '/', i, Seq::empty()) == rows_from(grid, r),
    decreases r,
{
    let row = row_text(grid, r);
    lemma_row_text_chars(grid, r, 0, 0);
    let j = i + row.len();
    let text = board_text_from(grid, r);
    if r == 0 {
        assert(text == row);
        assert(j == s.len());
        assert forall|k: int| i <= k < j implies s[k] != '/' by {
            assert(s[k] == s.skip(i)[k - i]);
            assert(board_char(row[k - i]));
        }
        lemma_split_stretch(s, '/', i, j, Seq::empty());
        assert(Seq::<char>::empty() + s.subrange(i, j) =~= row);
        assert(rows_from(grid, 0) =~= seq![row]) by {
            assert(rows_from(grid, -1) =~= Seq::<Seq<char>>::empty());
        }
    } else {
        let rest = board_text_from(grid, r - 1);
        assert(text == row + seq!['/'] + rest);
        assert forall|k: int| i <= k < j implies s[k] != '/' by {
            assert(s[k] == s.skip(i)[k - i]);
            assert(text[k - i] == row[k - i]);
            assert(board_char(row[k - i]));
        }
        lemma_split_stretch(s, '/', i, j, Seq::empty());
        assert(s.subrange(i, j) =~= row) by {
            assert forall|k: int| 0 <= k < row.len() implies s.subrange(i, j)[k] == row[k] by {
                assert(s[i + k] == s.skip(i)[k]);
                assert(text[k] == row[k]);
            }
        }
        assert(Seq::<char>::empty() + s.subrange(i, j) =~= row);
        assert(s[j] == '/') by {
            assert(s[j] == s.skip(i)[j - i]);
            assert(text[row.len() as int] == '/');
        }
        assert(s.skip(j + 1) =~= rest) by {
            assert(s.skip(j + 1) =~= s.skip(i).skip(j + 1 - i));
            assert(text.skip(row.len() as int + 1) =~= rest);
        }
        lemma_board_splits(grid, r - 1, s, j + 1);
    }
}

proof fn lemma_rows_index(grid: Seq<Option<FenPiece>>, r: int, k: int)
    requires
        0 <= k <= r,
    ensures
        rows_from(grid, r).len() == r + 1,
        rows_from(grid, r)[k] == row_text(grid, r - k),
    decreases r,
{
    if r > 0 {
        if k > 0 {
            lemma_rows_index(grid, r - 1, k - 1);
        } else {
            lemma_rows_index(grid, r - 1, 0);
        }
    } else {
        assert(rows_from(grid, -1) =~= Seq::<Seq<char>>::empty());
    }
}

/// Reading the row texts from the one with index `k` on gives the pieces
/// of the rows from `9 - k` down.
pub proof fn lemma_rows_read_back(grid: Seq<Option<FenPiece>>, k: int, acc: Seq<FenPiece>)
    requires
        clean(grid),
        0 <= k <= 10,
    ensures
        parse_rows_from(rows_from(grid, 9), k, acc) == Ok::<Seq<FenPiece>, FenError>(
            acc + pieces_from(grid, 9 - k),
        ),
    decreases 10 - k,
{
    if k >= 10 {
        assert(acc + pieces_from(grid, -1) =~= acc);
    } else {
        lemma_rows_index(grid, 9, k);
        let text = row_text(grid, 9 - k);
        assert(text.skip(0) =~= text);
        lemma_row_reads_back(grid, 9 - k, 0, 0, text, 0, acc);
        let more = acc + row_pieces_from(grid, 9 - k, 0);
        lemma_rows_read_back(grid, k + 1, more);
        assert(more + pieces_from(grid, 9 - k - 1) =~= acc + pieces_from(grid, 9 - k));
    }
}

/// The board text of clean squares reads back as the pieces on them.
pub proof fn lemma_board_reads_back(grid: Seq<Option<FenPiece>>)
    requires
        clean(grid),
    ensures
        spec_parse_board(board_text(grid)) == Ok::<Seq<FenPiece>, FenError>(shown_pieces(grid)),
{
    let text = board_text(grid);
    assert(text.skip(0) =~= text);
    lemma_board_splits(grid, 9, text, 0);
    lemma_rows_index(grid, 9, 0);
    lemma_rows_read_back(grid, 0, Seq::empty());
    assert(Seq::<FenPiece>::empty() + pieces_from(grid, 9) =~= pieces_from(grid, 9));
}

/// Whether `list` holds only pieces that stand on `grid` where they say.
pub open spec fn on_grid(list: Seq<FenPiece>, grid: Seq<Option<FenPiece>>) -> bool {
    forall|k: int|
        0 <= k < list.len() ==> (#[trigger] list[k]).position.is_valid() && grid[list[k].position.spec_to_index()]
            == Some(list[k])
}

/// Whether `list` holds the piece on square number `i` of `grid`, if
/// there is one.
pub open spec fn covers(list: Seq<FenPiece>, grid: Seq<Option<FenPiece>>, i: int) -> bool {
    grid[i] matches Some(fp) ==> list.contains(fp)
}

proof fn lemma_row_pieces(grid: Seq<Option<FenPiece>>, row: int, col: int)
    requires
        clean(grid),
        0 <= row < 10,
        0 <= col <= 9,
    ensures
        on_grid(row_pieces_from(grid, row, col), grid),
        forall|i: int|
            row * 9 + col <= i < row * 9 + 9 ==> #[trigger] covers(
                row_pieces_from(grid, row, col),
                grid,
                i,
            ),
    decreases 9 - col,
{
    lemma_index_bijection();
    let list = row_pieces_from(grid, row, col);
    if col < 9 {
        lemma_row_pieces(grid, row, col + 1);
        let rest = row_pieces_from(grid, row, col + 1);
        match grid[row * 9 + col] {
            Some(fp) => {
                assert(list == seq![fp] + rest);
                assert(fp.position == Position::spec_from_index(row * 9 + col));
                assert forall|k: int| 0 <= k < list.len() implies (
                #[trigger] list[k]).position.is_valid() && grid[list[k].position.spec_to_index()]
                    == Some(list[k]) by {
                    if k > 0 {
                        assert(list[k] == rest[k - 1]);
                    }
                }
                assert forall|i: int| row * 9 + col <= i < row * 9 + 9 implies #[trigger] covers(
                    list,
                    grid,
                    i,
                ) by {
                    if i == row * 9 + col {
                        assert(list[0] == fp);
                    } else if grid[i] is Some {
                        let x = grid[i]->0;
                        assert(covers(rest, grid, i));
                        let k = choose|k: int| 0 <= k < rest.len() && rest[k] == x;
                        assert(list[k + 1] == x);
                    }
                }
            },
            None => {
                assert forall|i: int| row * 9 + col <= i < row * 9 + 9 implies #[trigger] covers(
                    list,
                    grid,
                    i,
                ) by {
                    if i > row * 9 + col {
                        assert(covers(rest, grid, i));
                    }
                }
            },
        }
    }
}

proof fn lemma_all_pieces(grid: Seq<Option<FenPiece>>, r: int)
    requires
        clean(grid),
        -1 <= r <= 9,
    ensures
        on_grid(pieces_from(grid, r), grid),
        forall|i: int| 0 <= i < (r + 1) * 9 ==> #[trigger] covers(pieces_from(grid, r), grid, i),
    decreases r + 1,
{
    if r >= 0 {
        lemma_all_pieces(grid, r - 1);
        lemma_row_pieces(grid, r, 0);
        let row = row_pieces_from(grid, r, 0);
        let rest = pieces_from(grid, r - 1);
        let list = pieces_from(grid, r);
        assert(list == row + rest);
        assert forall|k: int| 0 <= k < list.len() implies (#[trigger] list[k]).position.is_valid()
            && grid[list[k].position.spec_to_index()] == Some(list[k]) by {
            if k < row.len() {
                assert(list[k] == row[k]);
            } else {
                assert(list[k] == rest[k - row.len()]);
            }
        }
        assert forall|i: int| 0 <= i < (r + 1) * 9 implies #[trigger] covers(list, grid, i) by {
            if grid[i] is Some {
                let x = grid[i]->0;
                if i >= r * 9 {
                    assert(covers(row, grid, i));
                    let k = choose|k: int| 0 <= k < row.len() && row[k] == x;
                    assert(list[k] == x);
                } else {
                    assert(covers(rest, grid, i));
                    let k = choose|k: int| 0 <= k < rest.len() && rest[k] == x;
                    assert(list[k + row.len()] == x);
                }
            }
        }
    }
}

/// Putting pieces that stand on clean squares back on empty squares
/// gives, on each square, the piece that stands there if it is among the
/// pieces put back.
proof fn lemma_grid_rebuilt(list: Seq<FenPiece>, grid: Seq<Option<FenPiece>>, n: int)
    requires
        clean(grid),
        on_grid(list, grid),
        0 <= n <= list.len(),
    ensures
        grid_from(list, n).len() == 90,
        forall|i: int|
            0 <= i < 90 ==> #[trigger] grid_from(list, n)[i] == (if exists|k: int|
                0 <= k < n && list[k].position.spec_to_index() == i {
                grid[i]
            } else {
                None
            }),
    decreases n,
{
    lemma_index_bijection();
    if n > 0 {
        lemma_grid_rebuilt(list, grid, n - 1);
        let fp = list[n - 1];
        let at = fp.position.spec_to_index();
        assert forall|i: int| 0 <= i < 90 implies #[trigger] grid_from(list, n)[i] == (if exists|
            k: int,
        |
            0 <= k < n && list[k].position.spec_to_index() == i {
            grid[i]
        } else {
            None
        }) by {
            if i == at {
                assert(list[n - 1].position.spec_to_index() == i);
            } else {
                if exists|k: int| 0 <= k < n && list[k].position.spec_to_index() == i {
                    let k = choose|k: int| 0 <= k < n && list[k].position.spec_to_index() == i;
                    assert(k < n - 1);
                }
            }
        }
    }
}

/// The pieces that a FEN shows of clean squares, put on a board, give
/// the squares back.
pub proof fn lemma_shown_pieces_rebuild(grid: Seq<Option<FenPiece>>)
    requires
        clean(grid),
    ensures
        grid_of(shown_pieces(grid)) == grid,
{
    lemma_index_bijection();
    let list = shown_pieces(grid);
    lemma_all_pieces(grid, 9);
    lemma_grid_rebuilt(list, grid, list.len() as int);
    let built = grid_of(list);
    assert forall|i: int| 0 <= i < 90 implies built[i] == grid[i] by {
        if grid[i] is Some {
            let x = grid[i]->0;
            assert(covers(list, grid, i));
            let k = choose|k: int| 0 <= k < list.len() && list[k] == x;
            assert(x.position == Position::spec_from_index(i));
            assert(list[k].position.spec_to_index() == i);
        } else {
            if exists|k: int| 0 <= k < list.len() && list[k].position.spec_to_index() == i {
                let k = choose|k: int| 0 <= k < list.len() && list[k].position.spec_to_index() == i;
                assert(grid[list[k].position.spec_to_index()] == Some(list[k]));
            }
        }
    }
    assert(built =~= grid);
}

/// Whether a record of a captured piece is as a FEN can show it: a piece
/// of unknown kind was face-down when it was captured.
pub open spec fn plain(c: CapturedPieceInfo) -> bool {
    c.piece_type is None ==> c.was_hidden
}

/// Whether every record of `list` is plain.
pub open spec fn all_plain(list: Seq<CapturedPieceInfo>) -> bool {
    forall|k: int| 0 <= k < list.len() ==> plain(#[trigger] list[k])
}

/// The character of a plain record is neither white space nor one of the
/// marks of the captured field, and reads back as the record.
pub proof fn lemma_captured_glyph(c: CapturedPieceInfo)
    requires
        plain(c),
    ensures
        !is_space(captured_glyph(c)),
        captured_glyph(c) != ':',
        captured_glyph(c) != '-',
        captured_of_glyph(captured_glyph(c)) == Some(c),
{
    match c.piece_type {
        Some(t) => {
            match t {
                PieceType::King => {},
                PieceType::Advisor => {},
                PieceType::Elephant => {},
                PieceType::Horse => {},
                PieceType::Rook => {},
                PieceType::Cannon => {},
                PieceType::Pawn => {},
            }
        },
        None => {},
    }
}

proof fn lemma_side_reads_from(list: Seq<CapturedPieceInfo>, i: int, acc: Seq<CapturedPieceInfo>)
    requires
        all_plain(list),
        0 <= i <= list.len(),
        list.len() > 0,
        acc == list.take(i),
    ensures
        parse_side_from(captured_text(list), i, acc) == Ok::<Seq<CapturedPieceInfo>, FenError>(
            list,
        ),
    decreases list.len() - i,
{
    let text = captured_text(list);
    if i < list.len() {
        lemma_captured_glyph(list[i]);
        assert(text[i] == captured_glyph(list[i]));
        assert(acc.push(list[i]) =~= list.take(i + 1));
        lemma_side_reads_from(list, i + 1, acc.push(list[i]));
    } else {
        assert(list.take(i) =~= list);
    }
}

/// The text of plain records of captured pieces reads back as the
/// records.
pub proof fn lemma_side_reads_back(list: Seq<CapturedPieceInfo>)
    requires
        all_plain(list),
    ensures
        spec_parse_side(captured_text(list)) == Ok::<Seq<CapturedPieceInfo>, FenError>(list),
        captured_text(list).len() > 0,
        forall|k: int|
            0 <= k < captured_text(list).len() ==> !is_space(#[trigger] captured_text(list)[k])
                && captured_text(list)[k] != ':',
{
    let text = captured_text(list);
    if list.len() == 0 {
        assert(text == seq!['-']);
        assert(text[0] == '-');
        assert(list =~= Seq::<CapturedPieceInfo>::empty());
    } else {
        lemma_captured_glyph(list[0]);
        assert(text[0] == captured_glyph(list[0]));
        assert(text != seq!['-']) by {
            if text == seq!['-'] {
                assert(seq!['-'][0] == '-');
            }
        }
        assert(list.take(0) =~= Seq::<CapturedPieceInfo>::empty());
        lemma_side_reads_from(list, 0, Seq::empty());
        assert forall|k: int| 0 <= k < text.len() implies !is_space(#[trigger] text[k]) && text[k]
            != ':' by {
            lemma_captured_glyph(list[k]);
        }
    }
}

/// The captured field that is written for two lists of plain records
/// reads back as the records.
pub proof fn lemma_captured_reads_back(red: Seq<CapturedPieceInfo>, black: Seq<CapturedPieceInfo>)
    requires
        all_plain(red),
        all_plain(black),
    ensures
        spec_parse_captured(captured_text(red) + seq![':'] + captured_text(black)) == Ok::<
            (Seq<CapturedPieceInfo>, Seq<CapturedPieceInfo>),
            FenError,
        >((red, black)),
{
    let a = captured_text(red);
    let b = captured_text(black);
    let s = a + seq![':'] + b;
    lemma_side_reads_back(red);
    lemma_side_reads_back(black);
    let j = a.len() as int;
    assert forall|k: int| 0 <= k < j implies s[k] != ':' by {
        assert(s[k] == a[k]);
    }
    lemma_split_stretch(s, ':', 0, j, Seq::empty());
    assert(Seq::<char>::empty() + s.subrange(0, j) =~= a);
    assert(s[j] == ':');
    assert forall|k: int| j + 1 <= k < s.len() implies s[k] != ':' by {
        assert(s[k] == b[k - j - 1]);
    }
    lemma_split_stretch(s, ':', j + 1, s.len() as int, Seq::empty());
    assert(Seq::<char>::empty() + s.subrange(j + 1, s.len() as int) =~= b);
    let parts = split_on(s, ':');
    assert(parts =~= seq![a, b]) by {
        assert(split_from(s, ':', j + 1, Seq::empty()) == seq![b]);
        assert(split_from(s, ':', 0, Seq::empty()) == seq![a] + seq![b]);
    }
    assert(parts.len() == 2 && parts[0] == a && parts[1] == b);
}

/// The four fields that are taken of a text made of two stretches
/// without white space and two further characters, with one blank
/// between each two of them.
proof fn lemma_four_fields(a: Seq<char>, b: Seq<char>, t: char, v: char)
    requires
        a.len() > 0,
        b.len() > 0,
        forall|k: int| 0 <= k < a.len() ==> !is_space(#[trigger] a[k]),
        forall|k: int| 0 <= k < b.len() ==> !is_space(#[trigger] b[k]),
        !is_space(t),
        !is_space(v),
    ensures
        fields(a + seq![' '] + b + seq![' ', t, ' ', v]) == seq![a, b, seq![t], seq![v]],
{
    let s = a + seq![' '] + b + seq![' ', t, ' ', v];
    let n = a.len() as int;
    let m = b.len() as int;
    assert(is_space(' '));
    assert forall|k: int| 0 <= k < n implies !is_space(s[k]) by {
        assert(s[k] == a[k]);
    }
    lemma_fields_stretch(s, 0, n, Seq::empty());
    assert(Seq::<char>::empty() + s.subrange(0, n) =~= a);
    assert(s[n] == ' ');
    assert forall|k: int| n + 1 <= k < n + 1 + m implies !is_space(s[k]) by {
        assert(s[k] == b[k - n - 1]);
    }
    lemma_fields_stretch(s, n + 1, n + 1 + m, Seq::empty());
    assert(Seq::<char>::empty() + s.subrange(n + 1, n + 1 + m) =~= b);
    let e = n + 1 + m;
    assert(s[e] == ' ' && s[e + 1] == t && s[e + 2] == ' ' && s[e + 3] == v);
    assert(s.len() == e + 4);
    let empty = Seq::<char>::empty();
    assert(fields_from(s, e + 4, seq![v]) == seq![seq![v]]);
    assert(empty.push(v) =~= seq![v]);
    assert(fields_from(s, e + 3, empty) == seq![seq![v]]);
    assert(empty.push(t) =~= seq![t]);
    assert(fields_from(s, e + 2, seq![t]) == seq![seq![t]] + seq![seq![v]]);
    assert(fields_from(s, e + 1, empty) == seq![seq![t]] + seq![seq![v]]);
    assert(fields_from(s, e, b) == seq![b] + (seq![seq![t]] + seq![seq![v]]));
    assert(fields_from(s, n + 1, empty) == seq![b] + (seq![seq![t]] + seq![seq![v]]));
    assert(fields_from(s, n, a) == seq![a] + (seq![b] + (seq![seq![t]] + seq![seq![v]])));
    assert(fields(s) =~= seq![a, b, seq![t], seq![v]]);
}

/// The board text holds no white space and is not empty.
proof fn lemma_board_text_chars(grid: Seq<Option<FenPiece>>, r: int)
    requires
        clean(grid),
        0 <= r <= 9,
    ensures
        board_text_from(grid, r).len() > 0,
        forall|k: int|
            0 <= k < board_text_from(grid, r).len() ==> !is_space(
                #[trigger] board_text_from(grid, r)[k],
            ),
    decreases r,
{
    let row = row_text(grid, r);
    let text = board_text_from(grid, r);
    lemma_row_text_chars(grid, r, 0, 0);
    lemma_row_not_empty(grid, r, 0, 0);
    if r == 0 {
        assert forall|k: int| 0 <= k < text.len() implies !is_space(#[trigger] text[k]) by {
            assert(board_char(row[k]));
        }
    } else {
        lemma_board_text_chars(grid, r - 1);
        let rest = board_text_from(grid, r - 1);
        assert(text == row + seq!['/'] + rest);
        assert forall|k: int| 0 <= k < text.len() implies !is_space(#[trigger] text[k]) by {
            if k < row.len() {
                assert(text[k] == row[k]);
                assert(board_char(row[k]));
            } else if k == row.len() {
                assert(text[k] == '/');
            } else {
                assert(text[k] == rest[k - row.len() - 1]);
            }
        }
    }
}

proof fn lemma_row_not_empty(grid: Seq<Option<FenPiece>>, row: int, col: int, pending: int)
    requires
        clean(grid),
        0 <= row < 10,
        0 <= pending <= col <= 9,
        col < 9 || pending > 0,
    ensures
        row_text_from(grid, row, col, pending).len() > 0,
    decreases 9 - col,
{
    if col < 9 {
        match grid[row * 9 + col] {
            None => {
                lemma_row_not_empty(grid, row, col + 1, pending + 1);
            },
            Some(fp) => {
                lemma_glyph_reads_back(fp);
            },
        }
    }
}

/// What is read back from the FEN of clean squares with the given
/// captured pieces, side to move and viewer.
pub open spec fn read_back(
    grid: Seq<Option<FenPiece>>,
    red: Seq<CapturedPieceInfo>,
    black: Seq<CapturedPieceInfo>,
    turn: Color,
    viewer: Color,
) -> FenStateView {
    FenStateView {
        pieces: shown_pieces(grid),
        red_captured: red,
        black_captured: black,
        turn,
        viewer,
    }
}

/// Reading inverts writing. The FEN that is written for clean squares and
/// plain records of captured pieces reads back as the pieces on the
/// squares in the order in which the FEN shows them, the records, the
/// side to move and the viewer; and what is read is written as the same
/// text again.
pub proof fn lemma_fen_reads_back(
    grid: Seq<Option<FenPiece>>,
    red: Seq<CapturedPieceInfo>,
    black: Seq<CapturedPieceInfo>,
    turn: Color,
    viewer: Color,
)
    requires
        clean(grid),
        all_plain(red),
        all_plain(black),
    ensures
        spec_parse_fen(fen_text(grid, red, black, turn, viewer)) == Ok::<FenStateView, FenError>(
            read_back(grid, red, black, turn, viewer),
        ),
        read_back(grid, red, black, turn, viewer).text() == fen_text(
            grid,
            red,
            black,
            turn,
            viewer,
        ),
{
    let a = board_text(grid);
    let cr = captured_text(red);
    let cb = captured_text(black);
    let b = cr + seq![':'] + cb;
    let t = turn.spec_to_fen_char();
    let v = viewer.spec_to_fen_char();
    let s = fen_text(grid, red, black, turn, viewer);
    assert(s =~= a + seq![' '] + b + seq![' ', t, ' ', v]);
    lemma_board_text_chars(grid, 9);
    lemma_side_reads_back(red);
    lemma_side_reads_back(black);
    assert forall|k: int| 0 <= k < b.len() implies !is_space(#[trigger] b[k]) by {
        if k < cr.len() {
            assert(b[k] == cr[k]);
        } else if k == cr.len() {
            assert(b[k] == ':');
        } else {
            assert(b[k] == cb[k - cr.len() - 1]);
        }
    }
    lemma_four_fields(a, b, t, v);
    lemma_board_reads_back(grid);
    lemma_captured_reads_back(red, black);
    assert(seq![t].len() == 1 && seq![t][0] == t);
    assert(seq![v].len() == 1 && seq![v][0] == v);
    assert(spec_parse_color(seq![t]) == Some(turn));
    assert(spec_parse_color(seq![v]) == Some(viewer));
    let f = fields(s);
    assert(f.len() == 4 && f[0] == a && f[1] == b && f[2] == seq![t] && f[3] == seq![v]);
    lemma_shown_pieces_rebuild(grid);
}

/// Whether every piece of `list` is tidy.
pub open spec fn all_tidy(list: Seq<FenPiece>) -> bool {
    forall|k: int| 0 <= k < list.len() ==> tidy(#[trigger] list[k])
}

proof fn lemma_row_read_tidy(s: Seq<char>, row: int, i: int, col: int, acc: Seq<FenPiece>)
    requires
        0 <= row <= 9,
        0 <= col,
        0 <= i,
        all_tidy(acc),
        parse_row_from(s, row as i8, i, col, acc) is Ok,
    ensures
        all_tidy(parse_row_from(s, row as i8, i, col, acc)->Ok_0),
    decreases s.len() - i,
{
    if i < s.len() && col < 9 {
        if is_digit(s[i]) {
            lemma_row_read_tidy(s, row, i + 1, col + digit_value(s[i]), acc);
        } else {
            let fp = piece_of_glyph(s[i], Position { row: row as i8, col: col as i8 })->0;
            assert(tidy(fp));
            let more = acc.push(fp);
            assert forall|k: int| 0 <= k < more.len() implies tidy(#[trigger] more[k]) by {
                if k < acc.len() {
                    assert(more[k] == acc[k]);
                }
            }
            lemma_row_read_tidy(s, row, i + 1, col + 1, more);
        }
    }
}

proof fn lemma_rows_read_tidy(rows: Seq<Seq<char>>, r: int, acc: Seq<FenPiece>)
    requires
        0 <= r <= 10,
        all_tidy(acc),
        parse_rows_from(rows, r, acc) is Ok,
    ensures
        all_tidy(parse_rows_from(rows, r, acc)->Ok_0),
    decreases 10 - r,
{
    if r < 10 {
        lemma_row_read_tidy(rows[r], 9 - r, 0, 0, acc);
        lemma_rows_read_tidy(rows, r + 1, parse_row_from(rows[r], (9 - r) as i8, 0, 0, acc)->Ok_0);
    }
}

/// Tidy pieces put on empty squares give clean squares.
pub proof fn lemma_tidy_pieces_clean(list: Seq<FenPiece>, n: int)
    requires
        all_tidy(list),
        0 <= n <= list.len(),
    ensures
        clean(grid_from(list, n)),
    decreases n,
{
    lemma_index_bijection();
    if n > 0 {
        lemma_tidy_pieces_clean(list, n - 1);
        assert(tidy(list[n - 1]));
    }
}

/// The records that are read from the text of one side are plain.
proof fn lemma_side_read_plain(s: Seq<char>, i: int, acc: Seq<CapturedPieceInfo>)
    requires
        0 <= i,
        all_plain(acc),
        parse_side_from(s, i, acc) is Ok,
    ensures
        all_plain(parse_side_from(s, i, acc)->Ok_0),
    decreases s.len() - i,
{
    if i < s.len() {
        let c = captured_of_glyph(s[i])->0;
        let more = acc.push(c);
        assert forall|k: int| 0 <= k < more.len() implies plain(#[trigger] more[k]) by {
            if k < acc.len() {
                assert(more[k] == acc[k]);
            }
        }
        lemma_side_read_plain(s, i + 1, more);
    }
}

/// What is read from a FEN is as a FEN can show it: the pieces are tidy
/// and the records of captured pieces plain.
pub proof fn lemma_read_state_tidy(s: Seq<char>)
    requires
        spec_parse_fen(s) is Ok,
    ensures
        all_tidy(spec_parse_fen(s)->Ok_0.pieces),
        clean(grid_of(spec_parse_fen(s)->Ok_0.pieces)),
        all_plain(spec_parse_fen(s)->Ok_0.red_captured),
        all_plain(spec_parse_fen(s)->Ok_0.black_captured),
{
    let state = spec_parse_fen(s)->Ok_0;
    let f = fields(s);
    let rows = split_on(f[0], '/');
    assert(spec_parse_board(f[0]) == Ok::<Seq<FenPiece>, FenError>(state.pieces));
    lemma_rows_read_tidy(rows, 0, Seq::empty());
    lemma_tidy_pieces_clean(state.pieces, state.pieces.len() as int);
    let parts = split_on(f[1], ':');
    assert(spec_parse_side(parts[0]) == Ok::<Seq<CapturedPieceInfo>, FenError>(
        state.red_captured,
    ));
    assert(spec_parse_side(parts[1]) == Ok::<Seq<CapturedPieceInfo>, FenError>(
        state.black_captured,
    ));
    if parts[0] != seq!['-'] {
        lemma_side_read_plain(parts[0], 0, Seq::empty());
    }
    if parts[1] != seq!['-'] {
        lemma_side_read_plain(parts[1], 0, Seq::empty());
    }
}

/// The place of a piece in the order in which a FEN shows the pieces:
/// row 9 first, each row from column 0.
pub open spec fn place(fp: FenPiece) -> int {
    (9 - fp.position.row) * 9 + fp.position.col
}

/// Whether `list` holds its pieces in the order in which a FEN shows
/// them, no two on one square.
pub open spec fn in_order(list: Seq<FenPiece>) -> bool {
    forall|j: int, k: int| 0 <= j < k < list.len() ==> place(list[j]) < place(list[k])
}

/// Whether every piece of `list` comes before place `limit`.
pub open spec fn all_before(list: Seq<FenPiece>, limit: int) -> bool {
    forall|k: int| 0 <= k < list.len() ==> place(#[trigger] list[k]) < limit
}

proof fn lemma_row_read_order(s: Seq<char>, row: int, i: int, col: int, acc: Seq<FenPiece>)
    requires
        0 <= row <= 9,
        0 <= col,
        0 <= i,
        in_order(acc),
        all_before(acc, (9 - row) * 9 + col),
        parse_row_from(s, row as i8, i, col, acc) is Ok,
    ensures
        in_order(parse_row_from(s, row as i8, i, col, acc)->Ok_0),
        all_before(parse_row_from(s, row as i8, i, col, acc)->Ok_0, (9 - row) * 9 + 9),
    decreases s.len() - i,
{
    if i < s.len() && col < 9 {
        if is_digit(s[i]) {
            lemma_row_read_order(s, row, i + 1, col + digit_value(s[i]), acc);
        } else {
            let fp = piece_of_glyph(s[i], Position { row: row as i8, col: col as i8 })->0;
            assert(place(fp) == (9 - row) * 9 + col);
            let more = acc.push(fp);
            assert forall|j: int, k: int| 0 <= j < k < more.len() implies place(more[j]) < place(
                more[k],
            ) by {
                if k == acc.len() {
                    assert(more[j] == acc[j]);
                } else {
                    assert(more[j] == acc[j] && more[k] == acc[k]);
                }
            }
            assert forall|k: int| 0 <= k < more.len() implies place(#[trigger] more[k]) < (9
                - row) * 9 + col + 1 by {
                if k < acc.len() {
                    assert(more[k] == acc[k]);
                }
            }
            lemma_row_read_order(s, row, i + 1, col + 1, more);
        }
    }
}

proof fn lemma_rows_read_order(rows: Seq<Seq<char>>, r: int, acc: Seq<FenPiece>)
    requires
        0 <= r <= 10,
        in_order(acc),
        all_before(acc, r * 9),
        parse_rows_from(rows, r, acc) is Ok,
    ensures
        in_order(parse_rows_from(rows, r, acc)->Ok_0),
    decreases 10 - r,
{
    if r < 10 {
        lemma_row_read_order(rows[r], 9 - r, 0, 0, acc);
        lemma_rows_read_order(rows, r + 1, parse_row_from(rows[r], (9 - r) as i8, 0, 0, acc)->Ok_0);
    }
}

proof fn lemma_row_pieces_order(grid: Seq<Option<FenPiece>>, row: int, col: int)
    requires
        clean(grid),
        0 <= row < 10,
        0 <= col <= 9,
    ensures
        in_order(row_pieces_from(grid, row, col)),
        forall|k: int|
            0 <= k < row_pieces_from(grid, row, col).len() ==> (9 - row) * 9 + col <= place(
                #[trigger] row_pieces_from(grid, row, col)[k],
            ) < (9 - row) * 9 + 9,
    decreases 9 - col,
{
    lemma_index_bijection();
    let list = row_pieces_from(grid, row, col);
    if col < 9 {
        lemma_row_pieces_order(grid, row, col + 1);
        let rest = row_pieces_from(grid, row, col + 1);
        match grid[row * 9 + col] {
            Some(fp) => {
                assert(list == seq![fp] + rest);
                assert(fp.position == Position::spec_from_index(row * 9 + col));
                assert(place(fp) == (9 - row) * 9 + col);
                assert forall|k: int| 0 <= k < list.len() implies (9 - row) * 9 + col <= place(
                    #[trigger] list[k],
                ) < (9 - row) * 9 + 9 by {
                    if k > 0 {
                        assert(list[k] == rest[k - 1]);
                    }
                }
                assert forall|j: int, k: int| 0 <= j < k < list.len() implies place(list[j])
                    < place(list[k]) by {
                    assert(list[k] == rest[k - 1]);
                    if j > 0 {
                        assert(list[j] == rest[j - 1]);
                    }
                }
            },
            None => {},
        }
    }
}

proof fn lemma_pieces_order(grid: Seq<Option<FenPiece>>, r: int)
    requires
        clean(grid),
        -1 <= r <= 9,
    ensures
        in_order(pieces_from(grid, r)),
        forall|k: int|
            0 <= k < pieces_from(grid, r).len() ==> (9 - r) * 9 <= place(
                #[trigger] pieces_from(grid, r)[k],
            ),
    decreases r + 1,
{
    if r >= 0 {
        lemma_pieces_order(grid, r - 1);
        lemma_row_pieces_order(grid, r, 0);
        let row = row_pieces_from(grid, r, 0);
        let rest = pieces_from(grid, r - 1);
        let list = pieces_from(grid, r);
        assert(list == row + rest);
        assert forall|k: int| 0 <= k < list.len() implies (9 - r) * 9 <= place(
            #[trigger] list[k],
        ) by {
            if k < row.len() {
                assert(list[k] == row[k]);
            } else {
                assert(list[k] == rest[k - row.len()]);
            }
        }
        assert forall|j: int, k: int| 0 <= j < k < list.len() implies place(list[j]) < place(
            list[k],
        ) by {
            if k < row.len() {
                assert(list[j] == row[j] && list[k] == row[k]);
            } else if j < row.len() {
                assert(list[j] == row[j] && list[k] == rest[k - row.len()]);
            } else {
                assert(list[j] == rest[j - row.len()] && list[k] == rest[k - row.len()]);
            }
        }
    }
}

/// Two lists in the order of a FEN that hold the same pieces are one
/// list.
proof fn lemma_same_pieces_same_list(a: Seq<FenPiece>, b: Seq<FenPiece>)
    requires
        in_order(a),
        in_order(b),
        forall|x: FenPiece| a.contains(x) <==> b.contains(x),
    ensures
        a == b,
    decreases a.len(),
{
    if a.len() == 0 {
        if b.len() > 0 {
            assert(b.contains(b[0]));
        }
        assert(a =~= b);
    } else {
        assert(a.contains(a[0]));
        let j = choose|j: int| 0 <= j < b.len() && b[j] == a[0];
        assert(b.contains(b[0]));
        let i = choose|i: int| 0 <= i < a.len() && a[i] == b[0];
        if i > 0 {
            assert(place(a[0]) < place(a[i]));
        }
        if j > 0 {
            assert(place(b[0]) < place(b[j]));
        }
        assert(a[0] == b[0]);
        let at = a.skip(1);
        let bt = b.skip(1);
        assert forall|x: FenPiece| at.contains(x) <==> bt.contains(x) by {
            if at.contains(x) {
                let k = choose|k: int| 0 <= k < at.len() && at[k] == x;
                assert(a[k + 1] == x);
                assert(a.contains(x));
                let m = choose|m: int| 0 <= m < b.len() && b[m] == x;
                assert(place(a[0]) < place(a[k + 1]));
                assert(m > 0);
                assert(bt[m - 1] == x);
            }
            if bt.contains(x) {
                let k = choose|k: int| 0 <= k < bt.len() && bt[k] == x;
                assert(b[k + 1] == x);
                assert(b.contains(x));
                let m = choose|m: int| 0 <= m < a.len() && a[m] == x;
                assert(place(b[0]) < place(b[k + 1]));
                assert(m > 0);
                assert(at[m - 1] == x);
            }
        }
        assert forall|j: int, k: int| 0 <= j < k < at.len() implies place(at[j]) < place(
            at[k],
        ) by {
            assert(at[j] == a[j + 1] && at[k] == a[k + 1]);
        }
        assert forall|j: int, k: int| 0 <= j < k < bt.len() implies place(bt[j]) < place(
            bt[k],
        ) by {
            assert(bt[j] == b[j + 1] && bt[k] == b[k + 1]);
        }
        lemma_same_pieces_same_list(at, bt);
        assert(a =~= seq![a[0]] + at);
        assert(b =~= seq![b[0]] + bt);
    }
}

/// Tidy pieces in the order of a FEN, put on empty squares, stand each
/// on its square, and nothing else stands there.
proof fn lemma_ordered_pieces_placed(list: Seq<FenPiece>, n: int)
    requires
        all_tidy(list),
        in_order(list),
        0 <= n <= list.len(),
    ensures
        grid_from(list, n).len() == 90,
        forall|k: int|
            0 <= k < n ==> grid_from(list, n)[(#[trigger] list[k]).position.spec_to_index()]
                == Some(list[k]),
        forall|i: int|
            0 <= i < 90 ==> (#[trigger] grid_from(list, n)[i] matches Some(fp) ==> exists|k: int|
                0 <= k < n && list[k] == fp),
    decreases n,
{
    lemma_index_bijection();
    if n > 0 {
        lemma_ordered_pieces_placed(list, n - 1);
        let fp = list[n - 1];
        assert(tidy(fp));
        let at = fp.position.spec_to_index();
        let before = grid_from(list, n - 1);
        let after = grid_from(list, n);
        assert(after == before.update(at, Some(fp)));
        assert forall|k: int| 0 <= k < n implies after[(#[trigger] list[k]).position.spec_to_index()]
            == Some(list[k]) by {
            if k < n - 1 {
                assert(tidy(list[k]));
                assert(place(list[k]) < place(list[n - 1]));
                assert(list[k].position != fp.position);
            }
        }
        assert forall|i: int| 0 <= i < 90 implies (#[trigger] after[i] matches Some(x)
            ==> exists|k: int| 0 <= k < n && list[k] == x) by {
            if after[i] is Some {
                let x = after[i]->0;
                if i == at {
                    assert(list[n - 1] == x);
                } else {
                    assert(before[i] == Some(x));
                    let k = choose|k: int| 0 <= k < n - 1 && list[k] == x;
                    assert(0 <= k < n && list[k] == x);
                }
            }
        }
    }
}

/// Tidy pieces in the order of a FEN are the pieces that a FEN shows of
/// the squares on which they are put.
pub proof fn lemma_ordered_pieces_shown(list: Seq<FenPiece>)
    requires
        all_tidy(list),
        in_order(list),
    ensures
        shown_pieces(grid_of(list)) == list,
{
    lemma_index_bijection();
    let grid = grid_of(list);
    lemma_tidy_pieces_clean(list, list.len() as int);
    lemma_ordered_pieces_placed(list, list.len() as int);
    lemma_all_pieces(grid, 9);
    lemma_pieces_order(grid, 9);
    let shown = shown_pieces(grid);
    assert forall|x: FenPiece| shown.contains(x) <==> list.contains(x) by {
        if shown.contains(x) {
            let k = choose|k: int| 0 <= k < shown.len() && shown[k] == x;
            assert(grid[shown[k].position.spec_to_index()] == Some(shown[k]));
            let i = x.position.spec_to_index();
            assert(grid[i] == Some(x));
            let m = choose|m: int| 0 <= m < list.len() && list[m] == x;
            assert(list[m] == x);
        }
        if list.contains(x) {
            let m = choose|m: int| 0 <= m < list.len() && list[m] == x;
            assert(tidy(list[m]));
            let i = list[m].position.spec_to_index();
            assert(grid[i] == Some(x));
            assert(covers(shown, grid, i));
        }
    }
    lemma_same_pieces_same_list(shown, list);
}

/// What is read from a FEN holds its pieces in the order in which a FEN
/// shows them.
pub proof fn lemma_read_state_ordered(s: Seq<char>)
    requires
        spec_parse_fen(s) is Ok,
    ensures
        in_order(spec_parse_fen(s)->Ok_0.pieces),
{
    let state = spec_parse_fen(s)->Ok_0;
    let f = fields(s);
    let rows = split_on(f[0], '/');
    assert(spec_parse_board(f[0]) == Ok::<Seq<FenPiece>, FenError>(state.pieces));
    lemma_rows_read_order(rows, 0, Seq::empty());
}

/// FEN round trip. Writing inverts reading: for a state that was read
/// from a text, the text that is written for it reads as that state.
pub proof fn lemma_fen_round_trip(s: Seq<char>)
    requires
        spec_parse_fen(s) is Ok,
    ensures
        spec_parse_fen(spec_parse_fen(s)->Ok_0.text()) == spec_parse_fen(s),
{
    let state = spec_parse_fen(s)->Ok_0;
    lemma_read_state_tidy(s);
    lemma_read_state_ordered(s);
    let grid = grid_of(state.pieces);
    lemma_fen_reads_back(grid, state.red_captured, state.black_captured, state.turn, state.viewer);
    lemma_ordered_pieces_shown(state.pieces);
    let again = read_back(
        grid,
        state.red_captured,
        state.black_captured,
        state.turn,
        state.viewer,
    );
    assert(again.pieces == state.pieces);
    assert(again == state);
}

/// The board that a state describes shows, as a FEN shows squares, the
/// squares with the pieces of the state on them.
proof fn lemma_placed_grid(state: FenStateView, n: int)
    requires
        0 <= n <= state.pieces.len(),
    ensures
        placed(state, n).squares.len() == 90,
        placed(state, n).fen_grid() == grid_from(state.pieces, n),
        placed(state, n).turn == state.turn,
        placed(state, n).viewer == state.viewer,
        placed(state, n).red_captured == state.red_captured,
        placed(state, n).black_captured == state.black_captured,
    decreases n,
{
    lemma_index_bijection();
    if n <= 0 {
        assert(placed(state, n).fen_grid() =~= grid_from(state.pieces, n));
    } else {
        lemma_placed_grid(state, n - 1);
        assert(placed(state, n).fen_grid() =~= grid_from(state.pieces, n));
    }
}

/// A board writes the FEN of the state that describes it.
pub proof fn lemma_board_text(state: FenStateView)
    ensures
        board_of(state).text() == state.text(),
{
    lemma_placed_grid(state, state.pieces.len() as int);
}

/// FEN round trip of a board. For a board that was read from a text,
/// the text that the board writes reads as that board.
pub proof fn lemma_board_round_trip(s: Seq<char>)
    requires
        spec_board_from_fen(s) is Ok,
    ensures
        spec_board_from_fen(spec_board_from_fen(s)->Ok_0.text()) == spec_board_from_fen(s),
{
    let state = spec_parse_fen(s)->Ok_0;
    lemma_board_text(state);
    lemma_fen_round_trip(s);
}

/// A written FEN comes back from the board. For clean squares and plain
/// records of captured pieces, the board that is read from the FEN
/// written for them writes that FEN.
pub proof fn lemma_board_writes_back(
    grid: Seq<Option<FenPiece>>,
    red: Seq<CapturedPieceInfo>,
    black: Seq<CapturedPieceInfo>,
    turn: Color,
    viewer: Color,
)
    requires
        clean(grid),
        all_plain(red),
        all_plain(black),
    ensures
        spec_board_from_fen(fen_text(grid, red, black, turn, viewer)) is Ok,
        spec_board_from_fen(fen_text(grid, red, black, turn, viewer))->Ok_0.text() == fen_text(
            grid,
            red,
            black,
            turn,
            viewer,
        ),
{
    lemma_fen_reads_back(grid, red, black, turn, viewer);
    lemma_board_text(read_back(grid, red, black, turn, viewer));
}

} // verus!
