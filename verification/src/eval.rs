//! Static evaluation: material, piece-square tables, the expected value
//! of face-down pieces and the best capture each side has. Scores are
//! whole numbers of tenths of a point.

use vstd::prelude::*;
use crate::board::{Board, BoardView, Piece};
use crate::pool::HiddenPieceDistribution;
use crate::types::{Color, GameResult, JieqiMove, PieceType, Position};

verus! {

/// The score of a won game, in tenths of a point.
pub const MATE_SCORE: i64 = 1000000;

/// What each ply on the way to a decided game takes off its score, in
/// tenths of a point.
pub const PLY_PENALTY: i64 = 100;

/// The number of plies below which the score of a won game stays
/// positive.
pub const MAX_PLY: i32 = 10000;

/// A bound on the size of every score, in tenths of a point.
pub const SCORE_BOUND: i64 = 100000000;

/// The king keeps to its palace, best on the middle file.
pub const PST_KING: [[i32; 9]; 10] = [
    [0, 0, 0, 5, 10, 5, 0, 0, 0],
    [0, 0, 0, 5, 10, 5, 0, 0, 0],
    [0, 0, 0, 5, 5, 5, 0, 0, 0],
    [0, 0, 0, 0, 0, 0, 0, 0, 0],
    [0, 0, 0, 0, 0, 0, 0, 0, 0],
    [0, 0, 0, 0, 0, 0, 0, 0, 0],
    [0, 0, 0, 0, 0, 0, 0, 0, 0],
    [0, 0, 0, 0, 0, 0, 0, 0, 0],
    [0, 0, 0, 0, 0, 0, 0, 0, 0],
    [0, 0, 0, 0, 0, 0, 0, 0, 0],
];

/// An advisor gains as it advances.
pub const PST_ADVISOR: [[i32; 9]; 10] = [
    [0, 0, 0, 5, 0, 5, 0, 0, 0],
    [0, 0, 0, 0, 5, 0, 0, 0, 0],
    [0, 0, 0, 5, 0, 5, 0, 0, 0],
    [0, 0, 5, 5, 5, 5, 5, 0, 0],
    [0, 5, 5, 10, 10, 10, 5, 5, 0],
    [5, 5, 10, 10, 15, 10, 10, 5, 5],
    [5, 10, 10, 15, 15, 15, 10, 10, 5],
    [5, 10, 15, 15, 20, 15, 15, 10, 5],
    [5, 10, 15, 20, 20, 20, 15, 10, 5],
    [0, 5, 10, 15, 25, 15, 10, 5, 0],
];

/// An elephant gains as it advances.
pub const PST_ELEPHANT: [[i32; 9]; 10] = [
    [0, 0, 5, 0, 0, 0, 5, 0, 0],
    [0, 0, 0, 0, 0, 0, 0, 0, 0],
    [5, 0, 0, 0, 10, 0, 0, 0, 5],
    [0, 0, 0, 0, 0, 0, 0, 0, 0],
    [0, 0, 5, 0, 0, 0, 5, 0, 0],
    [5, 5, 10, 10, 15, 10, 10, 5, 5],
    [5, 10, 10, 15, 15, 15, 10, 10, 5],
    [5, 10, 15, 15, 20, 15, 15, 10, 5],
    [5, 10, 15, 20, 20, 20, 15, 10, 5],
    [0, 5, 10, 15, 25, 15, 10, 5, 0],
];

/// A horse is best near the middle and forward.
pub const PST_HORSE: [[i32; 9]; 10] = [
    [0, 0, 5, 10, 10, 10, 5, 0, 0],
    [0, 5, 10, 15, 15, 15, 10, 5, 0],
    [5, 10, 15, 20, 20, 20, 15, 10, 5],
    [5, 10, 15, 20, 25, 20, 15, 10, 5],
    [5, 10, 15, 20, 25, 20, 15, 10, 5],
    [5, 10, 15, 20, 25, 20, 15, 10, 5],
    [10, 15, 20, 25, 30, 25, 20, 15, 10],
    [10, 15, 20, 25, 30, 25, 20, 15, 10],
    [5, 10, 15, 20, 25, 20, 15, 10, 5],
    [0, 5, 10, 15, 20, 15, 10, 5, 0],
];

/// A rook gains on open lines and across the river.
pub const PST_ROOK: [[i32; 9]; 10] = [
    [10, 10, 10, 15, 15, 15, 10, 10, 10],
    [10, 15, 15, 20, 20, 20, 15, 15, 10],
    [10, 15, 15, 20, 20, 20, 15, 15, 10],
    [10, 15, 15, 20, 20, 20, 15, 15, 10],
    [10, 15, 15, 20, 20, 20, 15, 15, 10],
    [15, 20, 20, 25, 25, 25, 20, 20, 15],
    [15, 20, 20, 25, 25, 25, 20, 20, 15],
    [20, 25, 25, 30, 30, 30, 25, 25, 20],
    [20, 25, 25, 30, 30, 30, 25, 25, 20],
    [15, 20, 20, 25, 25, 25, 20, 20, 15],
];

/// A cannon is best in the middle of the board.
pub const PST_CANNON: [[i32; 9]; 10] = [
    [10, 10, 10, 15, 15, 15, 10, 10, 10],
    [10, 15, 15, 20, 20, 20, 15, 15, 10],
    [15, 20, 20, 25, 25, 25, 20, 20, 15],
    [15, 20, 20, 25, 25, 25, 20, 20, 15],
    [15, 20, 20, 25, 25, 25, 20, 20, 15],
    [15, 20, 20, 25, 25, 25, 20, 20, 15],
    [15, 20, 20, 25, 25, 25, 20, 20, 15],
    [15, 20, 20, 25, 25, 25, 20, 20, 15],
    [10, 15, 15, 20, 20, 20, 15, 15, 10],
    [5, 10, 10, 15, 15, 15, 10, 10, 5],
];

/// A pawn gains much once it has crossed the river, less on the last row.
pub const PST_PAWN: [[i32; 9]; 10] = [
    [0, 0, 0, 0, 0, 0, 0, 0, 0],
    [0, 0, 0, 0, 0, 0, 0, 0, 0],
    [0, 0, 0, 0, 0, 0, 0, 0, 0],
    [5, 0, 10, 0, 15, 0, 10, 0, 5],
    [10, 0, 15, 0, 20, 0, 15, 0, 10],
    [15, 20, 25, 30, 35, 30, 25, 20, 15],
    [20, 25, 30, 35, 40, 35, 30, 25, 20],
    [25, 30, 35, 40, 45, 40, 35, 30, 25],
    [30, 35, 40, 45, 50, 45, 40, 35, 30],
    [15, 20, 25, 30, 30, 30, 25, 20, 15],
];

/// What a face-down piece is worth beyond its expected value, by the kind
/// `movement_type` it moves as and its column: pieces on rook and cannon
/// squares are worth keeping face-down, pawns least of all.
pub open spec fn spec_hidden_position_bonus(movement_type: PieceType, col: i8) -> int {
    match movement_type {
        PieceType::King => 0,
        PieceType::Advisor => -10,
        PieceType::Elephant => -30,
        PieceType::Horse => -30,
        PieceType::Rook => 50,
        PieceType::Cannon => 20,
        PieceType::Pawn => if col == 0 || col == 8 {
            -30
        } else {
            -50
        },
    }
}

/// What a face-down piece is worth beyond its expected value.
pub fn hidden_position_bonus(movement_type: PieceType, col: i8) -> (r: i32)
    ensures
        r == spec_hidden_position_bonus(movement_type, col),
        -50 <= r <= 50,
{
    match movement_type {
        PieceType::King => 0,
        PieceType::Advisor => -10,
        PieceType::Elephant => -30,
        PieceType::Horse => -30,
        PieceType::Rook => 50,
        PieceType::Cannon => 20,
        PieceType::Pawn => {
            if col == 0 || col == 8 {
                -30
            } else {
                -50
            }
        },
    }
}

/// The table of kind `t`, seen from Red's side.
pub open spec fn pst_table(t: PieceType) -> [[i32; 9]; 10] {
    match t {
        PieceType::King => PST_KING,
        PieceType::Advisor => PST_ADVISOR,
        PieceType::Elephant => PST_ELEPHANT,
        PieceType::Horse => PST_HORSE,
        PieceType::Rook => PST_ROOK,
        PieceType::Cannon => PST_CANNON,
        PieceType::Pawn => PST_PAWN,
    }
}

/// The bonus of a piece of kind `piece_type` on row `row` and column
/// `col`: the entry of the kind's table, read from the piece's own back
/// rank.
pub open spec fn pst_score(piece_type: PieceType, row: int, col: int, is_red: bool) -> int {
    let r = if is_red {
        row
    } else {
        9 - row
    };
    pst_table(piece_type)[r][col] as int
}

/// The bonus of a piece of kind `piece_type` on row `row` and column
/// `col`.
pub fn get_pst_score(piece_type: PieceType, row: usize, col: usize, is_red: bool) -> (s: i32)
    requires
        row < 10,
        col < 9,
    ensures
        s == pst_score(piece_type, row as int, col as int, is_red),
        0 <= s <= 50,
{
    let r = if is_red {
        row
    } else {
        9 - row
    };
    match piece_type {
        PieceType::King => PST_KING[r][col],
        PieceType::Advisor => PST_ADVISOR[r][col],
        PieceType::Elephant => PST_ELEPHANT[r][col],
        PieceType::Horse => PST_HORSE[r][col],
        PieceType::Rook => PST_ROOK[r][col],
        PieceType::Cannon => PST_CANNON[r][col],
        PieceType::Pawn => PST_PAWN[r][col],
    }
}

/// What the piece `p` counts for, in points, where a face-down Red piece
/// is expected to be worth `red_ev` and a Black one `black_ev`: for a
/// face-down piece the expected value of its side and the bonus of its
/// square, for a face-up piece its material value and the bonus of its
/// table.
pub open spec fn piece_points(p: Piece, red_ev: int, black_ev: int) -> int {
    if p.is_hidden {
        (match p.color {
            Color::Red => red_ev,
            Color::Black => black_ev,
        }) + (match p.movement_type {
            Some(t) => spec_hidden_position_bonus(t, p.position.col),
            None => 0,
        })
    } else {
        match p.actual_type {
            Some(t) => t.spec_value() + pst_score(
                t,
                p.position.row as int,
                p.position.col as int,
                p.color == Color::Red,
            ),
            None => 0,
        }
    }
}

/// What the piece `p` counts for in the balance of Red against Black.
pub open spec fn signed_points(p: Piece, red_ev: int, black_ev: int) -> int {
    match p.color {
        Color::Red => piece_points(p, red_ev, black_ev),
        Color::Black => -piece_points(p, red_ev, black_ev),
    }
}

impl BoardView {
    /// What a face-down piece of `color` is expected to be worth, in
    /// points.
    pub open spec fn hidden_value(&self, color: Color) -> int {
        self.pool(color).expected_value()
    }

    /// The balance of Red against Black over the pieces on the squares
    /// with numbers below `n`, in points.
    pub open spec fn points_below(&self, n: int) -> int
        decreases n,
    {
        if n <= 0 {
            0
        } else {
            self.points_below(n - 1) + match self.squares[n - 1] {
                Some(p) => signed_points(
                    p,
                    self.hidden_value(Color::Red),
                    self.hidden_value(Color::Black),
                ),
                None => 0,
            }
        }
    }

    /// What the move `mv` wins by capture, in points: the value of the
    /// piece on its target, a face-down one counted as `victim_ev`.
    /// Nothing where the target is empty or holds a face-up king.
    pub open spec fn capture_gain(&self, mv: JieqiMove, victim_ev: int) -> int {
        match self.piece_at(mv.to_pos) {
            Some(victim) => if victim.actual_type == Some(PieceType::King) {
                0
            } else if victim.is_hidden {
                victim_ev
            } else {
                match victim.actual_type {
                    Some(t) => t.spec_value(),
                    None => 0,
                }
            },
            None => 0,
        }
    }

    /// The largest capture gain among the first `n` of `moves`; zero
    /// where none of them wins anything.
    pub open spec fn best_gain_among(&self, moves: Seq<JieqiMove>, victim_ev: int, n: int) -> int
        decreases n,
    {
        if n <= 0 {
            0
        } else {
            let rest = self.best_gain_among(moves, victim_ev, n - 1);
            let gain = self.capture_gain(moves[n - 1], victim_ev);
            if gain > rest {
                gain
            } else {
                rest
            }
        }
    }

    /// The most that `attacker` can win by one capture among its legal
    /// moves, in points.
    pub open spec fn best_capture(&self, attacker: Color, victim_ev: int) -> int {
        self.best_gain_among(
            self.legal_moves(attacker),
            victim_ev,
            self.legal_moves(attacker).len() as int,
        )
    }

    /// The balance of Red against Black, in tenths of a point: the pieces
    /// on the board, and three tenths of the difference between the best
    /// captures of the two sides.
    pub open spec fn raw_score(&self) -> int {
        10 * self.points_below(90) + 3 * (self.best_capture(
            Color::Red,
            self.hidden_value(Color::Black),
        ) - self.best_capture(Color::Black, self.hidden_value(Color::Red)))
    }

    /// The static score of the position as `color` sees it, in tenths of
    /// a point.
    pub open spec fn evaluate(&self, color: Color) -> int {
        match color {
            Color::Red => self.raw_score(),
            Color::Black => -self.raw_score(),
        }
    }

    /// The score of the position as `color` sees it after `ply` plies of
    /// search: for a decided game the mate score less the penalty of the
    /// plies, with its sign; nothing for a drawn game; the static score
    /// while the game goes on.
    pub open spec fn terminal_value(&self, color: Color, ply: int) -> int {
        match self.game_result(self.legal_moves(self.turn)) {
            GameResult::RedWin => match color {
                Color::Red => MATE_SCORE - ply * PLY_PENALTY,
                Color::Black => -MATE_SCORE + ply * PLY_PENALTY,
            },
            GameResult::BlackWin => match color {
                Color::Black => MATE_SCORE - ply * PLY_PENALTY,
                Color::Red => -MATE_SCORE + ply * PLY_PENALTY,
            },
            GameResult::Draw => 0,
            GameResult::Ongoing => self.evaluate(color),
        }
    }
}

/// The static score seen by one side is the negative of the score seen by
/// the other.
pub proof fn lemma_evaluate_antisymmetric(b: BoardView)
    ensures
        b.evaluate(Color::Red) == -b.evaluate(Color::Black),
{
}

/// A decided game scores the higher for the winner, and the lower for the
/// loser, the fewer plies lead to it.
pub proof fn lemma_faster_mate_scores_higher(b: BoardView, color: Color, early: int, late: int)
    requires
        0 <= early < late < MAX_PLY,
        b.game_result(b.legal_moves(b.turn)) == GameResult::RedWin || b.game_result(
            b.legal_moves(b.turn),
        ) == GameResult::BlackWin,
    ensures
        b.terminal_value(color, early) > 0 ==> b.terminal_value(color, early) > b.terminal_value(
            color,
            late,
        ) > 0,
        b.terminal_value(color, early) < 0 ==> b.terminal_value(color, early) < b.terminal_value(
            color,
            late,
        ) < 0,
        b.terminal_value(color, early) != 0,
{
}

fn piece_score(p: &Piece, red_ev: i32, black_ev: i32) -> (s: i64)
    requires
        p.position.is_valid(),
        0 <= red_ev <= 80000,
        0 <= black_ev <= 80000,
    ensures
        s == signed_points(*p, red_ev as int, black_ev as int),
        -100050 <= s <= 100050,
{
    let points: i64 = if p.is_hidden {
        let ev = match p.color {
            Color::Red => red_ev,
            Color::Black => black_ev,
        };
        let bonus = match p.movement_type {
            Some(t) => hidden_position_bonus(t, p.position.col),
            None => 0,
        };
        (ev as i64) + (bonus as i64)
    } else {
        match p.actual_type {
            Some(t) => {
                let is_red = match p.color {
                    Color::Red => true,
                    Color::Black => false,
                };
                let pst = get_pst_score(
                    t,
                    p.position.row as usize,
                    p.position.col as usize,
                    is_red,
                );
                (t.value() as i64) + (pst as i64)
            },
            None => 0,
        }
    };
    match p.color {
        Color::Red => points,
        Color::Black => -points,
    }
}

/// The most that `attacker` can win by one capture among its legal moves,
/// in points, where a face-down victim counts as `victim_hidden_ev`.
pub fn best_capture_value(board: &Board, attacker: Color, victim_hidden_ev: i32) -> (best: i64)
    requires
        board@.wf(),
        0 <= victim_hidden_ev <= 80000,
    ensures
        best == board@.best_capture(attacker, victim_hidden_ev as int),
        0 <= best <= 80000,
{
    let moves = board.get_legal_moves(attacker);
    let mut best: i64 = 0;
    let mut i: usize = 0;
    while i < moves.len()
        invariant
            i <= moves.len(),
            board@.inv(),
            0 <= victim_hidden_ev <= 80000,
            best == board@.best_gain_among(moves@, victim_hidden_ev as int, i as int),
            0 <= best <= 80000,
        decreases moves.len() - i,
    {
        let gain: i64 = match board.piece_on(moves[i].to_pos) {
            Some(victim) => {
                let royal = match victim.actual_type {
                    Some(PieceType::King) => true,
                    _ => false,
                };
                if royal {
                    0
                } else if victim.is_hidden {
                    victim_hidden_ev as i64
                } else {
                    match victim.actual_type {
                        Some(t) => t.value() as i64,
                        None => 0,
                    }
                }
            },
            None => 0,
        };
        if gain > best {
            best = gain;
        }
        i += 1;
    }
    best
}

/// The static score of the position as `color` sees it, in tenths of a
/// point: Red's score is the balance of Red against Black over the pieces
/// on the board and the best captures of the two sides, Black's score is
/// its negative.
pub fn evaluate(board: &Board, color: Color) -> (score: i64)
    requires
        board@.wf(),
    ensures
        score == board@.evaluate(color),
        -SCORE_BOUND < score < SCORE_BOUND,
{
    let red_ev = HiddenPieceDistribution::from_board(board, Color::Red).expected_value();
    let black_ev = HiddenPieceDistribution::from_board(board, Color::Black).expected_value();
    let mut points: i64 = 0;
    let mut i: usize = 0;
    while i < 90
        invariant
            i <= 90,
            board@.inv(),
            red_ev == board@.hidden_value(Color::Red),
            black_ev == board@.hidden_value(Color::Black),
            0 <= red_ev <= 80000,
            0 <= black_ev <= 80000,
            points == board@.points_below(i as int),
            -100050 * i <= points <= 100050 * i,
        decreases 90 - i,
    {
        match board.piece_on(Position::from_index(i)) {
            Some(p) => {
                assert(board@.squares[i as int] == Some(p));
                points = points + piece_score(&p, red_ev, black_ev);
            },
            None => {},
        }
        i += 1;
    }
    let red_capture = best_capture_value(board, Color::Red, black_ev);
    let black_capture = best_capture_value(board, Color::Black, red_ev);
    let raw: i64 = 10 * points + 3 * (red_capture - black_capture);
    match color {
        Color::Red => raw,
        Color::Black => -raw,
    }
}

/// The score of the position as `color` sees it, `ply` plies below the
/// root of a search.
pub fn terminal_eval(board: &Board, color: Color, ply: i32) -> (score: i64)
    requires
        board@.wf(),
        0 <= ply < MAX_PLY,
    ensures
        score == board@.terminal_value(color, ply as int),
        -SCORE_BOUND < score < SCORE_BOUND,
{
    let result = board.get_game_result(None);
    let ply_bonus: i64 = (ply as i64) * PLY_PENALTY;
    match result {
        GameResult::RedWin => match color {
            Color::Red => MATE_SCORE - ply_bonus,
            Color::Black => -MATE_SCORE + ply_bonus,
        },
        GameResult::BlackWin => match color {
            Color::Black => MATE_SCORE - ply_bonus,
            Color::Red => -MATE_SCORE + ply_bonus,
        },
        GameResult::Draw => 0,
        GameResult::Ongoing => evaluate(board, color),
    }
}


} // verus!
