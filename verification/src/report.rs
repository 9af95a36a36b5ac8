//! Reports for diagnostics: the static score taken apart, and the first
//! two plies of a search laid open.

use vstd::prelude::*;
use crate::board::{Board, BoardView, Piece};
use crate::eval::{
    best_capture_value, evaluate, get_pst_score, hidden_position_bonus, pst_score,
    spec_hidden_position_bonus,
};
use crate::pool::{lemma_kinds_listed, HiddenPieceDistribution};
use crate::ranking::{rank_moves, ranked, ScoredMove};
use crate::search::{
    lemma_no_king_in_pool, lemma_reveal_child, lemma_sound_move_searchable,
    depth_cap, drawn_from, floor_div, lemma_ranked_drawn_from, plain, weight_of, AIConfig,
    SearchStats, IT3AI,
};
use crate::ranking::lemma_ranked;
use crate::legal::lemma_legal_moves_sound;
use crate::types::{ActionType, Color, JieqiMove, PieceType, Position};

verus! {

/// What one piece counts for in the static score, in tenths of a point.
#[derive(Debug, Clone, Copy)]
pub struct PieceEval {
    pub position: Position,
    pub color: Color,
    /// The kind of a face-up piece; `None` for a face-down one.
    pub piece_type: Option<PieceType>,
    pub is_hidden: bool,
    /// The material value of a face-up piece, the expected value of a
    /// face-down one.
    pub material: i64,
    /// The bonus of the table for a face-up piece, of the square for a
    /// face-down one.
    pub pst: i64,
    /// Material and bonus together.
    pub value: i64,
}

/// The static score taken apart, in tenths of a point.
#[derive(Debug)]
pub struct EvalDetail {
    /// The pieces in the order of their squares.
    pub pieces: Vec<PieceEval>,
    pub material_red: i64,
    pub material_black: i64,
    pub pst_red: i64,
    pub pst_black: i64,
    /// What Red's face-down pieces count for, bonus included.
    pub hidden_ev_red: i64,
    /// What Black's face-down pieces count for, bonus included.
    pub hidden_ev_black: i64,
    /// Three tenths of the best capture that Red has.
    pub capture_red: i64,
    /// Three tenths of the best capture that Black has.
    pub capture_black: i64,
    /// The static score as `pov` sees it.
    pub total: i64,
    pub pov: Color,
}

/// What piece `p` counts for, taken apart.
pub open spec fn piece_eval(p: Piece, red_ev: int, black_ev: int) -> PieceEval {
    if p.is_hidden {
        let ev = match p.color {
            Color::Red => red_ev,
            Color::Black => black_ev,
        };
        let bonus = match p.movement_type {
            Some(t) => spec_hidden_position_bonus(t, p.position.col),
            None => 0,
        };
        PieceEval {
            position: p.position,
            color: p.color,
            piece_type: None,
            is_hidden: true,
            material: (10 * ev) as i64,
            pst: (10 * bonus) as i64,
            value: (10 * (ev + bonus)) as i64,
        }
    } else {
        let t = p.actual_type->0;
        let pst = pst_score(
            t,
            p.position.row as int,
            p.position.col as int,
            p.color == Color::Red,
        );
        PieceEval {
            position: p.position,
            color: p.color,
            piece_type: Some(t),
            is_hidden: false,
            material: (10 * t.spec_value()) as i64,
            pst: (10 * pst) as i64,
            value: (10 * (t.spec_value() + pst)) as i64,
        }
    }
}

impl BoardView {
    /// The pieces with a kind to their face on the squares with numbers
    /// below `n`, each taken apart.
    pub open spec fn piece_evals_below(&self, n: int) -> Seq<PieceEval>
        decreases n,
    {
        if n <= 0 {
            Seq::empty()
        } else {
            match self.squares[n - 1] {
                Some(p) => if p.is_hidden || p.actual_type is Some {
                    self.piece_evals_below(n - 1).push(
                        piece_eval(
                            p,
                            self.hidden_value(Color::Red),
                            self.hidden_value(Color::Black),
                        ),
                    )
                } else {
                    self.piece_evals_below(n - 1)
                },
                None => self.piece_evals_below(n - 1),
            }
        }
    }
}

/// What piece `p` adds to the sum of its side that `part` names: 0 for
/// the material of face-up pieces, 1 for their table bonus, 2 for the
/// face-down pieces.
pub open spec fn part_of(e: PieceEval, part: int) -> int {
    if part == 0 {
        if e.is_hidden {
            0
        } else {
            e.material as int
        }
    } else if part == 1 {
        if e.is_hidden {
            0
        } else {
            e.pst as int
        }
    } else {
        if e.is_hidden {
            e.value as int
        } else {
            0
        }
    }
}

/// The sum of part `part` over the entries of `color` among the first
/// `n` of `list`.
pub open spec fn part_sum(list: Seq<PieceEval>, color: Color, part: int, n: int) -> int
    decreases n,
{
    if n <= 0 {
        0
    } else {
        part_sum(list, color, part, n - 1) + if list[n - 1].color == color {
            part_of(list[n - 1], part)
        } else {
            0
        }
    }
}

proof fn lemma_part_sum_push(list: Seq<PieceEval>, e: PieceEval, color: Color, part: int)
    ensures
        part_sum(list.push(e), color, part, list.len() as int + 1) == part_sum(
            list,
            color,
            part,
            list.len() as int,
        ) + if e.color == color {
            part_of(e, part)
        } else {
            0
        },
{
    lemma_part_sum_prefix(list.push(e), list, color, part, list.len() as int);
}

proof fn lemma_part_sum_prefix(
    longer: Seq<PieceEval>,
    shorter: Seq<PieceEval>,
    color: Color,
    part: int,
    n: int,
)
    requires
        0 <= n <= shorter.len() <= longer.len(),
        forall|k: int| 0 <= k < shorter.len() ==> longer[k] == shorter[k],
    ensures
        part_sum(longer, color, part, n) == part_sum(shorter, color, part, n),
    decreases n,
{
    if n > 0 {
        lemma_part_sum_prefix(longer, shorter, color, part, n - 1);
    }
}

/// The static score of `board` as `color` sees it, taken apart: piece by
/// piece, and in sums of material, table bonus, face-down pieces and
/// capture for each side. The total is the balance of Red's sums against
/// Black's, with the sign of the point of view.
#[verifier::rlimit(30)]
pub fn evaluate_detail(board: &Board, color: Color) -> (d: EvalDetail)
    requires
        board@.wf(),
    ensures
        d.pov == color,
        d.total == board@.evaluate(color),
        d.pieces@ == board@.piece_evals_below(90),
        d.capture_red == 3 * board@.best_capture(Color::Red, board@.hidden_value(Color::Black)),
        d.capture_black == 3 * board@.best_capture(
            Color::Black,
            board@.hidden_value(Color::Red),
        ),
        d.material_red == part_sum(d.pieces@, Color::Red, 0, d.pieces@.len() as int),
        d.material_black == part_sum(d.pieces@, Color::Black, 0, d.pieces@.len() as int),
        d.pst_red == part_sum(d.pieces@, Color::Red, 1, d.pieces@.len() as int),
        d.pst_black == part_sum(d.pieces@, Color::Black, 1, d.pieces@.len() as int),
        d.hidden_ev_red == part_sum(d.pieces@, Color::Red, 2, d.pieces@.len() as int),
        d.hidden_ev_black == part_sum(d.pieces@, Color::Black, 2, d.pieces@.len() as int),
        (match color {
            Color::Red => d.total as int,
            Color::Black => -d.total,
        }) == (d.material_red - d.material_black) + (d.pst_red - d.pst_black) + (d.hidden_ev_red
            - d.hidden_ev_black) + (d.capture_red - d.capture_black),
{
    let red_ev = HiddenPieceDistribution::from_board(board, Color::Red).expected_value();
    let black_ev = HiddenPieceDistribution::from_board(board, Color::Black).expected_value();
    let mut pieces: Vec<PieceEval> = Vec::new();
    let mut material_red: i64 = 0;
    let mut material_black: i64 = 0;
    let mut pst_red: i64 = 0;
    let mut pst_black: i64 = 0;
    let mut hidden_red: i64 = 0;
    let mut hidden_black: i64 = 0;
    let mut i: usize = 0;
    while i < 90
        invariant
            i <= 90,
            board@.inv(),
            red_ev == board@.hidden_value(Color::Red),
            black_ev == board@.hidden_value(Color::Black),
            0 <= red_ev <= 80000,
            0 <= black_ev <= 80000,
            pieces@ == board@.piece_evals_below(i as int),
            0 <= material_red <= 1000000 * i,
            0 <= material_black <= 1000000 * i,
            0 <= pst_red <= 500 * i,
            0 <= pst_black <= 500 * i,
            -500 * i <= hidden_red <= 800500 * i,
            -500 * i <= hidden_black <= 800500 * i,
            (material_red - material_black) + (pst_red - pst_black) + (hidden_red - hidden_black)
                == 10 * board@.points_below(i as int),
            material_red == part_sum(pieces@, Color::Red, 0, pieces@.len() as int),
            material_black == part_sum(pieces@, Color::Black, 0, pieces@.len() as int),
            pst_red == part_sum(pieces@, Color::Red, 1, pieces@.len() as int),
            pst_black == part_sum(pieces@, Color::Black, 1, pieces@.len() as int),
            hidden_red == part_sum(pieces@, Color::Red, 2, pieces@.len() as int),
            hidden_black == part_sum(pieces@, Color::Black, 2, pieces@.len() as int),
        decreases 90 - i,
    {
        let ghost before = pieces@;
        match board.piece_on(Position::from_index(i)) {
            Some(p) => {
                assert(board@.squares[i as int] == Some(p));
                if p.is_hidden {
                    let ev = match p.color {
                        Color::Red => red_ev,
                        Color::Black => black_ev,
                    };
                    let bonus = match p.movement_type {
                        Some(t) => hidden_position_bonus(t, p.position.col),
                        None => 0,
                    };
                    let material: i64 = 10 * (ev as i64);
                    let pst: i64 = 10 * (bonus as i64);
                    let value: i64 = material + pst;
                    let entry = PieceEval {
                        position: p.position,
                        color: p.color,
                        piece_type: None,
                        is_hidden: true,
                        material,
                        pst,
                        value,
                    };
                    pieces.push(entry);
                    proof {
                        lemma_part_sum_push(before, entry, Color::Red, 0);
                        lemma_part_sum_push(before, entry, Color::Black, 0);
                        lemma_part_sum_push(before, entry, Color::Red, 1);
                        lemma_part_sum_push(before, entry, Color::Black, 1);
                        lemma_part_sum_push(before, entry, Color::Red, 2);
                        lemma_part_sum_push(before, entry, Color::Black, 2);
                    }
                    match p.color {
                        Color::Red => {
                            hidden_red = hidden_red + value;
                        },
                        Color::Black => {
                            hidden_black = hidden_black + value;
                        },
                    }
                } else {
                    match p.actual_type {
                        Some(t) => {
                            let is_red = match p.color {
                                Color::Red => true,
                                Color::Black => false,
                            };
                            let bonus = get_pst_score(
                                t,
                                p.position.row as usize,
                                p.position.col as usize,
                                is_red,
                            );
                            let material: i64 = 10 * (t.value() as i64);
                            let pst: i64 = 10 * (bonus as i64);
                            let value: i64 = material + pst;
                            let entry = PieceEval {
                                position: p.position,
                                color: p.color,
                                piece_type: Some(t),
                                is_hidden: false,
                                material,
                                pst,
                                value,
                            };
                            pieces.push(entry);
                            proof {
                                lemma_part_sum_push(before, entry, Color::Red, 0);
                                lemma_part_sum_push(before, entry, Color::Black, 0);
                                lemma_part_sum_push(before, entry, Color::Red, 1);
                                lemma_part_sum_push(before, entry, Color::Black, 1);
                                lemma_part_sum_push(before, entry, Color::Red, 2);
                                lemma_part_sum_push(before, entry, Color::Black, 2);
                            }
                            match p.color {
                                Color::Red => {
                                    material_red = material_red + material;
                                    pst_red = pst_red + pst;
                                },
                                Color::Black => {
                                    material_black = material_black + material;
                                    pst_black = pst_black + pst;
                                },
                            }
                        },
                        None => {},
                    }
                }
            },
            None => {},
        }
        i += 1;
    }
    let capture_red: i64 = 3 * best_capture_value(board, Color::Red, black_ev);
    let capture_black: i64 = 3 * best_capture_value(board, Color::Black, red_ev);
    let raw: i64 = (material_red - material_black) + (pst_red - pst_black) + (hidden_red
        - hidden_black) + (capture_red - capture_black);
    let total = match color {
        Color::Red => raw,
        Color::Black => -raw,
    };
    EvalDetail {
        pieces,
        material_red,
        material_black,
        pst_red,
        pst_black,
        hidden_ev_red: hidden_red,
        hidden_ev_black: hidden_black,
        capture_red,
        capture_black,
        total,
        pov: color,
    }
}

impl IT3AI {
    /// The static score of `board` as `color` sees it, taken apart.
    pub fn evaluate_detail(board: &Board, color: Color) -> (d: EvalDetail)
        requires
            board@.wf(),
        ensures
            d.pov == color,
            d.total == board@.evaluate(color),
            d.pieces@ == board@.piece_evals_below(90),
            d.capture_red == 3 * board@.best_capture(
                Color::Red,
                board@.hidden_value(Color::Black),
            ),
            d.capture_black == 3 * board@.best_capture(
                Color::Black,
                board@.hidden_value(Color::Red),
            ),
            d.material_red == part_sum(d.pieces@, Color::Red, 0, d.pieces@.len() as int),
            d.material_black == part_sum(d.pieces@, Color::Black, 0, d.pieces@.len() as int),
            d.pst_red == part_sum(d.pieces@, Color::Red, 1, d.pieces@.len() as int),
            d.pst_black == part_sum(d.pieces@, Color::Black, 1, d.pieces@.len() as int),
            d.hidden_ev_red == part_sum(d.pieces@, Color::Red, 2, d.pieces@.len() as int),
            d.hidden_ev_black == part_sum(d.pieces@, Color::Black, 2, d.pieces@.len() as int),
            (match color {
                Color::Red => d.total as int,
                Color::Black => -d.total,
            }) == (d.material_red - d.material_black) + (d.pst_red - d.pst_black) + (
            d.hidden_ev_red - d.hidden_ev_black) + (d.capture_red - d.capture_black),
    {
        evaluate_detail(board, color)
    }
}

/// One way a reveal can turn out.
#[derive(Debug)]
pub struct ChanceOutcome {
    /// The kind that the piece turns out to be.
    pub piece: PieceType,
    /// The pieces of that kind in the pool; the chance of the outcome is
    /// this count over the sum of the counts of all outcomes.
    pub count: u8,
    /// The static score of the position after the move, as Red sees it.
    pub eval: i64,
    /// The position after the move.
    pub fen: String,
}

/// A move of a position laid open.
#[derive(Debug)]
pub struct SearchMoveBasic {
    pub mv: JieqiMove,
    /// Whether the move is a reveal with more than one way to turn out.
    pub is_chance: bool,
    /// The static score of the position after the move, as Red sees it;
    /// for a reveal the expectation over its outcomes.
    pub eval: i64,
    /// The score that ranks the move.
    pub score: i64,
    /// The position after the move; for a reveal after its first outcome.
    pub fen_after: String,
    /// The static score of that position, as Red sees it.
    pub real_eval: i64,
    /// The outcomes of a reveal.
    pub chance_breakdown: Option<Vec<ChanceOutcome>>,
}

/// A move of the root laid open, with the best and the worst replies.
#[derive(Debug)]
pub struct SearchMoveInfo {
    pub basic: SearchMoveBasic,
    /// The ten best replies, best first, by the score of the side that
    /// replies.
    pub opposite_top10: Option<Vec<SearchMoveBasic>>,
    /// The ten worst replies, worst first.
    pub opposite_bottom10: Option<Vec<SearchMoveBasic>>,
}

/// The first two plies of a search laid open.
#[derive(Debug)]
pub struct SearchReport {
    /// The static score of the root as the side to move sees it.
    pub eval: i64,
    /// The legal moves of the root in the order of their ranking.
    pub first_moves: Vec<SearchMoveInfo>,
    /// The nodes that the search of the root visited.
    pub nodes: u64,
}

/// How many replies are shown from either end of their ranking.
pub const SHOWN_REPLIES: usize = 10;

impl BoardView {
    /// The outcomes of the reveal `mv`: the kinds in the pool of the side
    /// to move; none for another move.
    pub open spec fn outcomes_of(&self, mv: JieqiMove) -> Seq<(PieceType, u8)> {
        if mv.action_type == ActionType::RevealAndMove {
            self.pool(self.turn).possible_types()
        } else {
            Seq::empty()
        }
    }

    /// The position that is shown after move `mv`: for a reveal with
    /// outcomes the one after its first outcome.
    pub open spec fn shown_after(&self, mv: JieqiMove) -> BoardView {
        if self.outcomes_of(mv).len() > 0 {
            self.reveal_child(mv, self.outcomes_of(mv)[0].0)
        } else {
            self.make_move(mv)
        }
    }

    /// The sum over the first `n` outcomes of the reveal `mv` of the
    /// static score after the outcome, as Red sees it, times its count.
    pub open spec fn outcome_sum(&self, mv: JieqiMove, n: int) -> int
        decreases n,
    {
        if n <= 0 {
            0
        } else {
            self.outcome_sum(mv, n - 1) + self.outcomes_of(mv)[n - 1].1 * self.reveal_child(
                mv,
                self.outcomes_of(mv)[n - 1].0,
            ).evaluate(Color::Red)
        }
    }

    /// The static score after move `mv` as Red sees it; for a reveal with
    /// outcomes the mean over them, weighted by their counts and rounded
    /// down.
    pub open spec fn static_after(&self, mv: JieqiMove) -> int {
        let types = self.outcomes_of(mv);
        if types.len() > 0 {
            self.outcome_sum(mv, types.len() as int) / weight_of(types, types.len() as int)
        } else {
            self.make_move(mv).evaluate(Color::Red)
        }
    }

    /// The legal moves of the side to move, each with the static score
    /// after it.
    pub open spec fn static_scores(&self) -> Seq<ScoredMove> {
        let moves = self.legal_moves(self.turn);
        Seq::new(
            moves.len(),
            |k: int| ScoredMove { mv: moves[k], score: self.static_after(moves[k]) as i64 },
        )
    }
}

/// Whether `outcomes` lays open the outcomes of the reveal `mv` on `b`.
pub open spec fn outcomes_match(outcomes: Seq<ChanceOutcome>, b: BoardView, mv: JieqiMove) -> bool {
    let types = b.outcomes_of(mv);
    &&& outcomes.len() == types.len()
    &&& forall|k: int|
        0 <= k < outcomes.len() ==> {
            let o = #[trigger] outcomes[k];
            let child = b.reveal_child(mv, types[k].0);
            &&& o.piece == types[k].0
            &&& o.count == types[k].1
            &&& o.eval == child.evaluate(Color::Red)
            &&& o.fen@ == child.text()
        }
}

/// Whether `r` lays open move `mv` on `b` with score `score`.
pub open spec fn describes(r: SearchMoveBasic, b: BoardView, mv: JieqiMove, score: int) -> bool {
    &&& r.mv == mv
    &&& r.is_chance == (b.outcomes_of(mv).len() > 0)
    &&& r.eval == b.static_after(mv)
    &&& r.score == score
    &&& r.fen_after@ == b.shown_after(mv).text()
    &&& r.real_eval == b.shown_after(mv).evaluate(Color::Red)
    &&& match r.chance_breakdown {
        Some(outcomes) => b.outcomes_of(mv).len() > 0 && outcomes_match(outcomes@, b, mv),
        None => b.outcomes_of(mv).len() == 0,
    }
}

/// The position after move `mv` of the side to move.
fn child_of_move(board: &Board, mv: &JieqiMove) -> (child: Board)
    requires
        board@.searchable(),
        board@.sound_move(board@.turn, *mv),
    ensures
        child@ == board@.make_move(*mv),
        child@.searchable(),
{
    proof {
        crate::board::lemma_index_bijection();
        lemma_sound_move_searchable(board@, board@.turn, *mv);
        assert(board@.squares[mv.from_pos.spec_to_index()] is Some);
    }
    let mut child = board.clone();
    child.make_move(mv);
    child
}

/// The position after the face-down piece that `mv` moves has turned out
/// to be of kind `t` and has made the move.
fn child_of_reveal(board: &Board, mv: &JieqiMove, t: PieceType) -> (child: Board)
    requires
        board@.searchable(),
        board@.sound_move(board@.turn, *mv),
        mv.action_type == ActionType::RevealAndMove,
        t != PieceType::King,
    ensures
        child@ == board@.reveal_child(*mv, t),
        child@.searchable(),
{
    proof {
        lemma_reveal_child(board@, board@.turn, *mv, t);
    }
    let mut child = board.clone();
    child.simulate_reveal(mv.from_pos, t);
    let step = JieqiMove {
        action_type: ActionType::Move,
        from_pos: mv.from_pos,
        to_pos: mv.to_pos,
    };
    assert(step == plain(*mv));
    child.make_move(&step);
    child
}

/// The outcomes of the reveal `mv` laid open, and the mean of their
/// static scores weighted by their counts.
#[verifier::rlimit(50)]
fn chance_outcomes(board: &Board, mv: &JieqiMove) -> (r: (Vec<ChanceOutcome>, i64))
    requires
        board@.searchable(),
        board@.king(board@.turn) is Some,
        board@.sound_move(board@.turn, *mv),
        mv.action_type == ActionType::RevealAndMove,
        board@.outcomes_of(*mv).len() > 0,
    ensures
        outcomes_match(r.0@, board@, *mv),
        r.1 == board@.static_after(*mv),
        -100000000 < r.1 < 100000000,
{
    let ghost b = board@;
    let types = HiddenPieceDistribution::from_board(board, board.current_turn()).possible_types();
    proof {
        lemma_no_king_in_pool(b, b.turn);
        lemma_kinds_listed(b.pool(b.turn), 7);
    }
    let mut outcomes: Vec<ChanceOutcome> = Vec::with_capacity(types.len());
    let mut total: i64 = 0;
    let mut weight: i64 = 0;
    let mut k: usize = 0;
    while k < types.len()
        invariant
            k <= types.len(),
            types.len() <= 7,
            board@ == b,
            b.searchable(),
            b.sound_move(b.turn, *mv),
            mv.action_type == ActionType::RevealAndMove,
            types@ == b.outcomes_of(*mv),
            forall|j: int|
                0 <= j < types@.len() ==> 0 < (#[trigger] types@[j]).1 <= 5 && types@[j].0
                    != PieceType::King,
            outcomes@.len() == k,
            forall|j: int|
                0 <= j < k ==> {
                    let o = #[trigger] outcomes@[j];
                    let child = b.reveal_child(*mv, types@[j].0);
                    &&& o.piece == types@[j].0
                    &&& o.count == types@[j].1
                    &&& o.eval == child.evaluate(Color::Red)
                    &&& o.fen@ == child.text()
                },
            weight == weight_of(types@, k as int),
            k <= weight <= 5 * k,
            -weight * 99999999 <= total <= weight * 99999999,
            total == b.outcome_sum(*mv, k as int),
        decreases types.len() - k,
    {
        let (piece, count) = types[k];
        assert(types@[k as int] == (piece, count));
        let child = child_of_reveal(board, mv, piece);
        let eval = evaluate(&child, Color::Red);
        let fen = child.to_fen();
        proof {
            assert(-count * 99999999 <= count * eval <= count * 99999999) by (nonlinear_arith)
                requires
                    0 < count <= 5,
                    -99999999 <= eval <= 99999999,
            ;
        }
        total = total + (count as i64) * eval;
        weight = weight + count as i64;
        outcomes.push(ChanceOutcome { piece, count, eval, fen });
        k += 1;
    }
    proof {
        assert(-99999999 <= total as int / weight as int <= 99999999) by (nonlinear_arith)
            requires
                weight > 0,
                -weight * 99999999 <= total <= weight * 99999999,
        ;
    }
    let mean = floor_div(total, weight);
    (outcomes, mean)
}

/// The move `mv` of the side to move on `board`, laid open and given the
/// score `score`.
pub fn describe_move(board: &Board, mv: &JieqiMove, score: i64) -> (r: SearchMoveBasic)
    requires
        board@.searchable(),
        board@.king(board@.turn) is Some,
        board@.sound_move(board@.turn, *mv),
    ensures
        describes(r, board@, *mv, score as int),
{
    let reveal = match mv.action_type {
        ActionType::RevealAndMove => true,
        ActionType::Move => false,
    };
    let has_outcomes = reveal && HiddenPieceDistribution::from_board(
        board,
        board.current_turn(),
    ).possible_types().len() > 0;
    if has_outcomes {
        let (outcomes, mean) = chance_outcomes(board, mv);
        let real_eval = outcomes[0].eval;
        let fen_after = outcomes[0].fen.clone();
        SearchMoveBasic {
            mv: *mv,
            is_chance: true,
            eval: mean,
            score,
            fen_after,
            real_eval,
            chance_breakdown: Some(outcomes),
        }
    } else {
        let child = child_of_move(board, mv);
        let eval = evaluate(&child, Color::Red);
        SearchMoveBasic {
            mv: *mv,
            is_chance: false,
            eval,
            score,
            fen_after: child.to_fen(),
            real_eval: eval,
            chance_breakdown: None,
        }
    }
}

/// The expected static score after move `mv` of the side to move, as Red
/// sees it.
pub fn static_score_after(board: &Board, mv: &JieqiMove) -> (v: i64)
    requires
        board@.searchable(),
        board@.king(board@.turn) is Some,
        board@.sound_move(board@.turn, *mv),
    ensures
        v == board@.static_after(*mv),
        -100000000 < v < 100000000,
{
    let reveal = match mv.action_type {
        ActionType::RevealAndMove => true,
        ActionType::Move => false,
    };
    let has_outcomes = reveal && HiddenPieceDistribution::from_board(
        board,
        board.current_turn(),
    ).possible_types().len() > 0;
    if has_outcomes {
        chance_outcomes(board, mv).1
    } else {
        let child = child_of_move(board, mv);
        evaluate(&child, Color::Red)
    }
}

/// The legal moves of the side to move ranked by the static score after
/// each, as Red sees it.
pub fn static_ranking(board: &Board) -> (r: Vec<ScoredMove>)
    requires
        board@.searchable(),
    ensures
        r@ == ranked(board@.static_scores()),
{
    let moves = board.get_legal_moves(board.current_turn());
    let mut scored: Vec<ScoredMove> = Vec::with_capacity(moves.len());
    let mut i: usize = 0;
    while i < moves.len()
        invariant
            i <= moves.len(),
            board@.searchable(),
            moves@ == board@.legal_moves(board@.turn),
            forall|k: int|
                0 <= k < moves@.len() ==> board@.sound_move(board@.turn, #[trigger] moves@[k]),
            scored@.len() == i,
            forall|k: int|
                0 <= k < i ==> #[trigger] scored@[k] == (ScoredMove {
                    mv: moves@[k],
                    score: board@.static_after(moves@[k]) as i64,
                }),
        decreases moves.len() - i,
    {
        let mv = moves[i];
        assert(board@.sound_move(board@.turn, moves@[i as int]));
        let score = static_score_after(board, &mv);
        scored.push(ScoredMove { mv, score });
        i += 1;
    }
    assert(scored@ =~= board@.static_scores());
    rank_moves(&scored)
}

/// Whether `reports` lays open the entries `from`, `from + step`, ... of
/// the ranking `ranking` of moves on `b`, one report for each.
pub open spec fn reports_match(
    reports: Seq<SearchMoveBasic>,
    b: BoardView,
    ranking: Seq<ScoredMove>,
    from: int,
    step: int,
) -> bool {
    forall|k: int|
        0 <= k < reports.len() ==> {
            let at = from + step * k;
            &&& 0 <= at < ranking.len()
            &&& describes(#[trigger] reports[k], b, ranking[at].mv, ranking[at].score as int)
        }
}

/// Up to `SHOWN_REPLIES` entries of `ranking` laid open, from its best
/// entry downwards or, with `from_worst`, from its worst entry upwards.
#[verifier::rlimit(30)]
fn lay_open(board: &Board, ranking: &Vec<ScoredMove>, from_worst: bool) -> (r: Vec<
    SearchMoveBasic,
>)
    requires
        board@.searchable(),
        forall|k: int|
            0 <= k < ranking@.len() ==> board@.sound_move(
                board@.turn,
                (#[trigger] ranking@[k]).mv,
            ),
    ensures
        r@.len() == (if ranking@.len() < SHOWN_REPLIES {
            ranking@.len()
        } else {
            SHOWN_REPLIES as nat
        }),
        reports_match(
            r@,
            board@,
            ranking@,
            if from_worst {
                ranking@.len() - 1
            } else {
                0
            },
            if from_worst {
                -1
            } else {
                1
            },
        ),
{
    let shown = if ranking.len() < SHOWN_REPLIES {
        ranking.len()
    } else {
        SHOWN_REPLIES
    };
    let mut reports: Vec<SearchMoveBasic> = Vec::with_capacity(shown);
    if shown == 0 {
        return reports;
    }
    proof {
        let first = ranking@[0];
        assert(board@.sound_move(board@.turn, first.mv));
        crate::search::lemma_sound_has_king(board@, board@.turn, first.mv);
    }
    let mut k: usize = 0;
    while k < shown
        invariant
            k <= shown <= ranking.len(),
            shown <= SHOWN_REPLIES,
            board@.searchable(),
            board@.king(board@.turn) is Some,
            forall|j: int|
                0 <= j < ranking@.len() ==> board@.sound_move(
                    board@.turn,
                    (#[trigger] ranking@[j]).mv,
                ),
            reports@.len() == k,
            forall|j: int|
                0 <= j < k ==> {
                    let at = if from_worst {
                        ranking@.len() - 1 - j
                    } else {
                        j
                    };
                    describes(#[trigger] reports@[j], board@, ranking@[at].mv, ranking@[at].score as int)
                },
        decreases shown - k,
    {
        let at = if from_worst {
            ranking.len() - 1 - k
        } else {
            k
        };
        let entry = ranking[at];
        assert(board@.sound_move(board@.turn, ranking@[at as int].mv));
        reports.push(describe_move(board, &entry.mv, entry.score));
        k += 1;
    }
    assert forall|j: int| 0 <= j < reports@.len() implies {
        let at = (if from_worst {
            ranking@.len() - 1
        } else {
            0
        }) + (if from_worst {
            -1int
        } else {
            1int
        }) * j;
        &&& 0 <= at < ranking@.len()
        &&& describes(#[trigger] reports@[j], board@, ranking@[at].mv, ranking@[at].score as int)
    } by {
        if from_worst {
            assert((ranking@.len() - 1) + (-1int) * j == ranking@.len() - 1 - j);
        } else {
            assert(0 + 1int * j == j);
        }
    }
    reports
}


impl BoardView {
    /// The ranking of the replies in this position for a report of a
    /// search to depth `depth` of the position before: by the static
    /// score after each reply where one ply is left, and else by a search
    /// to the plies that are left.
    pub open spec fn reply_ranking(&self, depth: u32) -> Seq<ScoredMove> {
        if depth <= 2 {
            ranked(self.static_scores())
        } else {
            self.ranking(depth_cap((depth - 1) as u32))
        }
    }
}

/// Whether the replies of `info` are those of a report of a search to
/// depth `depth`, where `after` is the position that is shown after the
/// move of `info`: none where the search stops at the move or the
/// position has no legal move, and else up to ten from either end of the
/// ranking of the replies.
pub open spec fn replies_match(info: SearchMoveInfo, after: BoardView, depth: u32) -> bool {
    let ranking = after.reply_ranking(depth);
    if depth <= 1 || after.legal_moves(after.turn).len() == 0 {
        info.opposite_top10 is None && info.opposite_bottom10 is None
    } else {
        &&& info.opposite_top10 matches Some(top) && top@.len() == (if ranking.len()
            < SHOWN_REPLIES {
            ranking.len()
        } else {
            SHOWN_REPLIES as nat
        }) && reports_match(top@, after, ranking, 0, 1)
        &&& info.opposite_bottom10 matches Some(bottom) && bottom@.len() == (if ranking.len()
            < SHOWN_REPLIES {
            ranking.len()
        } else {
            SHOWN_REPLIES as nat
        }) && reports_match(bottom@, after, ranking, ranking.len() - 1, -1)
    }
}

/// The ranking of the legal moves of the side to move on `board` by a
/// search to depth `depth`, without time limit or noise.
fn full_ranking(board: &Board, depth: u32, stats: &mut SearchStats) -> (r: Vec<ScoredMove>)
    requires
        board@.searchable(),
    ensures
        r@ == board@.ranking(depth_cap(depth)),
        drawn_from(r@, board@.legal_moves(board@.turn)),
        final(stats).nodes >= old(stats).nodes,
{
    let config = AIConfig { depth, noise: 0, seed: Some(0), time_limit_ms: None };
    let ai = IT3AI::new(&config);
    let all = board.get_legal_moves(board.current_turn()).len();
    let r = ai.select_moves_counted(board, all, stats);
    proof {
        lemma_ranked(board@.root_scores(depth_cap(depth)));
        assert(r@ =~= board@.ranking(depth_cap(depth)));
    }
    r
}

/// The position that is shown after move `mv` of the side to move.
fn shown_child(board: &Board, mv: &JieqiMove) -> (child: Board)
    requires
        board@.searchable(),
        board@.king(board@.turn) is Some,
        board@.sound_move(board@.turn, *mv),
    ensures
        child@ == board@.shown_after(*mv),
        child@.searchable(),
{
    let reveal = match mv.action_type {
        ActionType::RevealAndMove => true,
        ActionType::Move => false,
    };
    if reveal {
        let types = HiddenPieceDistribution::from_board(
            board,
            board.current_turn(),
        ).possible_types();
        if types.len() > 0 {
            proof {
                lemma_no_king_in_pool(board@, board@.turn);
                lemma_kinds_listed(board@.pool(board@.turn), 7);
            }
            return child_of_reveal(board, mv, types[0].0);
        }
    }
    child_of_move(board, mv)
}

/// The move of the entry `entry` of a ranking of the root `board` laid
/// open for a report of a search to depth `depth`, with its replies.
#[verifier::rlimit(30)]
fn move_info(board: &Board, entry: ScoredMove, depth: u32) -> (info: SearchMoveInfo)
    requires
        board@.searchable(),
        board@.sound_move(board@.turn, entry.mv),
    ensures
        describes(info.basic, board@, entry.mv, entry.score as int),
        replies_match(info, board@.shown_after(entry.mv), depth),
{
    proof {
        crate::search::lemma_sound_has_king(board@, board@.turn, entry.mv);
    }
    let basic = describe_move(board, &entry.mv, entry.score);
    let after = shown_child(board, &entry.mv);
    let has_replies = depth > 1 && after.get_legal_moves(after.current_turn()).len() > 0;
    if !has_replies {
        return SearchMoveInfo { basic, opposite_top10: None, opposite_bottom10: None };
    }
    let replies = reply_ranking(&after, depth);
    let top = lay_open(&after, &replies, false);
    let bottom = lay_open(&after, &replies, true);
    SearchMoveInfo { basic, opposite_top10: Some(top), opposite_bottom10: Some(bottom) }
}

/// The ranking of the replies on `after` for a report of a search to
/// depth `depth` of the position before.
fn reply_ranking(after: &Board, depth: u32) -> (replies: Vec<ScoredMove>)
    requires
        after@.searchable(),
        depth > 1,
    ensures
        replies@ == after@.reply_ranking(depth),
        forall|j: int|
            0 <= j < replies@.len() ==> after@.sound_move(
                after@.turn,
                (#[trigger] replies@[j]).mv,
            ),
{
    let replies = if depth <= 2 {
        let r = static_ranking(after);
        proof {
            let scores = after@.static_scores();
            let legal = after@.legal_moves(after@.turn);
            assert(drawn_from(scores, legal)) by {
                assert forall|j: int| 0 <= j < scores.len() implies legal.contains(
                    (#[trigger] scores[j]).mv,
                ) by {
                    assert(legal[j] == scores[j].mv);
                }
            }
            lemma_ranked_drawn_from(scores, legal);
        }
        r
    } else {
        let mut reply_stats = SearchStats::new();
        full_ranking(after, depth - 1, &mut reply_stats)
    };
    proof {
        lemma_legal_moves_sound(after@, after@.turn);
        assert forall|j: int| 0 <= j < replies@.len() implies after@.sound_move(
            after@.turn,
            (#[trigger] replies@[j]).mv,
        ) by {
            assert(after@.legal_moves(after@.turn).contains(replies@[j].mv));
        }
    }
    replies
}

/// The first two plies of a search of `board` to depth `depth`, laid
/// open: every legal move of the side to move in the order of its
/// ranking, with its score, the static score and the position after it
/// and the outcomes of a reveal; and, where the search goes deeper than
/// the move, the ten best and the ten worst replies.
pub fn search_report(board: &Board, depth: u32) -> (r: SearchReport)
    requires
        board@.searchable(),
    ensures
        r.eval == board@.evaluate(board@.turn),
        r.first_moves@.len() == board@.ranking(depth_cap(depth)).len(),
        forall|k: int|
            0 <= k < r.first_moves@.len() ==> {
                let entry = board@.ranking(depth_cap(depth))[k];
                let info = #[trigger] r.first_moves@[k];
                &&& describes(info.basic, board@, entry.mv, entry.score as int)
                &&& replies_match(info, board@.shown_after(entry.mv), depth)
            },
{
    let ghost b = board@;
    let eval = evaluate(board, board.current_turn());
    let mut stats = SearchStats::new();
    let ranking = full_ranking(board, depth, &mut stats);
    let mut first_moves: Vec<SearchMoveInfo> = Vec::with_capacity(ranking.len());
    proof {
        lemma_legal_moves_sound(b, b.turn);
        assert forall|j: int| 0 <= j < ranking@.len() implies b.sound_move(
            b.turn,
            (#[trigger] ranking@[j]).mv,
        ) by {
            assert(b.legal_moves(b.turn).contains(ranking@[j].mv));
        }
    }
    let mut k: usize = 0;
    while k < ranking.len()
        invariant
            k <= ranking.len(),
            board@ == b,
            b.searchable(),
            forall|j: int|
                0 <= j < ranking@.len() ==> b.sound_move(b.turn, (#[trigger] ranking@[j]).mv),
            first_moves@.len() == k,
            forall|j: int|
                0 <= j < k ==> {
                    let info = #[trigger] first_moves@[j];
                    &&& describes(info.basic, b, ranking@[j].mv, ranking@[j].score as int)
                    &&& replies_match(info, b.shown_after(ranking@[j].mv), depth)
                },
        decreases ranking.len() - k,
    {
        let entry = ranking[k];
        assert(b.sound_move(b.turn, ranking@[k as int].mv));
        let info = move_info(board, entry, depth);
        first_moves.push(info);
        k += 1;
    }
    SearchReport { eval, first_moves, nodes: stats.nodes }
}


} // verus!
