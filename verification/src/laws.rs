//! What holds of the pool and of chance nodes in general.

use vstd::prelude::*;
use vstd::arithmetic::div_mod::lemma_fundamental_div_mod;
use crate::board::BoardView;
use crate::pool::{initial_count, priority, rank};
use crate::pool::{lemma_known_nonnegative, lemma_revealed_nonnegative};
use crate::search::{weight_of, SearchContext};
use crate::eval::{MATE_SCORE, PLY_PENALTY};
use crate::search::{lemma_move_value, lemma_node_value};
use crate::types::{ActionType, Color, GameResult, JieqiMove, PieceType};

verus! {

/// The headroom of a kind lies between nothing and the pieces of the kind
/// that a side starts with.
pub proof fn lemma_headroom_range(b: BoardView, color: Color, t: PieceType)
    ensures
        0 <= b.headroom(color, t) <= initial_count(t) <= 5,
{
    lemma_revealed_nonnegative(b, color, t, 90);
    lemma_known_nonnegative(b.captured(color), t, b.captured(color).len() as int);
}

proof fn lemma_floor_share(a: int, h: int, s: int)
    requires
        0 <= a,
        0 <= h < s,
    ensures
        0 <= a * h / s <= a,
        s * (a * h / s) <= a * h,
{
    assert(0 <= a * h <= a * s) by (nonlinear_arith)
        requires
            0 <= a,
            0 <= h < s,
    ;
    let x = a * h;
    assert(x / s <= a) by (nonlinear_arith)
        requires
            0 <= x <= a * s,
            s > 0,
    ;
    assert(0 <= x / s) by (nonlinear_arith)
        requires
            0 <= x,
            s > 0,
    ;
    lemma_fundamental_div_mod(x, s);
    assert(s * (x / s) <= x) by {
        assert(0 <= x % s) by (nonlinear_arith)
            requires
                s > 0,
        ;
    }
}

/// Pool accounting. The pool of a side never holds more pieces of a kind
/// than its headroom: the pieces that the side starts with, less those
/// that stand face-up on the board and those known to be captured. Where
/// captures of unknown kind reduce the pool, it holds as many pieces as
/// lie face-down on the board; elsewhere it holds the headroom of every
/// kind.
#[verifier::rlimit(30)]
pub proof fn lemma_pool_accounting(b: BoardView, color: Color)
    ensures
        forall|t: PieceType|
            0 <= #[trigger] b.pool_count(color, t) <= b.headroom(color, t) <= initial_count(t),
        b.pool_reduced(color) ==> b.pool(color).size() == b.hidden_count(color),
        !b.pool_reduced(color) ==> forall|t: PieceType| #[trigger]
            b.pool_count(color, t) == b.headroom(color, t),
        b.pool(color).wf(),
{
    crate::pool::lemma_hidden_bound(b, color, 90);
    let h = b.hidden_count(color);
    let s = b.headroom_sum(color);
    lemma_headroom_range(b, color, PieceType::King);
    lemma_headroom_range(b, color, PieceType::Advisor);
    lemma_headroom_range(b, color, PieceType::Elephant);
    lemma_headroom_range(b, color, PieceType::Horse);
    lemma_headroom_range(b, color, PieceType::Rook);
    lemma_headroom_range(b, color, PieceType::Cannon);
    lemma_headroom_range(b, color, PieceType::Pawn);
    if b.pool_reduced(color) {
        lemma_floor_share(b.headroom(color, PieceType::King), h, s);
        lemma_floor_share(b.headroom(color, PieceType::Advisor), h, s);
        lemma_floor_share(b.headroom(color, PieceType::Elephant), h, s);
        lemma_floor_share(b.headroom(color, PieceType::Horse), h, s);
        lemma_floor_share(b.headroom(color, PieceType::Rook), h, s);
        lemma_floor_share(b.headroom(color, PieceType::Cannon), h, s);
        lemma_floor_share(b.headroom(color, PieceType::Pawn), h, s);
        let ak = b.headroom(color, PieceType::King);
        let aa = b.headroom(color, PieceType::Advisor);
        let ae = b.headroom(color, PieceType::Elephant);
        let ah = b.headroom(color, PieceType::Horse);
        let ar = b.headroom(color, PieceType::Rook);
        let ac = b.headroom(color, PieceType::Cannon);
        let ap = b.headroom(color, PieceType::Pawn);
        let fk = b.scaled(color, PieceType::King);
        let fa = b.scaled(color, PieceType::Advisor);
        let fe = b.scaled(color, PieceType::Elephant);
        let fh = b.scaled(color, PieceType::Horse);
        let fr = b.scaled(color, PieceType::Rook);
        let fc = b.scaled(color, PieceType::Cannon);
        let fp = b.scaled(color, PieceType::Pawn);
        let fsum = fk + fa + fe + fh + fr + fc + fp;
        assert(fsum == b.scaled_sum(color));
        assert(s * fsum == s * fk + s * fa + s * fe + s * fh + s * fr + s * fc + s * fp)
            by (nonlinear_arith)
            requires
                fsum == fk + fa + fe + fh + fr + fc + fp,
        ;
        assert(ak * h + aa * h + ae * h + ah * h + ar * h + ac * h + ap * h == h * s)
            by (nonlinear_arith)
            requires
                s == ak + aa + ae + ah + ar + ac + ap,
        ;
        assert(s * fsum <= h * s);
        assert(fsum <= h) by (nonlinear_arith)
            requires
                s * fsum <= h * s,
                s > 0,
        ;
        let l0 = b.left_over(color, 0);
        assert(l0 == h - fsum);
        assert(priority(0) == PieceType::Rook && priority(1) == PieceType::Cannon && priority(2)
            == PieceType::Horse && priority(3) == PieceType::Elephant && priority(4)
            == PieceType::Advisor && priority(5) == PieceType::Pawn);
        let g0 = b.granted(color, 0);
        let l1 = b.left_over(color, 1);
        assert(l1 == l0 - g0);
        let g1 = b.granted(color, 1);
        let l2 = b.left_over(color, 2);
        assert(l2 == l1 - g1);
        let g2 = b.granted(color, 2);
        let l3 = b.left_over(color, 3);
        assert(l3 == l2 - g2);
        let g3 = b.granted(color, 3);
        let l4 = b.left_over(color, 4);
        assert(l4 == l3 - g3);
        let g4 = b.granted(color, 4);
        let l5 = b.left_over(color, 5);
        assert(l5 == l4 - g4);
        let g5 = b.granted(color, 5);
        let l6 = l5 - g5;
        assert(g0 == (if ar - fr < l0 {
            ar - fr
        } else {
            l0
        }));
        assert(g1 == (if ac - fc < l1 {
            ac - fc
        } else {
            l1
        }));
        assert(g2 == (if ah - fh < l2 {
            ah - fh
        } else {
            l2
        }));
        assert(g3 == (if ae - fe < l3 {
            ae - fe
        } else {
            l3
        }));
        assert(g4 == (if aa - fa < l4 {
            aa - fa
        } else {
            l4
        }));
        assert(g5 == (if ap - fp < l5 {
            ap - fp
        } else {
            l5
        }));
        assert(l6 == 0);
        assert(rank(PieceType::Rook) == 0 && rank(PieceType::Cannon) == 1 && rank(PieceType::Horse)
            == 2 && rank(PieceType::Elephant) == 3 && rank(PieceType::Advisor) == 4 && rank(
            PieceType::Pawn,
        ) == 5);
        assert(b.pool_count(color, PieceType::King) == fk);
        assert(b.pool_count(color, PieceType::Advisor) == fa + g4);
        assert(b.pool_count(color, PieceType::Elephant) == fe + g3);
        assert(b.pool_count(color, PieceType::Horse) == fh + g2);
        assert(b.pool_count(color, PieceType::Rook) == fr + g0);
        assert(b.pool_count(color, PieceType::Cannon) == fc + g1);
        assert(b.pool_count(color, PieceType::Pawn) == fp + g5);
    }
    assert forall|t: PieceType|
        0 <= #[trigger] b.pool_count(color, t) <= b.headroom(color, t) <= initial_count(t) by {
        match t {
            PieceType::King => {},
            PieceType::Advisor => {},
            PieceType::Elephant => {},
            PieceType::Horse => {},
            PieceType::Rook => {},
            PieceType::Cannon => {},
            PieceType::Pawn => {},
        }
    }
    let pool = b.pool(color);
    assert(PieceType::spec_from_index(0) == PieceType::King);
    assert(PieceType::spec_from_index(1) == PieceType::Advisor);
    assert(PieceType::spec_from_index(2) == PieceType::Elephant);
    assert(PieceType::spec_from_index(3) == PieceType::Horse);
    assert(PieceType::spec_from_index(4) == PieceType::Rook);
    assert(PieceType::spec_from_index(5) == PieceType::Cannon);
    assert(PieceType::spec_from_index(6) == PieceType::Pawn);
    assert forall|k: int| 0 <= k < 7 implies 0 <= #[trigger] pool.remaining[k] <= 5 by {
        let t = PieceType::spec_from_index(k);
        assert(pool.remaining[k] == b.pool_count(color, t));
        lemma_headroom_range(b, color, t);
    }
}

/// Chance-node expectation. Where the pool of the side to move is not
/// empty, the value of a reveal is the mean of the values of the
/// positions in which the piece has turned out to be of each kind in the
/// pool, each weighted by the count of its kind, rounded down: the value
/// times the sum of the counts is at most the weighted sum, which is
/// less than the value plus one times the sum of the counts.
pub proof fn lemma_chance_expectation(b: BoardView, ctx: SearchContext, mv: JieqiMove)
    requires
        mv.action_type == ActionType::RevealAndMove,
        b.pool(b.turn).possible_types().len() > 0,
    ensures
        ({
            let types = b.pool(b.turn).possible_types();
            let weight = weight_of(types, types.len() as int);
            let sum = b.chance_sum(ctx, mv, types, types.len() as int);
            weight * b.move_value(ctx, mv) <= sum < weight * (b.move_value(ctx, mv) + 1)
        }),
{
    let types = b.pool(b.turn).possible_types();
    let weight = weight_of(types, types.len() as int);
    let sum = b.chance_sum(ctx, mv, types, types.len() as int);
    lemma_pool_accounting(b, b.turn);
    lemma_weight_positive(b.pool(b.turn), 7);
    crate::search::lemma_move_value(b, ctx, mv);
    let v = b.move_value(ctx, mv);
    assert(v == sum / weight);
    lemma_fundamental_div_mod(sum, weight);
    assert(0 <= sum % weight < weight) by (nonlinear_arith)
        requires
            weight > 0,
    ;
    assert(weight * (v + 1) == weight * v + weight) by (nonlinear_arith);
}

/// The kinds that a pool lists weigh at least as much as there are kinds
/// listed, each kind having a piece in the pool.
pub proof fn lemma_weight_positive(pool: crate::pool::PoolView, n: int)
    requires
        pool.wf(),
        0 <= n <= 7,
    ensures
        weight_of(pool.kinds_below(n), pool.kinds_below(n).len() as int) >= pool.kinds_below(
            n,
        ).len(),
    decreases n,
{
    if n > 0 {
        lemma_weight_positive(pool, n - 1);
        let prev = pool.kinds_below(n - 1);
        let cur = pool.kinds_below(n);
        if pool.remaining[n - 1] > 0 {
            assert(cur == prev.push(
                (PieceType::spec_from_index(n - 1), pool.remaining[n - 1] as u8),
            ));
            lemma_weight_prefix(cur, prev, prev.len() as int);
        }
    }
}

proof fn lemma_weight_prefix(
    longer: Seq<(PieceType, u8)>,
    shorter: Seq<(PieceType, u8)>,
    n: int,
)
    requires
        0 <= n <= shorter.len() <= longer.len(),
        forall|k: int| 0 <= k < shorter.len() ==> longer[k] == shorter[k],
    ensures
        weight_of(longer, n) == weight_of(shorter, n),
    decreases n,
{
    if n > 0 {
        lemma_weight_prefix(longer, shorter, n - 1);
    }
}

/// Whether `result` says that `color` has won.
pub open spec fn won_by(result: GameResult, color: Color) -> bool {
    match color {
        Color::Red => result == GameResult::RedWin,
        Color::Black => result == GameResult::BlackWin,
    }
}

/// Mate in one. A plain move of the side to move after which the other
/// side has no legal move and has lost is worth, at the root of a search
/// to any depth, the mate score less the penalty of one ply.
pub proof fn lemma_mate_in_one(b: BoardView, depth: i32, mv: JieqiMove)
    requires
        mv.action_type == ActionType::Move,
        b.make_move(mv).legal_moves(b.make_move(mv).turn).len() == 0,
        won_by(b.make_move(mv).game_result(b.make_move(mv).legal_moves(b.make_move(mv).turn)), b.turn),
    ensures
        b.move_value(SearchContext::root(depth, b.turn), mv) == MATE_SCORE - PLY_PENALTY,
{
    let ctx = SearchContext::root(depth, b.turn);
    lemma_move_value(b, ctx, mv);
    lemma_node_value(b.make_move(mv), ctx.next_ply());
    assert(ctx.next_ply().ply == 1);
}


/// A mate in one is never ranked below another move: where the side to
/// move has a legal plain move after which the other side has no legal
/// move and has lost, the first entry of the ranking of a search to any
/// depth scores at least the mate score less the penalty of one ply.
pub proof fn lemma_mate_in_one_ranks_first(b: BoardView, depth: i32, mv: JieqiMove)
    requires
        b.legal_moves(b.turn).contains(mv),
        mv.action_type == ActionType::Move,
        b.make_move(mv).legal_moves(b.make_move(mv).turn).len() == 0,
        won_by(b.make_move(mv).game_result(b.make_move(mv).legal_moves(b.make_move(mv).turn)), b.turn),
    ensures
        b.ranking(depth).len() > 0,
        b.ranking(depth)[0].score >= MATE_SCORE - PLY_PENALTY,
{
    broadcast use vstd::seq_lib::group_to_multiset_ensures;

    lemma_mate_in_one(b, depth, mv);
    let moves = b.legal_moves(b.turn);
    let scores = b.root_scores(depth);
    let k = choose|k: int| 0 <= k < moves.len() && moves[k] == mv;
    let entry = scores[k];
    assert(entry.mv == mv && entry.score == MATE_SCORE - PLY_PENALTY);
    crate::ranking::lemma_ranked(scores);
    let ranking = b.ranking(depth);
    assert(scores.to_multiset().count(entry) > 0);
    assert(ranking.to_multiset().count(entry) > 0);
    assert(ranking.contains(entry));
    let j = choose|j: int| 0 <= j < ranking.len() && ranking[j] == entry;
    if j > 0 {
        assert(ranking[0].score >= ranking[j].score);
    }
}


} // verus!
