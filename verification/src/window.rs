//! What the window of a search does and does not do: every value of a
//! search lies inside the bound on scores, and under the widest window
//! no move is ever cut off.

use vstd::prelude::*;
use crate::board::{lemma_index_bijection, BoardView};
use crate::eval::{pst_score, pst_table, signed_points, MAX_PLY, PLY_PENALTY};
use crate::laws::lemma_pool_accounting;
use crate::legal::lemma_legal_moves_sound;
use crate::pool::lemma_kinds_listed;
use crate::search::{
    bounded, lemma_best_from, lemma_chance_sum, lemma_move_value, lemma_no_king_in_pool,
    lemma_node_value, lemma_reveal_child, lemma_sound_has_king, lemma_sound_move_searchable,
    move_measure, node_measure, weight_of, SearchContext,
};
use crate::types::{ActionType, Color, JieqiMove, PieceType};

verus! {

/// A face-down piece is expected to be worth between nothing and the
/// discounted value of a king.
pub proof fn lemma_hidden_value_range(b: BoardView, color: Color)
    ensures
        0 <= b.hidden_value(color) <= 80000,
{
    lemma_pool_accounting(b, color);
    let pool = b.pool(color);
    let size = pool.size();
    let worth = pool.worth();
    if size != 0 {
        assert(0 <= worth <= 80000 * size);
        assert(0 <= worth / size <= 80000) by (nonlinear_arith)
            requires
                0 <= worth <= 80000 * size,
                size > 0,
        ;
    }
}

/// Every entry of the tables lies between 0 and 50.
pub proof fn lemma_pst_range(t: PieceType, row: int, col: int, is_red: bool)
    requires
        0 <= row < 10,
        0 <= col < 9,
    ensures
        0 <= pst_score(t, row, col, is_red) <= 50,
{
    let table = pst_table(t);
    assert(forall|i: int, j: int| 0 <= i < 10 && 0 <= j < 9 ==> 0 <= #[trigger] table[i][j] <= 50);
}

/// The balance over the pieces stays within 100050 points a square.
pub proof fn lemma_points_range(b: BoardView, n: int)
    requires
        b.inv(),
        0 <= n <= 90,
    ensures
        -100050 * n <= b.points_below(n) <= 100050 * n,
    decreases n,
{
    lemma_hidden_value_range(b, Color::Red);
    lemma_hidden_value_range(b, Color::Black);
    if n > 0 {
        lemma_points_range(b, n - 1);
        lemma_index_bijection();
        if b.squares[n - 1] is Some {
            let p = b.squares[n - 1]->0;
            assert(p.position.is_valid());
            if !p.is_hidden && p.actual_type is Some {
                lemma_pst_range(
                    p.actual_type->0,
                    p.position.row as int,
                    p.position.col as int,
                    p.color == Color::Red,
                );
            }
            assert(-100050 <= signed_points(
                p,
                b.hidden_value(Color::Red),
                b.hidden_value(Color::Black),
            ) <= 100050);
        }
    }
}

/// The best capture is worth between nothing and what a face-down piece
/// can be worth at most.
pub proof fn lemma_best_gain_range(b: BoardView, moves: Seq<JieqiMove>, victim_ev: int, n: int)
    requires
        0 <= victim_ev <= 80000,
    ensures
        0 <= b.best_gain_among(moves, victim_ev, n) <= 80000,
    decreases n,
{
    if n > 0 {
        lemma_best_gain_range(b, moves, victim_ev, n - 1);
    }
}

/// The static score lies inside the bound on scores.
pub proof fn lemma_evaluate_bounded(b: BoardView, color: Color)
    requires
        b.inv(),
    ensures
        bounded(b.evaluate(color)),
{
    lemma_hidden_value_range(b, Color::Red);
    lemma_hidden_value_range(b, Color::Black);
    lemma_points_range(b, 90);
    let red_moves = b.legal_moves(Color::Red);
    let black_moves = b.legal_moves(Color::Black);
    lemma_best_gain_range(b, red_moves, b.hidden_value(Color::Black), red_moves.len() as int);
    lemma_best_gain_range(b, black_moves, b.hidden_value(Color::Red), black_moves.len() as int);
}

/// The terminal value lies inside the bound on scores.
pub proof fn lemma_terminal_bounded(b: BoardView, color: Color, ply: int)
    requires
        b.inv(),
        0 <= ply < MAX_PLY,
    ensures
        bounded(b.terminal_value(color, ply)),
{
    lemma_evaluate_bounded(b, color);
    assert(0 <= ply * PLY_PENALTY <= 1000000) by (nonlinear_arith)
        requires
            0 <= ply < 10000,
            PLY_PENALTY == 100,
    ;
}

/// Whether `moves` holds only moves that the side to move may make.
pub open spec fn all_sound(b: BoardView, moves: Seq<JieqiMove>) -> bool {
    forall|k: int| 0 <= k < moves.len() ==> b.sound_move(b.turn, #[trigger] moves[k])
}

/// The value that a side starts from when it looks for its best move.
pub open spec fn worst(maximize: bool) -> int {
    if maximize {
        i64::MIN as int
    } else {
        i64::MAX as int
    }
}

/// The value of a node lies inside the bound on scores.
pub proof fn lemma_node_bounded(b: BoardView, ctx: SearchContext)
    requires
        b.searchable(),
        ctx.in_range(),
    ensures
        bounded(b.node_value(ctx)),
    decreases node_measure(ctx.depth), 0int, 0int,
{
    lemma_node_value(b, ctx);
    let moves = b.legal_moves(b.turn);
    if ctx.depth <= 0 || moves.len() == 0 {
        lemma_terminal_bounded(b, ctx.pov_color, ctx.ply as int);
    } else {
        lemma_legal_moves_sound(b, b.turn);
        assert(all_sound(b, moves)) by {
            assert forall|k: int| 0 <= k < moves.len() implies b.sound_move(
                b.turn,
                #[trigger] moves[k],
            ) by {
                assert(moves.contains(moves[k]));
            }
        }
        let maximize = b.turn == ctx.pov_color;
        lemma_best_bounded(b, ctx, moves, 0, maximize, worst(maximize));
    }
}

/// The best value over moves lies inside the bound on scores.
pub proof fn lemma_best_bounded(
    b: BoardView,
    ctx: SearchContext,
    moves: Seq<JieqiMove>,
    i: int,
    maximize: bool,
    best: int,
)
    requires
        b.searchable(),
        ctx.in_range(),
        ctx.depth > 0,
        all_sound(b, moves),
        0 <= i <= moves.len(),
        bounded(best) || (i < moves.len() && best == worst(maximize)),
    ensures
        bounded(b.best_from(ctx, moves, i, maximize, best)),
    decreases move_measure(ctx.depth), 2int, moves.len() - i,
{
    lemma_best_from(b, ctx, moves, i, maximize, best);
    if i < moves.len() {
        assert(b.sound_move(b.turn, moves[i]));
        lemma_move_bounded(b, ctx, moves[i]);
        let v = b.move_value(ctx, moves[i]);
        let m = if maximize {
            if v > best {
                v
            } else {
                best
            }
        } else {
            if v < best {
                v
            } else {
                best
            }
        };
        assert(bounded(m));
        lemma_best_bounded(b, ctx, moves, i + 1, maximize, m);
    }
}

/// The value of a move lies inside the bound on scores.
pub proof fn lemma_move_bounded(b: BoardView, ctx: SearchContext, mv: JieqiMove)
    requires
        b.searchable(),
        ctx.in_range(),
        ctx.ply + 1 < MAX_PLY,
        b.sound_move(b.turn, mv),
    ensures
        bounded(b.move_value(ctx, mv)),
    decreases move_measure(ctx.depth), 1int, 0int,
{
    lemma_move_value(b, ctx, mv);
    lemma_sound_has_king(b, b.turn, mv);
    let types = b.pool(b.turn).possible_types();
    if mv.action_type == ActionType::RevealAndMove && types.len() > 0 {
        let n = types.len() as int;
        lemma_chance_bounded(b, ctx, mv, n);
        let sum = b.chance_sum(ctx, mv, types, n);
        let weight = weight_of(types, n);
        assert(-99999999 <= sum / weight <= 99999999) by (nonlinear_arith)
            requires
                weight > 0,
                -weight * 99999999 <= sum <= weight * 99999999,
        ;
    } else {
        lemma_sound_move_searchable(b, b.turn, mv);
        lemma_node_bounded(b.make_move(mv), ctx.next_ply());
    }
}

/// The weighted sum at a chance node lies within the bound on scores
/// times the weight of the kinds that were summed.
pub proof fn lemma_chance_bounded(b: BoardView, ctx: SearchContext, mv: JieqiMove, n: int)
    requires
        b.searchable(),
        b.king(b.turn) is Some,
        ctx.in_range(),
        ctx.ply + 1 < MAX_PLY,
        b.sound_move(b.turn, mv),
        mv.action_type == ActionType::RevealAndMove,
        0 <= n <= b.pool(b.turn).possible_types().len(),
    ensures
        ({
            let types = b.pool(b.turn).possible_types();
            let weight = weight_of(types, n);
            &&& n <= weight
            &&& -weight * 99999999 <= b.chance_sum(ctx, mv, types, n) <= weight * 99999999
        }),
    decreases move_measure(ctx.depth), 0int, n,
{
    let types = b.pool(b.turn).possible_types();
    lemma_chance_sum(b, ctx, mv, types, n);
    if n > 0 {
        lemma_chance_bounded(b, ctx, mv, n - 1);
        lemma_pool_accounting(b, b.turn);
        lemma_no_king_in_pool(b, b.turn);
        lemma_kinds_listed(b.pool(b.turn), 7);
        let entry = types[n - 1];
        assert(0 < entry.1 <= 5 && entry.0 != PieceType::King);
        lemma_reveal_child(b, b.turn, mv, entry.0);
        let child = b.reveal_child(mv, entry.0);
        lemma_node_bounded(child, ctx.next_ply());
        let v = child.node_value(ctx.next_ply());
        let count = entry.1 as int;
        assert(-count * 99999999 <= count * v <= count * 99999999) by (nonlinear_arith)
            requires
                0 < count <= 5,
                -99999999 <= v <= 99999999,
        ;
    }
}

/// The best value over `moves` from index `i` on, where `best` is the
/// best over those before: the greatest if `maximize`, else the least,
/// with every move looked at.
pub open spec fn best_of(
    b: BoardView,
    ctx: SearchContext,
    moves: Seq<JieqiMove>,
    i: int,
    maximize: bool,
    best: int,
) -> int
    decreases moves.len() - i,
{
    if i < 0 || i >= moves.len() {
        best
    } else {
        let v = b.move_value(ctx, moves[i]);
        let m = if maximize {
            if v > best {
                v
            } else {
                best
            }
        } else {
            if v < best {
                v
            } else {
                best
            }
        };
        best_of(b, ctx, moves, i + 1, maximize, m)
    }
}

/// Looking at every move gives a value that is at least as good as the
/// value to start from and the value of each move, and that is one of
/// them.
pub proof fn lemma_best_of(
    b: BoardView,
    ctx: SearchContext,
    moves: Seq<JieqiMove>,
    i: int,
    maximize: bool,
    best: int,
)
    requires
        0 <= i <= moves.len(),
    ensures
        ({
            let r = best_of(b, ctx, moves, i, maximize, best);
            &&& if maximize {
                r >= best
            } else {
                r <= best
            }
            &&& forall|k: int|
                i <= k < moves.len() ==> if maximize {
                    r >= b.move_value(ctx, #[trigger] moves[k])
                } else {
                    r <= b.move_value(ctx, moves[k])
                }
            &&& r == best || exists|k: int|
                i <= k < moves.len() && r == b.move_value(ctx, #[trigger] moves[k])
        }),
    decreases moves.len() - i,
{
    if i < moves.len() {
        let v = b.move_value(ctx, moves[i]);
        let m = if maximize {
            if v > best {
                v
            } else {
                best
            }
        } else {
            if v < best {
                v
            } else {
                best
            }
        };
        lemma_best_of(b, ctx, moves, i + 1, maximize, m);
        let r = best_of(b, ctx, moves, i, maximize, best);
        if r != best {
            if r == m {
                assert(r == b.move_value(ctx, moves[i]));
            } else {
                let k = choose|k: int|
                    i + 1 <= k < moves.len() && r == b.move_value(ctx, #[trigger] moves[k]);
                assert(i <= k < moves.len() && r == b.move_value(ctx, moves[k]));
            }
        }
    }
}

/// Under the widest window no move is cut off: the best value over the
/// moves is the best over all of them.
pub proof fn lemma_no_cutoff(
    b: BoardView,
    ctx: SearchContext,
    moves: Seq<JieqiMove>,
    i: int,
    maximize: bool,
    best: int,
)
    requires
        b.searchable(),
        ctx.in_range(),
        ctx.depth > 0,
        ctx.alpha == i64::MIN,
        ctx.beta == i64::MAX,
        all_sound(b, moves),
        0 <= i <= moves.len(),
        bounded(best) || best == worst(maximize),
    ensures
        b.best_from(ctx, moves, i, maximize, best) == best_of(b, ctx, moves, i, maximize, best),
    decreases moves.len() - i,
{
    lemma_best_from(b, ctx, moves, i, maximize, best);
    if i < moves.len() {
        assert(b.sound_move(b.turn, moves[i]));
        lemma_move_bounded(b, ctx, moves[i]);
        let v = b.move_value(ctx, moves[i]);
        let m = if maximize {
            if v > best {
                v
            } else {
                best
            }
        } else {
            if v < best {
                v
            } else {
                best
            }
        };
        assert(bounded(m));
        lemma_no_cutoff(b, ctx, moves, i + 1, maximize, m);
    }
}

/// The widest window. Where the search starts with the widest window,
/// the value of a node at which moves are searched is, for the side from
/// whose point of view the scores are taken, the greatest of the values
/// of the legal moves, and for the other side the least: it is the value
/// of one of the moves, and no move has a better one.
pub proof fn lemma_widest_window(b: BoardView, ctx: SearchContext)
    requires
        b.searchable(),
        ctx.in_range(),
        ctx.alpha == i64::MIN,
        ctx.beta == i64::MAX,
        ctx.depth > 0,
        b.legal_moves(b.turn).len() > 0,
    ensures
        exists|k: int|
            0 <= k < b.legal_moves(b.turn).len() && b.node_value(ctx) == b.move_value(
                ctx,
                #[trigger] b.legal_moves(b.turn)[k],
            ),
        forall|k: int|
            0 <= k < b.legal_moves(b.turn).len() ==> if b.turn == ctx.pov_color {
                b.node_value(ctx) >= b.move_value(ctx, #[trigger] b.legal_moves(b.turn)[k])
            } else {
                b.node_value(ctx) <= b.move_value(ctx, b.legal_moves(b.turn)[k])
            },
{
    let moves = b.legal_moves(b.turn);
    let maximize = b.turn == ctx.pov_color;
    lemma_node_value(b, ctx);
    lemma_legal_moves_sound(b, b.turn);
    assert(all_sound(b, moves)) by {
        assert forall|k: int| 0 <= k < moves.len() implies b.sound_move(
            b.turn,
            #[trigger] moves[k],
        ) by {
            assert(moves.contains(moves[k]));
        }
    }
    lemma_no_cutoff(b, ctx, moves, 0, maximize, worst(maximize));
    lemma_best_of(b, ctx, moves, 0, maximize, worst(maximize));
    lemma_node_bounded(b, ctx);
}

} // verus!
