//! The expectimax engine: a depth-limited search from a fixed point of
//! view, with the reveal of a face-down piece as a chance node, deepened
//! step by step under a depth or time limit.

use vstd::prelude::*;
use vstd::arithmetic::div_mod::lemma_fundamental_div_mod_converse;
use rand::Rng;
use rand::SeedableRng;
use crate::board::{lemma_index_bijection, lemma_make_move_wf, lemma_make_undo, Board, BoardView};
use crate::eval::{evaluate, terminal_eval, MAX_PLY, SCORE_BOUND};
use crate::pool::{lemma_kinds_listed, lemma_revealed_counted, HiddenPieceDistribution};
use crate::ranking::{
    lemma_ranked, lemma_ranked_keeps_order, lemma_ranked_moves, moves_of, raised_below, rank_moves,
    ranked, ranks_all, sort_and_truncate, ScoredMove,
};
use crate::types::{ActionType, Color, JieqiMove, PieceType, Position};

verus! {

/// `std::time::Instant`: a moment, carried through without a look
/// inside.
#[verifier::external_type_specification]
#[verifier::external_body]
pub struct ExInstant(std::time::Instant);

/// `rand::rngs::StdRng`: a generator of random numbers, carried through
/// without a look inside.
#[verifier::external_type_specification]
#[verifier::external_body]
pub struct ExStdRng(rand::rngs::StdRng);

/// `std::time::Instant::now`: the present moment. Nothing is claimed of
/// it.
#[verifier::external_body]
fn clock_now() -> std::time::Instant {
    std::time::Instant::now()
}

/// `std::time::Instant::elapsed` with `Duration::as_millis`: the whole
/// milliseconds that have passed since `start`. Nothing is claimed of the
/// number.
#[verifier::external_body]
fn elapsed_millis(start: &std::time::Instant) -> u128 {
    start.elapsed().as_millis()
}

/// `rand::SeedableRng::seed_from_u64` for `StdRng`: a generator made from
/// a seed. Nothing is claimed of what it will draw.
#[verifier::external_body]
fn seeded_rng(seed: u64) -> rand::rngs::StdRng {
    rand::rngs::StdRng::seed_from_u64(seed)
}

/// `rand::SeedableRng::from_rng` for `StdRng`, on `rand::rngs::OsRng`: a
/// generator seeded by the operating system, or `None` where the
/// operating system has no randomness to give. Nothing is claimed of
/// which of the two comes back, nor of what the generator will draw.
#[verifier::external_body]
fn os_seeded_rng() -> Option<rand::rngs::StdRng> {
    rand::rngs::StdRng::from_rng(rand::rngs::OsRng).ok()
}

/// The seed that is used where none is given and the operating system
/// has no randomness to give.
pub const FALLBACK_SEED: u64 = 0;

/// A generator made from `seed`, or where `seed` is `None` one seeded by
/// the operating system, or by the fallback seed where the operating
/// system has no randomness to give.
fn fresh_rng(seed: Option<u64>) -> rand::rngs::StdRng {
    match seed {
        Some(s) => seeded_rng(s),
        None => match os_seeded_rng() {
            Some(rng) => rng,
            None => seeded_rng(FALLBACK_SEED),
        },
    }
}

/// `Clone::clone` for `StdRng`: a generator in the same state. Nothing is
/// claimed of it.
#[verifier::external_body]
fn clone_rng(rng: &rand::rngs::StdRng) -> rand::rngs::StdRng {
    rng.clone()
}

/// `rand::Rng::gen_range` on `0..bound`: a number below `bound`, which
/// must not be zero since the call refuses an empty range.
#[verifier::external_body]
fn draw_below(rng: &mut rand::rngs::StdRng, bound: u32) -> (r: u32)
    requires
        bound > 0,
    ensures
        r < bound,
{
    rng.gen_range(0..bound)
}

/// `rand::Rng::gen` for `u32`: any number. Nothing is claimed of it.
#[verifier::external_body]
fn draw_any(rng: &mut rand::rngs::StdRng) -> u32 {
    rng.gen::<u32>()
}

/// How far and how long an engine searches.
#[derive(Debug, Clone, Copy)]
pub struct AIConfig {
    /// The depth to search to, in plies, where no time limit is set.
    pub depth: u32,
    /// The bound below which noise is added to each score, in tenths of
    /// a point; zero for none.
    pub noise: u32,
    /// The seed of the random numbers; `None` to take it from the
    /// operating system.
    pub seed: Option<u64>,
    /// The time to search for, in milliseconds; `None` for no limit.
    pub time_limit_ms: Option<u64>,
}

impl Default for AIConfig {
    fn default() -> (c: AIConfig)
        ensures
            c.depth == 3,
            c.noise == 0,
            c.seed is None,
            c.time_limit_ms is None,
    {
        AIConfig { depth: 3, noise: 0, seed: None, time_limit_ms: None }
    }
}

/// The greatest depth that a search under a time limit deepens to.
pub const TIMED_DEPTH: u32 = 50;

/// The number of depths for which visited nodes are counted apart.
pub const COUNTED_DEPTHS: usize = 50;

/// What a search reports of its own course, for diagnostics.
#[derive(Debug)]
pub struct SearchStats {
    /// The nodes visited.
    pub nodes: u64,
    /// The greatest depth that was searched completely.
    pub depth_reached: u32,
    /// The nodes visited at each depth.
    pub depth_nodes: Vec<u64>,
}

impl SearchStats {
    /// Counters that all stand at zero.
    pub fn new() -> (s: SearchStats)
        ensures
            s.nodes == 0,
            s.depth_reached == 0,
            s.depth_nodes@ == Seq::new(COUNTED_DEPTHS as nat, |i: int| 0u64),
    {
        let mut depth_nodes: Vec<u64> = Vec::with_capacity(COUNTED_DEPTHS);
        let mut i: usize = 0;
        while i < COUNTED_DEPTHS
            invariant
                i <= COUNTED_DEPTHS,
                depth_nodes@ == Seq::new(i as nat, |i: int| 0u64),
            decreases COUNTED_DEPTHS - i,
        {
            depth_nodes.push(0);
            assert(depth_nodes@ =~= Seq::new((i + 1) as nat, |i: int| 0u64));
            i += 1;
        }
        SearchStats { nodes: 0, depth_reached: 0, depth_nodes }
    }
}

/// Sets the count of visited nodes to zero.
pub fn reset_node_count(stats: &mut SearchStats)
    ensures
        final(stats).nodes == 0,
        final(stats).depth_reached == old(stats).depth_reached,
        final(stats).depth_nodes == old(stats).depth_nodes,
{
    stats.nodes = 0;
}

/// The count of visited nodes.
pub fn get_node_count(stats: &SearchStats) -> (n: u64)
    ensures
        n == stats.nodes,
{
    stats.nodes
}

/// Sets the depth reached to zero.
pub fn reset_depth_reached(stats: &mut SearchStats)
    ensures
        final(stats).depth_reached == 0,
        final(stats).nodes == old(stats).nodes,
        final(stats).depth_nodes == old(stats).depth_nodes,
{
    stats.depth_reached = 0;
}

/// The greatest depth that was searched completely.
pub fn get_depth_reached(stats: &SearchStats) -> (d: u32)
    ensures
        d == stats.depth_reached,
{
    stats.depth_reached
}

/// Sets the node count of every depth to zero.
pub fn reset_depth_nodes(stats: &mut SearchStats)
    ensures
        final(stats).depth_nodes@ == Seq::new(old(stats).depth_nodes@.len(), |i: int| 0u64),
        final(stats).nodes == old(stats).nodes,
        final(stats).depth_reached == old(stats).depth_reached,
{
    let n = stats.depth_nodes.len();
    let mut cleared: Vec<u64> = Vec::with_capacity(n);
    let mut i: usize = 0;
    while i < n
        invariant
            i <= n,
            cleared@ == Seq::new(i as nat, |i: int| 0u64),
        decreases n - i,
    {
        cleared.push(0);
        assert(cleared@ =~= Seq::new((i + 1) as nat, |i: int| 0u64));
        i += 1;
    }
    stats.depth_nodes = cleared;
}

/// Counts one more node at depth `depth`; depths that are not counted
/// apart, and counts that are full, stay as they are.
pub fn add_depth_node(stats: &mut SearchStats, depth: usize)
    ensures
        final(stats).nodes == old(stats).nodes,
        final(stats).depth_reached == old(stats).depth_reached,
        final(stats).depth_nodes@ == if depth < old(stats).depth_nodes@.len() && old(
            stats,
        ).depth_nodes@[depth as int] < u64::MAX {
            old(stats).depth_nodes@.update(
                depth as int,
                (old(stats).depth_nodes@[depth as int] + 1) as u64,
            )
        } else {
            old(stats).depth_nodes@
        },
{
    if depth < stats.depth_nodes.len() {
        let n = stats.depth_nodes[depth];
        if n < u64::MAX {
            stats.depth_nodes.set(depth, n + 1);
        }
    }
}

/// The depths below `n` at which nodes were counted, each with its count,
/// in ascending order.
pub open spec fn counted_below(counts: Seq<u64>, n: int) -> Seq<(usize, u64)>
    decreases n,
{
    if n <= 0 {
        Seq::empty()
    } else if counts[n - 1] > 0 {
        counted_below(counts, n - 1).push(((n - 1) as usize, counts[n - 1]))
    } else {
        counted_below(counts, n - 1)
    }
}

/// The depths at which nodes were counted, each with its count.
pub fn get_depth_nodes_stats(stats: &SearchStats) -> (r: Vec<(usize, u64)>)
    ensures
        r@ == counted_below(stats.depth_nodes@, stats.depth_nodes@.len() as int),
{
    let mut r: Vec<(usize, u64)> = Vec::new();
    let mut i: usize = 0;
    while i < stats.depth_nodes.len()
        invariant
            i <= stats.depth_nodes.len(),
            r@ == counted_below(stats.depth_nodes@, i as int),
        decreases stats.depth_nodes.len() - i,
    {
        let count = stats.depth_nodes[i];
        if count > 0 {
            r.push((i, count));
        }
        i += 1;
    }
    r
}

/// Where a search stands: the depth still to go, the plies made from the
/// root, the window of scores, and the side from whose point of view the
/// scores are taken.
#[derive(Debug, Clone, Copy)]
pub struct SearchContext {
    pub depth: i32,
    pub ply: i32,
    pub alpha: i64,
    pub beta: i64,
    pub pov_color: Color,
}

impl SearchContext {
    /// The context of a root: no plies made, the widest window.
    pub open spec fn root(depth: i32, pov_color: Color) -> SearchContext {
        SearchContext { depth, ply: 0, alpha: i64::MIN, beta: i64::MAX, pov_color }
    }

    /// The context of a root.
    pub fn new(depth: i32, pov_color: Color) -> (c: SearchContext)
        ensures
            c == SearchContext::root(depth, pov_color),
    {
        SearchContext { depth, ply: 0, alpha: i64::MIN, beta: i64::MAX, pov_color }
    }

    /// The context one ply further down: one less to go, one more made,
    /// the same window and point of view.
    pub open spec fn spec_next_ply(&self) -> SearchContext {
        SearchContext {
            depth: if self.depth > i32::MIN {
                (self.depth - 1) as i32
            } else {
                self.depth
            },
            ply: if self.ply < i32::MAX {
                (self.ply + 1) as i32
            } else {
                self.ply
            },
            ..*self
        }
    }

    /// The context one ply further down.
    #[verifier::when_used_as_spec(spec_next_ply)]
    pub fn next_ply(&self) -> (c: SearchContext)
        ensures
            c == self.spec_next_ply(),
    {
        SearchContext {
            depth: if self.depth > i32::MIN {
                self.depth - 1
            } else {
                self.depth
            },
            ply: if self.ply < i32::MAX {
                self.ply + 1
            } else {
                self.ply
            },
            alpha: self.alpha,
            beta: self.beta,
            pov_color: self.pov_color,
        }
    }

    /// Whether a search may start from this context: the plies made and
    /// those still to go stay below the bound on plies.
    pub open spec fn in_range(&self) -> bool {
        0 <= self.ply && self.ply + (if self.depth > 0 {
            self.depth as int
        } else {
            0
        }) < MAX_PLY
    }
}

/// The measure by which the value of a node with `depth` to go is
/// defined.
pub open spec fn node_measure(depth: i32) -> int {
    if depth > 0 {
        2 * depth
    } else {
        0
    }
}

/// The measure by which the value of a move at a node with `depth` to go
/// is defined.
pub open spec fn move_measure(depth: i32) -> int {
    if depth > 0 {
        2 * depth - 1
    } else {
        1
    }
}

/// The move `mv` as a plain move.
pub open spec fn plain(mv: JieqiMove) -> JieqiMove {
    JieqiMove { action_type: ActionType::Move, ..mv }
}

/// The greatest of `vals` if `maximize`, else the least.
pub open spec fn pick(vals: Seq<int>, maximize: bool) -> int
    decreases vals.len(),
{
    if vals.len() == 0 {
        0
    } else if vals.len() == 1 {
        vals[0]
    } else {
        let rest = pick(vals.drop_last(), maximize);
        if (maximize && vals.last() > rest) || (!maximize && vals.last() < rest) {
            vals.last()
        } else {
            rest
        }
    }
}

/// The sum of the first `n` of `vals`, each times the count of its kind
/// in `types`.
pub open spec fn weighted_sum(types: Seq<(PieceType, u8)>, vals: Seq<int>, n: int) -> int
    decreases n,
{
    if n <= 0 {
        0
    } else {
        weighted_sum(types, vals, n - 1) + types[n - 1].1 * vals[n - 1]
    }
}

/// Picking among values with one more value picks between what was
/// picked before and the new value.
pub proof fn lemma_pick_push(vals: Seq<int>, v: int, maximize: bool)
    ensures
        pick(vals.push(v), maximize) == if vals.len() == 0 {
            v
        } else if (maximize && v > pick(vals, maximize)) || (!maximize && v < pick(
            vals,
            maximize,
        )) {
            v
        } else {
            pick(vals, maximize)
        },
{
    assert(vals.push(v).drop_last() =~= vals);
}

/// The weighted sum of the first values does not change where a value
/// is added behind them.
pub proof fn lemma_weighted_sum_push(types: Seq<(PieceType, u8)>, vals: Seq<int>, v: int, n: int)
    requires
        0 <= n <= vals.len(),
    ensures
        weighted_sum(types, vals.push(v), n) == weighted_sum(types, vals, n),
    decreases n,
{
    if n > 0 {
        lemma_weighted_sum_push(types, vals, v, n - 1);
    }
}

/// The sum of the counts of the first `n` of `types`.
pub open spec fn weight_of(types: Seq<(PieceType, u8)>, n: int) -> int
    decreases n,
{
    if n <= 0 {
        0
    } else {
        weight_of(types, n - 1) + types[n - 1].1
    }
}

impl BoardView {
    /// Whether no face-down piece moves as a king.
    pub open spec fn kings_revealed(&self) -> bool {
        forall|i: int|
            0 <= i < 90 ==> (#[trigger] self.squares[i] matches Some(p) ==> !(p.is_hidden
                && p.movement_type == Some(PieceType::King)))
    }

    /// Whether the board can be searched: it can be played on and its
    /// kings are face-up.
    pub open spec fn searchable(&self) -> bool {
        self.wf() && self.kings_revealed()
    }

    /// The board after the face-down piece that `mv` moves has turned out
    /// to be of kind `t` and has made the move.
    pub open spec fn reveal_child(&self, mv: JieqiMove, t: PieceType) -> BoardView {
        self.simulate_reveal(mv.from_pos, t).make_move(plain(mv))
    }

    /// The value of the position for the side `ctx.pov_color`, searched as
    /// `ctx` says. With nothing left to go, or no legal move, it is the
    /// terminal value. Else the side to move picks among its legal moves
    /// in their order: the point-of-view side the greatest value, the
    /// other side the least.
    pub open spec fn node_value(&self, ctx: SearchContext) -> int
        decreases node_measure(ctx.depth), 0int, 0int,
    {
        let moves = self.legal_moves(self.turn);
        if ctx.depth <= 0 || moves.len() == 0 {
            self.terminal_value(ctx.pov_color, ctx.ply as int)
        } else if self.turn == ctx.pov_color {
            self.best_from(ctx, moves, 0, true, i64::MIN as int)
        } else {
            self.best_from(ctx, moves, 0, false, i64::MAX as int)
        }
    }

    /// The best value over `moves` from index `i` on, where `best` is the
    /// best over those before: the greatest if `maximize`, else the
    /// least. The moves are taken in their order, and no further move is
    /// looked at once the best value has reached the far edge of the
    /// window.
    pub open spec fn best_from(
        &self,
        ctx: SearchContext,
        moves: Seq<JieqiMove>,
        i: int,
        maximize: bool,
        best: int,
    ) -> int
        decreases move_measure(ctx.depth), 2int, moves.len() - i,
    {
        if i < 0 || i >= moves.len() {
            best
        } else {
            let v = self.move_value(ctx, moves[i]);
            if maximize {
                let m = if v > best {
                    v
                } else {
                    best
                };
                if m >= ctx.beta {
                    m
                } else {
                    self.best_from(ctx, moves, i + 1, maximize, m)
                }
            } else {
                let m = if v < best {
                    v
                } else {
                    best
                };
                if m <= ctx.alpha {
                    m
                } else {
                    self.best_from(ctx, moves, i + 1, maximize, m)
                }
            }
        }
    }

    /// The value of move `mv` at a node searched as `ctx` says. A plain
    /// move has the value of the position it leads to. A reveal has the
    /// expectation over the pool of the side to move: for each kind in
    /// the pool the value of the position in which the piece has turned
    /// out to be of that kind, weighted by the kind's count; the sum is
    /// divided by the sum of the counts and rounded down.
    pub open spec fn move_value(&self, ctx: SearchContext, mv: JieqiMove) -> int
        decreases move_measure(ctx.depth), 1int, 0int,
    {
        let types = self.pool(self.turn).possible_types();
        if mv.action_type == ActionType::RevealAndMove && types.len() > 0 {
            self.chance_sum(ctx, mv, types, types.len() as int) / weight_of(
                types,
                types.len() as int,
            )
        } else {
            self.make_move(mv).node_value(ctx.next_ply())
        }
    }

    /// The sum over the first `n` of `types` of the value of the position
    /// in which the piece that `mv` moves has turned out to be of the
    /// kind, times the count of the kind.
    pub open spec fn chance_sum(
        &self,
        ctx: SearchContext,
        mv: JieqiMove,
        types: Seq<(PieceType, u8)>,
        n: int,
    ) -> int
        decreases move_measure(ctx.depth), 0int, n,
    {
        if n <= 0 {
            0
        } else {
            self.chance_sum(ctx, mv, types, n - 1) + types[n - 1].1 * self.reveal_child(
                mv,
                types[n - 1].0,
            ).node_value(ctx.next_ply())
        }
    }

    /// Whether `v` is a value that a search of this position as `ctx` says
    /// may give under a time limit. At each node the time may have
    /// passed: the node then has its static score. Else it has its
    /// terminal value, or the value picked among the values that the
    /// search may give to its moves.
    pub open spec fn node_gives(&self, ctx: SearchContext, v: int) -> bool
        decreases node_measure(ctx.depth), 0int, 0int,
    {
        let moves = self.legal_moves(self.turn);
        if v == self.evaluate(ctx.pov_color) {
            true
        } else if ctx.depth <= 0 || moves.len() == 0 {
            v == self.terminal_value(ctx.pov_color, ctx.ply as int)
        } else {
            exists|vals: Seq<int>|
                1 <= #[trigger] vals.len() && self.picked_from(ctx, moves, vals, v)
        }
    }

    /// Whether `v` is picked among `vals`, values that a search under a
    /// time limit may give to the first of `moves` in their order: the
    /// greatest for the point-of-view side, the least for the other. A
    /// move is left out only where the value picked has reached the far
    /// edge of the window.
    pub open spec fn picked_from(
        &self,
        ctx: SearchContext,
        moves: Seq<JieqiMove>,
        vals: Seq<int>,
        v: int,
    ) -> bool
        decreases move_measure(ctx.depth), 2int, 0int,
    {
        let maximize = self.turn == ctx.pov_color;
        &&& 1 <= vals.len() <= moves.len()
        &&& forall|k: int|
            0 <= k < vals.len() ==> self.move_gives(ctx, moves[k], #[trigger] vals[k])
        &&& v == pick(vals, maximize)
        &&& vals.len() < moves.len() ==> if maximize {
            v >= ctx.beta
        } else {
            v <= ctx.alpha
        }
    }

    /// Whether `v` is a value that a search under a time limit may give
    /// to move `mv` at a node searched as `ctx` says: for a plain move a
    /// value of the position it leads to, for a reveal the expectation
    /// over the pool of such values.
    pub open spec fn move_gives(&self, ctx: SearchContext, mv: JieqiMove, v: int) -> bool
        decreases move_measure(ctx.depth), 1int, 0int,
    {
        let types = self.pool(self.turn).possible_types();
        if mv.action_type == ActionType::RevealAndMove && types.len() > 0 {
            exists|vals: Seq<int>|
                #[trigger] vals.len() == types.len() && self.weighed_from(ctx, mv, types, vals, v)
        } else {
            self.make_move(mv).node_gives(ctx.next_ply(), v)
        }
    }

    /// Whether `v` is the expectation of `vals`, one value for each kind
    /// of `types` that a search under a time limit may give to the
    /// position in which the piece that `mv` moves has turned out to be
    /// of the kind: each value weighted by the count of its kind, the sum
    /// divided by the sum of the counts and rounded down.
    pub open spec fn weighed_from(
        &self,
        ctx: SearchContext,
        mv: JieqiMove,
        types: Seq<(PieceType, u8)>,
        vals: Seq<int>,
        v: int,
    ) -> bool
        decreases move_measure(ctx.depth), 0int, 0int,
    {
        &&& vals.len() == types.len()
        &&& forall|k: int|
            0 <= k < vals.len() ==> self.reveal_child(mv, types[k].0).node_gives(
                ctx.next_ply(),
                #[trigger] vals[k],
            )
        &&& v == weighted_sum(types, vals, types.len() as int) / weight_of(
            types,
            types.len() as int,
        )
    }

    /// Whether `scored` holds the legal moves of the side to move in
    /// their order, each with a value that a search to depth `depth` from
    /// this position as the root may give it under a time limit.
    pub open spec fn searched(&self, depth: i32, scored: Seq<ScoredMove>) -> bool {
        let moves = self.legal_moves(self.turn);
        &&& lists(scored, moves)
        &&& forall|k: int|
            0 <= k < scored.len() ==> self.move_gives(
                SearchContext::root(depth, self.turn),
                moves[k],
                (#[trigger] scored[k]).score as int,
            )
    }

    /// Whether `r` answers a request for `n` moves by a search to one
    /// depth from 0 to `limit` under noise below `bound`: the legal moves
    /// have values that a search to that depth may give them and are
    /// ranked by these; each score of that ranking was raised by less
    /// than `bound`, or kept; and `r` holds the first `n` entries of the
    /// ranking of the raised scores.
    pub open spec fn searched_answer(
        &self,
        r: Seq<ScoredMove>,
        n: usize,
        limit: int,
        bound: int,
    ) -> bool {
        exists|depth: i32, scored: Seq<ScoredMove>, noisy: Seq<ScoredMove>|
            0 <= depth <= limit && #[trigger] self.searched(depth, scored) && #[trigger] raised_below(
                ranked(scored),
                noisy,
                bound,
            ) && r == ranked(noisy).take(shown(n, self.legal_moves(self.turn).len()))
    }

    /// The legal moves of the side to move, each with its value in a
    /// search to depth `depth` from this position as the root.
    pub open spec fn root_scores(&self, depth: i32) -> Seq<ScoredMove> {
        let moves = self.legal_moves(self.turn);
        Seq::new(
            moves.len(),
            |k: int|
                ScoredMove {
                    mv: moves[k],
                    score: self.move_value(SearchContext::root(depth, self.turn), moves[k]) as i64,
                },
        )
    }

    /// The ranking of the legal moves of the side to move by a search to
    /// depth `depth`.
    pub open spec fn ranking(&self, depth: i32) -> Seq<ScoredMove> {
        ranked(self.root_scores(depth))
    }
}

/// `a` divided by `d`, rounded down.
pub fn floor_div(a: i64, d: i64) -> (q: i64)
    requires
        d > 0,
        a > i64::MIN,
    ensures
        q == a as int / d as int,
{
    if a >= 0 {
        a / d
    } else {
        let n: i64 = -a;
        let whole: i64 = n / d;
        let rest: i64 = n % d;
        proof {
            assert(n == whole * d + rest && 0 <= rest < d) by (nonlinear_arith)
                requires
                    n >= 0,
                    d > 0,
                    whole == n / d,
                    rest == n % d,
            ;
        }
        if rest == 0 {
            proof {
                assert(a == (-whole) * d + 0) by (nonlinear_arith)
                    requires
                        a == -n,
                        n == whole * d + rest,
                        rest == 0,
                ;
                lemma_fundamental_div_mod_converse(a as int, d as int, -whole as int, 0);
            }
            -whole
        } else {
            proof {
                assert(a == (-whole - 1) * d + (d - rest)) by (nonlinear_arith)
                    requires
                        a == -n,
                        n == whole * d + rest,
                ;
                lemma_fundamental_div_mod_converse(
                    a as int,
                    d as int,
                    -whole - 1,
                    d as int - rest as int,
                );
            }
            -whole - 1
        }
    }
}

/// A value picked among values that the search may give to the moves of
/// a node is a value that the search may give to the node.
pub proof fn lemma_picked_is_given(b: BoardView, ctx: SearchContext, vals: Seq<int>, v: int)
    requires
        ctx.depth > 0,
        b.picked_from(ctx, b.legal_moves(b.turn), vals, v),
    ensures
        b.node_gives(ctx, v),
{
}

/// The expectation of values that the search may give to the outcomes of
/// a reveal is a value that the search may give to the reveal.
pub proof fn lemma_weighed_is_given(
    b: BoardView,
    ctx: SearchContext,
    mv: JieqiMove,
    vals: Seq<int>,
    v: int,
)
    requires
        mv.action_type == ActionType::RevealAndMove,
        b.pool(b.turn).possible_types().len() > 0,
        b.weighed_from(ctx, mv, b.pool(b.turn).possible_types(), vals, v),
    ensures
        b.move_gives(ctx, mv, v),
{
}

/// The value of a node, unfolded once.
pub proof fn lemma_node_value(b: BoardView, ctx: SearchContext)
    ensures
        b.node_value(ctx) == (if ctx.depth <= 0 || b.legal_moves(b.turn).len() == 0 {
            b.terminal_value(ctx.pov_color, ctx.ply as int)
        } else if b.turn == ctx.pov_color {
            b.best_from(ctx, b.legal_moves(b.turn), 0, true, i64::MIN as int)
        } else {
            b.best_from(ctx, b.legal_moves(b.turn), 0, false, i64::MAX as int)
        }),
{
}

/// The best value from a move on, unfolded once.
pub proof fn lemma_best_from(
    b: BoardView,
    ctx: SearchContext,
    moves: Seq<JieqiMove>,
    i: int,
    maximize: bool,
    best: int,
)
    ensures
        b.best_from(ctx, moves, i, maximize, best) == (if i < 0 || i >= moves.len() {
            best
        } else {
            let v = b.move_value(ctx, moves[i]);
            if maximize {
                let m = if v > best {
                    v
                } else {
                    best
                };
                if m >= ctx.beta {
                    m
                } else {
                    b.best_from(ctx, moves, i + 1, maximize, m)
                }
            } else {
                let m = if v < best {
                    v
                } else {
                    best
                };
                if m <= ctx.alpha {
                    m
                } else {
                    b.best_from(ctx, moves, i + 1, maximize, m)
                }
            }
        }),
{
}

/// The value of a move, unfolded once.
pub proof fn lemma_move_value(b: BoardView, ctx: SearchContext, mv: JieqiMove)
    ensures
        b.move_value(ctx, mv) == ({
            let types = b.pool(b.turn).possible_types();
            if mv.action_type == ActionType::RevealAndMove && types.len() > 0 {
                b.chance_sum(ctx, mv, types, types.len() as int) / weight_of(
                    types,
                    types.len() as int,
                )
            } else {
                b.make_move(mv).node_value(ctx.next_ply())
            }
        }),
{
}

/// The weighted sum at a chance node, unfolded once.
pub proof fn lemma_chance_sum(
    b: BoardView,
    ctx: SearchContext,
    mv: JieqiMove,
    types: Seq<(PieceType, u8)>,
    n: int,
)
    ensures
        b.chance_sum(ctx, mv, types, n) == (if n <= 0 {
            0
        } else {
            b.chance_sum(ctx, mv, types, n - 1) + types[n - 1].1 * b.reveal_child(
                mv,
                types[n - 1].0,
            ).node_value(ctx.next_ply())
        }),
{
}

/// Whether `v` lies strictly inside the bound on scores.
pub open spec fn bounded(v: int) -> bool {
    -SCORE_BOUND < v < SCORE_BOUND
}

/// A move that a side may make leaves a searchable board searchable.
pub proof fn lemma_sound_move_searchable(b: BoardView, color: Color, mv: JieqiMove)
    requires
        b.searchable(),
        b.sound_move(color, mv),
    ensures
        b.make_move(mv).searchable(),
        b.make_move(mv).undo_move(mv, b.captured_by(mv), b.piece_at(mv.from_pos)->0.is_hidden)
            == b,
        b.captured_by(mv) matches Some(c) ==> c.typed() && c.position == mv.to_pos,
{
    lemma_index_bijection();
    lemma_make_move_wf(b, mv);
    lemma_make_undo(b, mv);
    let after = b.make_move(mv);
    let p = b.piece_at(mv.from_pos)->0;
    assert(b.squares[mv.from_pos.spec_to_index()] == Some(p));
    assert(mv.from_pos != mv.to_pos);
    if b.captured_by(mv) is Some {
        assert(b.squares[mv.to_pos.spec_to_index()] == b.captured_by(mv));
    }
    assert forall|i: int| 0 <= i < 90 implies (#[trigger] after.squares[i] matches Some(q) ==> !(
    q.is_hidden && q.movement_type == Some(PieceType::King))) by {
        if i != mv.to_pos.spec_to_index() && i != mv.from_pos.spec_to_index() {
            assert(after.squares[i] == b.squares[i]);
        }
    }
}

/// A side that has a move it may make has its king on the board.
pub proof fn lemma_sound_has_king(b: BoardView, color: Color, mv: JieqiMove)
    requires
        b.wf(),
        b.sound_move(color, mv),
    ensures
        b.king(color) is Some,
{
    lemma_index_bijection();
    let p = b.piece_at(mv.from_pos)->0;
    assert(b.squares[mv.from_pos.spec_to_index()] == Some(p));
    assert(mv.from_pos != mv.to_pos);
    if b.king(color) is None {
        let after = b.make_move(mv);
        assert(!p.is_king());
        assert(after.king(color) is None);
    }
}

/// On a searchable board a reveal can be tried as any kind but the king:
/// the stipulated move leaves the board searchable, and taking it back
/// and turning the piece face-down again gives the board as it was.
#[verifier::rlimit(30)]
pub proof fn lemma_reveal_child(b: BoardView, color: Color, mv: JieqiMove, t: PieceType)
    requires
        b.searchable(),
        b.sound_move(color, mv),
        mv.action_type == ActionType::RevealAndMove,
        t != PieceType::King,
    ensures
        ({
            let shown = b.simulate_reveal(mv.from_pos, t);
            let after = shown.make_move(plain(mv));
            &&& shown.inv()
            &&& shown.typed()
            &&& shown.piece_at(mv.from_pos) matches Some(p) && !p.is_hidden && p.kind() is Some
            &&& after == b.reveal_child(mv, t)
            &&& after.searchable()
            &&& after.piece_at(mv.to_pos) is Some
            &&& shown.captured_by(plain(mv)) matches Some(c) ==> c.typed() && c.position
                == mv.to_pos
            &&& after.undo_move(plain(mv), shown.captured_by(plain(mv)), false) == shown
            &&& shown.restore_simulated_reveal(mv.from_pos, (None, true)) == b
        }),
{
    lemma_index_bijection();
    let fi = mv.from_pos.spec_to_index();
    let ti = mv.to_pos.spec_to_index();
    let p = b.piece_at(mv.from_pos)->0;
    assert(b.squares[fi] == Some(p));
    assert(p.is_hidden && p.typed() && p.position == mv.from_pos);
    assert(!(p.movement_type == Some(PieceType::King)));
    assert(mv.from_pos != mv.to_pos);
    let shown = b.simulate_reveal(mv.from_pos, t);
    let q = p.revealed_as(t);
    assert(shown.squares == b.squares.update(fi, Some(q)));
    assert(shown.squares[fi] == Some(q));
    assert forall|i: int| 0 <= i < 90 implies (#[trigger] shown.squares[i] matches Some(r)
        ==> r.position == Position::spec_from_index(i) && r.typed() && (r.is_king()
        ==> shown.king(r.color) == Some(r.position)) && !(r.is_hidden && r.movement_type == Some(
        PieceType::King,
    ))) by {
        if i != fi {
            assert(shown.squares[i] == b.squares[i]);
        }
    }
    assert forall|c: Color| (#[trigger] shown.king(c)) is Some implies (shown.piece_at(
        shown.king(c)->0,
    ) matches Some(r) && r.color == c && r.is_king()) by {
        let pos = b.king(c)->0;
        let k = b.piece_at(pos)->0;
        assert(b.squares[pos.spec_to_index()] == Some(k));
        assert(pos != mv.from_pos);
    }
    assert(shown.wf());
    if b.piece_at(mv.to_pos) is Some {
        assert(b.squares[ti] == b.piece_at(mv.to_pos));
        assert(shown.squares[ti] == b.squares[ti]);
    }
    lemma_make_move_wf(shown, plain(mv));
    lemma_make_undo(shown, plain(mv));
    let after = shown.make_move(plain(mv));
    assert forall|i: int| 0 <= i < 90 implies (#[trigger] after.squares[i] matches Some(r) ==> !(
    r.is_hidden && r.movement_type == Some(PieceType::King))) by {
        if i != ti && i != fi {
            assert(after.squares[i] == shown.squares[i]);
        }
    }
    let back = shown.restore_simulated_reveal(mv.from_pos, (None, true));
    assert(back.squares =~= b.squares);
}

/// On a searchable board the pool of a side whose king stands on the
/// board holds no king, so that a face-down piece never turns out to be
/// one.
pub proof fn lemma_no_king_in_pool(b: BoardView, color: Color)
    requires
        b.searchable(),
        b.king(color) is Some,
    ensures
        b.pool(color).remaining[0] == 0,
{
    lemma_index_bijection();
    let pos = b.king(color)->0;
    let k = b.piece_at(pos)->0;
    let i = pos.spec_to_index();
    assert(b.squares[i] == Some(k));
    assert(k.typed() && k.is_king());
    assert(!k.is_hidden);
    lemma_revealed_counted(b, color, PieceType::King, i, 90);
    assert(b.headroom(color, PieceType::King) == 0) by {
        crate::pool::lemma_known_nonnegative(
            b.captured(color),
            PieceType::King,
            b.captured(color).len() as int,
        );
    }
    assert(PieceType::spec_from_index(0) == PieceType::King);
    if b.pool_reduced(color) {
        let sum = b.headroom_sum(color);
        assert(0 * b.hidden_count(color) == 0);
        assert(0int / sum == 0) by (nonlinear_arith)
            requires
                sum > 0,
        ;
    }
}

/// The depth that an engine told to search to depth `depth` deepens to
/// at most: the depth itself, as far as the bound on plies allows.
pub open spec fn depth_cap(depth: u32) -> i32 {
    if depth < MAX_PLY {
        depth as i32
    } else {
        (MAX_PLY - 1) as i32
    }
}

/// The expectimax engine.
pub struct IT3AI {
    max_depth: u32,
    rng: rand::rngs::StdRng,
    noise: u32,
    time_limit_ms: Option<u64>,
}

impl IT3AI {
    /// The time that the engine searches for, in milliseconds; `None`
    /// where it has no time limit.
    pub closed spec fn time_limit(&self) -> Option<u64> {
        self.time_limit_ms
    }

    /// Whether the engine searches without a time limit.
    pub open spec fn untimed(&self) -> bool {
        self.time_limit() is None
    }

    /// The depth that the engine deepens to at most.
    pub closed spec fn depth_limit(&self) -> i32 {
        if self.max_depth < MAX_PLY {
            self.max_depth as i32
        } else {
            (MAX_PLY - 1) as i32
        }
    }

    /// The bound below which the engine adds noise to each score.
    pub closed spec fn noise_bound(&self) -> u32 {
        self.noise
    }

    /// An engine that searches as `config` says: to the depth of
    /// `config`, or under a time limit as deep as the time allows, up to
    /// fifty plies.
    pub fn new(config: &AIConfig) -> (ai: IT3AI)
        ensures
            ai.time_limit() == config.time_limit_ms,
            ai.untimed() == (config.time_limit_ms is None),
            ai.noise_bound() == config.noise,
            ai.depth_limit() == if config.time_limit_ms is Some {
                TIMED_DEPTH as i32
            } else {
                depth_cap(config.depth)
            },
    {
        let rng = fresh_rng(config.seed);
        let max_depth = match config.time_limit_ms {
            Some(_) => TIMED_DEPTH,
            None => config.depth,
        };
        IT3AI { max_depth, rng, noise: config.noise, time_limit_ms: config.time_limit_ms }
    }

    /// The static score of `board` as `color` sees it, in tenths of a
    /// point.
    pub fn evaluate_static(board: &Board, color: Color) -> (score: i64)
        requires
            board@.wf(),
        ensures
            score == board@.evaluate(color),
    {
        evaluate(board, color)
    }

    /// Whether a time limit of `limit_ms` milliseconds has passed once
    /// `elapsed_ms` milliseconds have gone by: the limit has passed as soon
    /// as the time gone by reaches it.
    pub fn limit_reached(limit_ms: u64, elapsed_ms: u128) -> (r: bool)
        ensures
            r == (elapsed_ms >= limit_ms),
    {
        elapsed_ms >= limit_ms as u128
    }

    /// Whether the time limit has passed, by the clock, since `start`. An
    /// engine without a time limit never says so, and does not read the
    /// clock; for an engine with a time limit the answer is that of
    /// `limit_reached` for the time that the clock gives.
    fn is_timeout(&self, start: &std::time::Instant) -> (r: bool)
        ensures
            self.untimed() ==> !r,
    {
        match self.time_limit_ms {
            Some(limit) => Self::limit_reached(limit, elapsed_millis(start)),
            None => false,
        }
    }

    /// The value of the position on `board`, searched as `ctx` says. The
    /// board is left as it was. Once the time limit has passed, the
    /// static score is returned at once.
    #[verifier::rlimit(60)]
    pub fn expectimax(
        &self,
        board: &mut Board,
        ctx: SearchContext,
        start: &std::time::Instant,
        stats: &mut SearchStats,
    ) -> (v: i64)
        requires
            old(board)@.searchable(),
            ctx.in_range(),
        ensures
            final(board)@ == old(board)@,
            bounded(v as int),
            self.untimed() ==> v == old(board)@.node_value(ctx),
            old(board)@.node_gives(ctx, v as int),
            final(stats).nodes >= old(stats).nodes,
            final(stats).depth_reached == old(stats).depth_reached,
        decreases node_measure(ctx.depth), 0int, 0int,
    {
        let ghost b = board@;
        if stats.nodes < u64::MAX {
            stats.nodes = stats.nodes + 1;
        }
        if self.is_timeout(start) {
            return evaluate(board, ctx.pov_color);
        }
        let current_color = board.current_turn();
        let legal_moves = board.get_legal_moves(current_color);
        let is_max = current_color == ctx.pov_color;
        proof {
            lemma_node_value(b, ctx);
        }
        if ctx.depth <= 0 || legal_moves.len() == 0 {
            return terminal_eval(board, ctx.pov_color, ctx.ply);
        }
        let mut best: i64 = if is_max {
            i64::MIN
        } else {
            i64::MAX
        };
        let ghost mut vals: Seq<int> = Seq::empty();
        let mut i: usize = 0;
        while i < legal_moves.len()
            invariant_except_break
                vals.len() == i,
                self.untimed() ==> (if i < legal_moves@.len() {
                    b.best_from(ctx, legal_moves@, i as int, is_max, best as int)
                } else {
                    best as int
                }) == b.node_value(ctx),
                i > 0 ==> bounded(best as int),
                i == 0 ==> best == (if is_max {
                    i64::MIN
                } else {
                    i64::MAX
                }),
            invariant
                i <= legal_moves.len(),
                legal_moves.len() > 0,
                board@ == b,
                b.searchable(),
                ctx.in_range(),
                ctx.depth > 0,
                current_color == b.turn,
                is_max == (b.turn == ctx.pov_color),
                b.king(current_color) is Some,
                legal_moves@ == b.legal_moves(current_color),
                forall|k: int|
                    0 <= k < legal_moves@.len() ==> b.sound_move(
                        current_color,
                        #[trigger] legal_moves@[k],
                    ),
                vals.len() <= legal_moves@.len(),
                forall|k: int|
                    0 <= k < vals.len() ==> b.move_gives(ctx, legal_moves@[k], #[trigger] vals[k]),
                vals.len() > 0 ==> best == pick(vals, is_max),
                stats.nodes >= old(stats).nodes,
                stats.depth_reached == old(stats).depth_reached,
            ensures
                bounded(best as int),
                self.untimed() ==> best == b.node_value(ctx),
                b.picked_from(ctx, legal_moves@, vals, best as int),
            decreases legal_moves.len() - i,
        {
            let mv = legal_moves[i];
            assert(b.sound_move(current_color, legal_moves@[i as int]));
            proof {
                lemma_best_from(b, ctx, legal_moves@, i as int, is_max, best as int);
            }
            let v = self.move_score(board, &mv, ctx, current_color, start, stats);
            proof {
                lemma_pick_push(vals, v as int, is_max);
                vals = vals.push(v as int);
            }
            if is_max {
                if v > best {
                    best = v;
                }
                if best >= ctx.beta {
                    break ;
                }
            } else {
                if v < best {
                    best = v;
                }
                if best <= ctx.alpha {
                    break ;
                }
            }
            proof {
                lemma_best_from(b, ctx, legal_moves@, i + 1, is_max, best as int);
            }
            i += 1;
        }
        proof {
            lemma_picked_is_given(b, ctx, vals, best as int);
        }
        best
    }

    /// The value of move `mv` of `color`, the side to move, at a node
    /// searched as `ctx` says: a reveal is a chance node, any other move
    /// is made and searched.
    pub fn move_score(
        &self,
        board: &mut Board,
        mv: &JieqiMove,
        ctx: SearchContext,
        color: Color,
        start: &std::time::Instant,
        stats: &mut SearchStats,
    ) -> (v: i64)
        requires
            old(board)@.searchable(),
            ctx.in_range(),
            ctx.ply + 1 < MAX_PLY,
            color == old(board)@.turn,
            old(board)@.king(color) is Some,
            old(board)@.sound_move(color, *mv),
        ensures
            final(board)@ == old(board)@,
            bounded(v as int),
            self.untimed() ==> v == old(board)@.move_value(ctx, *mv),
            old(board)@.move_gives(ctx, *mv, v as int),
            final(stats).nodes >= old(stats).nodes,
            final(stats).depth_reached == old(stats).depth_reached,
        decreases move_measure(ctx.depth), 3int, 0int,
    {
        proof {
            lemma_move_value(old(board)@, ctx, *mv);
        }
        match mv.action_type {
            ActionType::RevealAndMove => self.chance_node(board, mv, ctx, color, start, stats),
            ActionType::Move => self.apply_move_and_recurse(board, mv, ctx, color, start, stats),
        }
    }

    /// The value of the reveal `mv` of `color`: the expectation, over the
    /// kinds that the piece may turn out to be, of the value of the
    /// position after the piece has moved as that kind.
    #[verifier::rlimit(30)]
    pub fn chance_node(
        &self,
        board: &mut Board,
        mv: &JieqiMove,
        ctx: SearchContext,
        color: Color,
        start: &std::time::Instant,
        stats: &mut SearchStats,
    ) -> (v: i64)
        requires
            old(board)@.searchable(),
            ctx.in_range(),
            ctx.ply + 1 < MAX_PLY,
            color == old(board)@.turn,
            old(board)@.king(color) is Some,
            old(board)@.sound_move(color, *mv),
            mv.action_type == ActionType::RevealAndMove,
        ensures
            final(board)@ == old(board)@,
            bounded(v as int),
            self.untimed() ==> v == old(board)@.move_value(ctx, *mv),
            old(board)@.move_gives(ctx, *mv, v as int),
            final(stats).nodes >= old(stats).nodes,
            final(stats).depth_reached == old(stats).depth_reached,
        decreases move_measure(ctx.depth), 2int, 0int,
    {
        let ghost b = board@;
        let distribution = HiddenPieceDistribution::from_board(board, color);
        let types = distribution.possible_types();
        proof {
            lemma_move_value(b, ctx, *mv);
        }
        if types.len() == 0 {
            return self.apply_move_and_recurse(board, mv, ctx, color, start, stats);
        }
        proof {
            lemma_no_king_in_pool(b, color);
            lemma_kinds_listed(b.pool(color), 7);
            lemma_chance_sum(b, ctx, *mv, types@, 0);
        }
        let next_ctx = ctx.next_ply();
        let virtual_move = JieqiMove {
            action_type: ActionType::Move,
            from_pos: mv.from_pos,
            to_pos: mv.to_pos,
        };
        assert(virtual_move == plain(*mv));
        let mut total: i64 = 0;
        let mut weight: i64 = 0;
        let ghost mut vals: Seq<int> = Seq::empty();
        let mut k: usize = 0;
        while k < types.len()
            invariant
                k <= types.len(),
                types.len() <= 7,
                vals.len() == k,
                forall|j: int|
                    0 <= j < vals.len() ==> b.reveal_child(*mv, types@[j].0).node_gives(
                        next_ctx,
                        #[trigger] vals[j],
                    ),
                total == weighted_sum(types@, vals, k as int),
                board@ == b,
                b.searchable(),
                ctx.in_range(),
                ctx.ply + 1 < MAX_PLY,
                next_ctx == ctx.next_ply(),
                color == b.turn,
                b.sound_move(color, *mv),
                mv.action_type == ActionType::RevealAndMove,
                virtual_move == plain(*mv),
                types@ == b.pool(color).possible_types(),
                forall|j: int|
                    0 <= j < types@.len() ==> 0 < (#[trigger] types@[j]).1 <= 5 && types@[j].0
                        != PieceType::King,
                weight == weight_of(types@, k as int),
                k <= weight <= 5 * k,
                -weight * 99999999 <= total <= weight * 99999999,
                self.untimed() ==> total == b.chance_sum(ctx, *mv, types@, k as int),
                stats.nodes >= old(stats).nodes,
                stats.depth_reached == old(stats).depth_reached,
            decreases types.len() - k,
        {
            let (piece_type, count) = types[k];
            assert(types@[k as int] == (piece_type, count));
            proof {
                lemma_reveal_child(b, color, *mv, piece_type);
            }
            let reveal_state = board.simulate_reveal(mv.from_pos, piece_type);
            let captured = board.make_move(&virtual_move);
            let child_value = self.expectimax(board, next_ctx, start, stats);
            board.undo_move(&virtual_move, captured, false);
            match reveal_state {
                Some(state) => {
                    board.restore_simulated_reveal(mv.from_pos, state);
                },
                None => {},
            }
            proof {
                assert(-count * 99999999 <= count * child_value <= count * 99999999)
                    by (nonlinear_arith)
                    requires
                        0 < count <= 5,
                        -99999999 <= child_value <= 99999999,
                ;
                lemma_chance_sum(b, ctx, *mv, types@, k + 1);
                lemma_weighted_sum_push(types@, vals, child_value as int, k as int);
                vals = vals.push(child_value as int);
            }
            let share: i64 = (count as i64) * child_value;
            total = total + share;
            weight = weight + count as i64;
            k += 1;
        }
        proof {
            assert(-99999999 <= total as int / weight as int <= 99999999) by (nonlinear_arith)
                requires
                    weight > 0,
                    -weight * 99999999 <= total <= weight * 99999999,
            ;
            assert(types@.take(types@.len() as int) =~= types@);
            let mean = total as int / weight as int;
            assert(b.weighed_from(ctx, *mv, types@, vals, mean));
            lemma_weighed_is_given(b, ctx, *mv, vals, mean);
        }
        floor_div(total, weight)
    }

    /// The value of move `mv` of `color`, made as it stands: the move is
    /// made, the position searched one ply further down, and the move
    /// taken back.
    pub fn apply_move_and_recurse(
        &self,
        board: &mut Board,
        mv: &JieqiMove,
        ctx: SearchContext,
        color: Color,
        start: &std::time::Instant,
        stats: &mut SearchStats,
    ) -> (v: i64)
        requires
            old(board)@.searchable(),
            ctx.in_range(),
            ctx.ply + 1 < MAX_PLY,
            color == old(board)@.turn,
            old(board)@.sound_move(color, *mv),
        ensures
            final(board)@ == old(board)@,
            bounded(v as int),
            self.untimed() ==> v == old(board)@.make_move(*mv).node_value(ctx.next_ply()),
            old(board)@.make_move(*mv).node_gives(ctx.next_ply(), v as int),
            final(stats).nodes >= old(stats).nodes,
            final(stats).depth_reached == old(stats).depth_reached,
        decreases move_measure(ctx.depth), 1int, 0int,
    {
        let ghost b = board@;
        proof {
            lemma_index_bijection();
            lemma_sound_move_searchable(b, color, *mv);
        }
        let was_hidden = match board.piece_on(mv.from_pos) {
            Some(p) => p.is_hidden,
            None => false,
        };
        let p = Ghost(b.piece_at(mv.from_pos)->0);
        assert(b.squares[mv.from_pos.spec_to_index()] == Some(p@));
        let captured = board.make_move(mv);
        let value = self.expectimax(board, ctx.next_ply(), start, stats);
        board.undo_move(mv, captured, was_hidden);
        value
    }
}


/// Whether `scored` holds the moves `moves`, one entry for each in their
/// order.
pub open spec fn lists(scored: Seq<ScoredMove>, moves: Seq<JieqiMove>) -> bool {
    &&& scored.len() == moves.len()
    &&& forall|k: int| 0 <= k < scored.len() ==> (#[trigger] scored[k]).mv == moves[k]
}

/// How many moves are shown where `n` are asked for and `all` are there.
pub open spec fn shown(n: usize, all: nat) -> int {
    if n < all {
        n as int
    } else {
        all as int
    }
}

/// Whether `r` holds the first `n` entries, or all where they are fewer,
/// of a ranking of `moves`: one that is in descending order of score and
/// holds each of `moves` as often as `moves` holds it.
pub open spec fn first_of_ranking(r: Seq<ScoredMove>, moves: Seq<JieqiMove>, n: usize) -> bool {
    exists|ranking: Seq<ScoredMove>| #[trigger]
        ranks_all(ranking, moves) && r == ranking.take(shown(n, moves.len()))
}

/// Whether `noisy` is the ranking of the scores `scored` of `moves` with
/// each score raised by less than `bound`.
pub open spec fn noisy_ranking(
    scored: Seq<ScoredMove>,
    noisy: Seq<ScoredMove>,
    moves: Seq<JieqiMove>,
    bound: int,
) -> bool {
    lists(scored, moves) && raised_below(ranked(scored), noisy, bound)
}

/// Whether `r` is an answer to a request for `n` of `moves` under noise
/// below `bound`: the moves were scored, one score for each in their
/// order, and ranked; each score of that ranking was raised by less than
/// `bound`, or kept where `bound` is zero; and `r` holds the first `n`
/// entries of the ranking of the raised scores.
pub open spec fn answers_with_noise(
    r: Seq<ScoredMove>,
    moves: Seq<JieqiMove>,
    n: usize,
    bound: int,
) -> bool {
    exists|scored: Seq<ScoredMove>, noisy: Seq<ScoredMove>| #[trigger]
        noisy_ranking(scored, noisy, moves, bound) && r == ranked(noisy).take(
            shown(n, moves.len()),
        )
}

/// Whether every entry of `scored` holds one of `moves`.
pub open spec fn drawn_from(scored: Seq<ScoredMove>, moves: Seq<JieqiMove>) -> bool {
    forall|k: int| 0 <= k < scored.len() ==> moves.contains((#[trigger] scored[k]).mv)
}

/// A ranking holds no move that was not ranked.
pub proof fn lemma_ranked_drawn_from(items: Seq<ScoredMove>, moves: Seq<JieqiMove>)
    requires
        drawn_from(items, moves),
    ensures
        drawn_from(ranked(items), moves),
{
    broadcast use vstd::seq_lib::group_to_multiset_ensures;

    lemma_ranked(items);
    let r = ranked(items);
    assert forall|k: int| 0 <= k < r.len() implies moves.contains((#[trigger] r[k]).mv) by {
        assert(r.to_multiset().count(r[k]) > 0);
        assert(items.to_multiset().count(r[k]) > 0);
        assert(items.contains(r[k]));
        let j = choose|j: int| 0 <= j < items.len() && items[j] == r[k];
        assert(moves.contains(items[j].mv));
    }
}

impl Board {
    /// Whether the board can be searched: it can be played on and no
    /// face-down piece moves as a king.
    pub fn is_searchable(&self) -> (r: bool)
        requires
            self@.inv(),
        ensures
            r == self@.searchable(),
    {
        if !self.is_playable() {
            return false;
        }
        let mut i: usize = 0;
        while i < 90
            invariant
                i <= 90,
                self@.inv(),
                self@.wf(),
                forall|k: int|
                    0 <= k < i ==> (#[trigger] self@.squares[k] matches Some(p) ==> !(p.is_hidden
                        && p.movement_type == Some(PieceType::King))),
            decreases 90 - i,
        {
            match self.piece_on(Position::from_index(i)) {
                Some(p) => {
                    let royal = match p.movement_type {
                        Some(PieceType::King) => true,
                        _ => false,
                    };
                    if p.is_hidden && royal {
                        assert(self@.squares[i as int] == Some(p));
                        return false;
                    }
                },
                None => {},
            }
            i += 1;
        }
        true
    }
}

impl IT3AI {
    /// The value of each of `moves`, the legal moves of the side to move,
    /// in a search to depth `depth` from the position on `work` as the
    /// root. The board is left as it was. With `watch_clock` the time is
    /// checked before each move, and `None` is returned once it has
    /// passed.
    #[verifier::rlimit(30)]
    fn score_root(
        &self,
        work: &mut Board,
        moves: &Vec<JieqiMove>,
        depth: i32,
        start: &std::time::Instant,
        stats: &mut SearchStats,
        watch_clock: bool,
    ) -> (r: Option<Vec<ScoredMove>>)
        requires
            old(work)@.searchable(),
            moves@ == old(work)@.legal_moves(old(work)@.turn),
            moves@.len() > 0,
            forall|k: int|
                0 <= k < moves@.len() ==> old(work)@.sound_move(
                    old(work)@.turn,
                    #[trigger] moves@[k],
                ),
            0 <= depth < MAX_PLY,
        ensures
            final(work)@ == old(work)@,
            match r {
                Some(scores) => lists(scores@, moves@) && old(work)@.searched(depth, scores@) && (
                self.untimed() ==> scores@ == old(work)@.root_scores(depth)),
                None => watch_clock && !self.untimed(),
            },
            final(stats).nodes >= old(stats).nodes,
            final(stats).depth_reached == old(stats).depth_reached,
    {
        let ghost b = work@;
        let pov_color = work.current_turn();
        let root_ctx = SearchContext::new(depth, pov_color);
        let mut scores: Vec<ScoredMove> = Vec::with_capacity(moves.len());
        let mut i: usize = 0;
        while i < moves.len()
            invariant
                i <= moves.len(),
                work@ == b,
                b == old(work)@,
                b.searchable(),
                pov_color == b.turn,
                b.king(pov_color) is Some,
                root_ctx == SearchContext::root(depth, pov_color),
                0 <= depth < MAX_PLY,
                moves@ == b.legal_moves(b.turn),
                forall|k: int|
                    0 <= k < moves@.len() ==> b.sound_move(b.turn, #[trigger] moves@[k]),
                scores@.len() == i,
                forall|k: int| 0 <= k < i ==> (#[trigger] scores@[k]).mv == moves@[k],
                self.untimed() ==> forall|k: int|
                    0 <= k < i ==> (#[trigger] scores@[k]).score == b.move_value(
                        root_ctx,
                        moves@[k],
                    ),
                forall|k: int| 0 <= k < i ==> bounded((#[trigger] scores@[k]).score as int),
                forall|k: int|
                    0 <= k < i ==> b.move_gives(
                        root_ctx,
                        moves@[k],
                        (#[trigger] scores@[k]).score as int,
                    ),
                stats.nodes >= old(stats).nodes,
                stats.depth_reached == old(stats).depth_reached,
            decreases moves.len() - i,
        {
            if watch_clock && self.is_timeout(start) {
                return None;
            }
            let mv = moves[i];
            assert(b.sound_move(b.turn, moves@[i as int]));
            let score = self.move_score(work, &mv, root_ctx, pov_color, start, stats);
            scores.push(ScoredMove { mv, score });
            i += 1;
        }
        proof {
            if self.untimed() {
                assert(scores@ =~= b.root_scores(depth));
            }
        }
        Some(scores)
    }

    /// Searches the position on `board` depth by depth, from depth 1 up to
    /// the depth limit, and returns the ranking of the last depth that was
    /// searched for every legal move; a depth that the time limit cut
    /// short is dropped. Where not even depth 1 was completed, the moves
    /// are ranked by the scores of the positions they lead to. The list
    /// is empty where the side to move has no legal move.
    #[verifier::rlimit(30)]
    pub fn iterative_deepening(&self, board: &Board, stats: &mut SearchStats) -> (best: Vec<
        ScoredMove,
    >)
        requires
            board@.searchable(),
        ensures
            exists|scored: Seq<ScoredMove>|
                lists(scored, board@.legal_moves(board@.turn)) && best@ == ranked(scored),
            exists|depth: i32, scored: Seq<ScoredMove>|
                0 <= depth <= self.depth_limit() && #[trigger] board@.searched(depth, scored)
                    && best@ == ranked(scored) && final(stats).depth_reached == (if depth > 0 {
                    depth as u32
                } else {
                    old(stats).depth_reached
                }),
            self.untimed() ==> best@ == board@.ranking(self.depth_limit()),
            self.untimed() ==> final(stats).depth_reached == (if board@.legal_moves(
                board@.turn,
            ).len() > 0 && self.depth_limit() > 0 {
                self.depth_limit() as u32
            } else {
                old(stats).depth_reached
            }),
            final(stats).depth_reached == old(stats).depth_reached || 1 <= final(stats).depth_reached
                <= self.depth_limit(),
            final(stats).nodes >= old(stats).nodes,
    {
        let ghost b = board@;
        let moves = board.get_legal_moves(board.current_turn());
        if moves.len() == 0 {
            let best: Vec<ScoredMove> = Vec::new();
            proof {
                let none = Seq::<ScoredMove>::empty();
                assert(lists(none, b.legal_moves(b.turn)));
                assert(ranked(none) =~= best@);
                assert(b.searched(0, none));
                assert(b.root_scores(self.depth_limit()) =~= none);
            }
            return best;
        }
        let start = clock_now();
        let mut work = board.clone();
        let limit: i32 = if self.max_depth < MAX_PLY as u32 {
            self.max_depth as i32
        } else {
            MAX_PLY - 1
        };
        let mut best: Vec<ScoredMove> = Vec::new();
        let mut completed: i32 = 0;
        let ghost mut witness: Seq<ScoredMove> = Seq::empty();
        let mut depth: i32 = 1;
        while depth <= limit
            invariant
                1 <= depth <= limit + 1,
                limit == self.depth_limit(),
                0 <= limit < MAX_PLY,
                0 <= completed < depth,
                work@ == b,
                b.searchable(),
                moves@ == b.legal_moves(b.turn),
                moves@.len() > 0,
                forall|k: int|
                    0 <= k < moves@.len() ==> b.sound_move(b.turn, #[trigger] moves@[k]),
                completed > 0 ==> lists(witness, moves@) && best@ == ranked(witness) && b.searched(
                    completed,
                    witness,
                ),
                self.untimed() ==> completed == depth - 1,
                self.untimed() && completed > 0 ==> best@ == b.ranking(completed),
                stats.nodes >= old(stats).nodes,
                stats.depth_reached == (if completed > 0 {
                    completed as u32
                } else {
                    old(stats).depth_reached
                }),
            ensures
                self.untimed() ==> completed == limit,
            decreases limit + 1 - depth,
        {
            if self.is_timeout(&start) {
                break ;
            }
            match self.score_root(&mut work, &moves, depth, &start, stats, true) {
                Some(scores) => {
                    best = rank_moves(&scores);
                    completed = depth;
                    stats.depth_reached = depth as u32;
                    proof {
                        witness = scores@;
                    }
                },
                None => {
                    break ;
                },
            }
            depth += 1;
        }
        if completed == 0 {
            match self.score_root(&mut work, &moves, 0, &start, stats, false) {
                Some(scores) => {
                    best = rank_moves(&scores);
                    proof {
                        witness = scores@;
                    }
                },
                None => {},
            }
        }
        assert(lists(witness, b.legal_moves(b.turn)) && best@ == ranked(witness));
        assert(b.searched(completed, witness));
        best
    }

    /// The `n` best moves of the side to move on `board`, by a search
    /// under the engine's limits, best first; fewer where there are fewer
    /// legal moves. Where the engine adds noise, each score is raised by a
    /// random number below the noise bound before the moves are ranked.
    /// What the search visited is counted in `stats`.
    #[verifier::rlimit(40)]
    pub fn select_moves_counted(&self, board: &Board, n: usize, stats: &mut SearchStats) -> (r: Vec<
        ScoredMove,
    >)
        requires
            board@.searchable(),
        ensures
            r@.len() == shown(n, board@.legal_moves(board@.turn).len()),
            answers_with_noise(
                r@,
                board@.legal_moves(board@.turn),
                n,
                self.noise_bound() as int,
            ),
            board@.searched_answer(r@, n, self.depth_limit() as int, self.noise_bound() as int),
            first_of_ranking(r@, board@.legal_moves(board@.turn), n),
            drawn_from(r@, board@.legal_moves(board@.turn)),
            crate::ranking::descending(r@),
            self.untimed() && self.noise_bound() == 0 ==> r@ == board@.ranking(
                self.depth_limit(),
            ).take(r@.len() as int),
            final(stats).nodes >= old(stats).nodes,
            final(stats).depth_reached == old(stats).depth_reached || 1 <= final(stats).depth_reached
                <= self.depth_limit(),
            self.untimed() && board@.legal_moves(board@.turn).len() > 0 && self.depth_limit() > 0
                ==> final(stats).depth_reached == self.depth_limit(),
    {
        let ghost moves = board@.legal_moves(board@.turn);
        let results = self.iterative_deepening(board, stats);
        let ghost (depth, scored) = choose|depth: i32, scored: Seq<ScoredMove>|
            0 <= depth <= self.depth_limit() && #[trigger] board@.searched(depth, scored)
                && results@ == ranked(scored);
        proof {
            lemma_ranked(scored);
            lemma_ranked_moves(scored);
            assert(moves_of(scored) =~= moves);
            assert(drawn_from(scored, moves)) by {
                assert forall|k: int| 0 <= k < scored.len() implies moves.contains(
                    (#[trigger] scored[k]).mv,
                ) by {
                    assert(moves[k] == scored[k].mv);
                }
            }
            lemma_ranked_drawn_from(scored, moves);
        }
        let ghost ranking = results@;
        let mut out: Vec<ScoredMove> = results;
        if self.noise > 0 {
            let mut rng = clone_rng(&self.rng);
            let mut noisy: Vec<ScoredMove> = Vec::with_capacity(out.len());
            let mut i: usize = 0;
            while i < out.len()
                invariant
                    i <= out.len(),
                    self.noise > 0,
                    noisy@.len() == i,
                    drawn_from(out@, moves),
                    forall|k: int| 0 <= k < i ==> moves.contains((#[trigger] noisy@[k]).mv),
                    forall|k: int|
                        0 <= k < i ==> (#[trigger] noisy@[k]).mv == out@[k].mv && out@[k].score
                            <= noisy@[k].score < out@[k].score + self.noise,
                decreases out.len() - i,
            {
                let entry = out[i];
                let raise = draw_below(&mut rng, self.noise) as i64;
                let score = if entry.score <= i64::MAX - raise {
                    entry.score + raise
                } else {
                    i64::MAX
                };
                assert(moves.contains(out@[i as int].mv));
                noisy.push(ScoredMove { mv: entry.mv, score });
                i += 1;
            }
            let ghost raised = noisy@;
            proof {
                lemma_ranked(raised);
                lemma_ranked_drawn_from(raised, moves);
                lemma_ranked_moves(raised);
                assert(moves_of(raised) =~= moves_of(ranking));
                assert(raised_below(ranking, raised, self.noise as int));
                assert(noisy_ranking(scored, raised, moves, self.noise as int));
                assert(ranks_all(ranked(raised), moves));
            }
            sort_and_truncate(&mut noisy, n);
            assert(noisy@ == ranked(raised).take(shown(n, moves.len())));
            assert(board@.searched_answer(
                noisy@,
                n,
                self.depth_limit() as int,
                self.noise_bound() as int,
            ));
            noisy
        } else {
            out.truncate(n);
            proof {
                if n >= ranking.len() {
                    assert(out@ =~= ranking.take(ranking.len() as int));
                }
                lemma_ranked_keeps_order(ranking);
                assert(raised_below(ranking, ranking, 0));
                assert(noisy_ranking(scored, ranking, moves, 0));
                assert(ranks_all(ranking, moves));
                assert(out@ == ranked(ranking).take(shown(n, moves.len())));
                assert(board@.searched_answer(
                    out@,
                    n,
                    self.depth_limit() as int,
                    self.noise_bound() as int,
                ));
            }
            out
        }
    }

    /// The `n` best moves of the side to move on `board`, best first.
    pub fn select_moves(&self, board: &Board, n: usize) -> (r: Vec<ScoredMove>)
        requires
            board@.searchable(),
        ensures
            r@.len() == shown(n, board@.legal_moves(board@.turn).len()),
            answers_with_noise(
                r@,
                board@.legal_moves(board@.turn),
                n,
                self.noise_bound() as int,
            ),
            board@.searched_answer(r@, n, self.depth_limit() as int, self.noise_bound() as int),
            first_of_ranking(r@, board@.legal_moves(board@.turn), n),
            drawn_from(r@, board@.legal_moves(board@.turn)),
            crate::ranking::descending(r@),
            self.untimed() && self.noise_bound() == 0 ==> r@ == board@.ranking(
                self.depth_limit(),
            ).take(r@.len() as int),
    {
        let mut stats = SearchStats::new();
        self.select_moves_counted(board, n, &mut stats)
    }

    /// The best move of the side to move on `board`, or `None` where it
    /// has no legal move.
    pub fn select_best_move(&self, board: &Board) -> (r: Option<JieqiMove>)
        requires
            board@.searchable(),
        ensures
            r is None <==> board@.legal_moves(board@.turn).len() == 0,
            r matches Some(mv) ==> board@.legal_moves(board@.turn).contains(mv),
            self.untimed() && self.noise_bound() == 0 ==> (r matches Some(mv) ==> mv
                == board@.ranking(self.depth_limit())[0].mv),
    {
        let best = self.select_moves(board, 1);
        if best.len() > 0 {
            Some(best[0].mv)
        } else {
            None
        }
    }
}

/// The engine that picks moves at random.
pub struct RandomAI {
    rng: rand::rngs::StdRng,
}

impl RandomAI {
    /// An engine whose random numbers start from `seed`, or from what the
    /// operating system gives where `seed` is `None`.
    pub fn new(seed: Option<u64>) -> RandomAI {
        RandomAI { rng: fresh_rng(seed) }
    }

    /// At most `n` legal moves of the side to move on `board`, each with a
    /// random score, ranked by that score.
    pub fn select_moves(&self, board: &Board, n: usize) -> (r: Vec<ScoredMove>)
        requires
            board@.wf(),
        ensures
            r@.len() == shown(n, board@.legal_moves(board@.turn).len()),
            answers_with_noise(r@, board@.legal_moves(board@.turn), n, 0),
            first_of_ranking(r@, board@.legal_moves(board@.turn), n),
            drawn_from(r@, board@.legal_moves(board@.turn)),
            crate::ranking::descending(r@),
    {
        let moves = board.get_legal_moves(board.current_turn());
        let mut rng = clone_rng(&self.rng);
        let mut scored: Vec<ScoredMove> = Vec::with_capacity(moves.len());
        let mut i: usize = 0;
        while i < moves.len()
            invariant
                i <= moves.len(),
                scored@.len() == i,
                forall|k: int| 0 <= k < i ==> (#[trigger] scored@[k]).mv == moves@[k],
            decreases moves.len() - i,
        {
            let score = draw_any(&mut rng) as i64;
            scored.push(ScoredMove { mv: moves[i], score });
            i += 1;
        }
        let ghost given = scored@;
        proof {
            lemma_ranked(given);
            lemma_ranked_moves(given);
            assert(moves_of(given) =~= moves@);
            assert(drawn_from(given, moves@)) by {
                assert forall|k: int| 0 <= k < given.len() implies moves@.contains(
                    (#[trigger] given[k]).mv,
                ) by {
                    assert(moves@[k] == given[k].mv);
                }
            }
            lemma_ranked_drawn_from(given, moves@);
            lemma_ranked_keeps_order(ranked(given));
            assert(raised_below(ranked(given), ranked(given), 0));
            assert(noisy_ranking(given, ranked(given), moves@, 0));
            assert(ranks_all(ranked(given), moves@));
        }
        sort_and_truncate(&mut scored, n);
        assert(scored@ == ranked(ranked(given)).take(shown(n, moves@.len())));
        scored
    }
}

/// The names of the engines that this library holds.
pub const AVAILABLE_STRATEGIES: [&'static str; 2] = ["random", "it3"];

/// The name of the engine of this library that is used where none is
/// chosen.
pub const DEFAULT_STRATEGY: &'static str = "it3";

/// The names of the strategies that can be chosen, separated by commas.
pub fn strategies_help() -> (s: String)
    ensures
        s@ == "random, it3"@,
{
    String::from_str("random, it3")
}


} // verus!
