//! What holds along the rows and columns of a board: how the first piece
//! seen from a square relates to the squares that rooks and cannons reach
//! and to kings that face each other.

use vstd::prelude::*;
use crate::board::{lemma_index_bijection, BoardView, Piece};
use crate::attack::backward;
use crate::legal::lemma_first_piece_stands;
use crate::movegen::{crossed_river, forward, room, unit_step, Region};
use crate::types::{Color, PieceType, Position};

verus! {

/// The step that leads back where `(dr, dc)` came from.
pub open spec fn back(d: i8) -> i8 {
    (-d) as i8
}

/// What is seen from square `pos` itself on the way `(dr, dc)`: the piece
/// on it, or where it is empty the first piece beyond it.
pub open spec fn seen_from(b: BoardView, pos: Position, dr: i8, dc: i8) -> Option<Piece> {
    match b.piece_at(pos) {
        Some(p) => Some(p),
        None => b.first_piece(pos, dr, dc),
    }
}

/// Looking back from the first piece seen from a square, one sees what
/// stands on that square or, where it is empty, what one sees from it
/// looking back.
pub proof fn lemma_look_back(b: BoardView, a: Position, dr: i8, dc: i8)
    requires
        b.inv(),
        a.is_valid(),
        b.first_piece(a, dr, dc) is Some,
    ensures
        b.first_piece(b.first_piece(a, dr, dc)->0.position, back(dr), back(dc)) == seen_from(
            b,
            a,
            back(dr),
            back(dc),
        ),
    decreases room(a, dr, dc),
{
    lemma_index_bijection();
    let next = a.offset(dr, dc);
    assert(unit_step(dr, dc) && next.is_valid());
    assert(unit_step(back(dr), back(dc)));
    assert(next.offset(back(dr), back(dc)) == a);
    match b.piece_at(next) {
        Some(p) => {
            assert(b.squares[next.spec_to_index()] == Some(p));
            assert(p.position == next);
        },
        None => {
            lemma_look_back(b, next, dr, dc);
        },
    }
}

/// The occupied squares that a rook reaches along a line are exactly the
/// square of the first piece on the line, where that piece is an enemy.
pub proof fn lemma_rook_ray_hits(b: BoardView, c: Color, pos: Position, dr: i8, dc: i8, t: Position)
    requires
        b.inv(),
        b.occupied(t),
    ensures
        b.rook_ray(c, pos, dr, dc).contains(t) <==> (b.first_piece(pos, dr, dc) matches Some(x)
            && x.position == t && x.color != c),
    decreases room(pos, dr, dc),
{
    lemma_index_bijection();
    let next = pos.offset(dr, dc);
    let ray = b.rook_ray(c, pos, dr, dc);
    if unit_step(dr, dc) && pos.is_valid() && next.is_valid() {
        match b.piece_at(next) {
            None => {
                lemma_rook_ray_hits(b, c, next, dr, dc, t);
                let rest = b.rook_ray(c, next, dr, dc);
                assert(ray == seq![next] + rest);
                if rest.contains(t) {
                    let k = choose|k: int| 0 <= k < rest.len() && rest[k] == t;
                    assert(ray[k + 1] == t);
                }
                if ray.contains(t) {
                    let k = choose|k: int| 0 <= k < ray.len() && ray[k] == t;
                    assert(k > 0);
                    assert(rest[k - 1] == t);
                }
            },
            Some(x) => {
                assert(b.squares[next.spec_to_index()] == Some(x));
                assert(x.position == next);
                if x.color != c {
                    assert(ray == seq![next]);
                    assert(ray[0] == next);
                }
            },
        }
    }
}

/// The occupied squares that a cannon reaches along a line are exactly
/// the square of the second piece on the line, where that piece is an
/// enemy.
pub proof fn lemma_cannon_ray_hits(
    b: BoardView,
    c: Color,
    pos: Position,
    dr: i8,
    dc: i8,
    t: Position,
)
    requires
        b.inv(),
        b.occupied(t),
    ensures
        b.cannon_ray(c, pos, dr, dc).contains(t) <==> (b.first_piece(pos, dr, dc) matches Some(s)
            && b.first_piece(s.position, dr, dc) matches Some(x) && x.position == t && x.color
            != c),
    decreases room(pos, dr, dc),
{
    lemma_index_bijection();
    let next = pos.offset(dr, dc);
    let ray = b.cannon_ray(c, pos, dr, dc);
    if unit_step(dr, dc) && pos.is_valid() && next.is_valid() {
        match b.piece_at(next) {
            None => {
                lemma_cannon_ray_hits(b, c, next, dr, dc, t);
                let rest = b.cannon_ray(c, next, dr, dc);
                assert(ray == seq![next] + rest);
                if rest.contains(t) {
                    let k = choose|k: int| 0 <= k < rest.len() && rest[k] == t;
                    assert(ray[k + 1] == t);
                }
                if ray.contains(t) {
                    let k = choose|k: int| 0 <= k < ray.len() && ray[k] == t;
                    assert(k > 0);
                    assert(rest[k - 1] == t);
                }
            },
            Some(s) => {
                assert(b.squares[next.spec_to_index()] == Some(s));
                assert(s.position == next);
                assert(ray == b.cannon_shot(c, next, dr, dc));
                match b.first_piece(next, dr, dc) {
                    Some(x) => {
                        if x.color != c {
                            assert(ray == seq![x.position]);
                            assert(ray[0] == x.position);
                        }
                    },
                    None => {},
                }
            },
        }
    }
}

/// Two squares of one column, the upper one occupied, have no piece
/// between them exactly if the piece on the upper one is the first piece
/// seen upwards from the lower one.
pub proof fn lemma_facing_upwards(b: BoardView, low: Position, high: Position)
    requires
        b.inv(),
        low.is_valid(),
        high.is_valid(),
        low.col == high.col,
        low.row < high.row,
        b.occupied(high),
    ensures
        b.facing(low, high) <==> (b.first_piece(low, 1, 0) matches Some(x) && x.position == high),
        b.facing(high, low) <==> b.facing(low, high),
    decreases high.row - low.row,
{
    lemma_index_bijection();
    let next = low.offset(1, 0);
    assert(next.is_valid());
    assert(next == Position { row: (low.row + 1) as i8, col: low.col });
    if next == high {
        let p = b.piece_at(high)->0;
        assert(b.squares[high.spec_to_index()] == Some(p));
        assert(p.position == high);
    } else {
        match b.piece_at(next) {
            Some(p) => {
                assert(b.squares[next.spec_to_index()] == Some(p));
                assert(p.position == next);
                assert(b.occupied_at(low.row + 1, low.col as int));
            },
            None => {
                lemma_facing_upwards(b, next, high);
                if b.facing(next, high) {
                    assert forall|r: int| low.row < r < high.row implies !#[trigger] b.occupied_at(
                        r,
                        low.col as int,
                    ) by {
                        if r == low.row + 1 {
                        }
                    }
                }
                if b.facing(low, high) {
                    assert forall|r: int| next.row < r < high.row implies !#[trigger] b.occupied_at(
                        r,
                        next.col as int,
                    ) by {}
                }
            },
        }
    }
}

/// A square is in a list put together from two lists exactly if it is in
/// one of them.
pub proof fn lemma_concat_contains(s: Seq<Position>, t: Seq<Position>, x: Position)
    ensures
        (s + t).contains(x) <==> s.contains(x) || t.contains(x),
{
    if s.contains(x) {
        let k = choose|k: int| 0 <= k < s.len() && s[k] == x;
        assert((s + t)[k] == x);
    }
    if t.contains(x) {
        let k = choose|k: int| 0 <= k < t.len() && t[k] == x;
        assert((s + t)[k + s.len()] == x);
    }
    if (s + t).contains(x) {
        let k = choose|k: int| 0 <= k < (s + t).len() && (s + t)[k] == x;
        if k < s.len() {
            assert(s[k] == x);
        } else {
            assert(t[k - s.len()] == x);
        }
    }
}

/// The first piece seen along a row stands on that row, and the first
/// piece seen along a column on that column.
pub proof fn lemma_first_piece_in_line(b: BoardView, a: Position, dr: i8, dc: i8)
    requires
        b.inv(),
        b.first_piece(a, dr, dc) is Some,
    ensures
        dr == 0 ==> b.first_piece(a, dr, dc)->0.position.row == a.row,
        dc == 0 ==> b.first_piece(a, dr, dc)->0.position.col == a.col,
        dr > 0 ==> b.first_piece(a, dr, dc)->0.position.row > a.row,
        dr < 0 ==> b.first_piece(a, dr, dc)->0.position.row < a.row,
    decreases room(a, dr, dc),
{
    lemma_index_bijection();
    let next = a.offset(dr, dc);
    match b.piece_at(next) {
        Some(p) => {
            assert(b.squares[next.spec_to_index()] == Some(p));
        },
        None => {
            lemma_first_piece_in_line(b, next, dr, dc);
        },
    }
}

impl BoardView {
    /// Whether each king that is cached stands in the palace of its side.
    pub open spec fn kings_at_home(&self) -> bool {
        &&& (self.red_king matches Some(p) ==> p.is_in_palace(Color::Red))
        &&& (self.black_king matches Some(p) ==> p.is_in_palace(Color::Black))
    }

    /// Whether a piece of `by` has a move, by the rule of its kind, that
    /// lands on `target`.
    pub open spec fn reached(&self, target: Position, by: Color) -> bool {
        exists|i: int|
            0 <= i < 90 && (#[trigger] self.squares[i]) is Some && self.squares[i]->0.color == by
                && self.potential_moves(self.squares[i]->0).contains(target)
    }

    /// Whether `target` holds a piece that is not of `by`, on a board that
    /// can be played on.
    pub open spec fn enemy_target(&self, target: Position, by: Color) -> bool {
        &&& self.wf()
        &&& target.is_valid()
        &&& self.piece_at(target) matches Some(k) && k.color != by
    }

    /// Whether no piece of `by` that moves as an advisor or as an elephant
    /// has a move onto `target`.
    pub open spec fn guards_away(&self, target: Position, by: Color) -> bool {
        forall|i: int|
            0 <= i < 90 ==> (#[trigger] self.squares[i] matches Some(p) ==> !(p.color == by && (
            p.kind() == Some(PieceType::Advisor) || p.kind() == Some(PieceType::Elephant))
                && self.potential_moves(p).contains(target)))
    }

    /// Whether the king of `by`, where it is the first piece seen from
    /// `target` on the way `(dr, dc)`, has a move onto `target`.
    pub open spec fn seen_king_moves(&self, target: Position, by: Color, dr: i8, dc: i8) -> bool {
        self.first_piece(target, dr, dc) matches Some(x) ==> (x.color == by && x.kind() == Some(
            PieceType::King,
        ) ==> self.king_moves(x).contains(target))
    }

    /// Whether the king of `by` counts against `target` only where it has
    /// a move onto it: as a neighbour inside its palace, or facing the
    /// other king along an open column.
    pub open spec fn king_counts_by_move(&self, target: Position, by: Color) -> bool {
        &&& self.seen_king_moves(target, by, 1, 0)
        &&& self.seen_king_moves(target, by, -1i8, 0)
        &&& self.seen_king_moves(target, by, 0, 1)
        &&& self.seen_king_moves(target, by, 0, -1i8)
    }

    /// Whether `target` is the square of the king that `by` attacks, on a
    /// board that can be played on and on which both kings are at home.
    pub open spec fn king_target(&self, target: Position, by: Color) -> bool {
        &&& self.wf()
        &&& self.kings_at_home()
        &&& self.king(by.opposite()) == Some(target)
    }
}

proof fn lemma_enemy_target(b: BoardView, target: Position, by: Color)
    requires
        b.enemy_target(target, by),
    ensures
        b.piece_at(target) matches Some(k) && k.color != by && k.position == target,
        b.free_for(by, target),
{
    lemma_index_bijection();
    let k = b.piece_at(target)->0;
    assert(b.squares[target.spec_to_index()] == Some(k));
}

proof fn lemma_target_holds_king(b: BoardView, target: Position, by: Color)
    requires
        b.king_target(target, by),
    ensures
        target.is_valid(),
        target.is_in_palace(by.opposite()),
        !target.is_in_palace(by),
        !target.is_on_own_side(by),
        b.piece_at(target) matches Some(k) && k.color != by && k.position == target,
        b.free_for(by, target),
{
    lemma_index_bijection();
    let k = b.piece_at(target)->0;
    assert(b.squares[target.spec_to_index()] == Some(k));
    match by {
        Color::Red => {},
        Color::Black => {},
    }
}

proof fn lemma_piece_reaches(b: BoardView, target: Position, by: Color, p: Piece)
    requires
        b.inv(),
        p.position.is_valid(),
        b.piece_at(p.position) == Some(p),
        p.color == by,
        b.potential_moves(p).contains(target),
    ensures
        b.reached(target, by),
{
    lemma_index_bijection();
    assert(b.squares[p.position.spec_to_index()] == Some(p));
}

proof fn lemma_rook_reaches(b: BoardView, p: Piece, dr: i8, dc: i8, target: Position)
    requires
        (dr == 1 && dc == 0) || (dr == -1 && dc == 0) || (dr == 0 && dc == 1) || (dr == 0 && dc
            == -1),
    ensures
        b.rook_ray(p.color, p.position, dr, dc).contains(target) ==> b.rook_moves(p).contains(
            target,
        ),
        b.cannon_ray(p.color, p.position, dr, dc).contains(target) ==> b.cannon_moves(p).contains(
            target,
        ),
        b.rook_moves(p).contains(target) ==> b.rook_ray(p.color, p.position, 1, 0).contains(target)
            || b.rook_ray(p.color, p.position, -1i8, 0).contains(target) || b.rook_ray(
            p.color,
            p.position,
            0,
            1,
        ).contains(target) || b.rook_ray(p.color, p.position, 0, -1i8).contains(target),
        b.cannon_moves(p).contains(target) ==> b.cannon_ray(p.color, p.position, 1, 0).contains(
            target,
        ) || b.cannon_ray(p.color, p.position, -1i8, 0).contains(target) || b.cannon_ray(
            p.color,
            p.position,
            0,
            1,
        ).contains(target) || b.cannon_ray(p.color, p.position, 0, -1i8).contains(target),
{
    let c = p.color;
    let pos = p.position;
    let r1 = b.rook_ray(c, pos, 1, 0);
    let r2 = b.rook_ray(c, pos, -1i8, 0);
    let r3 = b.rook_ray(c, pos, 0, 1);
    let r4 = b.rook_ray(c, pos, 0, -1i8);
    lemma_concat_contains(r1, r2, target);
    lemma_concat_contains(r1 + r2, r3, target);
    lemma_concat_contains(r1 + r2 + r3, r4, target);
    let c1 = b.cannon_ray(c, pos, 1, 0);
    let c2 = b.cannon_ray(c, pos, -1i8, 0);
    let c3 = b.cannon_ray(c, pos, 0, 1);
    let c4 = b.cannon_ray(c, pos, 0, -1i8);
    lemma_concat_contains(c1, c2, target);
    lemma_concat_contains(c1 + c2, c3, target);
    lemma_concat_contains(c1 + c2 + c3, c4, target);
}

/// An attack along a line is a move of a rook, a cannon or the king.
#[verifier::rlimit(30)]
proof fn lemma_ray_attack_reaches(b: BoardView, target: Position, by: Color, dr: i8, dc: i8)
    requires
        b.enemy_target(target, by),
        (dr == 1 && dc == 0) || (dr == -1 && dc == 0) || (dr == 0 && dc == 1) || (dr == 0 && dc
            == -1),
        b.ray_attack(target, by, dr, dc),
        b.seen_king_moves(target, by, dr, dc),
    ensures
        b.reached(target, by),
{
    lemma_index_bijection();
    lemma_enemy_target(b, target, by);
    let king = b.piece_at(target)->0;
    let first = b.first_piece(target, dr, dc)->0;
    let q1 = first.position;
    lemma_first_piece_stands(b, target, dr, dc);
    lemma_look_back(b, target, dr, dc);
    lemma_first_piece_in_line(b, target, dr, dc);
    assert(b.first_piece(q1, back(dr), back(dc)) == Some(king));
    assert(b.squares[q1.spec_to_index()] == Some(first));
    if first.color == by && first.kind() == Some(PieceType::Rook) {
        lemma_rook_ray_hits(b, by, q1, back(dr), back(dc), target);
        lemma_rook_reaches(b, first, back(dr), back(dc), target);
        lemma_piece_reaches(b, target, by, first);
    } else if first.color == by && first.kind() == Some(PieceType::King) {
        assert(b.king_moves(first).contains(target));
        lemma_piece_reaches(b, target, by, first);
    } else {
        let second = b.first_piece(q1, dr, dc)->0;
        let q2 = second.position;
        lemma_first_piece_stands(b, q1, dr, dc);
        lemma_look_back(b, q1, dr, dc);
        assert(b.first_piece(q2, back(dr), back(dc)) == Some(first));
        lemma_cannon_ray_hits(b, by, q2, back(dr), back(dc), target);
        lemma_rook_reaches(b, second, back(dr), back(dc), target);
        lemma_piece_reaches(b, target, by, second);
    }
}

/// The eight jumps of a horse, each as a list of at most one square.
proof fn lemma_horse_jumps(b: BoardView, p: Piece, target: Position)
    ensures
        b.horse_moves(p).contains(target) <==> {
            ||| b.hobbled_step(p, 2, 1, 1, 0, Region::Anywhere).contains(target)
            ||| b.hobbled_step(p, 2, -1i8, 1, 0, Region::Anywhere).contains(target)
            ||| b.hobbled_step(p, -2i8, 1, -1i8, 0, Region::Anywhere).contains(target)
            ||| b.hobbled_step(p, -2i8, -1i8, -1i8, 0, Region::Anywhere).contains(target)
            ||| b.hobbled_step(p, 1, 2, 0, 1, Region::Anywhere).contains(target)
            ||| b.hobbled_step(p, 1, -2i8, 0, -1i8, Region::Anywhere).contains(target)
            ||| b.hobbled_step(p, -1i8, 2, 0, 1, Region::Anywhere).contains(target)
            ||| b.hobbled_step(p, -1i8, -2i8, 0, -1i8, Region::Anywhere).contains(target)
        },
{
    let s1 = b.hobbled_step(p, 2, 1, 1, 0, Region::Anywhere);
    let s2 = b.hobbled_step(p, 2, -1i8, 1, 0, Region::Anywhere);
    let s3 = b.hobbled_step(p, -2i8, 1, -1i8, 0, Region::Anywhere);
    let s4 = b.hobbled_step(p, -2i8, -1i8, -1i8, 0, Region::Anywhere);
    let s5 = b.hobbled_step(p, 1, 2, 0, 1, Region::Anywhere);
    let s6 = b.hobbled_step(p, 1, -2i8, 0, -1i8, Region::Anywhere);
    let s7 = b.hobbled_step(p, -1i8, 2, 0, 1, Region::Anywhere);
    let s8 = b.hobbled_step(p, -1i8, -2i8, 0, -1i8, Region::Anywhere);
    lemma_concat_contains(s1, s2, target);
    lemma_concat_contains(s1 + s2, s3, target);
    lemma_concat_contains(s1 + s2 + s3, s4, target);
    lemma_concat_contains(s1 + s2 + s3 + s4, s5, target);
    lemma_concat_contains(s1 + s2 + s3 + s4 + s5, s6, target);
    lemma_concat_contains(s1 + s2 + s3 + s4 + s5 + s6, s7, target);
    lemma_concat_contains(s1 + s2 + s3 + s4 + s5 + s6 + s7, s8, target);
}

/// A list of one square holds just that square.
proof fn lemma_step_contains(b: BoardView, p: Piece, dr: i8, dc: i8, region: Region, x: Position)
    ensures
        b.step(p, dr, dc, region).contains(x) <==> (x == p.position.offset(dr, dc)
            && BoardView::in_region(x, region, p.color) && b.free_for(p.color, x)),
{
    let s = b.step(p, dr, dc, region);
    let t = p.position.offset(dr, dc);
    if BoardView::in_region(t, region, p.color) && b.free_for(p.color, t) {
        assert(s == seq![t]);
        assert(s[0] == t);
    }
}

proof fn lemma_horse_attack_reaches(
    b: BoardView,
    target: Position,
    by: Color,
    dr: i8,
    dc: i8,
    lr: i8,
    lc: i8,
)
    requires
        b.enemy_target(target, by),
        -2 <= dr <= 2 && -2 <= dc <= 2 && -1 <= lr <= 1 && -1 <= lc <= 1,
        b.horse_attack(target, by, dr, dc, lr, lc),
    ensures
        b.hobbled_step(
            b.piece_at(target.offset(dr, dc))->0,
            back(dr),
            back(dc),
            lr,
            lc,
            Region::Anywhere,
        ).contains(target),
        b.piece_at(target.offset(dr, dc)) matches Some(p) && p.color == by && p.kind() == Some(
            PieceType::Horse,
        ) && p.position == target.offset(dr, dc),
{
    lemma_index_bijection();
    lemma_enemy_target(b, target, by);
    let h = target.offset(dr, dc);
    let p = b.piece_at(h)->0;
    assert(b.squares[h.spec_to_index()] == Some(p));
    assert(p.position == h);
    assert(h.offset(back(dr), back(dc)) == target);
    lemma_step_contains(b, p, back(dr), back(dc), Region::Anywhere, target);
}

proof fn lemma_horse_attacks_reach(b: BoardView, target: Position, by: Color)
    requires
        b.enemy_target(target, by),
        b.horse_attacks(target, by),
    ensures
        b.reached(target, by),
{
    lemma_index_bijection();
    lemma_enemy_target(b, target, by);
    if b.horse_attack(target, by, 2, 1, -1i8, 0) {
        lemma_horse_attack_reaches(b, target, by, 2, 1, -1i8, 0);
        let p = b.piece_at(target.offset(2, 1))->0;
        lemma_horse_jumps(b, p, target);
        lemma_piece_reaches(b, target, by, p);
    } else if b.horse_attack(target, by, 2, -1i8, -1i8, 0) {
        lemma_horse_attack_reaches(b, target, by, 2, -1i8, -1i8, 0);
        let p = b.piece_at(target.offset(2, -1i8))->0;
        lemma_horse_jumps(b, p, target);
        lemma_piece_reaches(b, target, by, p);
    } else if b.horse_attack(target, by, -2i8, 1, 1, 0) {
        lemma_horse_attack_reaches(b, target, by, -2i8, 1, 1, 0);
        let p = b.piece_at(target.offset(-2i8, 1))->0;
        lemma_horse_jumps(b, p, target);
        lemma_piece_reaches(b, target, by, p);
    } else if b.horse_attack(target, by, -2i8, -1i8, 1, 0) {
        lemma_horse_attack_reaches(b, target, by, -2i8, -1i8, 1, 0);
        let p = b.piece_at(target.offset(-2i8, -1i8))->0;
        lemma_horse_jumps(b, p, target);
        lemma_piece_reaches(b, target, by, p);
    } else if b.horse_attack(target, by, 1, 2, 0, -1i8) {
        lemma_horse_attack_reaches(b, target, by, 1, 2, 0, -1i8);
        let p = b.piece_at(target.offset(1, 2))->0;
        lemma_horse_jumps(b, p, target);
        lemma_piece_reaches(b, target, by, p);
    } else if b.horse_attack(target, by, 1, -2i8, 0, 1) {
        lemma_horse_attack_reaches(b, target, by, 1, -2i8, 0, 1);
        let p = b.piece_at(target.offset(1, -2i8))->0;
        lemma_horse_jumps(b, p, target);
        lemma_piece_reaches(b, target, by, p);
    } else if b.horse_attack(target, by, -1i8, 2, 0, -1i8) {
        lemma_horse_attack_reaches(b, target, by, -1i8, 2, 0, -1i8);
        let p = b.piece_at(target.offset(-1i8, 2))->0;
        lemma_horse_jumps(b, p, target);
        lemma_piece_reaches(b, target, by, p);
    } else {
        lemma_horse_attack_reaches(b, target, by, -1i8, -2i8, 0, 1);
        let p = b.piece_at(target.offset(-1i8, -2i8))->0;
        lemma_horse_jumps(b, p, target);
        lemma_piece_reaches(b, target, by, p);
    }
}

proof fn lemma_pawn_steps(b: BoardView, p: Piece, target: Position)
    ensures
        b.pawn_moves(p).contains(target) <==> {
            ||| b.step(p, forward(p.color), 0, Region::Anywhere).contains(target)
            ||| crossed_river(p.color, p.position.row) && b.step(
                p,
                0,
                -1i8,
                Region::Anywhere,
            ).contains(target)
            ||| crossed_river(p.color, p.position.row) && b.step(
                p,
                0,
                1,
                Region::Anywhere,
            ).contains(target)
        },
{
    let s1 = b.step(p, forward(p.color), 0, Region::Anywhere);
    let s2 = b.step(p, 0, -1i8, Region::Anywhere);
    let s3 = b.step(p, 0, 1, Region::Anywhere);
    lemma_concat_contains(s2, s3, target);
    lemma_concat_contains(s1, s2 + s3, target);
    lemma_concat_contains(s1, Seq::empty(), target);
}

proof fn lemma_pawn_attacks_reach(b: BoardView, target: Position, by: Color)
    requires
        b.enemy_target(target, by),
        b.pawn_attacks(target, by),
    ensures
        b.reached(target, by),
{
    lemma_index_bijection();
    lemma_enemy_target(b, target, by);
    let q = if b.holds(target.offset(backward(by), 0), by, PieceType::Pawn) {
        target.offset(backward(by), 0)
    } else if b.side_pawn(target, by, -1i8) {
        target.offset(0, -1i8)
    } else {
        target.offset(0, 1)
    };
    let p = b.piece_at(q)->0;
    assert(b.squares[q.spec_to_index()] == Some(p));
    assert(p.position == q);
    lemma_pawn_steps(b, p, target);
    lemma_step_contains(b, p, forward(by), 0, Region::Anywhere, target);
    lemma_step_contains(b, p, 0, -1i8, Region::Anywhere, target);
    lemma_step_contains(b, p, 0, 1, Region::Anywhere, target);
    lemma_piece_reaches(b, target, by, p);
}

/// Every attack on the square is a move of a piece of the attacker onto
/// that square.
pub proof fn lemma_attack_reaches(b: BoardView, target: Position, by: Color)
    requires
        b.enemy_target(target, by),
        b.king_counts_by_move(target, by),
        b.attacked(target, by),
    ensures
        b.reached(target, by),
{
    if b.ray_attack(target, by, 1, 0) {
        lemma_ray_attack_reaches(b, target, by, 1, 0);
    } else if b.ray_attack(target, by, -1i8, 0) {
        lemma_ray_attack_reaches(b, target, by, -1i8, 0);
    } else if b.ray_attack(target, by, 0, 1) {
        lemma_ray_attack_reaches(b, target, by, 0, 1);
    } else if b.ray_attack(target, by, 0, -1i8) {
        lemma_ray_attack_reaches(b, target, by, 0, -1i8);
    } else if b.horse_attacks(target, by) {
        lemma_horse_attacks_reach(b, target, by);
    } else {
        lemma_pawn_attacks_reach(b, target, by);
    }
}

proof fn lemma_neighbour_attacks(b: BoardView, target: Position, by: Color, p: Piece, dr: i8, dc: i8)
    requires
        b.enemy_target(target, by),
        p.position.is_valid(),
        b.piece_at(p.position) == Some(p),
        p.color == by,
        p.kind() == Some(PieceType::King),
        (dr == 1 && dc == 0) || (dr == -1 && dc == 0) || (dr == 0 && dc == 1) || (dr == 0 && dc
            == -1),
        target == p.position.offset(dr, dc),
    ensures
        b.ray_attack(target, by, back(dr), back(dc)),
{
    assert(unit_step(back(dr), back(dc)));
    assert(target.offset(back(dr), back(dc)) == p.position);
    assert(b.first_piece(target, back(dr), back(dc)) == Some(p));
}

proof fn lemma_king_reach_attacks(b: BoardView, target: Position, by: Color, p: Piece)
    requires
        b.enemy_target(target, by),
        p.position.is_valid(),
        b.piece_at(p.position) == Some(p),
        p.color == by,
        p.kind() == Some(PieceType::King),
        b.king_moves(p).contains(target),
    ensures
        b.attacked(target, by),
{
    lemma_index_bijection();
    lemma_enemy_target(b, target, by);
    let s1 = b.step(p, 1, 0, Region::Palace);
    let s2 = b.step(p, -1i8, 0, Region::Palace);
    let s3 = b.step(p, 0, 1, Region::Palace);
    let s4 = b.step(p, 0, -1i8, Region::Palace);
    let fly = b.flying_general(p);
    lemma_concat_contains(s1, s2, target);
    lemma_concat_contains(s1 + s2, s3, target);
    lemma_concat_contains(s1 + s2 + s3, s4, target);
    lemma_concat_contains(s1 + s2 + s3 + s4, fly, target);
    lemma_step_contains(b, p, 1, 0, Region::Palace, target);
    lemma_step_contains(b, p, -1i8, 0, Region::Palace, target);
    lemma_step_contains(b, p, 0, 1, Region::Palace, target);
    lemma_step_contains(b, p, 0, -1i8, Region::Palace, target);
    if s1.contains(target) {
        lemma_neighbour_attacks(b, target, by, p, 1, 0);
    } else if s2.contains(target) {
        lemma_neighbour_attacks(b, target, by, p, -1i8, 0);
    } else if s3.contains(target) {
        lemma_neighbour_attacks(b, target, by, p, 0, 1);
    } else if s4.contains(target) {
        lemma_neighbour_attacks(b, target, by, p, 0, -1i8);
    } else {
        assert(fly.contains(target));
        assert(b.facing(p.position, target));
        assert(p.position != target);
        if p.position.row < target.row {
            lemma_facing_upwards(b, p.position, target);
            lemma_look_back(b, p.position, 1, 0);
            assert(b.first_piece(target, -1i8, 0) == Some(p));
            assert(b.ray_attack(target, by, -1i8, 0));
        } else {
            lemma_facing_upwards(b, target, p.position);
            let x = b.first_piece(target, 1, 0)->0;
            lemma_first_piece_stands(b, target, 1, 0);
            assert(x == p);
            assert(b.ray_attack(target, by, 1, 0));
        }
    }
}

proof fn lemma_guards_do_not_reach(b: BoardView, target: Position, by: Color, p: Piece)
    requires
        b.king_target(target, by),
        p.color == by,
    ensures
        !b.advisor_moves(p).contains(target),
        !b.elephant_moves(p).contains(target),
{
    lemma_target_holds_king(b, target, by);
    let a1 = b.step(p, 1, 1, Region::Palace);
    let a2 = b.step(p, 1, -1i8, Region::Palace);
    let a3 = b.step(p, -1i8, 1, Region::Palace);
    let a4 = b.step(p, -1i8, -1i8, Region::Palace);
    lemma_concat_contains(a1, a2, target);
    lemma_concat_contains(a1 + a2, a3, target);
    lemma_concat_contains(a1 + a2 + a3, a4, target);
    lemma_step_contains(b, p, 1, 1, Region::Palace, target);
    lemma_step_contains(b, p, 1, -1i8, Region::Palace, target);
    lemma_step_contains(b, p, -1i8, 1, Region::Palace, target);
    lemma_step_contains(b, p, -1i8, -1i8, Region::Palace, target);
    let e1 = b.hobbled_step(p, 2, 2, 1, 1, Region::OwnSide);
    let e2 = b.hobbled_step(p, 2, -2i8, 1, -1i8, Region::OwnSide);
    let e3 = b.hobbled_step(p, -2i8, 2, -1i8, 1, Region::OwnSide);
    let e4 = b.hobbled_step(p, -2i8, -2i8, -1i8, -1i8, Region::OwnSide);
    lemma_concat_contains(e1, e2, target);
    lemma_concat_contains(e1 + e2, e3, target);
    lemma_concat_contains(e1 + e2 + e3, e4, target);
    lemma_step_contains(b, p, 2, 2, Region::OwnSide, target);
    lemma_step_contains(b, p, 2, -2i8, Region::OwnSide, target);
    lemma_step_contains(b, p, -2i8, 2, Region::OwnSide, target);
    lemma_step_contains(b, p, -2i8, -2i8, Region::OwnSide, target);
}

proof fn lemma_horse_jump_attacks(
    b: BoardView,
    target: Position,
    by: Color,
    p: Piece,
    dr: i8,
    dc: i8,
    br: i8,
    bc: i8,
)
    requires
        b.enemy_target(target, by),
        p.position.is_valid(),
        b.piece_at(p.position) == Some(p),
        p.color == by,
        p.kind() == Some(PieceType::Horse),
        -2 <= dr <= 2 && -2 <= dc <= 2,
        b.hobbled_step(p, dr, dc, br, bc, Region::Anywhere).contains(target),
    ensures
        b.horse_attack(target, by, back(dr), back(dc), br, bc),
{
    lemma_enemy_target(b, target, by);
    lemma_step_contains(b, p, dr, dc, Region::Anywhere, target);
    assert(target.offset(back(dr), back(dc)) == p.position);
}

proof fn lemma_horse_reach_attacks(b: BoardView, target: Position, by: Color, p: Piece)
    requires
        b.enemy_target(target, by),
        p.position.is_valid(),
        b.piece_at(p.position) == Some(p),
        p.color == by,
        p.kind() == Some(PieceType::Horse),
        b.horse_moves(p).contains(target),
    ensures
        b.horse_attacks(target, by),
{
    lemma_horse_jumps(b, p, target);
    if b.hobbled_step(p, 2, 1, 1, 0, Region::Anywhere).contains(target) {
        lemma_horse_jump_attacks(b, target, by, p, 2, 1, 1, 0);
    } else if b.hobbled_step(p, 2, -1i8, 1, 0, Region::Anywhere).contains(target) {
        lemma_horse_jump_attacks(b, target, by, p, 2, -1i8, 1, 0);
    } else if b.hobbled_step(p, -2i8, 1, -1i8, 0, Region::Anywhere).contains(target) {
        lemma_horse_jump_attacks(b, target, by, p, -2i8, 1, -1i8, 0);
    } else if b.hobbled_step(p, -2i8, -1i8, -1i8, 0, Region::Anywhere).contains(target) {
        lemma_horse_jump_attacks(b, target, by, p, -2i8, -1i8, -1i8, 0);
    } else if b.hobbled_step(p, 1, 2, 0, 1, Region::Anywhere).contains(target) {
        lemma_horse_jump_attacks(b, target, by, p, 1, 2, 0, 1);
    } else if b.hobbled_step(p, 1, -2i8, 0, -1i8, Region::Anywhere).contains(target) {
        lemma_horse_jump_attacks(b, target, by, p, 1, -2i8, 0, -1i8);
    } else if b.hobbled_step(p, -1i8, 2, 0, 1, Region::Anywhere).contains(target) {
        lemma_horse_jump_attacks(b, target, by, p, -1i8, 2, 0, 1);
    } else {
        lemma_horse_jump_attacks(b, target, by, p, -1i8, -2i8, 0, -1i8);
    }
}

proof fn lemma_line_reach_attacks(
    b: BoardView,
    target: Position,
    by: Color,
    p: Piece,
    dr: i8,
    dc: i8,
)
    requires
        b.enemy_target(target, by),
        p.position.is_valid(),
        b.piece_at(p.position) == Some(p),
        p.color == by,
        (dr == 1 && dc == 0) || (dr == -1 && dc == 0) || (dr == 0 && dc == 1) || (dr == 0 && dc
            == -1),
        (p.kind() == Some(PieceType::Rook) && b.rook_ray(by, p.position, dr, dc).contains(target))
            || (p.kind() == Some(PieceType::Cannon) && b.cannon_ray(
            by,
            p.position,
            dr,
            dc,
        ).contains(target)),
    ensures
        b.ray_attack(target, by, back(dr), back(dc)),
{
    lemma_index_bijection();
    lemma_enemy_target(b, target, by);
    if p.kind() == Some(PieceType::Rook) {
        lemma_rook_ray_hits(b, by, p.position, dr, dc, target);
        lemma_look_back(b, p.position, dr, dc);
        assert(b.first_piece(target, back(dr), back(dc)) == Some(p));
    } else {
        lemma_cannon_ray_hits(b, by, p.position, dr, dc, target);
        let s = b.first_piece(p.position, dr, dc)->0;
        lemma_first_piece_stands(b, p.position, dr, dc);
        lemma_look_back(b, p.position, dr, dc);
        lemma_look_back(b, s.position, dr, dc);
        assert(b.first_piece(s.position, back(dr), back(dc)) == Some(p));
        assert(b.first_piece(target, back(dr), back(dc)) == Some(s));
    }
}

proof fn lemma_pawn_reach_attacks(b: BoardView, target: Position, by: Color, p: Piece)
    requires
        b.enemy_target(target, by),
        p.position.is_valid(),
        b.piece_at(p.position) == Some(p),
        p.color == by,
        p.kind() == Some(PieceType::Pawn),
        b.pawn_moves(p).contains(target),
    ensures
        b.pawn_attacks(target, by),
{
    lemma_enemy_target(b, target, by);
    lemma_pawn_steps(b, p, target);
    lemma_step_contains(b, p, forward(by), 0, Region::Anywhere, target);
    lemma_step_contains(b, p, 0, -1i8, Region::Anywhere, target);
    lemma_step_contains(b, p, 0, 1, Region::Anywhere, target);
    if b.step(p, forward(by), 0, Region::Anywhere).contains(target) {
        assert(target.offset(backward(by), 0) == p.position);
    } else if b.step(p, 0, -1i8, Region::Anywhere).contains(target) {
        assert(target.offset(0, 1) == p.position);
        assert(b.side_pawn(target, by, 1));
    } else {
        assert(target.offset(0, -1i8) == p.position);
        assert(b.side_pawn(target, by, -1i8));
    }
}

/// Every move onto the square of a piece of the attacker that is neither
/// advisor nor elephant is an attack on that square.
#[verifier::rlimit(30)]
pub proof fn lemma_reach_attacks(b: BoardView, target: Position, by: Color)
    requires
        b.enemy_target(target, by),
        b.guards_away(target, by),
        b.reached(target, by),
    ensures
        b.attacked(target, by),
{
    lemma_index_bijection();
    let i = choose|i: int|
        0 <= i < 90 && (#[trigger] b.squares[i]) is Some && b.squares[i]->0.color == by
            && b.potential_moves(b.squares[i]->0).contains(target);
    let p = b.squares[i]->0;
    assert(p.position == Position::spec_from_index(i));
    assert(b.piece_at(p.position) == Some(p));
    assert(p.typed());
    assert(!(p.kind() == Some(PieceType::Advisor) || p.kind() == Some(PieceType::Elephant)));
    match p.kind() {
        Some(PieceType::King) => {
            lemma_king_reach_attacks(b, target, by, p);
        },
        Some(PieceType::Horse) => {
            lemma_horse_reach_attacks(b, target, by, p);
        },
        Some(PieceType::Rook) => {
            lemma_rook_reaches(b, p, 1, 0, target);
            if b.rook_ray(by, p.position, 1, 0).contains(target) {
                lemma_line_reach_attacks(b, target, by, p, 1, 0);
            } else if b.rook_ray(by, p.position, -1i8, 0).contains(target) {
                lemma_line_reach_attacks(b, target, by, p, -1i8, 0);
            } else if b.rook_ray(by, p.position, 0, 1).contains(target) {
                lemma_line_reach_attacks(b, target, by, p, 0, 1);
            } else {
                lemma_line_reach_attacks(b, target, by, p, 0, -1i8);
            }
        },
        Some(PieceType::Cannon) => {
            lemma_rook_reaches(b, p, 1, 0, target);
            if b.cannon_ray(by, p.position, 1, 0).contains(target) {
                lemma_line_reach_attacks(b, target, by, p, 1, 0);
            } else if b.cannon_ray(by, p.position, -1i8, 0).contains(target) {
                lemma_line_reach_attacks(b, target, by, p, -1i8, 0);
            } else if b.cannon_ray(by, p.position, 0, 1).contains(target) {
                lemma_line_reach_attacks(b, target, by, p, 0, 1);
            } else {
                lemma_line_reach_attacks(b, target, by, p, 0, -1i8);
            }
        },
        Some(PieceType::Pawn) => {
            lemma_pawn_reach_attacks(b, target, by, p);
        },
        _ => {},
    }
}

/// Attack-direction equivalence. On a board that can be played on, a
/// square that holds a piece of the other side is attacked by `by` exactly
/// if a piece of `by` has a move, by the rule of its kind, that lands on
/// the square; given that no advisor or elephant of `by` has such a move,
/// which attack detection does not look for, and that the king of `by`
/// where it is seen from the square along a row or column has such a
/// move, as a neighbour inside its palace or facing the other king.
pub proof fn lemma_attack_agrees_with_moves(b: BoardView, target: Position, by: Color)
    requires
        b.enemy_target(target, by),
        b.guards_away(target, by),
        b.king_counts_by_move(target, by),
    ensures
        b.attacked(target, by) <==> b.reached(target, by),
{
    if b.attacked(target, by) {
        lemma_attack_reaches(b, target, by);
    }
    if b.reached(target, by) {
        lemma_reach_attacks(b, target, by);
    }
}

/// The king of `by`, seen from the square of the other king with both
/// kings at home, stands on that king's column with nothing between, and
/// so has the flying-general capture onto the square.
proof fn lemma_seen_king_faces(b: BoardView, target: Position, by: Color, dr: i8, dc: i8)
    requires
        b.king_target(target, by),
        (dr == 1 && dc == 0) || (dr == -1 && dc == 0) || (dr == 0 && dc == 1) || (dr == 0 && dc
            == -1),
    ensures
        b.seen_king_moves(target, by, dr, dc),
{
    lemma_index_bijection();
    lemma_target_holds_king(b, target, by);
    if b.first_piece(target, dr, dc) is Some {
        let first = b.first_piece(target, dr, dc)->0;
        let q1 = first.position;
        if first.color == by && first.kind() == Some(PieceType::King) {
            let king = b.piece_at(target)->0;
            lemma_first_piece_stands(b, target, dr, dc);
            lemma_look_back(b, target, dr, dc);
            lemma_first_piece_in_line(b, target, dr, dc);
            assert(b.first_piece(q1, back(dr), back(dc)) == Some(king));
            assert(b.squares[q1.spec_to_index()] == Some(first));
            assert(b.king(by) == Some(q1));
            assert(q1.is_in_palace(by));
            assert(dc == 0) by {
                match by {
                    Color::Red => {},
                    Color::Black => {},
                }
            }
            if dr == 1 {
                lemma_facing_upwards(b, target, q1);
            } else {
                lemma_facing_upwards(b, q1, target);
            }
            assert(b.facing(q1, target));
            assert(b.flying_general(first) == seq![target]);
            assert(b.flying_general(first)[0] == target);
            let steps = b.step(first, 1, 0, Region::Palace) + b.step(first, -1i8, 0, Region::Palace)
                + b.step(first, 0, 1, Region::Palace) + b.step(first, 0, -1i8, Region::Palace);
            lemma_concat_contains(steps, b.flying_general(first), target);
        }
    }
}

/// Check agrees with move generation. On a board that can be played on,
/// with both kings in their palaces, the square of a king is attacked by
/// the other side exactly if a piece of that side has a move, by the rule
/// of its kind, that lands on the square.
pub proof fn lemma_check_agrees_with_moves(b: BoardView, target: Position, by: Color)
    requires
        b.wf(),
        b.kings_at_home(),
        b.king(by.opposite()) == Some(target),
    ensures
        b.attacked(target, by) <==> b.reached(target, by),
{
    lemma_index_bijection();
    lemma_target_holds_king(b, target, by);
    assert forall|i: int| 0 <= i < 90 implies (#[trigger] b.squares[i] matches Some(p) ==> !(
    p.color == by && (p.kind() == Some(PieceType::Advisor) || p.kind() == Some(
        PieceType::Elephant,
    )) && b.potential_moves(p).contains(target))) by {
        if b.squares[i] is Some && b.squares[i]->0.color == by {
            lemma_guards_do_not_reach(b, target, by, b.squares[i]->0);
        }
    }
    lemma_seen_king_faces(b, target, by, 1, 0);
    lemma_seen_king_faces(b, target, by, -1i8, 0);
    lemma_seen_king_faces(b, target, by, 0, 1);
    lemma_seen_king_faces(b, target, by, 0, -1i8);
    lemma_attack_agrees_with_moves(b, target, by);
}

} // verus!
