//! Attack detection: whether a side attacks a square, found by looking
//! outward from the square, and whether a side is in check.

use vstd::prelude::*;
use crate::board::{Board, BoardView};
use crate::movegen::crossed_river;
use crate::types::{Color, PieceType, Position};

verus! {

/// The row step that is backward for `color`.
pub open spec fn backward(color: Color) -> i8 {
    match color {
        Color::Red => -1i8,
        Color::Black => 1i8,
    }
}

impl BoardView {
    /// Whether the piece on `pos` belongs to `by` and moves as `kind`.
    pub open spec fn holds(&self, pos: Position, by: Color, kind: PieceType) -> bool {
        self.piece_at(pos) matches Some(p) && p.color == by && p.kind() == Some(kind)
    }

    /// Whether `by` attacks `target` along the line that leaves `target`
    /// in steps of `(dr, dc)`: the first piece on the line is a rook or
    /// the king of `by`, or the second piece on it is a cannon of `by`.
    pub open spec fn ray_attack(&self, target: Position, by: Color, dr: i8, dc: i8) -> bool {
        match self.first_piece(target, dr, dc) {
            None => false,
            Some(first) => {
                ||| first.color == by && (first.kind() == Some(PieceType::Rook) || first.kind()
                    == Some(PieceType::King))
                ||| self.first_piece(first.position, dr, dc) matches Some(second) && second.color
                    == by && second.kind() == Some(PieceType::Cannon)
            },
        }
    }

    /// Whether a horse of `by` stands `(dr, dc)` away from `target` with
    /// its leg free: no piece on the square next to the horse on its way
    /// to `target`, which lies `(lr, lc)` back from the horse.
    pub open spec fn horse_attack(
        &self,
        target: Position,
        by: Color,
        dr: i8,
        dc: i8,
        lr: i8,
        lc: i8,
    ) -> bool {
        let horse = target.offset(dr, dc);
        self.holds(horse, by, PieceType::Horse) && !self.occupied(horse.offset(lr, lc))
    }

    /// Whether a horse of `by` attacks `target`.
    pub open spec fn horse_attacks(&self, target: Position, by: Color) -> bool {
        ||| self.horse_attack(target, by, 2, 1, -1i8, 0)
        ||| self.horse_attack(target, by, 2, -1i8, -1i8, 0)
        ||| self.horse_attack(target, by, -2i8, 1, 1, 0)
        ||| self.horse_attack(target, by, -2i8, -1i8, 1, 0)
        ||| self.horse_attack(target, by, 1, 2, 0, -1i8)
        ||| self.horse_attack(target, by, 1, -2i8, 0, 1)
        ||| self.horse_attack(target, by, -1i8, 2, 0, -1i8)
        ||| self.horse_attack(target, by, -1i8, -2i8, 0, 1)
    }

    /// Whether a pawn of `by` stands beside `target`, `dc` columns away,
    /// and has crossed the river.
    pub open spec fn side_pawn(&self, target: Position, by: Color, dc: i8) -> bool {
        let pos = target.offset(0, dc);
        self.holds(pos, by, PieceType::Pawn) && crossed_river(by, pos.row)
    }

    /// Whether a pawn of `by` attacks `target`: one stands behind it, as
    /// `by` sees the board, or one that has crossed the river stands
    /// beside it.
    pub open spec fn pawn_attacks(&self, target: Position, by: Color) -> bool {
        ||| self.holds(target.offset(backward(by), 0), by, PieceType::Pawn)
        ||| self.side_pawn(target, by, -1i8)
        ||| self.side_pawn(target, by, 1)
    }

    /// Whether `by` attacks the square `target`: by a rook, a cannon or the
    /// king along a row or column, by a horse, or by a pawn. Advisors and
    /// elephants are not looked for.
    pub open spec fn attacked(&self, target: Position, by: Color) -> bool {
        ||| self.ray_attack(target, by, 1, 0)
        ||| self.ray_attack(target, by, -1i8, 0)
        ||| self.ray_attack(target, by, 0, 1)
        ||| self.ray_attack(target, by, 0, -1i8)
        ||| self.horse_attacks(target, by)
        ||| self.pawn_attacks(target, by)
    }

    /// Whether `color` is in check: its king's cached square is attacked by
    /// the other side. A side without a king counts as in check.
    pub open spec fn in_check(&self, color: Color) -> bool {
        match self.king(color) {
            Some(king) => self.attacked(king, color.opposite()),
            None => true,
        }
    }
}

impl Board {
    fn holds(&self, pos: Position, by: Color, kind: PieceType) -> (r: bool)
        requires
            self@.inv(),
        ensures
            r == self@.holds(pos, by, kind),
    {
        match self.piece_on(pos) {
            Some(p) => {
                p.color == by && match p.movement_kind() {
                    Some(k) => k == kind,
                    None => false,
                }
            },
            None => false,
        }
    }

    fn ray_attack(&self, target: Position, by: Color, dr: i8, dc: i8) -> (r: bool)
        requires
            self@.inv(),
            target.is_valid(),
            crate::movegen::unit_step(dr, dc),
        ensures
            r == self@.ray_attack(target, by, dr, dc),
    {
        match self.first_piece_from(target, dr, dc) {
            None => false,
            Some(first) => {
                if first.color == by {
                    match first.movement_kind() {
                        Some(PieceType::Rook) => {
                            return true;
                        },
                        Some(PieceType::King) => {
                            return true;
                        },
                        _ => {},
                    }
                }
                match self.first_piece_from(first.position, dr, dc) {
                    Some(second) => {
                        second.color == by && match second.movement_kind() {
                            Some(PieceType::Cannon) => true,
                            _ => false,
                        }
                    },
                    None => false,
                }
            },
        }
    }

    fn horse_attack(&self, target: Position, by: Color, dr: i8, dc: i8, lr: i8, lc: i8) -> (r:
        bool)
        requires
            self@.inv(),
            target.is_valid(),
            -2 <= dr <= 2,
            -2 <= dc <= 2,
            -1 <= lr <= 1,
            -1 <= lc <= 1,
        ensures
            r == self@.horse_attack(target, by, dr, dc, lr, lc),
    {
        let horse = target.offset(dr, dc);
        self.holds(horse, by, PieceType::Horse) && !self.has_piece(horse.offset(lr, lc))
    }

    fn side_pawn(&self, target: Position, by: Color, dc: i8) -> (r: bool)
        requires
            self@.inv(),
            target.is_valid(),
            -1 <= dc <= 1,
        ensures
            r == self@.side_pawn(target, by, dc),
    {
        let pos = target.offset(0, dc);
        let crossed = match by {
            Color::Red => pos.row >= 5,
            Color::Black => pos.row <= 4,
        };
        self.holds(pos, by, PieceType::Pawn) && crossed
    }

    /// Whether `attacker_color` attacks the square `target_pos`.
    pub fn is_position_attacked(&self, target_pos: Position, attacker_color: Color) -> (r: bool)
        requires
            self@.inv(),
            target_pos.is_valid(),
        ensures
            r == self@.attacked(target_pos, attacker_color),
    {
        let t = target_pos;
        let by = attacker_color;
        if self.ray_attack(t, by, 1, 0) || self.ray_attack(t, by, -1, 0) || self.ray_attack(
            t,
            by,
            0,
            1,
        ) || self.ray_attack(t, by, 0, -1) {
            return true;
        }
        if self.horse_attack(t, by, 2, 1, -1, 0) || self.horse_attack(t, by, 2, -1, -1, 0)
            || self.horse_attack(t, by, -2, 1, 1, 0) || self.horse_attack(t, by, -2, -1, 1, 0)
            || self.horse_attack(t, by, 1, 2, 0, -1) || self.horse_attack(t, by, 1, -2, 0, 1)
            || self.horse_attack(t, by, -1, 2, 0, -1) || self.horse_attack(t, by, -1, -2, 0, 1) {
            return true;
        }
        let back: i8 = match by {
            Color::Red => -1,
            Color::Black => 1,
        };
        self.holds(t.offset(back, 0), by, PieceType::Pawn) || self.side_pawn(t, by, -1)
            || self.side_pawn(t, by, 1)
    }

    /// Whether the king of `king_color`, taken to stand on `king_pos`, is
    /// attacked by the other side.
    pub fn is_king_attacked(&self, king_pos: Position, king_color: Color) -> (r: bool)
        requires
            self@.inv(),
            king_pos.is_valid(),
        ensures
            r == self@.attacked(king_pos, king_color.opposite()),
    {
        self.is_position_attacked(king_pos, king_color.opposite())
    }

    /// Whether `color` is in check. A side without a king counts as in
    /// check.
    pub fn is_in_check(&self, color: Color) -> (r: bool)
        requires
            self@.inv(),
        ensures
            r == self@.in_check(color),
    {
        match self.find_king(color) {
            Some(king_pos) => self.is_position_attacked(king_pos, color.opposite()),
            None => true,
        }
    }
}

} // verus!
