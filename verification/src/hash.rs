//! A hash of a position, for tables keyed by positions.

use vstd::prelude::*;
use vstd::std_specs::hash::DefaultHasherAdditionalSpecFns;
use std::collections::hash_map::DefaultHasher;
use std::hash::Hasher;
use crate::board::{Board, BoardView, Piece};
use crate::types::{Color, PieceType, Position};

verus! {

/// The byte that stands for a side.
pub open spec fn color_code(c: Color) -> u8 {
    match c {
        Color::Red => 0u8,
        Color::Black => 1u8,
    }
}

/// The byte that stands for an actual kind: zero for none.
pub open spec fn kind_code(t: Option<PieceType>) -> u8 {
    match t {
        None => 0u8,
        Some(t) => (t.spec_index() + 1) as u8,
    }
}

/// The bytes that stand for piece `p` on square number `i`: the number,
/// the side, the face and the actual kind.
pub open spec fn piece_bytes(i: int, p: Piece) -> Seq<u8> {
    seq![i as u8, color_code(p.color), if p.is_hidden {
        1u8
    } else {
        0u8
    }, kind_code(p.actual_type)]
}

impl BoardView {
    /// What is hashed of the squares with numbers below `n`: the bytes of
    /// each piece, in the order of the squares.
    pub open spec fn hashed_below(&self, n: int) -> Seq<Seq<u8>>
        decreases n,
    {
        if n <= 0 {
            Seq::empty()
        } else {
            match self.squares[n - 1] {
                Some(p) => self.hashed_below(n - 1).push(piece_bytes(n - 1, p)),
                None => self.hashed_below(n - 1),
            }
        }
    }

    /// What is hashed of the position: the pieces on their squares and
    /// the side to move. The movement kinds, the cached king squares, the
    /// captured pieces and the viewer are left out.
    pub open spec fn hashed(&self) -> Seq<Seq<u8>> {
        self.hashed_below(90).push(seq![color_code(self.turn)])
    }
}

fn code_of_color(c: Color) -> (r: u8)
    ensures
        r == color_code(c),
{
    match c {
        Color::Red => 0,
        Color::Black => 1,
    }
}

fn code_of_kind(t: Option<PieceType>) -> (r: u8)
    ensures
        r == kind_code(t),
{
    match t {
        None => 0,
        Some(PieceType::King) => 1,
        Some(PieceType::Advisor) => 2,
        Some(PieceType::Elephant) => 3,
        Some(PieceType::Horse) => 4,
        Some(PieceType::Rook) => 5,
        Some(PieceType::Cannon) => 6,
        Some(PieceType::Pawn) => 7,
    }
}

impl Board {
    /// A hash of the position: of the pieces on their squares, with their
    /// sides, faces and actual kinds, and of the side to move. Positions
    /// that agree in these have the same hash.
    pub fn get_position_hash(&self) -> (h: u64)
        requires
            self@.inv(),
        ensures
            h == DefaultHasher::spec_finish(self@.hashed()),
    {
        let mut hasher = DefaultHasher::new();
        let mut i: usize = 0;
        while i < 90
            invariant
                i <= 90,
                self@.inv(),
                hasher@ == self@.hashed_below(i as int),
            decreases 90 - i,
        {
            match self.piece_on(Position::from_index(i)) {
                Some(p) => {
                    let mut bytes: Vec<u8> = Vec::with_capacity(4);
                    bytes.push(i as u8);
                    bytes.push(code_of_color(p.color));
                    bytes.push(
                        if p.is_hidden {
                            1
                        } else {
                            0
                        },
                    );
                    bytes.push(code_of_kind(p.actual_type));
                    assert(bytes@ =~= piece_bytes(i as int, p));
                    hasher.write(bytes.as_slice());
                },
                None => {},
            }
            i += 1;
        }
        let mut last: Vec<u8> = Vec::with_capacity(1);
        last.push(code_of_color(self.current_turn()));
        assert(last@ =~= seq![color_code(self@.turn)]);
        hasher.write(last.as_slice());
        hasher.finish()
    }
}

} // verus!
