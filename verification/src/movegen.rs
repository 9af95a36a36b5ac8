//! How the seven kinds of piece move: for a piece on a board, the squares
//! it may go to, before the safety of its own king is considered.

use vstd::prelude::*;
use crate::board::{Board, BoardView, Piece};
use crate::types::{Color, PieceType, Position};

verus! {

/// A part of the board to which some kinds of piece are confined.
#[derive(Debug, Clone, Copy)]
pub enum Region {
    /// The palace of the piece's own side.
    Palace,
    /// The piece's own half of the board.
    OwnSide,
    /// The whole board.
    Anywhere,
}

/// Whether `(dr, dc)` is a step to one of the eight neighbouring squares.
pub open spec fn unit_step(dr: i8, dc: i8) -> bool {
    -1i8 <= dr <= 1 && -1i8 <= dc <= 1 && !(dr == 0 && dc == 0)
}

/// An upper bound on the number of steps `(dr, dc)` that lead from `pos`
/// to further squares of the board.
pub open spec fn room(pos: Position, dr: i8, dc: i8) -> int {
    if dr > 0 {
        9 - pos.row
    } else if dr < 0 {
        pos.row as int
    } else if dc > 0 {
        8 - pos.col
    } else {
        pos.col as int
    }
}

/// Whether a pawn of `color` on row `row` has crossed the river.
pub open spec fn crossed_river(color: Color, row: i8) -> bool {
    match color {
        Color::Red => row >= 5,
        Color::Black => row <= 4,
    }
}

/// The row step that is forward for `color`.
pub open spec fn forward(color: Color) -> i8 {
    match color {
        Color::Red => 1i8,
        Color::Black => -1i8,
    }
}

impl BoardView {
    /// Whether a piece of `color` may land on `pos`: the square is on the
    /// board and holds no piece of that color.
    pub open spec fn free_for(&self, color: Color, pos: Position) -> bool {
        pos.is_valid() && (self.piece_at(pos) matches Some(t) ==> t.color != color)
    }

    /// Whether `pos` lies in `region` as seen from `color`.
    pub open spec fn in_region(pos: Position, region: Region, color: Color) -> bool {
        match region {
            Region::Palace => pos.is_in_palace(color),
            Region::OwnSide => pos.is_on_own_side(color),
            Region::Anywhere => true,
        }
    }

    /// The single step `(dr, dc)` of `piece`, as a list of at most one
    /// square: the target, where it lies in `region` and the piece may
    /// land on it.
    pub open spec fn step(&self, piece: Piece, dr: i8, dc: i8, region: Region) -> Seq<Position> {
        let target = piece.position.offset(dr, dc);
        if Self::in_region(target, region, piece.color) && self.free_for(piece.color, target) {
            seq![target]
        } else {
            Seq::empty()
        }
    }

    /// The step `(dr, dc)` of `piece`, which a piece on the square
    /// `(br, bc)` away from it blocks.
    pub open spec fn hobbled_step(
        &self,
        piece: Piece,
        dr: i8,
        dc: i8,
        br: i8,
        bc: i8,
        region: Region,
    ) -> Seq<Position> {
        if self.occupied(piece.position.offset(br, bc)) {
            Seq::empty()
        } else {
            self.step(piece, dr, dc, region)
        }
    }

    /// Whether a piece stands on the square of row `row` and column `col`.
    pub open spec fn occupied_at(&self, row: int, col: int) -> bool {
        self.occupied(Position { row: row as i8, col: col as i8 })
    }

    /// Whether a king on `pos` and one on `other` face each other: they
    /// stand on one column with no piece between them.
    pub open spec fn facing(&self, pos: Position, other: Position) -> bool {
        &&& pos.col == other.col
        &&& forall|r: int|
            (pos.row < r < other.row || other.row < r < pos.row) ==> !#[trigger] self.occupied_at(
                r,
                pos.col as int,
            )
    }

    /// The flying-general capture of `piece`: the cached square of the
    /// enemy king, where the two face each other.
    pub open spec fn flying_general(&self, piece: Piece) -> Seq<Position> {
        match self.king(piece.color.opposite()) {
            Some(enemy) if self.facing(piece.position, enemy) => seq![enemy],
            _ => Seq::empty(),
        }
    }

    /// Where `piece` may go as a king: one step along a row or column
    /// inside its palace, and the flying-general capture.
    pub open spec fn king_moves(&self, piece: Piece) -> Seq<Position> {
        self.step(piece, 1, 0, Region::Palace) + self.step(piece, -1i8, 0, Region::Palace)
            + self.step(piece, 0, 1, Region::Palace) + self.step(piece, 0, -1i8, Region::Palace)
            + self.flying_general(piece)
    }

    /// Where `piece` may go as an advisor: one diagonal step inside its
    /// palace.
    pub open spec fn advisor_moves(&self, piece: Piece) -> Seq<Position> {
        self.step(piece, 1, 1, Region::Palace) + self.step(piece, 1, -1i8, Region::Palace)
            + self.step(piece, -1i8, 1, Region::Palace) + self.step(piece, -1i8, -1i8, Region::Palace)
    }

    /// Where `piece` may go as an elephant: two diagonal steps on its own
    /// side of the river, unless a piece stands on the square between.
    pub open spec fn elephant_moves(&self, piece: Piece) -> Seq<Position> {
        self.hobbled_step(piece, 2, 2, 1, 1, Region::OwnSide) + self.hobbled_step(
            piece,
            2,
            -2i8,
            1,
            -1i8,
            Region::OwnSide,
        ) + self.hobbled_step(piece, -2i8, 2, -1i8, 1, Region::OwnSide) + self.hobbled_step(
            piece,
            -2i8,
            -2i8,
            -1i8,
            -1i8,
            Region::OwnSide,
        )
    }

    /// Where `piece` may go as a horse: two squares along a row or column
    /// and one aside, unless a piece stands next to it in the direction of
    /// the two squares.
    pub open spec fn horse_moves(&self, piece: Piece) -> Seq<Position> {
        self.hobbled_step(piece, 2, 1, 1, 0, Region::Anywhere) + self.hobbled_step(
            piece,
            2,
            -1i8,
            1,
            0,
            Region::Anywhere,
        ) + self.hobbled_step(piece, -2i8, 1, -1i8, 0, Region::Anywhere) + self.hobbled_step(
            piece,
            -2i8,
            -1i8,
            -1i8,
            0,
            Region::Anywhere,
        ) + self.hobbled_step(piece, 1, 2, 0, 1, Region::Anywhere) + self.hobbled_step(
            piece,
            1,
            -2i8,
            0,
            -1i8,
            Region::Anywhere,
        ) + self.hobbled_step(piece, -1i8, 2, 0, 1, Region::Anywhere) + self.hobbled_step(
            piece,
            -1i8,
            -2i8,
            0,
            -1i8,
            Region::Anywhere,
        )
    }

    /// The first piece met on the way from `pos` in steps of `(dr, dc)`,
    /// `pos` itself not counted.
    pub open spec fn first_piece(&self, pos: Position, dr: i8, dc: i8) -> Option<Piece>
        decreases room(pos, dr, dc),
    {
        let next = pos.offset(dr, dc);
        if !unit_step(dr, dc) || !pos.is_valid() || !next.is_valid() {
            None
        } else {
            match self.piece_at(next) {
                Some(p) => Some(p),
                None => self.first_piece(next, dr, dc),
            }
        }
    }

    /// The squares that a rook of `color` reaches from `pos` in steps of
    /// `(dr, dc)`: the empty squares up to the first piece, and the square
    /// of that piece where it is an enemy.
    pub open spec fn rook_ray(&self, color: Color, pos: Position, dr: i8, dc: i8) -> Seq<
        Position,
    >
        decreases room(pos, dr, dc),
    {
        let next = pos.offset(dr, dc);
        if !unit_step(dr, dc) || !pos.is_valid() || !next.is_valid() {
            Seq::empty()
        } else {
            match self.piece_at(next) {
                None => seq![next] + self.rook_ray(color, next, dr, dc),
                Some(t) => if t.color != color {
                    seq![next]
                } else {
                    Seq::empty()
                },
            }
        }
    }

    /// The capture of a cannon of `color` over the screen on `screen`: the
    /// square of the first piece behind the screen, where that piece is an
    /// enemy.
    pub open spec fn cannon_shot(&self, color: Color, screen: Position, dr: i8, dc: i8) -> Seq<
        Position,
    > {
        match self.first_piece(screen, dr, dc) {
            Some(t) if t.color != color => seq![t.position],
            _ => Seq::empty(),
        }
    }

    /// The squares that a cannon of `color` reaches from `pos` in steps of
    /// `(dr, dc)`: the empty squares up to the first piece, which is its
    /// screen, and its capture over that screen.
    pub open spec fn cannon_ray(&self, color: Color, pos: Position, dr: i8, dc: i8) -> Seq<
        Position,
    >
        decreases room(pos, dr, dc),
    {
        let next = pos.offset(dr, dc);
        if !unit_step(dr, dc) || !pos.is_valid() || !next.is_valid() {
            Seq::empty()
        } else {
            match self.piece_at(next) {
                None => seq![next] + self.cannon_ray(color, next, dr, dc),
                Some(_) => self.cannon_shot(color, next, dr, dc),
            }
        }
    }

    /// Where `piece` may go as a rook.
    pub open spec fn rook_moves(&self, piece: Piece) -> Seq<Position> {
        self.rook_ray(piece.color, piece.position, 1, 0) + self.rook_ray(
            piece.color,
            piece.position,
            -1i8,
            0,
        ) + self.rook_ray(piece.color, piece.position, 0, 1) + self.rook_ray(
            piece.color,
            piece.position,
            0,
            -1i8,
        )
    }

    /// Where `piece` may go as a cannon.
    pub open spec fn cannon_moves(&self, piece: Piece) -> Seq<Position> {
        self.cannon_ray(piece.color, piece.position, 1, 0) + self.cannon_ray(
            piece.color,
            piece.position,
            -1i8,
            0,
        ) + self.cannon_ray(piece.color, piece.position, 0, 1) + self.cannon_ray(
            piece.color,
            piece.position,
            0,
            -1i8,
        )
    }

    /// Where `piece` may go as a pawn: one step forward, and once it has
    /// crossed the river one step to either side.
    pub open spec fn pawn_moves(&self, piece: Piece) -> Seq<Position> {
        self.step(piece, forward(piece.color), 0, Region::Anywhere) + (if crossed_river(
            piece.color,
            piece.position.row,
        ) {
            self.step(piece, 0, -1i8, Region::Anywhere) + self.step(piece, 0, 1, Region::Anywhere)
        } else {
            Seq::empty()
        })
    }

    /// Where `piece` may go by the rule of the kind it moves as, its own
    /// king's safety left aside. A piece without a kind goes nowhere.
    pub open spec fn potential_moves(&self, piece: Piece) -> Seq<Position> {
        match piece.kind() {
            Some(PieceType::King) => self.king_moves(piece),
            Some(PieceType::Advisor) => self.advisor_moves(piece),
            Some(PieceType::Elephant) => self.elephant_moves(piece),
            Some(PieceType::Horse) => self.horse_moves(piece),
            Some(PieceType::Rook) => self.rook_moves(piece),
            Some(PieceType::Cannon) => self.cannon_moves(piece),
            Some(PieceType::Pawn) => self.pawn_moves(piece),
            None => Seq::empty(),
        }
    }
}

impl Board {
    /// Whether `piece` may land on `pos`: the square is on the board and
    /// holds no piece of its color.
    pub fn can_move_to(&self, piece: &Piece, pos: Position) -> (r: bool)
        requires
            self@.inv(),
        ensures
            r == self@.free_for(piece.color, pos),
    {
        if !pos.is_valid() {
            return false;
        }
        match self.piece_on(pos) {
            None => true,
            Some(target) => target.color != piece.color,
        }
    }

    fn in_region(pos: Position, region: Region, color: Color) -> (r: bool)
        ensures
            r == BoardView::in_region(pos, region, color),
    {
        match region {
            Region::Palace => pos.is_in_palace(color),
            Region::OwnSide => pos.is_on_own_side(color),
            Region::Anywhere => true,
        }
    }

    fn push_step(&self, piece: &Piece, dr: i8, dc: i8, region: Region, out: &mut Vec<Position>)
        requires
            self@.inv(),
            piece.position.is_valid(),
            -2 <= dr <= 2,
            -2 <= dc <= 2,
        ensures
            final(out)@ == old(out)@ + self@.step(*piece, dr, dc, region),
    {
        let target = piece.position.offset(dr, dc);
        if Self::in_region(target, region, piece.color) && self.can_move_to(piece, target) {
            out.push(target);
            assert(out@ =~= old(out)@ + seq![target]);
        } else {
            assert(out@ =~= old(out)@ + Seq::<Position>::empty());
        }
    }

    fn push_hobbled_step(
        &self,
        piece: &Piece,
        dr: i8,
        dc: i8,
        br: i8,
        bc: i8,
        region: Region,
        out: &mut Vec<Position>,
    )
        requires
            self@.inv(),
            piece.position.is_valid(),
            -2 <= dr <= 2,
            -2 <= dc <= 2,
            -2 <= br <= 2,
            -2 <= bc <= 2,
        ensures
            final(out)@ == old(out)@ + self@.hobbled_step(*piece, dr, dc, br, bc, region),
    {
        if self.has_piece(piece.position.offset(br, bc)) {
            assert(out@ =~= old(out)@ + Seq::<Position>::empty());
        } else {
            self.push_step(piece, dr, dc, region, out);
        }
    }

    /// Whether a king on `pos` and one on `other` face each other.
    fn kings_facing(&self, pos: Position, other: Position) -> (r: bool)
        requires
            self@.inv(),
            pos.is_valid(),
            other.is_valid(),
        ensures
            r == self@.facing(pos, other),
    {
        if other.col != pos.col {
            return false;
        }
        let lo: i8 = if pos.row < other.row {
            pos.row
        } else {
            other.row
        };
        let hi: i8 = if pos.row < other.row {
            other.row
        } else {
            pos.row
        };
        let mut row: i8 = lo + 1;
        while row < hi
            invariant
                self@.inv(),
                0 <= lo < row <= 10,
                hi <= 9,
                lo <= hi,
                pos.is_valid(),
                other.col == pos.col,
                lo == (if pos.row < other.row {
                    pos.row
                } else {
                    other.row
                }),
                hi == (if pos.row < other.row {
                    other.row
                } else {
                    pos.row
                }),
                forall|r: int|
                    lo < r < row && r < hi ==> !#[trigger] self@.occupied_at(r, pos.col as int),
            decreases 10 - row,
        {
            if self.has_piece(Position::new(row, pos.col)) {
                assert(self@.occupied_at(row as int, pos.col as int));
                return false;
            }
            row += 1;
        }
        true
    }

    /// Where `piece` may go as a king.
    pub fn get_king_moves(&self, piece: &Piece) -> (moves: Vec<Position>)
        requires
            self@.inv(),
            piece.position.is_valid(),
        ensures
            moves@ == self@.king_moves(*piece),
    {
        let mut moves: Vec<Position> = Vec::with_capacity(8);
        self.push_step(piece, 1, 0, Region::Palace, &mut moves);
        self.push_step(piece, -1, 0, Region::Palace, &mut moves);
        self.push_step(piece, 0, 1, Region::Palace, &mut moves);
        self.push_step(piece, 0, -1, Region::Palace, &mut moves);
        match self.find_king(piece.color.opposite()) {
            Some(enemy) => {
                if self.kings_facing(piece.position, enemy) {
                    moves.push(enemy);
                }
            },
            None => {},
        }
        assert(moves@ =~= self@.king_moves(*piece));
        moves
    }

    /// Where `piece` may go as an advisor.
    pub fn get_advisor_moves(&self, piece: &Piece) -> (moves: Vec<Position>)
        requires
            self@.inv(),
            piece.position.is_valid(),
        ensures
            moves@ == self@.advisor_moves(*piece),
    {
        let mut moves: Vec<Position> = Vec::with_capacity(4);
        self.push_step(piece, 1, 1, Region::Palace, &mut moves);
        self.push_step(piece, 1, -1, Region::Palace, &mut moves);
        self.push_step(piece, -1, 1, Region::Palace, &mut moves);
        self.push_step(piece, -1, -1, Region::Palace, &mut moves);
        assert(moves@ =~= self@.advisor_moves(*piece));
        moves
    }

    /// Where `piece` may go as an elephant.
    pub fn get_elephant_moves(&self, piece: &Piece) -> (moves: Vec<Position>)
        requires
            self@.inv(),
            piece.position.is_valid(),
        ensures
            moves@ == self@.elephant_moves(*piece),
    {
        let mut moves: Vec<Position> = Vec::with_capacity(4);
        self.push_hobbled_step(piece, 2, 2, 1, 1, Region::OwnSide, &mut moves);
        self.push_hobbled_step(piece, 2, -2, 1, -1, Region::OwnSide, &mut moves);
        self.push_hobbled_step(piece, -2, 2, -1, 1, Region::OwnSide, &mut moves);
        self.push_hobbled_step(piece, -2, -2, -1, -1, Region::OwnSide, &mut moves);
        assert(moves@ =~= self@.elephant_moves(*piece));
        moves
    }

    /// Where `piece` may go as a horse.
    pub fn get_horse_moves(&self, piece: &Piece) -> (moves: Vec<Position>)
        requires
            self@.inv(),
            piece.position.is_valid(),
        ensures
            moves@ == self@.horse_moves(*piece),
    {
        let mut moves: Vec<Position> = Vec::with_capacity(8);
        self.push_hobbled_step(piece, 2, 1, 1, 0, Region::Anywhere, &mut moves);
        self.push_hobbled_step(piece, 2, -1, 1, 0, Region::Anywhere, &mut moves);
        self.push_hobbled_step(piece, -2, 1, -1, 0, Region::Anywhere, &mut moves);
        self.push_hobbled_step(piece, -2, -1, -1, 0, Region::Anywhere, &mut moves);
        self.push_hobbled_step(piece, 1, 2, 0, 1, Region::Anywhere, &mut moves);
        self.push_hobbled_step(piece, 1, -2, 0, -1, Region::Anywhere, &mut moves);
        self.push_hobbled_step(piece, -1, 2, 0, 1, Region::Anywhere, &mut moves);
        self.push_hobbled_step(piece, -1, -2, 0, -1, Region::Anywhere, &mut moves);
        assert(moves@ =~= self@.horse_moves(*piece));
        moves
    }

    /// The first piece met on the way from `pos` in steps of `(dr, dc)`.
    pub fn first_piece_from(&self, pos: Position, dr: i8, dc: i8) -> (r: Option<Piece>)
        requires
            self@.inv(),
            pos.is_valid(),
            unit_step(dr, dc),
        ensures
            r == self@.first_piece(pos, dr, dc),
            r matches Some(p) ==> p.position.is_valid() && self@.piece_at(p.position) == r,
    {
        let mut cur = pos.offset(dr, dc);
        while cur.is_valid()
            invariant
                self@.inv(),
                unit_step(dr, dc),
                -1 <= cur.row <= 10,
                -1 <= cur.col <= 9,
                self@.first_piece(pos, dr, dc) == (if cur.is_valid() {
                    match self@.piece_at(cur) {
                        Some(p) => Some(p),
                        None => self@.first_piece(cur, dr, dc),
                    }
                } else {
                    None
                }),
            decreases room(cur, dr, dc) + 1,
        {
            match self.piece_on(cur) {
                Some(p) => {
                    proof {
                        crate::board::lemma_index_bijection();
                    }
                    return Some(p);
                },
                None => {},
            }
            cur = cur.offset(dr, dc);
        }
        None
    }

    fn push_rook_ray(&self, color: Color, pos: Position, dr: i8, dc: i8, out: &mut Vec<Position>)
        requires
            self@.inv(),
            pos.is_valid(),
            unit_step(dr, dc),
        ensures
            final(out)@ == old(out)@ + self@.rook_ray(color, pos, dr, dc),
    {
        let mut cur = pos;
        assert(out@ + self@.rook_ray(color, cur, dr, dc) =~= old(out)@ + self@.rook_ray(
            color,
            pos,
            dr,
            dc,
        ));
        loop
            invariant_except_break
                out@ + self@.rook_ray(color, cur, dr, dc) == old(out)@ + self@.rook_ray(
                    color,
                    pos,
                    dr,
                    dc,
                ),
            invariant
                self@.inv(),
                unit_step(dr, dc),
                cur.is_valid(),
            ensures
                out@ == old(out)@ + self@.rook_ray(color, pos, dr, dc),
            decreases room(cur, dr, dc),
        {
            let next = cur.offset(dr, dc);
            if !next.is_valid() {
                assert(out@ + Seq::<Position>::empty() =~= out@);
                break ;
            }
            match self.piece_on(next) {
                None => {
                    let ghost before = out@;
                    out.push(next);
                    assert(out@ + self@.rook_ray(color, next, dr, dc) =~= before + (seq![next]
                        + self@.rook_ray(color, next, dr, dc)));
                },
                Some(target) => {
                    let ghost before = out@;
                    if target.color != color {
                        out.push(next);
                        assert(out@ =~= before + seq![next]);
                    } else {
                        assert(out@ + Seq::<Position>::empty() =~= out@);
                    }
                    break ;
                },
            }
            cur = next;
        }
    }

    fn push_cannon_ray(&self, color: Color, pos: Position, dr: i8, dc: i8, out: &mut Vec<Position>)
        requires
            self@.inv(),
            pos.is_valid(),
            unit_step(dr, dc),
        ensures
            final(out)@ == old(out)@ + self@.cannon_ray(color, pos, dr, dc),
    {
        let mut cur = pos;
        assert(out@ + self@.cannon_ray(color, cur, dr, dc) =~= old(out)@ + self@.cannon_ray(
            color,
            pos,
            dr,
            dc,
        ));
        loop
            invariant_except_break
                out@ + self@.cannon_ray(color, cur, dr, dc) == old(out)@ + self@.cannon_ray(
                    color,
                    pos,
                    dr,
                    dc,
                ),
            invariant
                self@.inv(),
                unit_step(dr, dc),
                cur.is_valid(),
            ensures
                out@ == old(out)@ + self@.cannon_ray(color, pos, dr, dc),
            decreases room(cur, dr, dc),
        {
            let next = cur.offset(dr, dc);
            if !next.is_valid() {
                assert(out@ + Seq::<Position>::empty() =~= out@);
                break ;
            }
            match self.piece_on(next) {
                None => {
                    let ghost before = out@;
                    out.push(next);
                    assert(out@ + self@.cannon_ray(color, next, dr, dc) =~= before + (seq![next]
                        + self@.cannon_ray(color, next, dr, dc)));
                },
                Some(_) => {
                    let ghost before = out@;
                    match self.first_piece_from(next, dr, dc) {
                        Some(target) => {
                            if target.color != color {
                                out.push(target.position);
                                assert(out@ =~= before + seq![target.position]);
                            } else {
                                assert(out@ + Seq::<Position>::empty() =~= out@);
                            }
                        },
                        None => {
                            assert(out@ + Seq::<Position>::empty() =~= out@);
                        },
                    }
                    break ;
                },
            }
            cur = next;
        }
    }

    /// Where `piece` may go as a rook.
    pub fn get_rook_moves(&self, piece: &Piece) -> (moves: Vec<Position>)
        requires
            self@.inv(),
            piece.position.is_valid(),
        ensures
            moves@ == self@.rook_moves(*piece),
    {
        let mut moves: Vec<Position> = Vec::with_capacity(17);
        self.push_rook_ray(piece.color, piece.position, 1, 0, &mut moves);
        self.push_rook_ray(piece.color, piece.position, -1, 0, &mut moves);
        self.push_rook_ray(piece.color, piece.position, 0, 1, &mut moves);
        self.push_rook_ray(piece.color, piece.position, 0, -1, &mut moves);
        assert(moves@ =~= self@.rook_moves(*piece));
        moves
    }

    /// Where `piece` may go as a cannon.
    pub fn get_cannon_moves(&self, piece: &Piece) -> (moves: Vec<Position>)
        requires
            self@.inv(),
            piece.position.is_valid(),
        ensures
            moves@ == self@.cannon_moves(*piece),
    {
        let mut moves: Vec<Position> = Vec::with_capacity(17);
        self.push_cannon_ray(piece.color, piece.position, 1, 0, &mut moves);
        self.push_cannon_ray(piece.color, piece.position, -1, 0, &mut moves);
        self.push_cannon_ray(piece.color, piece.position, 0, 1, &mut moves);
        self.push_cannon_ray(piece.color, piece.position, 0, -1, &mut moves);
        assert(moves@ =~= self@.cannon_moves(*piece));
        moves
    }

    /// Where `piece` may go as a pawn.
    pub fn get_pawn_moves(&self, piece: &Piece) -> (moves: Vec<Position>)
        requires
            self@.inv(),
            piece.position.is_valid(),
        ensures
            moves@ == self@.pawn_moves(*piece),
    {
        let mut moves: Vec<Position> = Vec::with_capacity(3);
        let (fwd, crossed): (i8, bool) = match piece.color {
            Color::Red => (1, piece.position.row >= 5),
            Color::Black => (-1, piece.position.row <= 4),
        };
        self.push_step(piece, fwd, 0, Region::Anywhere, &mut moves);
        if crossed {
            self.push_step(piece, 0, -1, Region::Anywhere, &mut moves);
            self.push_step(piece, 0, 1, Region::Anywhere, &mut moves);
        }
        assert(moves@ =~= self@.pawn_moves(*piece));
        moves
    }

    /// Where `piece` may go by the rule of the kind it moves as, its own
    /// king's safety left aside.
    pub fn get_potential_moves(&self, piece: &Piece) -> (moves: Vec<Position>)
        requires
            self@.inv(),
            piece.position.is_valid(),
            piece.kind() is Some,
        ensures
            moves@ == self@.potential_moves(*piece),
    {
        match piece.get_movement_type() {
            PieceType::King => self.get_king_moves(piece),
            PieceType::Advisor => self.get_advisor_moves(piece),
            PieceType::Elephant => self.get_elephant_moves(piece),
            PieceType::Horse => self.get_horse_moves(piece),
            PieceType::Rook => self.get_rook_moves(piece),
            PieceType::Cannon => self.get_cannon_moves(piece),
            PieceType::Pawn => self.get_pawn_moves(piece),
        }
    }
}

} // verus!
