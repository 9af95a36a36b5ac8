//! The board: ninety squares, the side to move, the cached squares of the
//! two kings and the record of captured pieces, with moves made and undone
//! in place.

use vstd::prelude::*;
use crate::fen::{
    fen_text, grid_to_fen, parse_fen, spec_parse_fen, CapturedPieceInfo, FenError, FenPiece,
    FenState, FenStateView,
};
use crate::types::{
    get_position_piece_type, start_type, ActionType, Color, JieqiMove, PieceType, Position,
};

verus! {

/// A piece on the board.
#[derive(Debug, Clone, Copy)]
pub struct Piece {
    pub color: Color,
    pub position: Position,
    pub is_hidden: bool,
    /// The kind of a face-up piece; `None` while the piece is face-down.
    pub actual_type: Option<PieceType>,
    /// The kind that the piece moves as while it is face-down, given by
    /// the square on which it started.
    pub movement_type: Option<PieceType>,
}

impl Piece {
    /// The kind that governs how the piece moves: the movement kind of a
    /// face-down piece, the actual kind of a face-up one.
    pub open spec fn kind(&self) -> Option<PieceType> {
        if self.is_hidden {
            self.movement_type
        } else {
            self.actual_type
        }
    }

    /// Whether the piece has the kinds that its face requires: a face-down
    /// piece a movement kind and no actual kind, a face-up piece an actual
    /// kind.
    pub open spec fn typed(&self) -> bool {
        if self.is_hidden {
            self.actual_type is None && self.movement_type is Some
        } else {
            self.actual_type is Some
        }
    }

    /// Whether the piece moves as a king.
    pub open spec fn is_king(&self) -> bool {
        self.kind() == Some(PieceType::King)
    }

    /// The piece as it is once a move with action `action` has picked it
    /// up: a reveal turns it face-up as its movement kind.
    pub open spec fn after(&self, action: ActionType) -> Piece {
        match action {
            ActionType::RevealAndMove => Piece {
                is_hidden: false,
                actual_type: self.movement_type,
                ..*self
            },
            ActionType::Move => *self,
        }
    }

    /// The piece turned face-up as kind `t`.
    pub open spec fn revealed_as(&self, t: PieceType) -> Piece {
        Piece { is_hidden: false, actual_type: Some(t), ..*self }
    }

    /// The piece moved to square `pos`.
    pub open spec fn at(&self, pos: Position) -> Piece {
        Piece { position: pos, ..*self }
    }

    /// The kind that governs how the piece moves, or `None` where the
    /// piece lacks it.
    pub fn movement_kind(&self) -> (t: Option<PieceType>)
        ensures
            t == self.kind(),
    {
        if self.is_hidden {
            self.movement_type
        } else {
            self.actual_type
        }
    }

    /// The kind that governs how the piece moves.
    pub fn get_movement_type(&self) -> (t: PieceType)
        requires
            self.kind() is Some,
        ensures
            Some(t) == self.kind(),
    {
        if self.is_hidden {
            match self.movement_type {
                Some(t) => t,
                None => PieceType::King,
            }
        } else {
            match self.actual_type {
                Some(t) => t,
                None => PieceType::King,
            }
        }
    }
}

/// The number of squares.
pub const SQUARES: usize = 90;

/// The mathematical content of a board.
pub struct BoardView {
    /// The ninety squares by number, row after row from row 0.
    pub squares: Seq<Option<Piece>>,
    pub viewer: Color,
    pub turn: Color,
    pub red_king: Option<Position>,
    pub black_king: Option<Position>,
    pub red_captured: Seq<CapturedPieceInfo>,
    pub black_captured: Seq<CapturedPieceInfo>,
}

impl BoardView {
    /// The structure that every board has: ninety squares, each piece
    /// knowing the square it stands on, and cached king squares that lie
    /// on the board.
    pub open spec fn inv(&self) -> bool {
        &&& self.squares.len() == 90
        &&& forall|i: int|
            0 <= i < 90 ==> (#[trigger] self.squares[i] matches Some(p) ==> p.position
                == Position::spec_from_index(i))
        &&& (self.red_king matches Some(p) ==> p.is_valid())
        &&& (self.black_king matches Some(p) ==> p.is_valid())
    }

    /// The piece on square `pos`; none off the board.
    pub open spec fn piece_at(&self, pos: Position) -> Option<Piece> {
        if pos.is_valid() {
            self.squares[pos.spec_to_index()]
        } else {
            None
        }
    }

    /// Whether a piece stands on square `pos`.
    pub open spec fn occupied(&self, pos: Position) -> bool {
        self.piece_at(pos) is Some
    }

    /// The cached square of the king of `color`.
    pub open spec fn king(&self, color: Color) -> Option<Position> {
        match color {
            Color::Red => self.red_king,
            Color::Black => self.black_king,
        }
    }

    /// The captured pieces of `color`, in the order of capture.
    pub open spec fn captured(&self, color: Color) -> Seq<CapturedPieceInfo> {
        match color {
            Color::Red => self.red_captured,
            Color::Black => self.black_captured,
        }
    }

    /// Whether every piece on the board has the kinds that its face
    /// requires.
    pub open spec fn typed(&self) -> bool {
        forall|i: int|
            0 <= i < 90 ==> (#[trigger] self.squares[i] matches Some(p) ==> p.typed())
    }

    /// Whether the cached king squares are exact: every piece that moves
    /// as a king stands on the cached square of its color, and a piece of
    /// that color that moves as a king stands on each cached square.
    pub open spec fn kings_cached(&self) -> bool {
        &&& forall|i: int|
            0 <= i < 90 ==> (#[trigger] self.squares[i] matches Some(p) ==> (p.is_king()
                ==> self.king(p.color) == Some(p.position)))
        &&& forall|c: Color| #[trigger]
            self.king(c) matches Some(pos) ==> (self.piece_at(pos) matches Some(p) && p.color == c
                && p.is_king())
    }

    /// Whether the board can be played on: it has the structure of a
    /// board, its pieces have their kinds and its king squares are exact.
    pub open spec fn wf(&self) -> bool {
        self.inv() && self.typed() && self.kings_cached()
    }

    /// The piece that a move `mv` takes off the board: the occupant of its
    /// target square, unless no piece stands on its source square or the
    /// two squares are the same.
    pub open spec fn captured_by(&self, mv: JieqiMove) -> Option<Piece> {
        if self.piece_at(mv.from_pos) is Some && mv.from_pos != mv.to_pos {
            self.piece_at(mv.to_pos)
        } else {
            None
        }
    }

    /// The cached king square of `color` after the piece `moved` has
    /// arrived on `to` and `taken` has left the board.
    pub open spec fn king_after_move(
        &self,
        color: Color,
        moved: Piece,
        to: Position,
        taken: Option<Piece>,
    ) -> Option<Position> {
        if taken matches Some(c) && c.is_king() && c.color == color {
            None
        } else if moved.is_king() && moved.color == color {
            Some(to)
        } else {
            self.king(color)
        }
    }

    /// The board after move `mv`. With no piece on the source square the
    /// board stays as it is. Otherwise the piece, turned face-up by a
    /// reveal, goes to the target square, whose occupant leaves the board;
    /// the king squares follow, and the turn passes.
    pub open spec fn make_move(&self, mv: JieqiMove) -> BoardView {
        match self.piece_at(mv.from_pos) {
            None => *self,
            Some(p) => {
                let moved = p.after(mv.action_type).at(mv.to_pos);
                let taken = self.captured_by(mv);
                BoardView {
                    squares: self.squares.update(mv.from_pos.spec_to_index(), None).update(
                        mv.to_pos.spec_to_index(),
                        Some(moved),
                    ),
                    turn: self.turn.opposite(),
                    red_king: self.king_after_move(Color::Red, moved, mv.to_pos, taken),
                    black_king: self.king_after_move(Color::Black, moved, mv.to_pos, taken),
                    ..*self
                }
            },
        }
    }

    /// The cached king square of `color` after the piece `back` has
    /// returned to `from` and `restored` has come back on `to`.
    pub open spec fn king_after_undo(
        &self,
        color: Color,
        back: Piece,
        from: Position,
        to: Position,
        restored: Option<Piece>,
    ) -> Option<Position> {
        if restored matches Some(c) && c.is_king() && c.color == color {
            Some(to)
        } else if back.is_king() && back.color == color {
            Some(from)
        } else {
            self.king(color)
        }
    }

    /// The board after move `mv` is taken back: the piece on the target
    /// square returns to the source square, face-down again if
    /// `was_hidden`; `captured` comes back on the target square; the king
    /// squares follow, and the turn passes back. With no piece on the
    /// target square the board stays as it is.
    pub open spec fn undo_move(
        &self,
        mv: JieqiMove,
        captured: Option<Piece>,
        was_hidden: bool,
    ) -> BoardView {
        match self.piece_at(mv.to_pos) {
            None => *self,
            Some(p) => {
                let back = (if was_hidden {
                    Piece { is_hidden: true, actual_type: None, ..p }
                } else {
                    p
                }).at(mv.from_pos);
                let cleared = self.squares.update(mv.to_pos.spec_to_index(), None).update(
                    mv.from_pos.spec_to_index(),
                    Some(back),
                );
                BoardView {
                    squares: match captured {
                        Some(c) => cleared.update(mv.to_pos.spec_to_index(), Some(c)),
                        None => cleared,
                    },
                    turn: self.turn.opposite(),
                    red_king: self.king_after_undo(
                        Color::Red,
                        back,
                        mv.from_pos,
                        mv.to_pos,
                        captured,
                    ),
                    black_king: self.king_after_undo(
                        Color::Black,
                        back,
                        mv.from_pos,
                        mv.to_pos,
                        captured,
                    ),
                    ..*self
                }
            },
        }
    }

    /// The board with the face-down piece on `pos` turned face-up as kind
    /// `t`, where it stands. A square without a face-down piece leaves the
    /// board as it is.
    pub open spec fn simulate_reveal(&self, pos: Position, t: PieceType) -> BoardView {
        match self.piece_at(pos) {
            Some(p) if p.is_hidden => BoardView {
                squares: self.squares.update(pos.spec_to_index(), Some(p.revealed_as(t))),
                ..*self
            },
            _ => *self,
        }
    }

    /// The board with the face and the actual kind of the piece on `pos`
    /// set back to `state`. An empty square leaves the board as it is.
    pub open spec fn restore_simulated_reveal(
        &self,
        pos: Position,
        state: (Option<PieceType>, bool),
    ) -> BoardView {
        match self.piece_at(pos) {
            Some(p) => BoardView {
                squares: self.squares.update(
                    pos.spec_to_index(),
                    Some(Piece { actual_type: state.0, is_hidden: state.1, ..p }),
                ),
                ..*self
            },
            None => *self,
        }
    }

    /// The board with the piece `taken`, if there is one, joined to the
    /// captured pieces of its side: recorded with its actual kind and its
    /// face when it was taken.
    pub open spec fn with_capture(&self, taken: Option<Piece>) -> BoardView {
        match taken {
            None => *self,
            Some(p) => {
                let record = CapturedPieceInfo {
                    piece_type: p.actual_type,
                    was_hidden: p.is_hidden,
                };
                match p.color {
                    Color::Red => BoardView {
                        red_captured: self.red_captured.push(record),
                        ..*self
                    },
                    Color::Black => BoardView {
                        black_captured: self.black_captured.push(record),
                        ..*self
                    },
                }
            },
        }
    }

    /// The board with `color` to move.
    pub open spec fn with_turn(&self, color: Color) -> BoardView {
        BoardView { turn: color, ..*self }
    }

    /// The board with piece `p` put on its square, replacing what stood
    /// there; a piece that moves as a king or is one becomes the cached
    /// king of its color. A piece off the board is left out.
    pub open spec fn with_piece(&self, p: Piece) -> BoardView {
        if !p.position.is_valid() {
            *self
        } else {
            let royal = p.movement_type == Some(PieceType::King) || p.actual_type == Some(
                PieceType::King,
            );
            BoardView {
                squares: self.squares.update(p.position.spec_to_index(), Some(p)),
                red_king: if royal && p.color == Color::Red {
                    Some(p.position)
                } else {
                    self.red_king
                },
                black_king: if royal && p.color == Color::Black {
                    Some(p.position)
                } else {
                    self.black_king
                },
                ..*self
            }
        }
    }

    /// The squares as a FEN shows them: each piece with its color, its
    /// face and its actual kind.
    pub open spec fn fen_grid(&self) -> Seq<Option<FenPiece>> {
        Seq::new(
            90,
            |i: int|
                match self.squares[i] {
                    Some(p) => Some(
                        FenPiece {
                            position: p.position,
                            color: p.color,
                            is_hidden: p.is_hidden,
                            piece_type: p.actual_type,
                        },
                    ),
                    None => None,
                },
        )
    }

    /// The FEN of the board.
    pub open spec fn text(&self) -> Seq<char> {
        fen_text(self.fen_grid(), self.red_captured, self.black_captured, self.turn, self.viewer)
    }
}

/// The piece that a FEN piece is on the board: a face-down piece moves as
/// the kind that starts on its square, a face-up piece as its own kind.
pub open spec fn piece_of(fp: FenPiece) -> Piece {
    Piece {
        color: fp.color,
        position: fp.position,
        is_hidden: fp.is_hidden,
        actual_type: fp.piece_type,
        movement_type: if fp.is_hidden {
            start_type(fp.position)
        } else {
            fp.piece_type
        },
    }
}

/// The board that holds the first `n` pieces of `state`, put on it in
/// their order.
pub open spec fn placed(state: FenStateView, n: int) -> BoardView
    decreases n,
{
    if n <= 0 {
        BoardView {
            squares: Seq::new(90, |i: int| None),
            viewer: state.viewer,
            turn: state.turn,
            red_king: None,
            black_king: None,
            red_captured: state.red_captured,
            black_captured: state.black_captured,
        }
    } else {
        placed(state, n - 1).with_piece(piece_of(state.pieces[n - 1]))
    }
}

/// The board that a FEN state describes.
pub open spec fn board_of(state: FenStateView) -> BoardView {
    placed(state, state.pieces.len() as int)
}

/// The board that a text describes as a FEN, or why the text is none.
pub open spec fn spec_board_from_fen(s: Seq<char>) -> Result<BoardView, FenError> {
    match spec_parse_fen(s) {
        Ok(state) => Ok(board_of(state)),
        Err(e) => Err(e),
    }
}

/// Squares and their numbers correspond one to one.
pub proof fn lemma_index_bijection()
    ensures
        forall|p: Position|
            p.is_valid() ==> 0 <= #[trigger] p.spec_to_index() < 90 && Position::spec_from_index(
                p.spec_to_index(),
            ) == p,
        forall|i: int|
            0 <= i < 90 ==> (#[trigger] Position::spec_from_index(i)).is_valid()
                && Position::spec_from_index(i).spec_to_index() == i,
{
    assert forall|p: Position| p.is_valid() implies 0 <= #[trigger] p.spec_to_index() < 90
        && Position::spec_from_index(p.spec_to_index()) == p by {
        let i = p.spec_to_index();
        assert(i / 9 == p.row && i % 9 == p.col);
    }
}

/// Undoing a move right after it was made gives the board back as it
/// was, cached king squares and side to move included. The move may be
/// any move of a piece that stands on the board, a reveal only of a
/// face-down piece; the flag handed to the undo is the face of the piece
/// before the move.
#[verifier::rlimit(30)]
pub proof fn lemma_make_undo(b: BoardView, mv: JieqiMove)
    requires
        b.wf(),
        mv.from_pos.is_valid(),
        mv.to_pos.is_valid(),
        b.piece_at(mv.from_pos) is Some,
        mv.action_type == ActionType::RevealAndMove ==> b.piece_at(mv.from_pos)->0.is_hidden,
    ensures
        b.make_move(mv).undo_move(mv, b.captured_by(mv), b.piece_at(mv.from_pos)->0.is_hidden)
            == b,
{
    lemma_index_bijection();
    let p = b.piece_at(mv.from_pos)->0;
    let after = b.make_move(mv);
    let back = after.undo_move(mv, b.captured_by(mv), p.is_hidden);
    let fi = mv.from_pos.spec_to_index();
    let ti = mv.to_pos.spec_to_index();
    assert(b.squares[fi] == Some(p));
    assert(p.typed() && p.position == mv.from_pos);
    if mv.from_pos != mv.to_pos {
        assert(fi != ti);
        if b.piece_at(mv.to_pos) is Some {
            let c = b.piece_at(mv.to_pos)->0;
            assert(b.squares[ti] == Some(c));
            assert(c.position == mv.to_pos);
        }
    }
    assert(back.squares =~= b.squares);
    assert(back.red_king == b.red_king);
    assert(back.black_king == b.black_king);
    assert(back.turn == b.turn);
}

/// A move of a piece that captures nothing of its own color keeps the
/// board playable.
#[verifier::rlimit(30)]
pub proof fn lemma_make_move_wf(b: BoardView, mv: JieqiMove)
    requires
        b.wf(),
        mv.from_pos.is_valid(),
        mv.to_pos.is_valid(),
        b.piece_at(mv.from_pos) is Some,
        mv.action_type == ActionType::RevealAndMove ==> b.piece_at(mv.from_pos)->0.is_hidden,
        b.piece_at(mv.to_pos) matches Some(c) ==> c.color != b.piece_at(mv.from_pos)->0.color,
    ensures
        b.make_move(mv).wf(),
{
    lemma_index_bijection();
    let p = b.piece_at(mv.from_pos)->0;
    let after = b.make_move(mv);
    let fi = mv.from_pos.spec_to_index();
    let ti = mv.to_pos.spec_to_index();
    let moved = p.after(mv.action_type).at(mv.to_pos);
    assert(b.squares[fi] == Some(p));
    assert(p.typed() && p.position == mv.from_pos);
    assert(fi != ti);
    assert(moved.kind() == p.kind());
    assert(after.squares[ti] == Some(moved));
    assert forall|i: int| 0 <= i < 90 implies (#[trigger] after.squares[i] matches Some(q)
        ==> q.position == Position::spec_from_index(i) && q.typed() && (q.is_king()
        ==> after.king(q.color) == Some(q.position))) by {
        if after.squares[i] is Some {
            let q = after.squares[i]->0;
            if i == ti {
            } else {
                assert(i != fi);
                assert(b.squares[i] == Some(q));
                if q.is_king() {
                    assert(b.king(q.color) == Some(q.position));
                    if b.captured_by(mv) is Some {
                        assert(b.squares[ti] == b.captured_by(mv));
                    }
                }
            }
        }
    }
    assert forall|c: Color| (#[trigger] after.king(c)) is Some implies (after.piece_at(
        after.king(c)->0,
    ) matches Some(q) && q.color == c && q.is_king()) by {
        if after.king(c) is Some {
            let pos = after.king(c)->0;
            if moved.is_king() && moved.color == c {
                assert(pos == mv.to_pos);
            } else {
                assert(b.king(c) == Some(pos));
                let k = b.piece_at(pos)->0;
                assert(b.squares[pos.spec_to_index()] == Some(k));
                assert(pos != mv.from_pos);
                if pos == mv.to_pos {
                    assert(b.captured_by(mv) == Some(k));
                }
            }
        }
    }
}

/// The board.
pub struct Board {
    squares: Vec<Option<Piece>>,
    viewer: Color,
    current_turn: Color,
    red_king_pos: Option<Position>,
    black_king_pos: Option<Position>,
    red_captured: Vec<CapturedPieceInfo>,
    black_captured: Vec<CapturedPieceInfo>,
}

impl View for Board {
    type V = BoardView;

    closed spec fn view(&self) -> BoardView {
        BoardView {
            squares: self.squares@,
            viewer: self.viewer,
            turn: self.current_turn,
            red_king: self.red_king_pos,
            black_king: self.black_king_pos,
            red_captured: self.red_captured@,
            black_captured: self.black_captured@,
        }
    }
}

impl Clone for Board {
    fn clone(&self) -> (r: Board)
        ensures
            r@ == self@,
    {
        let mut squares: Vec<Option<Piece>> = Vec::with_capacity(SQUARES);
        let mut i: usize = 0;
        while i < self.squares.len()
            invariant
                i <= self.squares.len(),
                squares@ == self.squares@.take(i as int),
            decreases self.squares.len() - i,
        {
            squares.push(self.squares[i]);
            assert(self.squares@.take(i as int).push(self.squares@[i as int])
                =~= self.squares@.take(i + 1));
            i += 1;
        }
        assert(self.squares@.take(self.squares.len() as int) =~= self.squares@);
        let r = Board {
            squares,
            viewer: self.viewer,
            current_turn: self.current_turn,
            red_king_pos: self.red_king_pos,
            black_king_pos: self.black_king_pos,
            red_captured: copy_captured(&self.red_captured),
            black_captured: copy_captured(&self.black_captured),
        };
        r
    }
}

/// A copy of a list of captured pieces.
pub fn copy_captured(v: &Vec<CapturedPieceInfo>) -> (r: Vec<CapturedPieceInfo>)
    ensures
        r@ == v@,
{
    let mut r: Vec<CapturedPieceInfo> = Vec::with_capacity(v.len());
    let mut i: usize = 0;
    while i < v.len()
        invariant
            i <= v.len(),
            r@ == v@.take(i as int),
        decreases v.len() - i,
    {
        r.push(v[i]);
        assert(v@.take(i as int).push(v@[i as int]) =~= v@.take(i + 1));
        i += 1;
    }
    assert(v@.take(v.len() as int) =~= v@);
    r
}

impl Board {
    /// The side to move.
    pub fn current_turn(&self) -> (c: Color)
        ensures
            c == self@.turn,
    {
        self.current_turn
    }

    /// Sets the side to move.
    pub fn set_turn(&mut self, color: Color)
        ensures
            final(self)@ == old(self)@.with_turn(color),
    {
        self.current_turn = color;
    }

    /// The piece on square `pos`; none off the board.
    pub fn get_piece(&self, pos: Position) -> (r: Option<&Piece>)
        requires
            self@.inv(),
        ensures
            match r {
                Some(p) => self@.piece_at(pos) == Some(*p),
                None => self@.piece_at(pos) is None,
            },
    {
        if !pos.is_valid() {
            return None;
        }
        self.squares[pos.to_index()].as_ref()
    }

    /// A copy of the piece on square `pos`; none off the board.
    pub fn piece_on(&self, pos: Position) -> (r: Option<Piece>)
        requires
            self@.inv(),
        ensures
            r == self@.piece_at(pos),
    {
        if !pos.is_valid() {
            return None;
        }
        self.squares[pos.to_index()]
    }

    /// Whether a piece stands on square `pos`.
    pub fn has_piece(&self, pos: Position) -> (r: bool)
        requires
            self@.inv(),
        ensures
            r == self@.occupied(pos),
    {
        pos.is_valid() && self.squares[pos.to_index()].is_some()
    }

    /// The cached square of the king of `color`.
    pub fn find_king(&self, color: Color) -> (r: Option<Position>)
        ensures
            r == self@.king(color),
    {
        match color {
            Color::Red => self.red_king_pos,
            Color::Black => self.black_king_pos,
        }
    }

    /// Turns the face-down piece on `pos` face-up as kind `piece_type`,
    /// where it stands, and returns what `restore_simulated_reveal` needs
    /// to turn it back: its actual kind and its face before the call.
    /// Returns `None`, and changes nothing, where no face-down piece
    /// stands on `pos`.
    pub fn simulate_reveal(&mut self, pos: Position, piece_type: PieceType) -> (r: Option<
        (Option<PieceType>, bool),
    >)
        requires
            old(self)@.inv(),
            pos.is_valid(),
        ensures
            final(self)@ == old(self)@.simulate_reveal(pos, piece_type),
            final(self)@.inv(),
            r == match old(self)@.piece_at(pos) {
                Some(p) if p.is_hidden => Some((p.actual_type, true)),
                _ => None,
            },
    {
        let idx = pos.to_index();
        match self.squares[idx] {
            Some(p) => {
                if !p.is_hidden {
                    return None;
                }
                let state = (p.actual_type, p.is_hidden);
                let shown = Piece { is_hidden: false, actual_type: Some(piece_type), ..p };
                self.squares.set(idx, Some(shown));
                assert(self@.squares =~= old(self)@.simulate_reveal(pos, piece_type).squares);
                Some(state)
            },
            None => None,
        }
    }

    /// Sets the face and the actual kind of the piece on `pos` back to
    /// `state`, as `simulate_reveal` returned it.
    pub fn restore_simulated_reveal(&mut self, pos: Position, state: (Option<PieceType>, bool))
        requires
            old(self)@.inv(),
            pos.is_valid(),
        ensures
            final(self)@ == old(self)@.restore_simulated_reveal(pos, state),
            final(self)@.inv(),
    {
        let idx = pos.to_index();
        match self.squares[idx] {
            Some(p) => {
                let back = Piece { actual_type: state.0, is_hidden: state.1, ..p };
                self.squares.set(idx, Some(back));
                assert(self@.squares =~= old(self)@.restore_simulated_reveal(pos, state).squares);
            },
            None => {},
        }
    }

    /// Makes move `mv` on the board and returns the piece it captured.
    /// Nothing is checked against the rules of movement. With no piece on
    /// the source square nothing changes and `None` is returned.
    pub fn make_move(&mut self, mv: &JieqiMove) -> (captured: Option<Piece>)
        requires
            mv.from_pos.is_valid(),
            mv.to_pos.is_valid(),
            old(self)@.inv(),
            old(self)@.typed(),
            old(self)@.piece_at(mv.from_pos) matches Some(p) ==> p.after(mv.action_type).kind()
                is Some,
        ensures
            final(self)@ == old(self)@.make_move(*mv),
            captured == old(self)@.captured_by(*mv),
            final(self)@.inv(),
            final(self)@.typed(),
    {
        let from_idx = mv.from_pos.to_index();
        let to_idx = mv.to_pos.to_index();
        let mut piece = match self.squares[from_idx] {
            Some(p) => p,
            None => {
                return None;
            },
        };
        self.squares.set(from_idx, None);
        match mv.action_type {
            ActionType::RevealAndMove => {
                piece.is_hidden = false;
                piece.actual_type = piece.movement_type;
            },
            ActionType::Move => {},
        }
        let captured = self.squares[to_idx];
        match piece.get_movement_type() {
            PieceType::King => {
                match piece.color {
                    Color::Red => {
                        self.red_king_pos = Some(mv.to_pos);
                    },
                    Color::Black => {
                        self.black_king_pos = Some(mv.to_pos);
                    },
                }
            },
            _ => {},
        }
        match captured {
            Some(cap) => {
                match cap.get_movement_type() {
                    PieceType::King => {
                        match cap.color {
                            Color::Red => {
                                self.red_king_pos = None;
                            },
                            Color::Black => {
                                self.black_king_pos = None;
                            },
                        }
                    },
                    _ => {},
                }
            },
            None => {},
        }
        piece.position = mv.to_pos;
        self.squares.set(to_idx, Some(piece));
        self.current_turn = self.current_turn.opposite();
        assert(self@.squares =~= old(self)@.make_move(*mv).squares);
        captured
    }

    /// Takes move `mv` back: the piece on its target square returns to the
    /// source square, face-down again if `was_hidden` says it was before
    /// the move, and `captured` comes back on the target square.
    pub fn undo_move(&mut self, mv: &JieqiMove, captured: Option<Piece>, was_hidden: bool)
        requires
            mv.from_pos.is_valid(),
            mv.to_pos.is_valid(),
            old(self)@.inv(),
            old(self)@.typed(),
            old(self)@.piece_at(mv.to_pos) matches Some(p) && (was_hidden ==> p.movement_type
                is Some),
            captured matches Some(c) ==> c.typed() && c.position == mv.to_pos,
        ensures
            final(self)@ == old(self)@.undo_move(*mv, captured, was_hidden),
            final(self)@.inv(),
            final(self)@.typed(),
    {
        let from_idx = mv.from_pos.to_index();
        let to_idx = mv.to_pos.to_index();
        let mut piece = match self.squares[to_idx] {
            Some(p) => p,
            None => {
                return ;
            },
        };
        self.squares.set(to_idx, None);
        if was_hidden {
            piece.is_hidden = true;
            piece.actual_type = None;
        }
        match piece.get_movement_type() {
            PieceType::King => {
                match piece.color {
                    Color::Red => {
                        self.red_king_pos = Some(mv.from_pos);
                    },
                    Color::Black => {
                        self.black_king_pos = Some(mv.from_pos);
                    },
                }
            },
            _ => {},
        }
        piece.position = mv.from_pos;
        self.squares.set(from_idx, Some(piece));
        match captured {
            Some(cap) => {
                match cap.get_movement_type() {
                    PieceType::King => {
                        match cap.color {
                            Color::Red => {
                                self.red_king_pos = Some(mv.to_pos);
                            },
                            Color::Black => {
                                self.black_king_pos = Some(mv.to_pos);
                            },
                        }
                    },
                    _ => {},
                }
                self.squares.set(to_idx, Some(cap));
            },
            None => {},
        }
        self.current_turn = self.current_turn.opposite();
        assert(self@.squares =~= old(self)@.undo_move(*mv, captured, was_hidden).squares);
    }
}

impl Board {
    /// The board that `state` describes: its pieces on their squares, a
    /// face-down piece moving as the kind that starts on its square, with
    /// the king squares, the captured pieces and the side to move.
    pub fn from_state(state: &FenState) -> (b: Board)
        ensures
            b@ == board_of(state@),
            b@.inv(),
    {
        let mut squares: Vec<Option<Piece>> = Vec::with_capacity(SQUARES);
        let mut i: usize = 0;
        while i < 90
            invariant
                i <= 90,
                squares@ == Seq::new(i as nat, |k: int| None::<Piece>),
            decreases 90 - i,
        {
            squares.push(None);
            assert(squares@ =~= Seq::new((i + 1) as nat, |k: int| None::<Piece>));
            i += 1;
        }
        let mut b = Board {
            squares,
            viewer: state.viewer,
            current_turn: state.turn,
            red_king_pos: None,
            black_king_pos: None,
            red_captured: copy_captured(&state.captured.red_captured),
            black_captured: copy_captured(&state.captured.black_captured),
        };
        let mut n: usize = 0;
        while n < state.pieces.len()
            invariant
                n <= state.pieces.len(),
                b@ == placed(state@, n as int),
                b@.inv(),
            decreases state.pieces.len() - n,
        {
            let fp = state.pieces[n];
            let movement_type = if fp.is_hidden {
                get_position_piece_type(fp.position)
            } else {
                fp.piece_type
            };
            let piece = Piece {
                color: fp.color,
                position: fp.position,
                is_hidden: fp.is_hidden,
                actual_type: fp.piece_type,
                movement_type,
            };
            if fp.position.is_valid() {
                proof {
                    lemma_index_bijection();
                }
                let royal = match (movement_type, fp.piece_type) {
                    (Some(PieceType::King), _) => true,
                    (_, Some(PieceType::King)) => true,
                    _ => false,
                };
                if royal {
                    match fp.color {
                        Color::Red => {
                            b.red_king_pos = Some(fp.position);
                        },
                        Color::Black => {
                            b.black_king_pos = Some(fp.position);
                        },
                    }
                }
                b.squares.set(fp.position.to_index(), Some(piece));
                assert(b@.squares =~= placed(state@, n as int).with_piece(piece).squares);
            }
            n += 1;
        }
        b
    }

    /// Reads a board from a FEN.
    pub fn from_fen(fen: &str) -> (r: Result<Board, FenError>)
        ensures
            match r {
                Ok(b) => spec_board_from_fen(fen@) == Ok::<BoardView, FenError>(b@) && b@.inv(),
                Err(e) => spec_board_from_fen(fen@) == Err::<BoardView, FenError>(e),
            },
    {
        match parse_fen(fen) {
            Ok(state) => Ok(Board::from_state(&state)),
            Err(e) => Err(e),
        }
    }

    /// The FEN of the board.
    pub fn to_fen(&self) -> (s: String)
        requires
            self@.inv(),
        ensures
            s@ == self@.text(),
    {
        let mut grid: Vec<Option<FenPiece>> = Vec::with_capacity(SQUARES);
        let mut i: usize = 0;
        while i < 90
            invariant
                i <= 90,
                self@.inv(),
                grid@ == self@.fen_grid().take(i as int),
            decreases 90 - i,
        {
            let cell = match self.squares[i] {
                Some(p) => Some(
                    FenPiece {
                        position: p.position,
                        color: p.color,
                        is_hidden: p.is_hidden,
                        piece_type: p.actual_type,
                    },
                ),
                None => None,
            };
            grid.push(cell);
            assert(grid@ =~= self@.fen_grid().take(i + 1));
            i += 1;
        }
        assert(self@.fen_grid().take(90) =~= self@.fen_grid());
        grid_to_fen(&grid, &self.red_captured, &self.black_captured, self.current_turn, self.viewer)
    }

    /// Joins the captured piece `piece` to the captured pieces of its
    /// side.
    pub fn record_capture(&mut self, piece: &Piece)
        ensures
            final(self)@ == old(self)@.with_capture(Some(*piece)),
    {
        let record = CapturedPieceInfo { piece_type: piece.actual_type, was_hidden: piece.is_hidden };
        match piece.color {
            Color::Red => {
                self.red_captured.push(record);
            },
            Color::Black => {
                self.black_captured.push(record);
            },
        }
    }

    /// The captured pieces of `color`, in the order of capture.
    pub fn captured_pieces(&self, color: Color) -> (r: &Vec<CapturedPieceInfo>)
        ensures
            r@ == self@.captured(color),
    {
        match color {
            Color::Red => &self.red_captured,
            Color::Black => &self.black_captured,
        }
    }

    /// The side from whose seat the position is seen.
    pub fn viewer(&self) -> (c: Color)
        ensures
            c == self@.viewer,
    {
        self.viewer
    }

    /// Whether the board can be played on: every piece has the kinds that
    /// its face requires and the cached king squares are exact.
    #[verifier::rlimit(30)]
    pub fn is_playable(&self) -> (r: bool)
        requires
            self@.inv(),
        ensures
            r == self@.wf(),
    {
        proof {
            lemma_index_bijection();
        }
        let mut i: usize = 0;
        while i < 90
            invariant
                i <= 90,
                self@.inv(),
                forall|k: int|
                    0 <= k < i ==> (#[trigger] self@.squares[k] matches Some(p) ==> p.typed() && (
                    p.is_king() ==> self@.king(p.color) == Some(p.position))),
            decreases 90 - i,
        {
            match self.squares[i] {
                Some(p) => {
                    let typed = if p.is_hidden {
                        p.actual_type.is_none() && p.movement_type.is_some()
                    } else {
                        p.actual_type.is_some()
                    };
                    if !typed {
                        assert(self@.squares[i as int] == Some(p));
                        return false;
                    }
                    let royal = match p.get_movement_type() {
                        PieceType::King => true,
                        _ => false,
                    };
                    if royal {
                        let cached = match p.color {
                            Color::Red => self.red_king_pos,
                            Color::Black => self.black_king_pos,
                        };
                        let exact = match cached {
                            Some(pos) => pos == p.position,
                            None => false,
                        };
                        if !exact {
                            assert(self@.squares[i as int] == Some(p));
                            return false;
                        }
                    }
                },
                None => {},
            }
            i += 1;
        }
        let red_ok = self.cached_king_stands(Color::Red);
        let black_ok = self.cached_king_stands(Color::Black);
        if !red_ok {
            assert(!self@.kings_cached()) by {
                let _ = self@.king(Color::Red);
            }
        }
        if !black_ok {
            assert(!self@.kings_cached()) by {
                let _ = self@.king(Color::Black);
            }
        }
        if red_ok && black_ok {
            assert forall|c: Color| (#[trigger] self@.king(c)) is Some implies (self@.piece_at(
                self@.king(c)->0,
            ) matches Some(p) && p.color == c && p.is_king()) by {
                match c {
                    Color::Red => {},
                    Color::Black => {},
                }
            }
        }
        red_ok && black_ok
    }

    /// Whether a piece of `color` that moves as a king stands on the
    /// cached king square of `color`, where there is one.
    fn cached_king_stands(&self, color: Color) -> (r: bool)
        requires
            self@.inv(),
        ensures
            r == (self@.king(color) matches Some(pos) ==> (self@.piece_at(pos) matches Some(p)
                && p.color == color && p.is_king())),
    {
        match self.find_king(color) {
            None => true,
            Some(pos) => match self.piece_on(pos) {
                None => false,
                Some(p) => p.color == color && match p.movement_kind() {
                    Some(PieceType::King) => true,
                    _ => false,
                },
            },
        }
    }
}


} // verus!
