//! Legal moves: the moves of a side that do not leave its own king
//! attacked, and how the game stands.

use vstd::prelude::*;
use vstd::seq_lib::lemma_flatten_concat;
use crate::board::{
    lemma_index_bijection, lemma_make_undo, spec_board_from_fen, Board, BoardView, Piece,
};
use crate::engine::EngineError;
use crate::fen::MoveError;
use crate::movegen::{room, unit_step, Region};
use crate::types::{ActionType, Color, GameResult, JieqiMove, PieceType, Position};

verus! {

impl BoardView {
    /// The move of piece `p` to square `to`: a reveal where the piece is
    /// face-down.
    pub open spec fn move_of(p: Piece, to: Position) -> JieqiMove {
        JieqiMove {
            action_type: if p.is_hidden {
                ActionType::RevealAndMove
            } else {
                ActionType::Move
            },
            from_pos: p.position,
            to_pos: to,
        }
    }

    /// The square on which the king of `color` is looked for after piece
    /// `p` has moved to `to`: the target where `p` moves as a king, else
    /// the cached king square after the move, or `king` where the cache is
    /// empty then.
    pub open spec fn king_square_after(
        &self,
        color: Color,
        king: Position,
        p: Piece,
        to: Position,
    ) -> Position {
        if p.is_king() {
            to
        } else {
            match self.make_move(Self::move_of(p, to)).king(color) {
                Some(k) => k,
                None => king,
            }
        }
    }

    /// Whether the move of `p` to `to` leaves the king of `color`
    /// unattacked.
    pub open spec fn safe_move(&self, color: Color, king: Position, p: Piece, to: Position) -> bool {
        !self.make_move(Self::move_of(p, to)).attacked(
            self.king_square_after(color, king, p, to),
            color.opposite(),
        )
    }

    /// The legal moves of piece `p`: its potential moves that leave the
    /// king of `color` unattacked, in the order of its potential moves.
    pub open spec fn legal_of(&self, color: Color, king: Position, p: Piece) -> Seq<JieqiMove> {
        self.potential_moves(p).filter_map(
            |to: Position|
                if self.safe_move(color, king, p, to) {
                    Some(Self::move_of(p, to))
                } else {
                    None
                },
        )
    }

    /// The legal moves of the piece on square number `i`, where it
    /// belongs to `color`.
    pub open spec fn legal_from(&self, color: Color, king: Position, i: int) -> Seq<JieqiMove> {
        match self.squares[i] {
            Some(p) => if p.color == color {
                self.legal_of(color, king, p)
            } else {
                Seq::empty()
            },
            None => Seq::empty(),
        }
    }

    /// The legal moves of `color`: square by square in the order of their
    /// numbers, the legal moves of each of its pieces. A side without a
    /// king has none.
    pub open spec fn legal_moves(&self, color: Color) -> Seq<JieqiMove> {
        match self.king(color) {
            None => Seq::empty(),
            Some(king) => Seq::new(90, |i: int| self.legal_from(color, king, i)).flatten(),
        }
    }

    /// How the game stands where the side to move has the legal moves
    /// `moves`: a side without a king has lost; a side without a legal
    /// move has lost if it is in check, and else the game is drawn.
    pub open spec fn game_result(&self, moves: Seq<JieqiMove>) -> GameResult {
        if self.red_king is None {
            GameResult::BlackWin
        } else if self.black_king is None {
            GameResult::RedWin
        } else if moves.len() == 0 {
            if self.in_check(self.turn) {
                match self.turn {
                    Color::Red => GameResult::BlackWin,
                    Color::Black => GameResult::RedWin,
                }
            } else {
                GameResult::Draw
            }
        } else {
            GameResult::Ongoing
        }
    }

    /// Whether `mv` is a move that `color` may make: it takes a piece of
    /// `color` from its square to one of the squares that the piece may go
    /// to, which holds no piece of `color`; it is a reveal exactly where
    /// the piece is face-down; and after it `color` is not in check.
    pub open spec fn sound_move(&self, color: Color, mv: JieqiMove) -> bool {
        &&& mv.from_pos.is_valid()
        &&& mv.to_pos.is_valid()
        &&& self.piece_at(mv.from_pos) matches Some(p) && p.color == color && mv == Self::move_of(
            p,
            mv.to_pos,
        ) && self.potential_moves(p).contains(mv.to_pos)
        &&& self.free_for(color, mv.to_pos)
        &&& !self.make_move(mv).in_check(color)
    }

    /// The pieces of `color`, or all pieces where `color` is `None`, on
    /// the squares with numbers below `n`, in the order of those numbers.
    pub open spec fn pieces_below(&self, color: Option<Color>, n: int) -> Seq<Piece>
        decreases n,
    {
        if n <= 0 {
            Seq::empty()
        } else {
            let rest = self.pieces_below(color, n - 1);
            match self.squares[n - 1] {
                Some(p) => if color is None || color == Some(p.color) {
                    rest.push(p)
                } else {
                    rest
                },
                None => rest,
            }
        }
    }

    /// The pieces of `color`, or all pieces where `color` is `None`, in
    /// the order of their squares' numbers.
    pub open spec fn pieces(&self, color: Option<Color>) -> Seq<Piece> {
        self.pieces_below(color, 90)
    }
}

/// On a board with the structure of a board, the first piece on a line
/// stands on the square that it names.
pub proof fn lemma_first_piece_stands(b: BoardView, pos: Position, dr: i8, dc: i8)
    requires
        b.inv(),
    ensures
        b.first_piece(pos, dr, dc) matches Some(p) ==> p.position.is_valid() && b.piece_at(
            p.position,
        ) == Some(p),
    decreases room(pos, dr, dc),
{
    lemma_index_bijection();
    let next = pos.offset(dr, dc);
    if unit_step(dr, dc) && pos.is_valid() && next.is_valid() {
        if b.piece_at(next) is None {
            lemma_first_piece_stands(b, next, dr, dc);
        }
    }
}

/// Whether a piece of `color` may land on every square of `s`.
pub open spec fn all_free(b: BoardView, color: Color, s: Seq<Position>) -> bool {
    forall|k: int| 0 <= k < s.len() ==> b.free_for(color, #[trigger] s[k])
}

proof fn lemma_all_free_concat(b: BoardView, color: Color, s: Seq<Position>, t: Seq<Position>)
    requires
        all_free(b, color, s),
        all_free(b, color, t),
    ensures
        all_free(b, color, s + t),
{
    assert forall|k: int| 0 <= k < (s + t).len() implies b.free_for(color, #[trigger] (s + t)[k]) by {
        if k < s.len() {
            assert((s + t)[k] == s[k]);
        } else {
            assert((s + t)[k] == t[k - s.len()]);
        }
    }
}

/// Every square that a rook reaches along a line is one that it may land
/// on.
pub proof fn lemma_rook_ray_free(b: BoardView, color: Color, pos: Position, dr: i8, dc: i8)
    requires
        b.inv(),
    ensures
        all_free(b, color, b.rook_ray(color, pos, dr, dc)),
    decreases room(pos, dr, dc),
{
    let next = pos.offset(dr, dc);
    if unit_step(dr, dc) && pos.is_valid() && next.is_valid() {
        if b.piece_at(next) is None {
            lemma_rook_ray_free(b, color, next, dr, dc);
            assert(all_free(b, color, seq![next]));
            lemma_all_free_concat(b, color, seq![next], b.rook_ray(color, next, dr, dc));
        }
    }
}

/// Every square that a cannon reaches along a line is one that it may
/// land on.
pub proof fn lemma_cannon_ray_free(b: BoardView, color: Color, pos: Position, dr: i8, dc: i8)
    requires
        b.inv(),
    ensures
        all_free(b, color, b.cannon_ray(color, pos, dr, dc)),
    decreases room(pos, dr, dc),
{
    let next = pos.offset(dr, dc);
    if unit_step(dr, dc) && pos.is_valid() && next.is_valid() {
        if b.piece_at(next) is None {
            lemma_cannon_ray_free(b, color, next, dr, dc);
            assert(all_free(b, color, seq![next]));
            lemma_all_free_concat(b, color, seq![next], b.cannon_ray(color, next, dr, dc));
        } else {
            lemma_first_piece_stands(b, next, dr, dc);
        }
    }
}

proof fn lemma_king_moves_free(b: BoardView, p: Piece)
    requires
        b.wf(),
    ensures
        all_free(b, p.color, b.king_moves(p)),
{
    let c = p.color;
    let s1 = b.step(p, 1, 0, Region::Palace);
    let s2 = b.step(p, -1i8, 0, Region::Palace);
    let s3 = b.step(p, 0, 1, Region::Palace);
    let s4 = b.step(p, 0, -1i8, Region::Palace);
    let s5 = b.flying_general(p);
    assert(b.king(c.opposite()) matches Some(e) ==> b.free_for(c, e));
    assert(all_free(b, c, s5));
    lemma_all_free_concat(b, c, s1, s2);
    lemma_all_free_concat(b, c, s1 + s2, s3);
    lemma_all_free_concat(b, c, s1 + s2 + s3, s4);
    lemma_all_free_concat(b, c, s1 + s2 + s3 + s4, s5);
}

proof fn lemma_advisor_moves_free(b: BoardView, p: Piece)
    ensures
        all_free(b, p.color, b.advisor_moves(p)),
{
    let c = p.color;
    let s1 = b.step(p, 1, 1, Region::Palace);
    let s2 = b.step(p, 1, -1i8, Region::Palace);
    let s3 = b.step(p, -1i8, 1, Region::Palace);
    let s4 = b.step(p, -1i8, -1i8, Region::Palace);
    lemma_all_free_concat(b, c, s1, s2);
    lemma_all_free_concat(b, c, s1 + s2, s3);
    lemma_all_free_concat(b, c, s1 + s2 + s3, s4);
}

proof fn lemma_elephant_moves_free(b: BoardView, p: Piece)
    ensures
        all_free(b, p.color, b.elephant_moves(p)),
{
    let c = p.color;
    let s1 = b.hobbled_step(p, 2, 2, 1, 1, Region::OwnSide);
    let s2 = b.hobbled_step(p, 2, -2i8, 1, -1i8, Region::OwnSide);
    let s3 = b.hobbled_step(p, -2i8, 2, -1i8, 1, Region::OwnSide);
    let s4 = b.hobbled_step(p, -2i8, -2i8, -1i8, -1i8, Region::OwnSide);
    lemma_all_free_concat(b, c, s1, s2);
    lemma_all_free_concat(b, c, s1 + s2, s3);
    lemma_all_free_concat(b, c, s1 + s2 + s3, s4);
}

proof fn lemma_horse_moves_free(b: BoardView, p: Piece)
    ensures
        all_free(b, p.color, b.horse_moves(p)),
{
    let c = p.color;
    let s1 = b.hobbled_step(p, 2, 1, 1, 0, Region::Anywhere);
    let s2 = b.hobbled_step(p, 2, -1i8, 1, 0, Region::Anywhere);
    let s3 = b.hobbled_step(p, -2i8, 1, -1i8, 0, Region::Anywhere);
    let s4 = b.hobbled_step(p, -2i8, -1i8, -1i8, 0, Region::Anywhere);
    let s5 = b.hobbled_step(p, 1, 2, 0, 1, Region::Anywhere);
    let s6 = b.hobbled_step(p, 1, -2i8, 0, -1i8, Region::Anywhere);
    let s7 = b.hobbled_step(p, -1i8, 2, 0, 1, Region::Anywhere);
    let s8 = b.hobbled_step(p, -1i8, -2i8, 0, -1i8, Region::Anywhere);
    lemma_all_free_concat(b, c, s1, s2);
    lemma_all_free_concat(b, c, s1 + s2, s3);
    lemma_all_free_concat(b, c, s1 + s2 + s3, s4);
    lemma_all_free_concat(b, c, s1 + s2 + s3 + s4, s5);
    lemma_all_free_concat(b, c, s1 + s2 + s3 + s4 + s5, s6);
    lemma_all_free_concat(b, c, s1 + s2 + s3 + s4 + s5 + s6, s7);
    lemma_all_free_concat(b, c, s1 + s2 + s3 + s4 + s5 + s6 + s7, s8);
}

proof fn lemma_rook_moves_free(b: BoardView, p: Piece)
    requires
        b.inv(),
    ensures
        all_free(b, p.color, b.rook_moves(p)),
{
    let c = p.color;
    let pos = p.position;
    let s1 = b.rook_ray(c, pos, 1, 0);
    let s2 = b.rook_ray(c, pos, -1i8, 0);
    let s3 = b.rook_ray(c, pos, 0, 1);
    let s4 = b.rook_ray(c, pos, 0, -1i8);
    lemma_rook_ray_free(b, c, pos, 1, 0);
    lemma_rook_ray_free(b, c, pos, -1i8, 0);
    lemma_rook_ray_free(b, c, pos, 0, 1);
    lemma_rook_ray_free(b, c, pos, 0, -1i8);
    lemma_all_free_concat(b, c, s1, s2);
    lemma_all_free_concat(b, c, s1 + s2, s3);
    lemma_all_free_concat(b, c, s1 + s2 + s3, s4);
}

proof fn lemma_cannon_moves_free(b: BoardView, p: Piece)
    requires
        b.inv(),
    ensures
        all_free(b, p.color, b.cannon_moves(p)),
{
    let c = p.color;
    let pos = p.position;
    let s1 = b.cannon_ray(c, pos, 1, 0);
    let s2 = b.cannon_ray(c, pos, -1i8, 0);
    let s3 = b.cannon_ray(c, pos, 0, 1);
    let s4 = b.cannon_ray(c, pos, 0, -1i8);
    lemma_cannon_ray_free(b, c, pos, 1, 0);
    lemma_cannon_ray_free(b, c, pos, -1i8, 0);
    lemma_cannon_ray_free(b, c, pos, 0, 1);
    lemma_cannon_ray_free(b, c, pos, 0, -1i8);
    lemma_all_free_concat(b, c, s1, s2);
    lemma_all_free_concat(b, c, s1 + s2, s3);
    lemma_all_free_concat(b, c, s1 + s2 + s3, s4);
}

proof fn lemma_pawn_moves_free(b: BoardView, p: Piece)
    ensures
        all_free(b, p.color, b.pawn_moves(p)),
{
    let c = p.color;
    let s1 = b.step(p, crate::movegen::forward(c), 0, Region::Anywhere);
    let s2 = b.step(p, 0, -1i8, Region::Anywhere);
    let s3 = b.step(p, 0, 1, Region::Anywhere);
    lemma_all_free_concat(b, c, s2, s3);
    lemma_all_free_concat(b, c, s1, s2 + s3);
    lemma_all_free_concat(b, c, s1, Seq::empty());
}

/// On a playable board every potential move of a piece ends on a square
/// of the board that holds no piece of its color.
pub proof fn lemma_potential_moves_free(b: BoardView, p: Piece)
    requires
        b.wf(),
    ensures
        all_free(b, p.color, b.potential_moves(p)),
{
    match p.kind() {
        Some(PieceType::King) => lemma_king_moves_free(b, p),
        Some(PieceType::Advisor) => lemma_advisor_moves_free(b, p),
        Some(PieceType::Elephant) => lemma_elephant_moves_free(b, p),
        Some(PieceType::Horse) => lemma_horse_moves_free(b, p),
        Some(PieceType::Rook) => lemma_rook_moves_free(b, p),
        Some(PieceType::Cannon) => lemma_cannon_moves_free(b, p),
        Some(PieceType::Pawn) => lemma_pawn_moves_free(b, p),
        None => {},
    }
}

/// On a playable board a move of a piece of `color` to a square that it
/// may land on leaves the king of `color` unattacked exactly if `color` is
/// not in check after it.
pub proof fn lemma_safe_move_check(
    b: BoardView,
    color: Color,
    king: Position,
    p: Piece,
    to: Position,
)
    requires
        b.wf(),
        b.king(color) == Some(king),
        p.position.is_valid(),
        b.piece_at(p.position) == Some(p),
        p.color == color,
        b.free_for(color, to),
    ensures
        b.safe_move(color, king, p, to) == !b.make_move(BoardView::move_of(p, to)).in_check(color),
{
    lemma_index_bijection();
    assert(b.squares[p.position.spec_to_index()] == Some(p));
    assert(p.typed());
    assert(p.position != to);
}

/// Every legal move of a side on a playable board is a move that the
/// side may make: no legal move leaves the side's own king attacked.
#[verifier::rlimit(30)]
pub proof fn lemma_legal_moves_sound(b: BoardView, color: Color)
    requires
        b.wf(),
    ensures
        forall|mv: JieqiMove| #[trigger]
            b.legal_moves(color).contains(mv) ==> b.sound_move(color, mv),
{
    if b.king(color) is Some {
        let king = b.king(color)->0;
        let per = Seq::new(90, |i: int| b.legal_from(color, king, i));
        assert forall|mv: JieqiMove| #[trigger]
            b.legal_moves(color).contains(mv) implies b.sound_move(color, mv) by {
            lemma_flatten_member(per, mv);
            let i = choose|i: int| 0 <= i < per.len() && per[i].contains(mv);
            lemma_index_bijection();
            let p = b.squares[i]->0;
            assert(b.squares[i] is Some && p.color == color);
            assert(p.position == Position::spec_from_index(i));
            assert(b.piece_at(p.position) == Some(p));
            let targets = b.potential_moves(p);
            let f = |to: Position|
                if b.safe_move(color, king, p, to) {
                    Some(BoardView::move_of(p, to))
                } else {
                    None
                };
            assert(per[i] == targets.filter_map(f));
            targets.lemma_filter_map_contains(f, mv);
            let to = choose|to: Position| targets.contains(to) && f(to) == Some(mv);
            lemma_potential_moves_free(b, p);
            let k = choose|k: int| 0 <= k < targets.len() && targets[k] == to;
            assert(b.free_for(color, targets[k]));
            lemma_safe_move_check(b, color, king, p, to);
        }
    }
}

/// An entry of a flattened list of lists is an entry of one of the lists.
pub proof fn lemma_flatten_member<A>(lists: Seq<Seq<A>>, x: A)
    requires
        lists.flatten().contains(x),
    ensures
        exists|i: int| 0 <= i < lists.len() && (#[trigger] lists[i]).contains(x),
    decreases lists.len(),
{
    if lists.len() == 0 {
    } else {
        let first = lists.first();
        let rest = lists.drop_first();
        let k = choose|k: int| 0 <= k < lists.flatten().len() && lists.flatten()[k] == x;
        assert(lists.flatten() == first + rest.flatten());
        if k < first.len() {
            assert(first[k] == x);
            assert(lists[0].contains(x));
        } else {
            assert(rest.flatten()[k - first.len()] == x);
            lemma_flatten_member(rest, x);
            let i = choose|i: int| 0 <= i < rest.len() && (#[trigger] rest[i]).contains(x);
            assert(lists[i + 1] == rest[i]);
        }
    }
}

impl Board {
    /// Whether the move of the piece `piece` of `color`, which stands on
    /// this board, to `to_pos` leaves the king of `color` unattacked. The
    /// move is made and taken back; the board is left as it was.
    #[verifier::rlimit(30)]
    fn leaves_king_safe(
        &mut self,
        color: Color,
        king_pos: Position,
        piece: &Piece,
        to_pos: Position,
    ) -> (r: bool)
        requires
            old(self)@.wf(),
            king_pos.is_valid(),
            to_pos.is_valid(),
            piece.position.is_valid(),
            old(self)@.piece_at(piece.position) == Some(*piece),
        ensures
            final(self)@ == old(self)@,
            r == old(self)@.safe_move(color, king_pos, *piece, to_pos),
    {
        let ghost b = self@;
        proof {
            lemma_index_bijection();
        }
        assert(b.squares[piece.position.spec_to_index()] == Some(*piece));
        assert(piece.typed());
        let action_type = if piece.is_hidden {
            ActionType::RevealAndMove
        } else {
            ActionType::Move
        };
        let is_king = match piece.get_movement_type() {
            PieceType::King => true,
            _ => false,
        };
        let mv = JieqiMove { action_type, from_pos: piece.position, to_pos };
        assert(mv == BoardView::move_of(*piece, to_pos));
        let captured = self.make_move(&mv);
        let check_king_pos = if is_king {
            to_pos
        } else {
            match self.find_king(color) {
                Some(k) => k,
                None => king_pos,
            }
        };
        let in_check = self.is_position_attacked(check_king_pos, color.opposite());
        proof {
            lemma_make_undo(b, mv);
            if captured is Some {
                assert(b.squares[to_pos.spec_to_index()] == captured);
            }
        }
        self.undo_move(&mv, captured, piece.is_hidden);
        !in_check
    }

    /// Appends to `out` the legal moves of the piece `piece` of `color`,
    /// which stands on this board. The board is left as it was.
    #[verifier::rlimit(30)]
    fn push_legal_of(
        &mut self,
        color: Color,
        king_pos: Position,
        piece: &Piece,
        out: &mut Vec<JieqiMove>,
    )
        requires
            old(self)@.wf(),
            old(self)@.king(color) == Some(king_pos),
            piece.position.is_valid(),
            old(self)@.piece_at(piece.position) == Some(*piece),
            piece.color == color,
            forall|k: int|
                0 <= k < old(out)@.len() ==> old(self)@.sound_move(color, #[trigger] old(out)@[k]),
        ensures
            final(self)@ == old(self)@,
            final(out)@ == old(out)@ + old(self)@.legal_of(color, king_pos, *piece),
            forall|k: int|
                0 <= k < final(out)@.len() ==> old(self)@.sound_move(
                    color,
                    #[trigger] final(out)@[k],
                ),
    {
        let ghost b = self@;
        let ghost before = out@;
        proof {
            lemma_index_bijection();
        }
        assert(b.squares[piece.position.spec_to_index()] == Some(*piece));
        assert(piece.typed());
        let targets = self.get_potential_moves(piece);
        let action_type = if piece.is_hidden {
            ActionType::RevealAndMove
        } else {
            ActionType::Move
        };
        let ghost f = |to: Position|
            if b.safe_move(color, king_pos, *piece, to) {
                Some(BoardView::move_of(*piece, to))
            } else {
                None
            };
        proof {
            lemma_potential_moves_free(b, *piece);
            assert(targets@.take(0).filter_map(f) =~= Seq::<JieqiMove>::empty());
            assert(out@ =~= before + targets@.take(0).filter_map(f));
        }
        let mut j: usize = 0;
        while j < targets.len()
            invariant
                j <= targets.len(),
                self@ == b,
                b.wf(),
                king_pos.is_valid(),
                b.king(color) == Some(king_pos),
                piece.position.is_valid(),
                b.piece_at(piece.position) == Some(*piece),
                piece.color == color,
                targets@ == b.potential_moves(*piece),
                forall|k: int| 0 <= k < out@.len() ==> b.sound_move(color, #[trigger] out@[k]),
                action_type == BoardView::move_of(*piece, piece.position).action_type,
                all_free(b, piece.color, targets@),
                f == (|to: Position|
                    if b.safe_move(color, king_pos, *piece, to) {
                        Some(BoardView::move_of(*piece, to))
                    } else {
                        None
                    }),
                out@ == before + targets@.take(j as int).filter_map(f),
            decreases targets.len() - j,
        {
            let to_pos = targets[j];
            assert(b.free_for(piece.color, targets@[j as int]));
            let safe = self.leaves_king_safe(color, king_pos, piece, to_pos);
            proof {
                targets@.lemma_filter_map_take_succ(f, j as int);
                lemma_safe_move_check(b, color, king_pos, *piece, to_pos);
            }
            if safe {
                let mv = JieqiMove { action_type, from_pos: piece.position, to_pos };
                assert(b.sound_move(color, mv)) by {
                    assert(b.potential_moves(*piece)[j as int] == to_pos);
                }
                out.push(mv);
            }
            assert(out@ =~= before + targets@.take(j + 1).filter_map(f));
            j += 1;
        }
        assert(targets@.take(targets.len() as int) =~= targets@);
    }

    /// The legal moves of `color`, found by making and taking back each
    /// potential move on this board, which is left as it was.
    #[verifier::rlimit(30)]
    pub fn get_legal_moves_mut(&mut self, color: Color) -> (moves: Vec<JieqiMove>)
        requires
            old(self)@.wf(),
        ensures
            final(self)@ == old(self)@,
            moves@ == old(self)@.legal_moves(color),
            forall|k: int|
                0 <= k < moves@.len() ==> old(self)@.sound_move(color, #[trigger] moves@[k]),
    {
        let mut moves: Vec<JieqiMove> = Vec::with_capacity(50);
        let king_pos = match self.find_king(color) {
            Some(pos) => pos,
            None => {
                return moves;
            },
        };
        let ghost b = self@;
        let ghost per = Seq::new(90, |i: int| b.legal_from(color, king_pos, i));
        let mut i: usize = 0;
        assert(per.take(0).flatten() =~= Seq::<JieqiMove>::empty());
        while i < 90
            invariant
                i <= 90,
                self@ == b,
                b.wf(),
                b.king(color) == Some(king_pos),
                forall|k: int| 0 <= k < moves@.len() ==> b.sound_move(color, #[trigger] moves@[k]),
                per == Seq::new(90, |i: int| b.legal_from(color, king_pos, i)),
                moves@ == per.take(i as int).flatten(),
            decreases 90 - i,
        {
            let from_pos = Position::from_index(i);
            let ghost before = moves@;
            match self.piece_on(from_pos) {
                Some(piece) => {
                    assert(b.squares[i as int] == Some(piece));
                    if piece.color == color {
                        self.push_legal_of(color, king_pos, &piece, &mut moves);
                    } else {
                        assert(moves@ =~= before + Seq::<JieqiMove>::empty());
                    }
                },
                None => {
                    assert(moves@ =~= before + Seq::<JieqiMove>::empty());
                },
            }
            proof {
                assert(moves@ == before + per[i as int]);
                let head = per.take(i as int);
                let one = seq![per[i as int]];
                assert(per.take(i + 1) =~= head + one);
                lemma_flatten_concat(head, one);
                one.lemma_flatten_one_element();
            }
            i += 1;
        }
        assert(per.take(90) =~= per);
        moves
    }

    /// The legal moves of `color`: for each of its pieces, in the order
    /// of their squares, the moves by the rule of its kind that do not
    /// leave the king of `color` attacked.
    pub fn get_legal_moves(&self, color: Color) -> (moves: Vec<JieqiMove>)
        requires
            self@.wf(),
        ensures
            moves@ == self@.legal_moves(color),
            forall|k: int| 0 <= k < moves@.len() ==> self@.sound_move(color, #[trigger] moves@[k]),
    {
        let mut scratch = self.clone();
        scratch.get_legal_moves_mut(color)
    }

    /// Plays move `mv` for the side to move, where it is one of its legal
    /// moves: the move is made, the piece it captured joins the captured
    /// pieces of its side, and that piece is returned. Any other move is
    /// refused, and the board is left as it was.
    #[verifier::rlimit(30)]
    pub fn play_move(&mut self, mv: &JieqiMove) -> (r: Result<Option<Piece>, MoveError>)
        requires
            old(self)@.wf(),
        ensures
            final(self)@.wf(),
            match r {
                Ok(captured) => old(self)@.legal_moves(old(self)@.turn).contains(*mv) && captured
                    == old(self)@.captured_by(*mv) && final(self)@ == old(self)@.make_move(
                    *mv,
                ).with_capture(captured),
                Err(e) => e == MoveError::IllegalMove && !old(self)@.legal_moves(
                    old(self)@.turn,
                ).contains(*mv) && final(self)@ == old(self)@,
            },
    {
        let moves = self.get_legal_moves(self.current_turn());
        let mut i: usize = 0;
        let mut found = false;
        while i < moves.len() && !found
            invariant
                i <= moves.len(),
                forall|k: int| 0 <= k < i ==> moves@[k] != *mv,
                found ==> i < moves.len() && moves@[i as int] == *mv,
            decreases moves.len() - i + (if found {
                0int
            } else {
                1int
            }),
        {
            if moves[i] == *mv {
                found = true;
            } else {
                i += 1;
            }
        }
        if !found {
            return Err(MoveError::IllegalMove);
        }
        proof {
            assert(moves@[i as int] == *mv);
            assert(self@.sound_move(self@.turn, moves@[i as int]));
            crate::board::lemma_make_move_wf(self@, *mv);
            lemma_index_bijection();
            assert(self@.squares[mv.from_pos.spec_to_index()] is Some);
        }
        let captured = self.make_move(mv);
        let ghost made = self@;
        match captured {
            Some(piece) => {
                self.record_capture(&piece);
            },
            None => {},
        }
        assert(self@.squares == made.squares && self@.red_king == made.red_king
            && self@.black_king == made.black_king);
        Ok(captured)
    }

    /// Plays the move with text `text` for the side to move, where the
    /// text is well-formed and the move is one of its legal moves.
    pub fn play_move_text(&mut self, text: &str) -> (r: Result<Option<Piece>, MoveError>)
        requires
            old(self)@.wf(),
        ensures
            final(self)@.wf(),
            match r {
                Ok(captured) => JieqiMove::parse(text@) matches Some(parsed) && old(self)@.legal_moves(old(self)@.turn).contains(parsed.0) && captured == old(self)@.captured_by(parsed.0) && final(self)@ == old(self)@.make_move(
                    parsed.0,
                ).with_capture(captured),
                Err(e) => final(self)@ == old(self)@ && match JieqiMove::parse(text@) {
                    None => e == MoveError::InvalidMoveText,
                    Some(parsed) => e == MoveError::IllegalMove && !old(self)@.legal_moves(
                        old(self)@.turn,
                    ).contains(parsed.0),
                },
            },
    {
        match JieqiMove::from_fen_str(text) {
            Some(parsed) => self.play_move(&parsed.0),
            None => Err(MoveError::InvalidMoveText),
        }
    }

    /// The legal moves of `color`, each as its text.
    pub fn get_legal_moves_str(&self, color: Color) -> (texts: Vec<String>)
        requires
            self@.wf(),
        ensures
            texts@.len() == self@.legal_moves(color).len(),
            forall|k: int|
                0 <= k < texts@.len() ==> (#[trigger] texts@[k])@ == self@.legal_moves(
                    color,
                )[k].text(None),
    {
        let moves = self.get_legal_moves(color);
        let mut texts: Vec<String> = Vec::with_capacity(moves.len());
        let mut i: usize = 0;
        while i < moves.len()
            invariant
                i <= moves.len(),
                texts@.len() == i,
                moves@ == self@.legal_moves(color),
                forall|k: int|
                    0 <= k < moves@.len() ==> self@.sound_move(color, #[trigger] moves@[k]),
                forall|k: int| 0 <= k < i ==> (#[trigger] texts@[k])@ == moves@[k].text(None),
            decreases moves.len() - i,
        {
            assert(self@.sound_move(color, moves@[i as int]));
            texts.push(moves[i].to_fen_str(None));
            i += 1;
        }
        texts
    }

    /// The pieces of `color`, or all pieces where `color` is `None`, in
    /// the order of their squares' numbers.
    pub fn get_all_pieces(&self, color: Option<Color>) -> (r: Vec<Piece>)
        requires
            self@.inv(),
        ensures
            r@ == self@.pieces(color),
    {
        let mut r: Vec<Piece> = Vec::new();
        let mut i: usize = 0;
        while i < 90
            invariant
                i <= 90,
                self@.inv(),
                r@ == self@.pieces_below(color, i as int),
            decreases 90 - i,
        {
            match self.piece_on(Position::from_index(i)) {
                Some(p) => {
                    let wanted = match color {
                        None => true,
                        Some(c) => c == p.color,
                    };
                    if wanted {
                        r.push(p);
                    }
                },
                None => {},
            }
            i += 1;
        }
        r
    }

    /// How the game stands. The legal moves of the side to move are taken
    /// from `legal_moves` where it is given, and computed where not.
    pub fn get_game_result(&self, legal_moves: Option<&[JieqiMove]>) -> (r: GameResult)
        requires
            self@.inv(),
            legal_moves is None ==> self@.wf(),
        ensures
            r == self@.game_result(
                match legal_moves {
                    Some(m) => m@,
                    None => self@.legal_moves(self@.turn),
                },
            ),
    {
        if self.find_king(Color::Red).is_none() {
            return GameResult::BlackWin;
        }
        if self.find_king(Color::Black).is_none() {
            return GameResult::RedWin;
        }
        let none_left = match legal_moves {
            Some(m) => m.len() == 0,
            None => self.get_legal_moves(self.current_turn()).len() == 0,
        };
        if none_left {
            if self.is_in_check(self.current_turn()) {
                match self.current_turn() {
                    Color::Red => GameResult::BlackWin,
                    Color::Black => GameResult::RedWin,
                }
            } else {
                GameResult::Draw
            }
        } else {
            GameResult::Ongoing
        }
    }
}

/// The legal moves of the side to move in the position that `fen`
/// describes, each as its text. A text that is no FEN and a position
/// that cannot be played on are refused.
pub fn get_legal_moves_from_fen(fen: &str) -> (r: Result<Vec<String>, EngineError>)
    ensures
        match r {
            Ok(texts) => spec_board_from_fen(fen@) matches Ok(b) && b.wf() && texts@.len()
                == b.legal_moves(b.turn).len() && forall|k: int|
                0 <= k < texts@.len() ==> (#[trigger] texts@[k])@ == b.legal_moves(b.turn)[k].text(
                    None,
                ),
            Err(e) => match spec_board_from_fen(fen@) {
                Err(f) => e == EngineError::InvalidFen(f),
                Ok(b) => e == EngineError::NotPlayable && !b.wf(),
            },
        },
{
    let board = match Board::from_fen(fen) {
        Ok(b) => b,
        Err(e) => {
            return Err(EngineError::InvalidFen(e));
        },
    };
    if board.is_playable() {
        Ok(board.get_legal_moves_str(board.current_turn()))
    } else {
        Err(EngineError::NotPlayable)
    }
}

} // verus!
