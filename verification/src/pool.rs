//! The hidden-pool model: for one side, how many pieces of each kind may
//! still lie face-down, and what a face-down piece is worth on average.

use vstd::prelude::*;
use crate::board::{Board, BoardView};
use crate::fen::CapturedPieceInfo;
use crate::types::{Color, PieceType, Position};

verus! {

/// The number of kinds of piece.
pub const PIECE_TYPE_COUNT: usize = 7;

/// How many pieces of kind `t` a side starts with.
pub open spec fn initial_count(t: PieceType) -> int {
    match t {
        PieceType::King => 1,
        PieceType::Pawn => 5,
        _ => 2,
    }
}

/// The value of a face-down piece that turns out to be of kind `t`: eight
/// tenths of the value of the kind.
pub open spec fn discounted_value(t: PieceType) -> int {
    t.spec_value() * 8 / 10
}

/// The kind with rank `k` in the order in which kinds receive the slots
/// that rounding down leaves over: by descending value, the king left out.
pub open spec fn priority(k: int) -> PieceType {
    if k == 0 {
        PieceType::Rook
    } else if k == 1 {
        PieceType::Cannon
    } else if k == 2 {
        PieceType::Horse
    } else if k == 3 {
        PieceType::Elephant
    } else if k == 4 {
        PieceType::Advisor
    } else {
        PieceType::Pawn
    }
}

/// The rank of kind `t` in that order; the king comes after all.
pub open spec fn rank(t: PieceType) -> int {
    match t {
        PieceType::Rook => 0,
        PieceType::Cannon => 1,
        PieceType::Horse => 2,
        PieceType::Elephant => 3,
        PieceType::Advisor => 4,
        PieceType::Pawn => 5,
        PieceType::King => 6,
    }
}

/// The number of the first `n` entries of `list` that record a piece of
/// kind `t`.
pub open spec fn known_among(list: Seq<CapturedPieceInfo>, t: PieceType, n: int) -> int
    decreases n,
{
    if n <= 0 {
        0
    } else {
        known_among(list, t, n - 1) + if list[n - 1].piece_type == Some(t) {
            1int
        } else {
            0int
        }
    }
}

/// The number of the first `n` entries of `list` that record a piece of
/// unknown kind.
pub open spec fn unknown_among(list: Seq<CapturedPieceInfo>, n: int) -> int
    decreases n,
{
    if n <= 0 {
        0
    } else {
        unknown_among(list, n - 1) + if list[n - 1].piece_type is None {
            1int
        } else {
            0int
        }
    }
}

impl BoardView {
    /// The number of face-down pieces of `color` on the squares with
    /// numbers below `n`.
    pub open spec fn hidden_below(&self, color: Color, n: int) -> int
        decreases n,
    {
        if n <= 0 {
            0
        } else {
            self.hidden_below(color, n - 1) + if self.squares[n - 1] matches Some(p) && p.color
                == color && p.is_hidden {
                1int
            } else {
                0int
            }
        }
    }

    /// The number of face-down pieces of `color` on the board.
    pub open spec fn hidden_count(&self, color: Color) -> int {
        self.hidden_below(color, 90)
    }

    /// The number of face-up pieces of `color` and kind `t` on the squares
    /// with numbers below `n`.
    pub open spec fn revealed_below(&self, color: Color, t: PieceType, n: int) -> int
        decreases n,
    {
        if n <= 0 {
            0
        } else {
            self.revealed_below(color, t, n - 1) + if self.squares[n - 1] matches Some(p)
                && p.color == color && !p.is_hidden && p.actual_type == Some(t) {
                1int
            } else {
                0int
            }
        }
    }

    /// The number of face-up pieces of `color` and kind `t` on the board.
    pub open spec fn revealed_count(&self, color: Color, t: PieceType) -> int {
        self.revealed_below(color, t, 90)
    }

    /// The number of captured pieces of `color` that are known to be of
    /// kind `t`.
    pub open spec fn known_captured(&self, color: Color, t: PieceType) -> int {
        known_among(self.captured(color), t, self.captured(color).len() as int)
    }

    /// The number of captured pieces of `color` of unknown kind.
    pub open spec fn unknown_captured(&self, color: Color) -> int {
        unknown_among(self.captured(color), self.captured(color).len() as int)
    }

    /// How many pieces of kind `t` of `color` are neither face-up on the
    /// board nor known to be captured: the initial count less those, and
    /// not below zero.
    pub open spec fn headroom(&self, color: Color, t: PieceType) -> int {
        let left = initial_count(t) - self.revealed_count(color, t) - self.known_captured(
            color,
            t,
        );
        if left > 0 {
            left
        } else {
            0
        }
    }

    /// The headroom of all kinds together.
    pub open spec fn headroom_sum(&self, color: Color) -> int {
        self.headroom(color, PieceType::King) + self.headroom(color, PieceType::Advisor)
            + self.headroom(color, PieceType::Elephant) + self.headroom(color, PieceType::Horse)
            + self.headroom(color, PieceType::Rook) + self.headroom(color, PieceType::Cannon)
            + self.headroom(color, PieceType::Pawn)
    }

    /// Whether captures of unknown kind make the pool smaller than the
    /// headroom: there are such captures, and the headroom exceeds the
    /// face-down pieces on the board, of which there is at least one.
    pub open spec fn pool_reduced(&self, color: Color) -> bool {
        self.unknown_captured(color) > 0 && self.headroom_sum(color) > self.hidden_count(color)
            && self.hidden_count(color) > 0
    }

    /// The headroom of kind `t` scaled to the number of face-down pieces
    /// on the board, rounded down.
    pub open spec fn scaled(&self, color: Color, t: PieceType) -> int {
        self.headroom(color, t) * self.hidden_count(color) / self.headroom_sum(color)
    }

    /// The scaled headroom of all kinds together.
    pub open spec fn scaled_sum(&self, color: Color) -> int {
        self.scaled(color, PieceType::King) + self.scaled(color, PieceType::Advisor)
            + self.scaled(color, PieceType::Elephant) + self.scaled(color, PieceType::Horse)
            + self.scaled(color, PieceType::Rook) + self.scaled(color, PieceType::Cannon)
            + self.scaled(color, PieceType::Pawn)
    }

    /// The slots that rounding down left over and that the kinds with rank
    /// below `k` have not taken.
    pub open spec fn left_over(&self, color: Color, k: int) -> int
        decreases k, 1int,
    {
        if k <= 0 {
            let rest = self.hidden_count(color) - self.scaled_sum(color);
            if rest > 0 {
                rest
            } else {
                0
            }
        } else {
            self.left_over(color, k - 1) - self.granted(color, k - 1)
        }
    }

    /// The left-over slots that the kind with rank `k` takes: as many as
    /// are left, up to its headroom.
    pub open spec fn granted(&self, color: Color, k: int) -> int
        decreases k, 2int,
    {
        if k < 0 {
            0
        } else {
            let t = priority(k);
            let room = self.headroom(color, t) - self.scaled(color, t);
            let room = if room > 0 {
                room
            } else {
                0
            };
            let left = self.left_over(color, k);
            if room < left {
                room
            } else {
                left
            }
        }
    }

    /// How many pieces of kind `t` the pool of `color` holds: the headroom
    /// of the kind, or where captures of unknown kind reduce the pool, its
    /// scaled headroom and the left-over slots it takes.
    pub open spec fn pool_count(&self, color: Color, t: PieceType) -> int {
        if self.pool_reduced(color) {
            self.scaled(color, t) + if t == PieceType::King {
                0
            } else {
                self.granted(color, rank(t))
            }
        } else {
            self.headroom(color, t)
        }
    }

    /// The pool of `color`.
    pub open spec fn pool(&self, color: Color) -> PoolView {
        PoolView {
            remaining: Seq::new(7, |k: int| self.pool_count(color, PieceType::spec_from_index(k))),
            total: self.hidden_count(color),
        }
    }
}

/// The mathematical content of a pool: for each kind, by its index, the
/// number of pieces of it that may lie face-down, and the number of
/// face-down pieces on the board.
pub struct PoolView {
    pub remaining: Seq<int>,
    pub total: int,
}

impl PoolView {
    /// The number of pieces in the pool.
    pub open spec fn size(&self) -> int {
        self.remaining[0] + self.remaining[1] + self.remaining[2] + self.remaining[3]
            + self.remaining[4] + self.remaining[5] + self.remaining[6]
    }

    /// The value of all pieces in the pool, each discounted.
    pub open spec fn worth(&self) -> int {
        self.remaining[0] * 80000 + self.remaining[1] * 160 + self.remaining[2] * 160
            + self.remaining[3] * 320 + self.remaining[4] * 720 + self.remaining[5] * 360
            + self.remaining[6] * 80
    }

    /// What a face-down piece is worth on average, in points, rounded
    /// down; 300 for an empty pool.
    pub open spec fn expected_value(&self) -> int {
        if self.size() == 0 {
            300
        } else {
            self.worth() / self.size()
        }
    }

    /// The kinds with index below `n` of which the pool holds a piece,
    /// each with its count, in the order of their indices.
    pub open spec fn kinds_below(&self, n: int) -> Seq<(PieceType, u8)>
        decreases n,
    {
        if n <= 0 {
            Seq::empty()
        } else if self.remaining[n - 1] > 0 {
            self.kinds_below(n - 1).push(
                (PieceType::spec_from_index(n - 1), self.remaining[n - 1] as u8),
            )
        } else {
            self.kinds_below(n - 1)
        }
    }

    /// The kinds that a face-down piece may turn out to be, each with the
    /// number of pieces of it in the pool: its chance is that number over
    /// the size of the pool. Empty where no piece is face-down or the
    /// pool is empty.
    pub open spec fn possible_types(&self) -> Seq<(PieceType, u8)> {
        if self.total == 0 || self.size() == 0 {
            Seq::empty()
        } else {
            self.kinds_below(7)
        }
    }

    /// For each kind with index below `n` of which the pool holds a piece:
    /// its name, its count, the discounted value of one piece and of all
    /// its pieces, in the order of the indices.
    pub open spec fn breakdown_below(&self, n: int) -> Seq<(Seq<char>, u8, int, int)>
        decreases n,
    {
        if n <= 0 {
            Seq::empty()
        } else if self.remaining[n - 1] > 0 {
            let t = PieceType::spec_from_index(n - 1);
            self.breakdown_below(n - 1).push(
                (
                    t.spec_name(),
                    self.remaining[n - 1] as u8,
                    discounted_value(t),
                    self.remaining[n - 1] * discounted_value(t),
                ),
            )
        } else {
            self.breakdown_below(n - 1)
        }
    }

    /// Whether the counts are those of a pool: seven of them, none above
    /// the five pawns a side starts with.
    pub open spec fn wf(&self) -> bool {
        &&& self.remaining.len() == 7
        &&& forall|k: int| 0 <= k < 7 ==> 0 <= #[trigger] self.remaining[k] <= 5
        &&& 0 <= self.total <= 90
    }
}

/// The index of a kind in the order King, Advisor, Elephant, Horse, Rook,
/// Cannon, Pawn.
pub fn piece_type_to_index(pt: PieceType) -> (i: usize)
    ensures
        i == pt.spec_index(),
        i < 7,
        PieceType::spec_from_index(i as int) == pt,
{
    match pt {
        PieceType::King => 0,
        PieceType::Advisor => 1,
        PieceType::Elephant => 2,
        PieceType::Horse => 3,
        PieceType::Rook => 4,
        PieceType::Cannon => 5,
        PieceType::Pawn => 6,
    }
}

/// The kind with index `i` in that order.
pub fn piece_type_from_index(i: usize) -> (pt: PieceType)
    requires
        i < 7,
    ensures
        pt == PieceType::spec_from_index(i as int),
        pt.spec_index() == i,
{
    if i == 0 {
        PieceType::King
    } else if i == 1 {
        PieceType::Advisor
    } else if i == 2 {
        PieceType::Elephant
    } else if i == 3 {
        PieceType::Horse
    } else if i == 4 {
        PieceType::Rook
    } else if i == 5 {
        PieceType::Cannon
    } else {
        PieceType::Pawn
    }
}

fn initial_of(i: usize) -> (n: u8)
    requires
        i < 7,
    ensures
        n == initial_count(PieceType::spec_from_index(i as int)),
{
    if i == 0 {
        1
    } else if i == 6 {
        5
    } else {
        2
    }
}

/// The pool of one side: the counts of the kinds that may lie face-down.
#[derive(Debug)]
pub struct HiddenPieceDistribution {
    remaining: Vec<u8>,
    total: u8,
}

impl HiddenPieceDistribution {
    #[verifier::type_invariant]
    spec fn counts_in_range(&self) -> bool {
        &&& self.remaining@.len() == 7
        &&& forall|k: int| 0 <= k < 7 ==> #[trigger] self.remaining@[k] <= 5
        &&& self.total <= 90
    }
}

impl View for HiddenPieceDistribution {
    type V = PoolView;

    closed spec fn view(&self) -> PoolView {
        PoolView {
            remaining: Seq::new(self.remaining@.len(), |k: int| self.remaining@[k] as int),
            total: self.total as int,
        }
    }
}

/// Seven zeros.
fn zeros() -> (v: Vec<u8>)
    ensures
        v@.len() == 7,
        forall|k: int| 0 <= k < 7 ==> v@[k] == 0,
{
    let mut v: Vec<u8> = Vec::with_capacity(PIECE_TYPE_COUNT);
    let mut i: usize = 0;
    while i < 7
        invariant
            i <= 7,
            v@.len() == i,
            forall|k: int| 0 <= k < i ==> v@[k] == 0,
        decreases 7 - i,
    {
        v.push(0);
        i += 1;
    }
    v
}

/// Counts the pieces of `color` on the board: the face-down ones, and
/// the face-up ones by kind.
fn count_on_board(board: &Board, color: Color) -> (r: (u8, Vec<u8>))
    requires
        board@.inv(),
    ensures
        r.0 == board@.hidden_count(color),
        r.1@.len() == 7,
        forall|k: int|
            0 <= k < 7 ==> #[trigger] r.1@[k] == board@.revealed_count(
                color,
                PieceType::spec_from_index(k),
            ),
{
    let mut hidden: u8 = 0;
    let mut revealed = zeros();
    let mut i: usize = 0;
    while i < 90
        invariant
            i <= 90,
            board@.inv(),
            hidden == board@.hidden_below(color, i as int),
            hidden <= i,
            revealed@.len() == 7,
            forall|k: int|
                0 <= k < 7 ==> #[trigger] revealed@[k] == board@.revealed_below(
                    color,
                    PieceType::spec_from_index(k),
                    i as int,
                ) && revealed@[k] <= i,
        decreases 90 - i,
    {
        match board.piece_on(Position::from_index(i)) {
            Some(p) => {
                if p.color == color {
                    if p.is_hidden {
                        hidden = hidden + 1;
                    } else {
                        match p.actual_type {
                            Some(t) => {
                                let idx = piece_type_to_index(t);
                                let n = revealed[idx];
                                revealed.set(idx, n + 1);
                            },
                            None => {},
                        }
                    }
                }
            },
            None => {},
        }
        i += 1;
    }
    (hidden, revealed)
}

/// Counts the captured pieces in `list`: those of unknown kind, and the
/// others by kind. Counts stop at 255.
fn count_captured(list: &Vec<CapturedPieceInfo>) -> (r: (u8, Vec<u8>))
    ensures
        r.0 == vstd::math::min(unknown_among(list@, list@.len() as int), 255),
        r.1@.len() == 7,
        forall|k: int|
            0 <= k < 7 ==> #[trigger] r.1@[k] == vstd::math::min(
                known_among(list@, PieceType::spec_from_index(k), list@.len() as int),
                255,
            ),
{
    let mut unknown: u8 = 0;
    let mut known = zeros();
    let mut i: usize = 0;
    while i < list.len()
        invariant
            i <= list.len(),
            unknown == vstd::math::min(unknown_among(list@, i as int), 255),
            known@.len() == 7,
            forall|k: int|
                0 <= k < 7 ==> #[trigger] known@[k] == vstd::math::min(
                    known_among(list@, PieceType::spec_from_index(k), i as int),
                    255,
                ),
            unknown_among(list@, i as int) >= 0,
            forall|k: int|
                0 <= k < 7 ==> known_among(list@, #[trigger] PieceType::spec_from_index(k), i as int)
                    >= 0,
        decreases list.len() - i,
    {
        match list[i].piece_type {
            Some(t) => {
                let idx = piece_type_to_index(t);
                let n = known[idx];
                if n < 255 {
                    known.set(idx, n + 1);
                }
            },
            None => {
                if unknown < 255 {
                    unknown = unknown + 1;
                }
            },
        }
        i += 1;
    }
    (unknown, known)
}

proof fn lemma_scaled_in_range(a: int, h: int, s: int)
    requires
        0 <= a,
        0 <= h < s,
    ensures
        0 <= a * h / s <= a,
        a * h <= 5 * 90 || a > 5 || h > 90,
{
    assert(0 <= a * h <= a * s) by (nonlinear_arith)
        requires
            0 <= a,
            0 <= h < s,
    ;
    assert(a * h / s <= a) by (nonlinear_arith)
        requires
            0 <= a * h <= a * s,
            s > 0,
    ;
    assert(0 <= a * h / s) by (nonlinear_arith)
        requires
            0 <= a * h,
            s > 0,
    ;
    assert(a * h <= 5 * 90 || a > 5 || h > 90) by (nonlinear_arith)
        requires
            0 <= a,
            0 <= h,
    ;
}

/// The index of the kind with rank `k` in the order of the left-over
/// slots.
fn priority_index(k: usize) -> (i: usize)
    requires
        k < 6,
    ensures
        1 <= i < 7,
        PieceType::spec_from_index(i as int) == priority(k as int),
        rank(priority(k as int)) == k,
{
    if k == 0 {
        4
    } else if k == 1 {
        5
    } else if k == 2 {
        3
    } else if k == 3 {
        2
    } else if k == 4 {
        1
    } else {
        6
    }
}

/// The headroom of each kind, by index.
fn headrooms(board: &Board, color: Color, revealed: &Vec<u8>, known: &Vec<u8>) -> (base: Vec<u8>)
    requires
        revealed@.len() == 7,
        known@.len() == 7,
        forall|k: int|
            0 <= k < 7 ==> #[trigger] revealed@[k] == board@.revealed_count(
                color,
                PieceType::spec_from_index(k),
            ),
        forall|k: int|
            0 <= k < 7 ==> #[trigger] known@[k] == vstd::math::min(
                board@.known_captured(color, PieceType::spec_from_index(k)),
                255,
            ),
    ensures
        base@.len() == 7,
        forall|k: int|
            0 <= k < 7 ==> #[trigger] base@[k] == board@.headroom(
                color,
                PieceType::spec_from_index(k),
            ) && base@[k] <= 5,
{
    let mut base: Vec<u8> = Vec::with_capacity(PIECE_TYPE_COUNT);
    let mut i: usize = 0;
    while i < 7
        invariant
            i <= 7,
            base@.len() == i,
            revealed@.len() == 7,
            known@.len() == 7,
            forall|k: int|
                0 <= k < 7 ==> #[trigger] revealed@[k] == board@.revealed_count(
                    color,
                    PieceType::spec_from_index(k),
                ),
            forall|k: int|
                0 <= k < 7 ==> #[trigger] known@[k] == vstd::math::min(
                    board@.known_captured(color, PieceType::spec_from_index(k)),
                    255,
                ),
            forall|k: int|
                0 <= k < i ==> #[trigger] base@[k] == board@.headroom(
                    color,
                    PieceType::spec_from_index(k),
                ) && base@[k] <= 5,
        decreases 7 - i,
    {
        let start = initial_of(i);
        let seen = revealed[i];
        let gone = known[i];
        let after_seen: u8 = if start > seen {
            start - seen
        } else {
            0
        };
        let left: u8 = if after_seen > gone {
            after_seen - gone
        } else {
            0
        };
        base.push(left);
        i += 1;
    }
    base
}

impl HiddenPieceDistribution {
    /// The pool of `color` on `board`. For each kind it holds the pieces
    /// that a side starts with, less those that stand face-up on the board
    /// and those known to be captured. Where pieces of unknown kind were
    /// captured and more pieces remain than lie face-down on the board,
    /// the counts are scaled down to the face-down pieces, rounded down,
    /// and the slots left over go to the kinds by descending value.
    #[verifier::rlimit(30)]
    pub fn from_board(board: &Board, color: Color) -> (d: HiddenPieceDistribution)
        requires
            board@.inv(),
        ensures
            d@ == board@.pool(color),
            d@.wf(),
    {
        let (hidden, revealed) = count_on_board(board, color);
        let (unknown, known) = count_captured(board.captured_pieces(color));
        let base = headrooms(board, color, &revealed, &known);
        let ghost b = board@;
        let sum: u8 = base[0] + base[1] + base[2] + base[3] + base[4] + base[5] + base[6];
        assert(sum == b.headroom_sum(color));
        assert(hidden <= 90) by {
            lemma_hidden_bound(b, color, 90);
        }
        if !(unknown > 0 && sum > hidden && hidden > 0) {
            let d = HiddenPieceDistribution { remaining: base, total: hidden };
            assert(d@.remaining =~= b.pool(color).remaining);
            return d;
        }
        assert(b.pool_reduced(color));
        let mut scaled: Vec<u8> = Vec::with_capacity(PIECE_TYPE_COUNT);
        let mut i: usize = 0;
        while i < 7
            invariant
                i <= 7,
                scaled@.len() == i,
                base@.len() == 7,
                0 < hidden < sum,
                hidden <= 90,
                sum == b.headroom_sum(color),
                hidden == b.hidden_count(color),
                forall|k: int|
                    0 <= k < 7 ==> #[trigger] base@[k] == b.headroom(
                        color,
                        PieceType::spec_from_index(k),
                    ) && base@[k] <= 5,
                forall|k: int|
                    0 <= k < i ==> #[trigger] scaled@[k] == b.scaled(
                        color,
                        PieceType::spec_from_index(k),
                    ) && scaled@[k] <= base@[k],
            decreases 7 - i,
        {
            proof {
                lemma_scaled_in_range(base@[i as int] as int, hidden as int, sum as int);
            }
            let product: u32 = (base[i] as u32) * (hidden as u32);
            let share: u32 = product / (sum as u32);
            scaled.push(share as u8);
            i += 1;
        }
        let assigned: u8 = scaled[0] + scaled[1] + scaled[2] + scaled[3] + scaled[4] + scaled[5]
            + scaled[6];
        assert(assigned == b.scaled_sum(color));
        let mut to_assign: u8 = if hidden > assigned {
            hidden - assigned
        } else {
            0
        };
        let mut k: usize = 0;
        while k < 6
            invariant
                k <= 6,
                scaled@.len() == 7,
                base@.len() == 7,
                to_assign == b.left_over(color, k as int),
                forall|j: int|
                    0 <= j < 7 ==> #[trigger] base@[j] == b.headroom(
                        color,
                        PieceType::spec_from_index(j),
                    ) && base@[j] <= 5,
                forall|j: int|
                    0 <= j < 7 ==> #[trigger] scaled@[j] == b.scaled(
                        color,
                        PieceType::spec_from_index(j),
                    ) + (if 1 <= j && rank(PieceType::spec_from_index(j)) < k {
                        b.granted(color, rank(PieceType::spec_from_index(j)))
                    } else {
                        0
                    }) && scaled@[j] <= base@[j],
            decreases 6 - k,
        {
            let idx = priority_index(k);
            let room: u8 = base[idx] - scaled[idx];
            let add: u8 = if room < to_assign {
                room
            } else {
                to_assign
            };
            assert(add == b.granted(color, k as int));
            let had = scaled[idx];
            scaled.set(idx, had + add);
            to_assign = to_assign - add;
            k += 1;
        }
        let d = HiddenPieceDistribution { remaining: scaled, total: hidden };
        assert(d@.remaining =~= b.pool(color).remaining) by {
            assert forall|j: int| 0 <= j < 7 implies d@.remaining[j] == b.pool_count(
                color,
                PieceType::spec_from_index(j),
            ) by {
                assert(scaled@[j] == d@.remaining[j]);
            }
        }
        d
    }

    /// The number of pieces in the pool.
    pub fn total_count(&self) -> (n: u8)
        ensures
            n == self@.size(),
    {
        proof {
            use_type_invariant(self);
        }
        self.remaining[0] + self.remaining[1] + self.remaining[2] + self.remaining[3]
            + self.remaining[4] + self.remaining[5] + self.remaining[6]
    }

    /// The number of face-down pieces on the board that the pool was
    /// computed for.
    pub fn hidden_on_board(&self) -> (n: u8)
        ensures
            n == self@.total,
    {
        self.total
    }

    /// The number of pieces of kind `t` in the pool.
    pub fn count_of(&self, t: PieceType) -> (n: u8)
        ensures
            n == self@.remaining[t.spec_index()],
            n <= 5,
    {
        proof {
            use_type_invariant(self);
        }
        self.remaining[piece_type_to_index(t)]
    }

    /// The kinds that a face-down piece may turn out to be, each with the
    /// number of pieces of it in the pool; its chance is that number over
    /// `total_count`.
    pub fn possible_types(&self) -> (r: Vec<(PieceType, u8)>)
        ensures
            r@ == self@.possible_types(),
    {
        proof {
            use_type_invariant(self);
        }
        let mut r: Vec<(PieceType, u8)> = Vec::new();
        if self.total == 0 || self.total_count() == 0 {
            return r;
        }
        let mut i: usize = 0;
        while i < 7
            invariant
                i <= 7,
                self.remaining@.len() == 7,
                r@ == self@.kinds_below(i as int),
            decreases 7 - i,
        {
            if self.remaining[i] > 0 {
                r.push((piece_type_from_index(i), self.remaining[i]));
            }
            i += 1;
        }
        r
    }

    /// What the pool is made of: for each kind of which it holds a piece,
    /// the name of the kind, its count, the discounted value of one piece
    /// and the discounted value of all pieces of the kind, in points.
    pub fn breakdown(&self) -> (r: Vec<(String, u8, i32, i32)>)
        ensures
            r@.len() == self@.breakdown_below(7).len(),
            forall|k: int|
                0 <= k < r@.len() ==> {
                    let row = #[trigger] r@[k];
                    let want = self@.breakdown_below(7)[k];
                    row.0@ == want.0 && row.1 == want.1 && row.2 == want.2 && row.3 == want.3
                },
    {
        proof {
            use_type_invariant(self);
        }
        let mut r: Vec<(String, u8, i32, i32)> = Vec::new();
        let mut i: usize = 0;
        while i < 7
            invariant
                i <= 7,
                self.remaining@.len() == 7,
                forall|k: int| 0 <= k < 7 ==> #[trigger] self.remaining@[k] <= 5,
                r@.len() == self@.breakdown_below(i as int).len(),
                forall|k: int|
                    0 <= k < r@.len() ==> {
                        let row = #[trigger] r@[k];
                        let want = self@.breakdown_below(i as int)[k];
                        row.0@ == want.0 && row.1 == want.1 && row.2 == want.2 && row.3 == want.3
                    },
            decreases 7 - i,
        {
            let count = self.remaining[i];
            if count > 0 {
                let t = piece_type_from_index(i);
                let unit: i32 = t.value() * 8 / 10;
                assert(unit == discounted_value(t));
                assert(0 <= count * unit <= 5 * 80000) by (nonlinear_arith)
                    requires
                        0 <= unit <= 80000,
                        0 < count <= 5,
                ;
                let all: i32 = (count as i32) * unit;
                r.push((String::from_str(t.name()), count, unit, all));
            }
            i += 1;
        }
        r
    }

    /// What a face-down piece is worth on average, in points: the mean of
    /// the discounted values of the pieces in the pool, rounded down, or
    /// 300 for an empty pool.
    pub fn expected_value(&self) -> (v: i32)
        ensures
            v == self@.expected_value(),
            0 <= v <= 80000,
    {
        proof {
            use_type_invariant(self);
        }
        let size: i64 = self.total_count() as i64;
        if size == 0 {
            return 300;
        }
        let worth: i64 = (self.remaining[0] as i64) * 80000 + (self.remaining[1] as i64) * 160 + (
        self.remaining[2] as i64) * 160 + (self.remaining[3] as i64) * 320 + (
        self.remaining[4] as i64) * 720 + (self.remaining[5] as i64) * 360 + (
        self.remaining[6] as i64) * 80;
        assert(0 <= worth <= 80000 * size);
        assert(worth / size <= 80000) by (nonlinear_arith)
            requires
                0 <= worth <= 80000 * size,
                size > 0,
        ;
        (worth / size) as i32
    }
}

/// At most one face-down piece stands on each square.
pub proof fn lemma_hidden_bound(b: BoardView, color: Color, n: int)
    requires
        0 <= n,
    ensures
        0 <= b.hidden_below(color, n) <= n,
    decreases n,
{
    if n > 0 {
        lemma_hidden_bound(b, color, n - 1);
    }
}


/// Where a face-up piece of `color` and kind `t` stands on square number
/// `i`, at least one such piece is counted on the squares below any
/// greater number.
pub proof fn lemma_revealed_counted(b: BoardView, color: Color, t: PieceType, i: int, n: int)
    requires
        0 <= i < n <= 90,
        b.squares[i] matches Some(p) && p.color == color && !p.is_hidden && p.actual_type == Some(
            t,
        ),
    ensures
        b.revealed_below(color, t, n) >= 1,
    decreases n,
{
    lemma_revealed_nonnegative(b, color, t, n - 1);
    if i < n - 1 {
        lemma_revealed_counted(b, color, t, i, n - 1);
    }
}

/// Counts of pieces are not negative.
pub proof fn lemma_revealed_nonnegative(b: BoardView, color: Color, t: PieceType, n: int)
    ensures
        b.revealed_below(color, t, n) >= 0,
    decreases n,
{
    if n > 0 {
        lemma_revealed_nonnegative(b, color, t, n - 1);
    }
}

/// Every kind that a pool lists has a piece in the pool.
pub proof fn lemma_kinds_listed(pool: PoolView, n: int)
    requires
        0 <= n <= 7,
        pool.wf(),
    ensures
        forall|k: int|
            0 <= k < pool.kinds_below(n).len() ==> {
                let e = #[trigger] pool.kinds_below(n)[k];
                &&& 0 < e.1 <= 5
                &&& pool.remaining[e.0.spec_index()] == e.1
            },
        pool.kinds_below(n).len() <= n,
    decreases n,
{
    if n > 0 {
        lemma_kinds_listed(pool, n - 1);
    }
}

/// Counts of captured pieces are not negative.
pub proof fn lemma_known_nonnegative(
    list: Seq<CapturedPieceInfo>,
    t: PieceType,
    n: int,
)
    ensures
        known_among(list, t, n) >= 0,
    decreases n,
{
    if n > 0 {
        lemma_known_nonnegative(list, t, n - 1);
    }
}

} // verus!
