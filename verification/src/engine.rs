//! One front for the engines: chosen by name, asked by FEN.

use vstd::prelude::*;
use crate::board::{spec_board_from_fen, Board, BoardView};
use crate::fen::FenError;
use crate::ranking::{descending, ScoredMove};
use crate::search::{
    answers_with_noise, depth_cap, drawn_from, first_of_ranking, shown, AIConfig, RandomAI,
    SearchStats, IT3AI, TIMED_DEPTH,
};
use crate::text::chars_of;
use crate::types::JieqiMove;

verus! {

/// Why an engine gave no answer.
#[derive(Debug, Clone, Copy, PartialEq, Eq)]
pub enum EngineError {
    /// No strategy has the name that was given.
    UnknownStrategy,
    /// The position text is no FEN.
    InvalidFen(FenError),
    /// The position cannot be played on: a piece lacks its kind or a
    /// cached king square is not exact.
    NotPlayable,
    /// The position can be played on but not searched: a king lies
    /// face-down.
    NotSearchable,
}

/// The character `c` in lower case, where it is an upper-case letter of
/// the basic alphabet.
pub open spec fn lower_char(c: char) -> char {
    if 'A' as u32 <= c as u32 <= 'Z' as u32 {
        ((c as u32) + 32) as u8 as char
    } else {
        c
    }
}

/// The text `s` with its basic upper-case letters in lower case.
pub open spec fn lower(s: Seq<char>) -> Seq<char> {
    Seq::new(s.len(), |i: int| lower_char(s[i]))
}

fn to_lower_char(c: char) -> (r: char)
    ensures
        r == lower_char(c),
{
    let n: u32 = c as u32;
    if 65 <= n && n <= 90 {
        ((n + 32) as u8) as char
    } else {
        c
    }
}

/// Whether `name` spells `target` when case is left aside.
fn spells(name: &Vec<char>, target: &Vec<char>) -> (r: bool)
    ensures
        r == (lower(name@) == target@),
{
    if name.len() != target.len() {
        return false;
    }
    let mut i: usize = 0;
    while i < name.len()
        invariant
            i <= name.len(),
            name.len() == target.len(),
            forall|k: int| 0 <= k < i ==> lower(name@)[k] == target@[k],
        decreases name.len() - i,
    {
        if to_lower_char(name[i]) != target[i] {
            assert(lower(name@)[i as int] != target@[i as int]);
            return false;
        }
        i += 1;
    }
    assert(lower(name@) =~= target@);
    true
}

/// What every strategy offers: the best moves of the side to move, best
/// first.
pub trait AIStrategy {
    /// Whether the strategy can be asked on board `b`.
    spec fn accepts(&self, b: BoardView) -> bool;

    /// The `n` best moves of the side to move on `board`, best first;
    /// all legal moves where they are fewer: the first entries of a
    /// ranking that holds each legal move once.
    fn select_moves(&self, board: &Board, n: usize) -> (r: Vec<ScoredMove>)
        requires
            self.accepts(board@),
        ensures
            r@.len() == shown(n, board@.legal_moves(board@.turn).len()),
            first_of_ranking(r@, board@.legal_moves(board@.turn), n),
            drawn_from(r@, board@.legal_moves(board@.turn)),
            descending(r@),
    ;

    /// The best move of the side to move on `board`, or `None` where it
    /// has no legal move.
    fn select_best_move(&self, board: &Board) -> (r: Option<JieqiMove>)
        requires
            self.accepts(board@),
        ensures
            r is None <==> board@.legal_moves(board@.turn).len() == 0,
            r matches Some(mv) ==> board@.legal_moves(board@.turn).contains(mv),
    ;
}

impl AIStrategy for IT3AI {
    /// An expectimax engine needs a board that can be searched.
    open spec fn accepts(&self, b: BoardView) -> bool {
        b.searchable()
    }

    fn select_moves(&self, board: &Board, n: usize) -> (r: Vec<ScoredMove>) {
        IT3AI::select_moves(self, board, n)
    }

    fn select_best_move(&self, board: &Board) -> (r: Option<JieqiMove>) {
        IT3AI::select_best_move(self, board)
    }
}

impl AIStrategy for RandomAI {
    /// A random engine needs a board that can be played on.
    open spec fn accepts(&self, b: BoardView) -> bool {
        b.wf()
    }

    fn select_moves(&self, board: &Board, n: usize) -> (r: Vec<ScoredMove>) {
        RandomAI::select_moves(self, board, n)
    }

    fn select_best_move(&self, board: &Board) -> (r: Option<JieqiMove>) {
        let best = RandomAI::select_moves(self, board, 1);
        if best.len() > 0 {
            Some(best[0].mv)
        } else {
            None
        }
    }
}

enum Strategy {
    Random(RandomAI),
    It3(IT3AI),
}

/// An engine of one of the strategies.
pub struct AIEngine {
    strategy: Strategy,
}

impl AIEngine {
    /// Whether the engine picks moves at random.
    pub closed spec fn is_random(&self) -> bool {
        self.strategy is Random
    }

    /// The expectimax engine that this engine is, where it is one.
    pub closed spec fn searcher(&self) -> Option<IT3AI> {
        match self.strategy {
            Strategy::It3(ai) => Some(ai),
            Strategy::Random(_) => None,
        }
    }

    /// An engine that picks moves at random.
    pub fn random(seed: Option<u64>) -> (e: AIEngine)
        ensures
            e.is_random(),
    {
        AIEngine { strategy: Strategy::Random(RandomAI::new(seed)) }
    }

    /// Whether the engine is an expectimax engine set up as `config`
    /// says.
    pub open spec fn searches_as(&self, config: AIConfig) -> bool {
        &&& !self.is_random()
        &&& self.searcher() matches Some(ai) && ai.untimed() == (config.time_limit_ms is None)
            && ai.noise_bound() == config.noise && ai.depth_limit() == (
        if config.time_limit_ms is Some {
            TIMED_DEPTH as i32
        } else {
            depth_cap(config.depth)
        })
    }

    /// An expectimax engine that searches as `config` says.
    pub fn it3(config: &AIConfig) -> (e: AIEngine)
        ensures
            e.searches_as(*config),
    {
        AIEngine { strategy: Strategy::It3(IT3AI::new(config)) }
    }

    /// The engine of the strategy called `name`, case left aside:
    /// `random` or `it3`.
    pub fn from_strategy(name: &str, config: &AIConfig) -> (r: Result<AIEngine, EngineError>)
        ensures
            match r {
                Ok(e) => if lower(name@) == "random"@ {
                    e.is_random()
                } else {
                    lower(name@) == "it3"@ && e.searches_as(*config)
                },
                Err(err) => err == EngineError::UnknownStrategy && lower(name@) != "random"@
                    && lower(name@) != "it3"@,
            },
    {
        let given = chars_of(name);
        let random = chars_of("random");
        let it3 = chars_of("it3");
        if spells(&given, &random) {
            Ok(AIEngine::random(config.seed))
        } else if spells(&given, &it3) {
            Ok(AIEngine::it3(config))
        } else {
            Err(EngineError::UnknownStrategy)
        }
    }

    /// Whether the engine can be asked on board `b`: a random engine on
    /// every board that can be played on, an expectimax engine on every
    /// board that can be searched.
    pub open spec fn accepts(&self, b: BoardView) -> bool {
        if self.is_random() {
            b.wf()
        } else {
            b.searchable()
        }
    }

    /// Whether `moves` is an answer of this engine on board `b` to a
    /// request for `n` moves: the first `n` entries, or all where they
    /// are fewer, of a ranking that holds each legal move of the side to
    /// move once, best first. For an expectimax engine the ranking is that
    /// of the scores of a search to one depth up to its depth limit, each
    /// raised by less than the noise bound; without time limit and noise
    /// it is the ranking of its search to the depth limit.
    pub open spec fn answers(&self, b: BoardView, n: usize, moves: Seq<ScoredMove>) -> bool {
        &&& moves.len() == shown(n, b.legal_moves(b.turn).len())
        &&& first_of_ranking(moves, b.legal_moves(b.turn), n)
        &&& drawn_from(moves, b.legal_moves(b.turn))
        &&& descending(moves)
        &&& (self.searcher() is Some ==> answers_with_noise(
            moves,
            b.legal_moves(b.turn),
            n,
            self.searcher()->0.noise_bound() as int,
        ))
        &&& (self.searcher() is Some ==> b.searched_answer(
            moves,
            n,
            self.searcher()->0.depth_limit() as int,
            self.searcher()->0.noise_bound() as int,
        ))
        &&& (self.searcher() is Some && self.searcher()->0.untimed() && self.searcher()->0.noise_bound()
            == 0 ==> moves == b.ranking(self.searcher()->0.depth_limit()).take(
            moves.len() as int,
        ))
    }

    /// The `n` best moves of the side to move on `board`, best first.
    /// What a search visited is counted in `stats`.
    pub fn select_moves_counted(&self, board: &Board, n: usize, stats: &mut SearchStats) -> (r:
        Vec<ScoredMove>)
        requires
            self.accepts(board@),
        ensures
            self.answers(board@, n, r@),
            final(stats).nodes >= old(stats).nodes,
    {
        match &self.strategy {
            Strategy::Random(ai) => ai.select_moves(board, n),
            Strategy::It3(ai) => ai.select_moves_counted(board, n, stats),
        }
    }

    /// The `n` best moves of the side to move on `board`, best first.
    pub fn select_moves(&self, board: &Board, n: usize) -> (r: Vec<ScoredMove>)
        requires
            self.accepts(board@),
        ensures
            self.answers(board@, n, r@),
    {
        let mut stats = SearchStats::new();
        self.select_moves_counted(board, n, &mut stats)
    }

    /// Whether `e` is the reason for which the engine refuses the text
    /// `fen`: it is no FEN, or its position cannot be played on, or the
    /// engine cannot search it. The first of these that holds decides.
    pub open spec fn refuses(&self, fen: Seq<char>, e: EngineError) -> bool {
        match spec_board_from_fen(fen) {
            Err(f) => e == EngineError::InvalidFen(f),
            Ok(b) => if !b.wf() {
                e == EngineError::NotPlayable
            } else {
                e == EngineError::NotSearchable && !self.accepts(b)
            },
        }
    }

    /// Reads the board that `fen` describes, where the engine can be
    /// asked on it.
    fn board_for(&self, fen: &str) -> (r: Result<Board, EngineError>)
        ensures
            match r {
                Ok(board) => spec_board_from_fen(fen@) == Ok::<BoardView, FenError>(board@)
                    && self.accepts(board@) && board@.wf(),
                Err(e) => self.refuses(fen@, e),
            },
    {
        let board = match Board::from_fen(fen) {
            Ok(b) => b,
            Err(e) => {
                return Err(EngineError::InvalidFen(e));
            },
        };
        if !board.is_playable() {
            return Err(EngineError::NotPlayable);
        }
        let random = match &self.strategy {
            Strategy::Random(_) => true,
            Strategy::It3(_) => false,
        };
        if !random && !board.is_searchable() {
            return Err(EngineError::NotSearchable);
        }
        Ok(board)
    }

    /// The `n` best moves of the side to move in the position that `fen`
    /// describes, each as its text with its score, best first.
    pub fn select_moves_fen(&self, fen: &str, n: usize) -> (r: Result<
        Vec<(String, i64)>,
        EngineError,
    >)
        ensures
            match r {
                Ok(list) => spec_board_from_fen(fen@) matches Ok(b) && self.accepts(b) && exists|
                    moves: Seq<ScoredMove>,
                |
                    self.answers(b, n, moves) && list@.len() == moves.len() && forall|k: int|
                        0 <= k < moves.len() ==> (#[trigger] list@[k]).0@ == moves[k].mv.text(None)
                            && list@[k].1 == moves[k].score,
                Err(e) => self.refuses(fen@, e),
            },
    {
        let mut stats = SearchStats::new();
        self.select_moves_fen_counted(fen, n, &mut stats)
    }

    /// The `n` best moves of the side to move in the position that `fen`
    /// describes, each as its text with its score, best first. What a
    /// search visited is counted in `stats`.
    pub fn select_moves_fen_counted(&self, fen: &str, n: usize, stats: &mut SearchStats) -> (r:
        Result<Vec<(String, i64)>, EngineError>)
        ensures
            final(stats).nodes >= old(stats).nodes,
            match r {
                Ok(list) => spec_board_from_fen(fen@) matches Ok(b) && self.accepts(b) && exists|
                    moves: Seq<ScoredMove>,
                |
                    self.answers(b, n, moves) && list@.len() == moves.len() && forall|k: int|
                        0 <= k < moves.len() ==> (#[trigger] list@[k]).0@ == moves[k].mv.text(None)
                            && list@[k].1 == moves[k].score,
                Err(e) => self.refuses(fen@, e),
            },
    {
        let board = match self.board_for(fen) {
            Ok(b) => b,
            Err(e) => {
                return Err(e);
            },
        };
        let moves = self.select_moves_counted(&board, n, stats);
        let ghost legal = board@.legal_moves(board@.turn);
        let mut list: Vec<(String, i64)> = Vec::with_capacity(moves.len());
        let mut i: usize = 0;
        while i < moves.len()
            invariant
                i <= moves.len(),
                board@.wf(),
                legal == board@.legal_moves(board@.turn),
                drawn_from(moves@, legal),
                list@.len() == i,
                forall|k: int|
                    0 <= k < i ==> (#[trigger] list@[k]).0@ == moves@[k].mv.text(None) && list@[k].1
                        == moves@[k].score,
            decreases moves.len() - i,
        {
            let entry = moves[i];
            proof {
                crate::legal::lemma_legal_moves_sound(board@, board@.turn);
                assert(legal.contains(moves@[i as int].mv));
            }
            list.push((entry.mv.to_fen_str(None), entry.score));
            i += 1;
        }
        Ok(list)
    }

    /// The best move of the side to move in the position that `fen`
    /// describes, as its text; `None` where the side has no legal move.
    pub fn select_best_move_fen(&self, fen: &str) -> (r: Result<Option<String>, EngineError>)
        ensures
            match r {
                Ok(best) => spec_board_from_fen(fen@) matches Ok(b) && self.accepts(b) && match best {
                    None => b.legal_moves(b.turn).len() == 0,
                    Some(text) => exists|moves: Seq<ScoredMove>|
                        self.answers(b, 1, moves) && moves.len() == 1 && text@
                            == (#[trigger] moves[0]).mv.text(None),
                },
                Err(e) => self.refuses(fen@, e),
            },
    {
        let board = match self.board_for(fen) {
            Ok(b) => b,
            Err(e) => {
                return Err(e);
            },
        };
        let moves = self.select_moves(&board, 1);
        if moves.len() == 0 {
            return Ok(None);
        }
        let best = moves[0];
        proof {
            crate::legal::lemma_legal_moves_sound(board@, board@.turn);
            assert(board@.legal_moves(board@.turn).contains(moves@[0].mv));
        }
        Ok(Some(best.mv.to_fen_str(None)))
    }
}

} // verus!
