//! Jieqi (dark Chinese chess) engine core: position encoding, FEN codec,
//! board with move generation, hidden-pool model, evaluation and search.

pub mod attack;
pub mod board;
pub mod engine;
pub mod eval;
pub mod fen;
pub mod hash;
pub mod laws;
pub mod legal;
pub mod lines;
pub mod movegen;
pub mod pool;
pub mod ranking;
pub mod report;
pub mod roundtrip;
pub mod search;
pub mod test_positions;
pub mod text;
pub mod types;
pub mod window;

pub use board::{Board, Piece};
pub use engine::{AIEngine, AIStrategy, EngineError};
pub use fen::{apply_move_to_fen, parse_fen, pieces_to_fen, FenError, FenState};
pub use legal::get_legal_moves_from_fen;
pub use pool::HiddenPieceDistribution;
pub use ranking::ScoredMove;
pub use report::{EvalDetail, PieceEval};
pub use search::{
    get_depth_reached, get_node_count, reset_depth_reached, reset_node_count, strategies_help,
    AIConfig, RandomAI, SearchStats, AVAILABLE_STRATEGIES, DEFAULT_STRATEGY, IT3AI,
};
pub use types::{ActionType, Color, GameResult, JieqiMove, PieceType, Position};
