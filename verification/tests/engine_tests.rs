use xiangqi_ai::board::Board;
use xiangqi_ai::eval::{
    evaluate, get_pst_score, hidden_position_bonus, terminal_eval, MATE_SCORE, PLY_PENALTY,
};
use xiangqi_ai::pool::{piece_type_from_index, piece_type_to_index, HiddenPieceDistribution};
use xiangqi_ai::ranking::{rank_moves, sort_and_truncate, ScoredMove};
use xiangqi_ai::search::{
    add_depth_node, get_depth_nodes_stats, get_depth_reached, get_node_count, reset_depth_nodes,
    reset_depth_reached, reset_node_count, strategies_help, AIConfig, RandomAI, SearchContext,
    SearchStats, IT3AI,
};
use xiangqi_ai::types::{ActionType, Color, GameResult, JieqiMove, PieceType, Position};

const START: &str = "xxxxkxxxx/9/1x5x1/x1x1x1x1x/9/9/X1X1X1X1X/1X5X1/9/XXXXKXXXX -:- r r";

#[test]
fn mod_test_hidden_piece_distribution() {
    let fen = "xxxxkxxxx/9/1x5x1/x1x1x1x1x/9/9/X1X1X1X1X/1X5X1/9/XXXXKXXXX -:- r r";
    let board = Board::from_fen(fen).unwrap();

    let dist = HiddenPieceDistribution::from_board(&board, Color::Red);
    assert_eq!(dist.total_count(), 15);

    let possible = dist.possible_types();
    assert_eq!(possible.len(), 6);

    let total = dist.total_count() as f64;
    let total_prob: f64 = possible.iter().map(|(_, count)| *count as f64 / total).sum();
    assert!((total_prob - 1.0).abs() < 0.001);
}

#[test]
fn mod_test_expected_value() {
    let fen = "xxxxkxxxx/9/1x5x1/x1x1x1x1x/9/9/X1X1X1X1X/1X5X1/9/XXXXKXXXX -:- r r";
    let board = Board::from_fen(fen).unwrap();

    let dist = HiddenPieceDistribution::from_board(&board, Color::Red);
    let ev = dist.expected_value();

    assert_eq!(ev, 256);
}

#[test]
fn mod_test_it2_basic() {
    let fen = "4k4/9/9/9/4c4/4R4/9/9/9/4K4 -:- r r";
    let config = AIConfig { depth: 2, ..Default::default() };
    let ai = IT3AI::new(&config);
    let board = Board::from_fen(fen).unwrap();
    let moves = ai.select_moves(&board, 5);

    assert!(!moves.is_empty());
    assert_eq!(moves[0].mv.to_fen_str(None), "e4e5");
}

#[test]
fn test_reveal_logic_fix() {
    let fen = "xxxxkxxxx/9/1x5x1/x1x1x1x1x/9/9/X1X1X1X1X/1X5X1/9/X8 -:- r r";
    let mut board = Board::from_fen(fen).unwrap();

    let from_pos = Position::new(0, 0);
    let to_pos = Position::new(3, 0);

    let mv = JieqiMove { action_type: ActionType::RevealAndMove, from_pos, to_pos };

    let reveal_state = board.simulate_reveal(from_pos, PieceType::Pawn);
    assert!(reveal_state.is_some());

    let mut virtual_move = mv;
    virtual_move.action_type = ActionType::Move;

    board.make_move(&virtual_move);

    let moved_piece = board.get_piece(to_pos).unwrap();
    assert_eq!(moved_piece.actual_type, Some(PieceType::Pawn));
    assert!(!moved_piece.is_hidden);
}

#[test]
fn pool_of_the_opening_position() {
    let board = Board::from_fen(START).unwrap();
    for color in [Color::Red, Color::Black] {
        let dist = HiddenPieceDistribution::from_board(&board, color);
        assert_eq!(dist.hidden_on_board(), 15);
        assert_eq!(dist.count_of(PieceType::King), 0);
        assert_eq!(dist.count_of(PieceType::Advisor), 2);
        assert_eq!(dist.count_of(PieceType::Elephant), 2);
        assert_eq!(dist.count_of(PieceType::Horse), 2);
        assert_eq!(dist.count_of(PieceType::Rook), 2);
        assert_eq!(dist.count_of(PieceType::Cannon), 2);
        assert_eq!(dist.count_of(PieceType::Pawn), 5);
        assert_eq!(
            dist.possible_types(),
            vec![
                (PieceType::Advisor, 2),
                (PieceType::Elephant, 2),
                (PieceType::Horse, 2),
                (PieceType::Rook, 2),
                (PieceType::Cannon, 2),
                (PieceType::Pawn, 5),
            ]
        );
    }
}

#[test]
fn pool_subtracts_what_is_seen_and_what_is_known_captured() {
    let board = Board::from_fen("4k4/9/9/9/9/9/X1X6/1R5X1/9/X3K4 HP:- r r").unwrap();
    let dist = HiddenPieceDistribution::from_board(&board, Color::Red);
    assert_eq!(dist.hidden_on_board(), 4);
    assert_eq!(dist.count_of(PieceType::King), 0);
    assert_eq!(dist.count_of(PieceType::Rook), 1);
    assert_eq!(dist.count_of(PieceType::Horse), 1);
    assert_eq!(dist.count_of(PieceType::Pawn), 4);
    assert_eq!(dist.count_of(PieceType::Cannon), 2);
    assert_eq!(dist.total_count(), 12);
}

#[test]
fn unknown_captures_scale_the_pool_to_the_hidden_pieces() {
    let board = Board::from_fen("4k4/9/9/9/9/9/X1X6/1R5X1/9/X3K4 HP?:- r r").unwrap();
    let dist = HiddenPieceDistribution::from_board(&board, Color::Red);
    // headroom: advisors 2, elephants 2, horses 1, rooks 1, cannons 2,
    // pawns 4, twelve in all for 4 face-down pieces; rounded down only a
    // pawn is left, then one slot goes to the rooks and two to the cannons
    assert_eq!(dist.hidden_on_board(), 4);
    assert_eq!(dist.total_count(), 4);
    assert_eq!(dist.count_of(PieceType::Rook), 1);
    assert_eq!(dist.count_of(PieceType::Cannon), 2);
    assert_eq!(dist.count_of(PieceType::Horse), 0);
    assert_eq!(dist.count_of(PieceType::Pawn), 1);
    assert_eq!(dist.count_of(PieceType::Advisor), 0);
    assert_eq!(dist.count_of(PieceType::Elephant), 0);
    // (720 + 2 * 360 + 80) / 4
    assert_eq!(dist.expected_value(), 380);
}

#[test]
fn an_empty_pool_is_worth_the_default() {
    let board = Board::from_fen("4k4/9/9/9/9/9/9/9/9/4K4 AAEEHHRRCCPPPPP:- r r").unwrap();
    let dist = HiddenPieceDistribution::from_board(&board, Color::Red);
    assert_eq!(dist.total_count(), 0);
    assert_eq!(dist.expected_value(), 300);
    assert!(dist.possible_types().is_empty());
}

#[test]
fn pool_accounts_for_every_piece_of_the_opening_position() {
    let board = Board::from_fen(START).unwrap();
    let initial = [1u8, 2, 2, 2, 2, 2, 5];
    for color in [Color::Red, Color::Black] {
        let dist = HiddenPieceDistribution::from_board(&board, color);
        for i in 0..7 {
            let t = piece_type_from_index(i);
            assert_eq!(piece_type_to_index(t), i);
            let revealed = board
                .get_all_pieces(Some(color))
                .iter()
                .filter(|p| !p.is_hidden && p.actual_type == Some(t))
                .count() as u8;
            assert_eq!(initial[i], revealed + dist.count_of(t));
        }
        let hidden = board.get_all_pieces(Some(color)).iter().filter(|p| p.is_hidden).count();
        assert_eq!(dist.total_count() as usize, hidden);
    }
}

#[test]
fn tables_and_bonuses() {
    assert_eq!(get_pst_score(PieceType::King, 0, 4, true), 10);
    assert_eq!(get_pst_score(PieceType::King, 9, 4, false), 10);
    assert_eq!(get_pst_score(PieceType::Pawn, 8, 4, true), 50);
    assert_eq!(get_pst_score(PieceType::Pawn, 1, 4, false), 50);
    assert_eq!(get_pst_score(PieceType::Pawn, 9, 4, true), 30);
    assert_eq!(get_pst_score(PieceType::Rook, 7, 3, true), 30);
    assert_eq!(get_pst_score(PieceType::Cannon, 5, 4, false), 25);
    assert_eq!(get_pst_score(PieceType::Horse, 6, 4, true), 30);
    assert_eq!(get_pst_score(PieceType::Advisor, 9, 4, true), 25);
    assert_eq!(get_pst_score(PieceType::Elephant, 2, 4, true), 10);
    assert_eq!(hidden_position_bonus(PieceType::King, 4), 0);
    assert_eq!(hidden_position_bonus(PieceType::Advisor, 3), -10);
    assert_eq!(hidden_position_bonus(PieceType::Elephant, 2), -30);
    assert_eq!(hidden_position_bonus(PieceType::Horse, 1), -30);
    assert_eq!(hidden_position_bonus(PieceType::Rook, 0), 50);
    assert_eq!(hidden_position_bonus(PieceType::Cannon, 1), 20);
    assert_eq!(hidden_position_bonus(PieceType::Pawn, 0), -30);
    assert_eq!(hidden_position_bonus(PieceType::Pawn, 8), -30);
    assert_eq!(hidden_position_bonus(PieceType::Pawn, 4), -50);
}

#[test]
fn static_score_of_rook_against_cannon() {
    let board = Board::from_fen("4k4/9/9/9/4c4/4R4/9/9/9/4K4 -:- r r").unwrap();
    // pieces: (100000 + 10 + 900 + 20) - (100000 + 10 + 450 + 25) = 445 points
    // captures: Red can take the cannon (450), Black nothing but the king
    assert_eq!(evaluate(&board, Color::Red), 10 * 445 + 3 * 450);
    assert_eq!(evaluate(&board, Color::Black), -(10 * 445 + 3 * 450));
    assert_eq!(IT3AI::evaluate_static(&board, Color::Red), 5800);
}

#[test]
fn static_score_counts_face_down_pieces_by_the_pool() {
    let board = Board::from_fen("3k5/9/9/9/9/9/9/9/9/X3K4 -:- r r").unwrap();
    // the face-down piece on a rook square: 256 + 50; the kings' squares: 10 - 5
    assert_eq!(evaluate(&board, Color::Red), 10 * (306 + 5));
}

#[test]
fn static_score_changes_sign_with_the_point_of_view() {
    let fens = [
        START,
        "4k4/9/9/9/4c4/4R4/9/9/9/4K4 -:- r r",
        "4k4/9/3R5/x1x3p1x/9/4x4/X1X3X1X/1C5C1/9/4K4 RP??:rahc b r",
        "3k5/9/9/9/9/9/9/9/9/X3K4 -:- r r",
    ];
    for fen in fens {
        let board = Board::from_fen(fen).unwrap();
        if board.is_playable() {
            assert_eq!(evaluate(&board, Color::Red), -evaluate(&board, Color::Black));
        }
    }
}

#[test]
fn decided_games_score_by_plies() {
    let board = Board::from_fen("9/9/9/9/9/9/9/9/9/4K4 -:- b r").unwrap();
    assert_eq!(board.get_game_result(None), GameResult::RedWin);
    assert_eq!(terminal_eval(&board, Color::Red, 0), MATE_SCORE);
    assert_eq!(terminal_eval(&board, Color::Red, 3), MATE_SCORE - 3 * PLY_PENALTY);
    assert_eq!(terminal_eval(&board, Color::Black, 3), -MATE_SCORE + 3 * PLY_PENALTY);
    assert!(terminal_eval(&board, Color::Red, 1) > terminal_eval(&board, Color::Red, 5));
    assert!(terminal_eval(&board, Color::Black, 1) < terminal_eval(&board, Color::Black, 5));
    let lost = Board::from_fen("4k4/9/9/9/9/9/9/9/9/9 -:- r r").unwrap();
    assert_eq!(lost.get_game_result(None), GameResult::BlackWin);
    assert_eq!(terminal_eval(&lost, Color::Black, 2), MATE_SCORE - 2 * PLY_PENALTY);
    assert_eq!(terminal_eval(&lost, Color::Red, 2), -MATE_SCORE + 2 * PLY_PENALTY);
    let open = Board::from_fen("4k4/9/9/9/4c4/4R4/9/9/9/4K4 -:- r r").unwrap();
    assert_eq!(terminal_eval(&open, Color::Red, 4), evaluate(&open, Color::Red));
}

#[test]
fn rook_takes_cannon_at_depth_two() {
    let board = Board::from_fen("4k4/9/9/9/4c4/4R4/9/9/9/4K4 -:- r r").unwrap();
    let ai = IT3AI::new(&AIConfig { depth: 2, ..Default::default() });
    let best = ai.select_best_move(&board).unwrap();
    assert_eq!(best.to_fen_str(None), "e4e5");
}

#[test]
fn the_faster_mate_is_preferred() {
    let board = Board::from_fen("4k4/9/9/9/9/9/9/9/9/4K4 -:- r r").unwrap();
    for depth in 1..=3 {
        let ai = IT3AI::new(&AIConfig { depth, ..Default::default() });
        let ranked = ai.select_moves(&board, 10);
        assert_eq!(ranked[0].mv.to_fen_str(None), "e0e9");
        assert_eq!(ranked[0].score, MATE_SCORE - PLY_PENALTY);
        assert_eq!(ranked.len(), 3);
        for other in &ranked[1..] {
            assert!(other.score < ranked[0].score);
        }
    }
}

#[test]
fn every_mate_in_one_scores_alike_and_a_mated_side_has_no_ranking() {
    let board = Board::from_fen("3k5/9/9/9/9/9/9/9/9/3RK4 -:- r r").unwrap();
    for depth in 1..=2 {
        let ai = IT3AI::new(&AIConfig { depth, ..Default::default() });
        let ranked = ai.select_moves(&board, 100);
        let take = ranked.iter().find(|e| e.mv.to_fen_str(None) == "d0d9").unwrap();
        assert_eq!(take.score, MATE_SCORE - PLY_PENALTY);
        assert_eq!(ranked[0].score, MATE_SCORE - PLY_PENALTY);
        assert_eq!(ranked[0].mv.to_fen_str(None), "d0d1");
        let aside = ranked.iter().find(|e| e.mv.to_fen_str(None) == "d0c0").unwrap();
        assert!(aside.score < take.score);
    }
    let mated = Board::from_fen("3k5/9/9/9/9/9/9/9/9/3RK4 -:- b r").unwrap();
    let ai = IT3AI::new(&AIConfig { depth: 2, ..Default::default() });
    assert!(ai.select_moves(&mated, 10).is_empty());
    assert_eq!(mated.get_game_result(None), GameResult::RedWin);
    assert_eq!(terminal_eval(&mated, Color::Black, 2), -MATE_SCORE + 2 * PLY_PENALTY);
}

#[test]
fn a_reveal_is_worth_the_expectation_over_the_pool() {
    let fen = "3k5/9/9/9/9/9/9/9/9/X3K4 -:- r r";
    let board = Board::from_fen(fen).unwrap();
    assert!(board.is_searchable());
    let ai = IT3AI::new(&AIConfig { depth: 1, ..Default::default() });
    let ranked = ai.select_moves(&board, 100);
    let types = HiddenPieceDistribution::from_board(&board, Color::Red).possible_types();
    let weight: i64 = types.iter().map(|(_, c)| *c as i64).sum();
    assert_eq!(weight, 15);
    let mut reveals = 0;
    for entry in &ranked {
        if entry.mv.action_type != ActionType::RevealAndMove {
            continue;
        }
        reveals += 1;
        let mut sum: i64 = 0;
        for (t, count) in &types {
            let mut child = Board::from_fen(fen).unwrap();
            let state = child.simulate_reveal(entry.mv.from_pos, *t);
            assert_eq!(state, Some((None, true)));
            let plain = JieqiMove::regular_move(entry.mv.from_pos, entry.mv.to_pos);
            child.make_move(&plain);
            sum += (*count as i64) * terminal_eval(&child, Color::Red, 1);
        }
        assert_eq!(entry.score, sum.div_euclid(weight));
    }
    assert_eq!(reveals, 12);
}

#[test]
fn search_leaves_the_board_as_it_was() {
    let board = Board::from_fen(START).unwrap();
    let before = board.to_fen();
    let ai = IT3AI::new(&AIConfig { depth: 1, ..Default::default() });
    let ranked = ai.select_moves(&board, 3);
    assert_eq!(ranked.len(), 3);
    assert_eq!(board.to_fen(), before);
    assert_eq!(board.find_king(Color::Red), Some(Position::new(0, 4)));
    assert_eq!(board.find_king(Color::Black), Some(Position::new(9, 4)));
}

#[test]
fn rankings_are_complete_sorted_and_stable() {
    let board = Board::from_fen("4k4/9/9/9/4c4/4R4/9/9/9/4K4 -:- r r").unwrap();
    let legal = board.get_legal_moves(Color::Red);
    for depth in 0..=2 {
        let ai = IT3AI::new(&AIConfig { depth, ..Default::default() });
        let mut stats = SearchStats::new();
        let ranked = ai.select_moves_counted(&board, 1000, &mut stats);
        assert_eq!(ranked.len(), legal.len());
        for pair in ranked.windows(2) {
            assert!(pair[0].score >= pair[1].score);
            if pair[0].score == pair[1].score {
                let a = legal.iter().position(|m| *m == pair[0].mv).unwrap();
                let b = legal.iter().position(|m| *m == pair[1].mv).unwrap();
                assert!(a < b);
            }
        }
        for m in &legal {
            assert_eq!(ranked.iter().filter(|e| e.mv == *m).count(), 1);
        }
        assert_eq!(get_depth_reached(&stats), depth);
        assert!(get_node_count(&stats) >= legal.len() as u64);
    }
}

#[test]
fn a_spent_time_limit_still_ranks_every_move() {
    let board = Board::from_fen("4k4/9/9/9/4c4/4R4/9/9/9/4K4 -:- r r").unwrap();
    let legal = board.get_legal_moves(Color::Red);
    let ai = IT3AI::new(&AIConfig { time_limit_ms: Some(0), ..Default::default() });
    let mut stats = SearchStats::new();
    let ranked = ai.select_moves_counted(&board, 1000, &mut stats);
    assert_eq!(ranked.len(), legal.len());
    assert_eq!(get_depth_reached(&stats), 0);
    for pair in ranked.windows(2) {
        assert!(pair[0].score >= pair[1].score);
    }
}

#[test]
fn no_legal_move_gives_an_empty_ranking() {
    let board = Board::from_fen("9/9/9/9/9/9/9/9/9/4K4 -:- b r").unwrap();
    let ai = IT3AI::new(&AIConfig::default());
    assert!(ai.select_moves(&board, 5).is_empty());
    assert_eq!(ai.select_best_move(&board), None);
}

#[test]
fn noise_stays_below_its_bound() {
    let board = Board::from_fen("4k4/9/9/9/4c4/4R4/9/9/9/4K4 -:- r r").unwrap();
    let quiet = IT3AI::new(&AIConfig { depth: 1, ..Default::default() });
    let loud = IT3AI::new(&AIConfig { depth: 1, noise: 50, seed: Some(7), ..Default::default() });
    let exact = quiet.select_moves(&board, 1000);
    let noisy = loud.select_moves(&board, 1000);
    assert_eq!(exact.len(), noisy.len());
    for entry in &noisy {
        let base = exact.iter().find(|e| e.mv == entry.mv).unwrap();
        assert!(entry.score >= base.score && entry.score < base.score + 50);
    }
    let again = loud.select_moves(&board, 1000);
    for (a, b) in noisy.iter().zip(again.iter()) {
        assert_eq!(a.mv, b.mv);
        assert_eq!(a.score, b.score);
    }
}

#[test]
fn random_engine_picks_legal_moves() {
    let board = Board::from_fen(START).unwrap();
    let legal = board.get_legal_moves(Color::Red);
    let ai = RandomAI::new(Some(42));
    let moves = ai.select_moves(&board, 5);
    assert_eq!(moves.len(), 5);
    for entry in &moves {
        assert!(legal.contains(&entry.mv));
    }
    for pair in moves.windows(2) {
        assert!(pair[0].score >= pair[1].score);
    }
    let all = ai.select_moves(&board, 1000);
    assert_eq!(all.len(), 44);
    let scores: Vec<i64> = all.iter().map(|e| e.score).collect();
    assert!(scores.iter().any(|s| *s != scores[0]));
    assert!(RandomAI::new(None).select_moves(&board, 2).len() == 2);
}

#[test]
fn ranking_is_a_stable_descending_sort() {
    let a = JieqiMove::regular_move(Position::new(0, 0), Position::new(1, 0));
    let b = JieqiMove::regular_move(Position::new(0, 1), Position::new(1, 1));
    let c = JieqiMove::regular_move(Position::new(0, 2), Position::new(1, 2));
    let d = JieqiMove::regular_move(Position::new(0, 3), Position::new(1, 3));
    let items = vec![
        ScoredMove { mv: a, score: 5 },
        ScoredMove { mv: b, score: 9 },
        ScoredMove { mv: c, score: 5 },
        ScoredMove { mv: d, score: -2 },
    ];
    let ranked = rank_moves(&items);
    let order: Vec<JieqiMove> = ranked.iter().map(|e| e.mv).collect();
    assert_eq!(order, vec![b, a, c, d]);
    let mut cut = items.clone();
    sort_and_truncate(&mut cut, 2);
    assert_eq!(cut.len(), 2);
    assert_eq!(cut[0].mv, b);
    assert_eq!(cut[1].mv, a);
    let mut whole = items.clone();
    sort_and_truncate(&mut whole, 10);
    assert_eq!(whole.len(), 4);
}

#[test]
fn counters_count() {
    let mut stats = SearchStats::new();
    assert_eq!(get_node_count(&stats), 0);
    assert_eq!(get_depth_reached(&stats), 0);
    assert!(get_depth_nodes_stats(&stats).is_empty());
    add_depth_node(&mut stats, 3);
    add_depth_node(&mut stats, 3);
    add_depth_node(&mut stats, 0);
    add_depth_node(&mut stats, 50);
    assert_eq!(get_depth_nodes_stats(&stats), vec![(0, 1), (3, 2)]);
    stats.nodes = 17;
    stats.depth_reached = 4;
    reset_node_count(&mut stats);
    assert_eq!(get_node_count(&stats), 0);
    assert_eq!(get_depth_reached(&stats), 4);
    reset_depth_reached(&mut stats);
    assert_eq!(get_depth_reached(&stats), 0);
    reset_depth_nodes(&mut stats);
    assert!(get_depth_nodes_stats(&stats).is_empty());
    assert_eq!(stats.depth_nodes.len(), 50);
}

#[test]
fn contexts_step_down() {
    let root = SearchContext::new(3, Color::Black);
    assert_eq!(root.depth, 3);
    assert_eq!(root.ply, 0);
    assert_eq!(root.alpha, i64::MIN);
    assert_eq!(root.beta, i64::MAX);
    let next = root.next_ply();
    assert_eq!(next.depth, 2);
    assert_eq!(next.ply, 1);
    assert_eq!(next.alpha, root.alpha);
    assert_eq!(next.beta, root.beta);
    assert_eq!(next.pov_color, Color::Black);
}

#[test]
fn strategies_are_named() {
    assert_eq!(strategies_help(), "random, it3");
}

use xiangqi_ai::engine::{AIEngine, EngineError};
use xiangqi_ai::fen::FenError;
use xiangqi_ai::report::{describe_move, evaluate_detail, search_report, static_ranking};
use xiangqi_ai::types::color_to_str;

#[test]
fn mod_test_random_ai() {
    let fen = "xxxxkxxxx/9/1x5x1/x1x1x1x1x/9/9/X1X1X1X1X/1X5X1/9/XXXXKXXXX -:- r r";
    let ai = AIEngine::random(Some(42));
    let moves = ai.select_moves_fen(fen, 5).unwrap();
    assert_eq!(moves.len(), 5);
}

#[test]
fn the_engine_front_takes_the_cannon() {
    let fen = "4k4/9/9/9/4c4/4R4/9/9/9/4K4 -:- r r";
    let config = AIConfig { depth: 2, ..Default::default() };
    let ai = AIEngine::it3(&config);
    let best = ai.select_best_move_fen(fen).unwrap().unwrap();
    assert_eq!(best, "e4e5");
    let listed = ai.select_moves_fen(fen, 3).unwrap();
    assert_eq!(listed.len(), 3);
    assert_eq!(listed[0].0, "e4e5");
    let mut stats = SearchStats::new();
    let counted = ai.select_moves_fen_counted(fen, 3, &mut stats).unwrap();
    assert_eq!(counted, listed);
    assert_eq!(get_depth_reached(&stats), 2);
    assert!(get_node_count(&stats) > 0);
}

#[test]
fn strategies_are_chosen_by_name() {
    let config = AIConfig::default();
    for name in ["random", "it3", "Random", "IT3", "iT3"] {
        assert!(AIEngine::from_strategy(name, &config).is_ok(), "Failed to create strategy: {}", name);
    }
    for name in ["", "it", "it33", "minimax", " random"] {
        assert_eq!(AIEngine::from_strategy(name, &config).err(), Some(EngineError::UnknownStrategy));
    }
}

#[test]
fn each_engine_error_has_an_input() {
    let ai = AIEngine::it3(&AIConfig { depth: 1, ..Default::default() });
    let random = AIEngine::random(Some(1));
    assert_eq!(
        ai.select_moves_fen("nonsense", 1).err(),
        Some(EngineError::InvalidFen(FenError::FieldCount))
    );
    assert_eq!(
        ai.select_best_move_fen("4k4/9/9/9/4X4/9/9/9/9/4K4 -:- r r").err(),
        Some(EngineError::NotPlayable)
    );
    assert_eq!(
        random.select_moves_fen("4k4/9/9/9/4X4/9/9/9/9/4K4 -:- r r", 1).err(),
        Some(EngineError::NotPlayable)
    );
    assert_eq!(
        ai.select_moves_fen("4k4/9/9/9/9/9/9/9/9/4X4 -:- r r", 1).err(),
        Some(EngineError::NotSearchable)
    );
    assert_eq!(random.select_moves_fen("4k4/9/9/9/9/9/9/9/9/4X4 -:- r r", 9).unwrap().len(), 3);
    assert_eq!(ai.select_best_move_fen("9/9/9/9/9/9/9/9/9/4K4 -:- b r"), Ok(None));
}

#[test]
fn ai_test_random_ai() {
    let fen = "xxxxxxxxx/9/1x5x1/x1x1x1x1x/9/9/X1X1X1X1X/1X5X1/9/XXXXXXXXX -:- r r";
    let ai = AIEngine::random(Some(42));
    let moves = ai.select_moves_fen(fen, 5).unwrap();

    assert_eq!(moves.len(), 5);
}

#[test]
fn every_answer_ranks_each_legal_move_once() {
    let board = Board::from_fen(START).unwrap();
    let legal = board.get_legal_moves(Color::Red);
    let engines = [
        AIEngine::random(Some(3)),
        AIEngine::it3(&AIConfig { depth: 1, ..Default::default() }),
        AIEngine::it3(&AIConfig { depth: 1, noise: 500, seed: Some(9), ..Default::default() }),
        AIEngine::it3(&AIConfig { time_limit_ms: Some(0), ..Default::default() }),
    ];
    for engine in &engines {
        let all = engine.select_moves(&board, 1000);
        assert_eq!(all.len(), legal.len());
        for m in &legal {
            assert_eq!(all.iter().filter(|e| e.mv == *m).count(), 1);
        }
        for pair in all.windows(2) {
            assert!(pair[0].score >= pair[1].score);
        }
    }
}

#[test]
fn the_chance_node_can_be_asked_by_itself() {
    let fen = "3k5/9/9/9/9/9/9/9/9/X3K4 -:- r r";
    let mut board = Board::from_fen(fen).unwrap();
    let ai = IT3AI::new(&AIConfig { depth: 1, ..Default::default() });
    let mv = JieqiMove::reveal_move(Position::new(0, 0), Position::new(4, 0));
    let ctx = SearchContext::new(1, Color::Red);
    let start = std::time::Instant::now();
    let mut stats = SearchStats::new();
    let value = ai.chance_node(&mut board, &mv, ctx, Color::Red, &start, &mut stats);
    assert_eq!(board.to_fen(), fen);
    let piece = board.get_piece(Position::new(0, 0)).unwrap();
    assert!(piece.is_hidden);
    assert_eq!(piece.actual_type, None);
    let types = HiddenPieceDistribution::from_board(&board, Color::Red).possible_types();
    let mut sum: i64 = 0;
    let mut weight: i64 = 0;
    for (t, count) in &types {
        let mut child = Board::from_fen(fen).unwrap();
        child.simulate_reveal(mv.from_pos, *t);
        child.make_move(&JieqiMove::regular_move(mv.from_pos, mv.to_pos));
        sum += (*count as i64) * ai.expectimax(&mut child, ctx.next_ply(), &start, &mut stats);
        weight += *count as i64;
    }
    assert_eq!(value, sum.div_euclid(weight));
    assert_eq!(get_node_count(&stats), 2 * types.len() as u64);
}

#[test]
fn the_static_score_taken_apart_adds_up() {
    let board = Board::from_fen("3k5/9/9/9/4c4/4R4/9/9/9/X3K4 -:- r r").unwrap();
    for color in [Color::Red, Color::Black] {
        let d = evaluate_detail(&board, color);
        assert_eq!(d.pov, color);
        assert_eq!(d.total, evaluate(&board, color));
        assert_eq!(d.pieces.len(), 5);
        assert_eq!(d.material_red, 10 * (100000 + 900));
        assert_eq!(d.material_black, 10 * (100000 + 450));
        assert_eq!(d.pst_red, 10 * (10 + 20));
        assert_eq!(d.pst_black, 10 * (5 + 25));
        // the pool without the rook that stands face-up: 3120 / 14 = 222
        assert_eq!(d.hidden_ev_red, 10 * (222 + 50));
        assert_eq!(d.hidden_ev_black, 0);
        assert_eq!(d.capture_red, 3 * 450);
        let raw = (d.material_red - d.material_black)
            + (d.pst_red - d.pst_black)
            + (d.hidden_ev_red - d.hidden_ev_black)
            + (d.capture_red - d.capture_black);
        assert_eq!(d.total, if color == Color::Red { raw } else { -raw });
        let corner = &d.pieces[0];
        assert_eq!(corner.position, Position::new(0, 0));
        assert!(corner.is_hidden);
        assert_eq!(corner.piece_type, None);
        assert_eq!((corner.material, corner.pst, corner.value), (2220, 500, 2720));
        let rook = &d.pieces[2];
        assert_eq!(rook.piece_type, Some(PieceType::Rook));
        assert_eq!((rook.material, rook.pst, rook.value), (9000, 200, 9200));
    }
}

#[test]
fn pools_are_broken_down_by_kind() {
    let board = Board::from_fen("4k4/9/9/9/9/9/X1X6/1R5X1/9/X3K4 HP?:- r r").unwrap();
    let dist = HiddenPieceDistribution::from_board(&board, Color::Red);
    assert_eq!(
        dist.breakdown(),
        vec![
            ("Rook".to_string(), 1, 720, 720),
            ("Cannon".to_string(), 2, 360, 720),
            ("Pawn".to_string(), 1, 80, 80),
        ]
    );
    assert_eq!(PieceType::King.name(), "King");
    assert_eq!(PieceType::Elephant.name(), "Elephant");
    assert_eq!(color_to_str(Color::Red), "red");
    assert_eq!(color_to_str(Color::Black), "black");
}

#[test]
fn a_reveal_is_laid_open_with_its_outcomes() {
    let fen = "3k5/9/9/9/9/9/9/9/9/X3K4 -:- r r";
    let board = Board::from_fen(fen).unwrap();
    let mv = JieqiMove::reveal_move(Position::new(0, 0), Position::new(1, 0));
    let report = describe_move(&board, &mv, 77);
    assert_eq!(report.mv, mv);
    assert!(report.is_chance);
    assert_eq!(report.score, 77);
    let outcomes = report.chance_breakdown.as_ref().unwrap();
    assert_eq!(outcomes.len(), 6);
    assert_eq!(outcomes[0].piece, PieceType::Advisor);
    assert_eq!(outcomes[0].count, 2);
    assert_eq!(outcomes[0].fen, "3k5/9/9/9/9/9/9/9/A8/4K4 -:- b r");
    assert_eq!(outcomes[5].piece, PieceType::Pawn);
    assert_eq!(outcomes[5].count, 5);
    assert_eq!(outcomes[5].fen, "3k5/9/9/9/9/9/9/9/P8/4K4 -:- b r");
    assert_eq!(report.fen_after, outcomes[0].fen);
    assert_eq!(report.real_eval, outcomes[0].eval);
    let sum: i64 = outcomes.iter().map(|o| o.count as i64 * o.eval).sum();
    assert_eq!(report.eval, sum.div_euclid(15));
    for o in outcomes {
        let child = Board::from_fen(&o.fen).unwrap();
        assert_eq!(o.eval, evaluate(&child, Color::Red));
    }
    let step = JieqiMove::regular_move(Position::new(0, 4), Position::new(1, 4));
    let plainly = describe_move(&board, &step, -3);
    assert!(!plainly.is_chance);
    assert!(plainly.chance_breakdown.is_none());
    assert_eq!(plainly.fen_after, "3k5/9/9/9/9/9/9/9/4K4/X8 -:- b r");
    assert_eq!(plainly.eval, plainly.real_eval);
}

#[test]
fn the_first_two_plies_are_laid_open() {
    let board = Board::from_fen("4k4/9/9/9/4c4/4R4/9/9/9/4K4 -:- r r").unwrap();
    let legal = board.get_legal_moves(Color::Red);
    let shallow = search_report(&board, 1);
    assert_eq!(shallow.eval, evaluate(&board, Color::Red));
    assert_eq!(shallow.first_moves.len(), legal.len());
    assert!(shallow.first_moves.iter().all(|m| m.opposite_top10.is_none()));
    let report = search_report(&board, 2);
    assert_eq!(report.first_moves.len(), legal.len());
    assert!(report.nodes > 0);
    let ai = IT3AI::new(&AIConfig { depth: 2, ..Default::default() });
    let ranked = ai.select_moves(&board, 1000);
    for (info, entry) in report.first_moves.iter().zip(ranked.iter()) {
        assert_eq!(info.basic.mv, entry.mv);
        assert_eq!(info.basic.score, entry.score);
        assert!(!info.basic.is_chance);
        let after = Board::from_fen(&info.basic.fen_after).unwrap();
        assert_eq!(info.basic.real_eval, evaluate(&after, Color::Red));
        let replies = static_ranking(&after);
        let top = info.opposite_top10.as_ref().unwrap();
        let bottom = info.opposite_bottom10.as_ref().unwrap();
        assert_eq!(top.len(), replies.len().min(10));
        assert_eq!(bottom.len(), top.len());
        for (k, reply) in top.iter().enumerate() {
            assert_eq!(reply.mv, replies[k].mv);
            assert_eq!(reply.score, replies[k].score);
            assert_eq!(reply.eval, replies[k].score);
        }
        for (k, reply) in bottom.iter().enumerate() {
            assert_eq!(reply.mv, replies[replies.len() - 1 - k].mv);
        }
    }
    assert_eq!(report.first_moves[0].basic.mv.to_fen_str(None), "e4e5");
}

#[test]
fn positions_that_agree_hash_alike() {
    let a = Board::from_fen("4k4/9/9/9/4c4/4R4/9/9/9/4K4 -:- r r").unwrap();
    let b = Board::from_fen("4k4/9/9/9/4c4/4R4/9/9/9/4K4 RP:? r b").unwrap();
    let c = Board::from_fen("4k4/9/9/9/4c4/4R4/9/9/9/4K4 -:- b r").unwrap();
    let d = Board::from_fen("4k4/9/9/9/4c4/3R5/9/9/9/4K4 -:- r r").unwrap();
    let e = Board::from_fen("4k4/9/9/9/4c4/4X4/9/9/9/4K4 -:- r r").unwrap();
    assert_eq!(a.get_position_hash(), b.get_position_hash());
    assert_ne!(a.get_position_hash(), c.get_position_hash());
    assert_ne!(a.get_position_hash(), d.get_position_hash());
    assert_ne!(a.get_position_hash(), e.get_position_hash());
    let mut moved = Board::from_fen("4k4/9/9/9/4c4/4R4/9/9/9/4K4 -:- r r").unwrap();
    let mv = JieqiMove::regular_move(Position::new(4, 4), Position::new(4, 3));
    let taken = moved.make_move(&mv);
    assert_eq!(moved.get_position_hash(), {
        let after = Board::from_fen("4k4/9/9/9/4c4/3R5/9/9/9/4K4 -:- b r").unwrap();
        after.get_position_hash()
    });
    moved.undo_move(&mv, taken, false);
    assert_eq!(moved.get_position_hash(), a.get_position_hash());
}

#[test]
fn a_time_limit_passes_when_the_time_gone_by_reaches_it() {
    assert!(IT3AI::limit_reached(0, 0));
    assert!(!IT3AI::limit_reached(5, 4));
    assert!(IT3AI::limit_reached(5, 5));
    assert!(IT3AI::limit_reached(5, 6));
    assert!(!IT3AI::limit_reached(u64::MAX, 0));
    assert!(IT3AI::limit_reached(u64::MAX, u128::MAX));
}

#[test]
fn a_spent_time_limit_publishes_the_scores_of_depth_zero() {
    let fen = "4k4/9/9/9/4c4/4R4/9/9/9/4K4 -:- r r";
    let board = Board::from_fen(fen).unwrap();
    let ai = IT3AI::new(&AIConfig { time_limit_ms: Some(0), ..Default::default() });
    let mut stats = SearchStats::new();
    let ranked = ai.select_moves_counted(&board, 1000, &mut stats);
    assert_eq!(ranked.len(), board.get_legal_moves(Color::Red).len());
    for entry in &ranked {
        let mut child = Board::from_fen(fen).unwrap();
        child.make_move(&entry.mv);
        let cut = xiangqi_ai::eval::evaluate(&child, Color::Red);
        let leaf = xiangqi_ai::eval::terminal_eval(&child, Color::Red, 1);
        assert!(entry.score == cut || entry.score == leaf);
    }
}
