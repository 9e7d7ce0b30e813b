use std::str::FromStr;

use funns_bot::bot::eval::{evaluate, MAX_EVAL, MIN_EVAL};
use funns_bot::bot::{Game, TimeControl};
use funns_bot::rule_engine::Mv;

fn board_of(fen: &str) -> chess::Board {
    chess::Board::from_str(fen).unwrap()
}

fn game_with_clock(fen: &str, time_left: usize) -> Game {
    let mut g = Game::new(board_of(fen), Vec::<Mv>::new());
    g.time_ctrl = TimeControl { time_left, time_incr: 0 };
    g
}

fn as_chess_move(m: Mv) -> chess::ChessMove {
    let promo = match m.promo {
        1 => Some(chess::Piece::Knight),
        2 => Some(chess::Piece::Bishop),
        3 => Some(chess::Piece::Rook),
        4 => Some(chess::Piece::Queen),
        _ => None,
    };
    chess::ChessMove::new(
        chess::ALL_SQUARES[m.from as usize],
        chess::ALL_SQUARES[m.to as usize],
        promo,
    )
}

fn is_legal(board: &chess::Board, m: Mv) -> bool {
    let cm = as_chess_move(m);
    chess::MoveGen::new_legal(board).any(|x| x == cm)
}

#[test]
fn quiet_position_quiesces_to_its_evaluation() {
    let board = board_of("4k3/8/8/8/8/8/8/4K3 w - - 0 1");
    assert_eq!(Game::quiescene_search(&board, MIN_EVAL, MAX_EVAL, 32), evaluate(&board));
    let board2 = board_of("k7/8/8/8/8/8/8/1QK5 w - - 0 1");
    assert_eq!(Game::quiescene_search(&board2, MIN_EVAL, MAX_EVAL, 32), evaluate(&board2));
}

#[test]
fn startpos_returns_a_reasonable_legal_move() {
    let start = "rnbqkbnr/pppppppp/8/8/8/8/PPPPPPPP/RNBQKBNR w KQkq - 0 1";
    let mut g = game_with_clock(start, 1000);
    g.time_ref = funns_bot::clock::instant_now();
    g.time_watermark = 0;
    g.reserve_time();
    let (m, score) = g.search();
    assert!(is_legal(&board_of(start), m));
    assert!((-100..=100).contains(&score), "startpos score {score} out of band");
    assert!(g.searched > 1000, "searched only {} nodes", g.searched);
}

#[test]
fn fools_mate_position_is_already_over() {
    // The completed fool's mate: White is checkmated, so there is nothing
    // to play and the sentinel comes back with the game untouched.
    let fen = "rnb1kbnr/pppp1ppp/8/4p3/6Pq/5P2/PPPPP2P/RNBQKBNR w KQkq - 1 3";
    let board = board_of(fen);
    assert_eq!(board.status(), chess::BoardStatus::Checkmate);
    let mut g = game_with_clock(fen, 1000);
    let m = g.play();
    assert_eq!(m, Mv { from: 0, to: 0, promo: 0 });
    assert_eq!(g.board, board);
}

#[test]
fn a_forced_position_plays_its_only_move() {
    // White is in check and blocking with the rook is the one legal move:
    // the single-move shortcut answers without deepening.
    let fen = "6k1/8/8/5R2/8/4p3/6PP/4r1K1 w - - 0 1";
    let board = board_of(fen);
    let only: Vec<chess::ChessMove> = chess::MoveGen::new_legal(&board).collect();
    assert_eq!(only.len(), 1);
    let mut g = game_with_clock(fen, 1000);
    let m = g.play();
    assert_eq!(as_chess_move(m), only[0]);
}

#[test]
fn back_rank_mate_is_found_with_mate_score() {
    let fen = "6k1/5ppp/8/8/8/8/8/R6K w - - 0 1";
    let mut g = game_with_clock(fen, 5000);
    g.time_ref = funns_bot::clock::instant_now();
    g.time_watermark = 0;
    g.reserve_time();
    let (m, score) = g.search();
    // Ra8 mate: a1 to a8.
    assert_eq!(m, Mv { from: 0, to: 56, promo: 0 });
    assert_eq!(score, MAX_EVAL);
}

#[test]
fn mating_move_checkmates_the_board() {
    let fen = "k7/8/2K5/8/8/8/8/1Q6 w - - 0 1";
    let mut g = game_with_clock(fen, 1000);
    let m = g.play();
    let after = board_of(fen).make_move_new(as_chess_move(m));
    assert_eq!(after.status(), chess::BoardStatus::Checkmate);
    // play advanced its own board by exactly that move.
    assert_eq!(g.board, after);
    assert_eq!(g.moves, vec![m]);
}

#[test]
fn rule_engine_boundary_answers_as_the_crate_does() {
    let start = chess::Board::default();
    assert_eq!(funns_bot::rule_engine::board_hash(&start), start.get_hash());
    assert!(!funns_bot::rule_engine::board_in_check(&start));
    assert!(funns_bot::rule_engine::board_white_to_move(&start));
    let check = board_of("rnb1kbnr/pppp1ppp/8/4p3/6Pq/5P2/PPPPP2P/RNBQKBNR w KQkq - 1 3");
    assert!(funns_bot::rule_engine::board_in_check(&check));
    let black = board_of("rnbqkbnr/pppppppp/8/8/4P3/8/PPPP1PPP/RNBQKBNR b KQkq - 0 1");
    assert!(!funns_bot::rule_engine::board_white_to_move(&black));
    let moves = funns_bot::rule_engine::legal_moves(&start);
    assert_eq!(moves.len(), 20);
    let caps = funns_bot::rule_engine::capture_moves(&start);
    assert!(caps.is_empty());
}

#[test]
fn winning_side_does_not_stalemate() {
    let fen = "7k/5Q2/6K1/8/8/8/8/8 w - - 0 1";
    let board = board_of(fen);
    let mut g = game_with_clock(fen, 1000);
    let m = g.play();
    assert!(is_legal(&board, m));
    let after = board.make_move_new(as_chess_move(m));
    assert_ne!(after.status(), chess::BoardStatus::Stalemate);
}

#[test]
fn repetition_guard_steers_away_from_the_cycle() {
    // White has mate on the board with b1b7, but that exact move would
    // complete a threefold cycle recorded in the game's history, so it
    // scores zero at the root and another move is chosen.
    let fen = "k7/8/2K5/8/8/8/8/1Q6 w - - 0 1";
    let a = Mv { from: 8, to: 16, promo: 0 };
    let b = Mv { from: 48, to: 40, promo: 0 };
    let c = Mv { from: 16, to: 8, promo: 0 };
    let m = Mv { from: 1, to: 49, promo: 0 };
    let history = vec![a, b, c, m, a, b, c, m, a, b, c];
    let mut g = Game::new(board_of(fen), history);
    g.time_ctrl = TimeControl { time_left: 1000, time_incr: 0 };
    let chosen = g.play();
    assert!(is_legal(&board_of(fen), chosen));
    assert_ne!(chosen, m, "the engine completed the threefold cycle");
}

#[test]
fn short_clock_is_respected() {
    let start = "rnbqkbnr/pppppppp/8/8/8/8/PPPPPPPP/RNBQKBNR w KQkq - 0 1";
    let mut g = game_with_clock(start, 100);
    let before = std::time::Instant::now();
    let m = g.play();
    let took = before.elapsed().as_millis();
    assert!(is_legal(&board_of(start), m));
    assert!(took < 1500, "play took {took} ms on a 25 ms budget");
}

#[test]
fn deeper_search_keeps_the_mating_move() {
    let fen = "6k1/5ppp/8/8/8/8/8/R6K w - - 0 1";
    let mut quick = game_with_clock(fen, 500);
    let m1 = quick.play();
    let mut slow = game_with_clock(fen, 4000);
    let m2 = slow.play();
    let b = board_of(fen);
    assert_eq!(b.make_move_new(as_chess_move(m1)).status(), chess::BoardStatus::Checkmate);
    assert_eq!(b.make_move_new(as_chess_move(m2)).status(), chess::BoardStatus::Checkmate);
}

#[test]
fn identical_games_pick_identical_moves() {
    let fen = "6k1/5ppp/8/8/8/8/8/R6K w - - 0 1";
    let mut g1 = game_with_clock(fen, 1000);
    g1.time_ref = funns_bot::clock::instant_now();
    g1.time_watermark = 0;
    g1.reserve_time();
    let r1 = g1.search();
    let mut g2 = game_with_clock(fen, 1000);
    g2.time_ref = funns_bot::clock::instant_now();
    g2.time_watermark = 0;
    g2.reserve_time();
    let r2 = g2.search();
    assert_eq!(r1, r2);
}

#[test]
fn a_finished_game_yields_the_sentinel_move() {
    // Black is checkmated and to move: no legal moves at all.
    let fen = "R5k1/5ppp/8/8/8/8/8/7K b - - 0 1";
    let board = board_of(fen);
    assert_eq!(board.status(), chess::BoardStatus::Checkmate);
    let mut g = game_with_clock(fen, 1000);
    let m = g.play();
    assert_eq!(m, Mv { from: 0, to: 0, promo: 0 });
    assert_eq!(g.board, board);
    assert!(g.moves.is_empty());
}
