use std::str::FromStr;

use funns_bot::bot::eval::{end_game_weight, evaluate, piece_square_table, piece_value};

#[test]
fn startpos_evaluates_to_zero() {
    let board = chess::Board::default();
    assert_eq!(evaluate(&board), 0);
}

#[test]
fn evaluation_negates_under_vertical_mirror() {
    // The same material imbalance seen from the two sides: colors swapped,
    // board flipped vertically, same side to move.
    let a = chess::Board::from_str("k7/8/8/8/8/8/8/KQ6 w - - 0 1").unwrap();
    let b = chess::Board::from_str("kq6/8/8/8/8/8/8/K7 w - - 0 1").unwrap();
    assert_eq!(evaluate(&a), -evaluate(&b));

    let c = chess::Board::from_str("rnbqkbnr/pppppppp/8/8/8/2N5/PPPPPPPP/R1BQKBNR b KQkq - 0 1")
        .unwrap();
    let d = chess::Board::from_str("r1bqkbnr/pppppppp/2n5/8/8/8/PPPPPPPP/RNBQKBNR b KQkq - 0 1")
        .unwrap();
    assert_eq!(evaluate(&c), -evaluate(&d));
}

#[test]
fn material_adds_piece_values() {
    // A queen on a1 and a king on b1: 950 + 20000 centipawn.
    let pieces: Vec<(u8, u8)> = vec![(4, 0), (5, 1)];
    assert_eq!(piece_value(&pieces), 20950);
}

#[test]
fn material_of_nothing_is_zero() {
    let pieces: Vec<(u8, u8)> = Vec::new();
    assert_eq!(piece_value(&pieces), 0);
}

#[test]
fn end_game_weight_counts_missing_material() {
    // No non-pawn material at all: the full weight.
    let bare: Vec<(u8, u8)> = vec![(5, 4), (0, 12)];
    assert_eq!(end_game_weight(&bare), 1650);
    // One queen: 1650 - 950.
    let queen: Vec<(u8, u8)> = vec![(4, 0)];
    assert_eq!(end_game_weight(&queen), 700);
    // Two rooks and two bishops exceed the ceiling: no weight left.
    let heavy: Vec<(u8, u8)> = vec![(3, 0), (3, 7), (2, 2), (2, 5)];
    assert_eq!(end_game_weight(&heavy), 0);
}

#[test]
fn square_bonus_reads_the_tables() {
    // A king on a1 in the pure middlegame reads its middlegame bonus, 20.
    let king: Vec<(u8, u8)> = vec![(5, 0)];
    assert_eq!(piece_square_table(&king, true, 0), 20);
    // The same king in the pure endgame reads its endgame bonus, -50.
    assert_eq!(piece_square_table(&king, true, 1650), -50);
    // For Black the square is flipped: a black king on a8 stands where a
    // white king on h1 would, worth 20 in the middlegame.
    let black_king: Vec<(u8, u8)> = vec![(5, 56)];
    assert_eq!(piece_square_table(&black_king, false, 0), 20);
    // Halfway through the taper the two bonuses blend: a knight on d5
    // is worth 20 in both tables.
    let knight: Vec<(u8, u8)> = vec![(1, 35)];
    assert_eq!(piece_square_table(&knight, true, 825), 20);
}

#[test]
fn lone_queen_endgame_has_its_exact_score() {
    // White Ka1 and Qb1 against a bare king on a8. White reads the pure
    // endgame tables (Black has no material): -50 for the king, -10 for
    // the queen, on top of 20950 material. Black reads tables tapered by
    // White's queen (weight 700/1650): its king on a8 stands on h1 of the
    // white-oriented tables, (20 * 950 - 50 * 700) / 1650 rounded toward
    // zero is -9. So 20890 - 19991 = 899 centipawn for the mover.
    let w = chess::Board::from_str("k7/8/8/8/8/8/8/KQ6 w - - 0 1").unwrap();
    assert_eq!(evaluate(&w), 899);
    // The same position seen by the side that is losing scores the exact
    // opposite.
    let b = chess::Board::from_str("k7/8/8/8/8/8/8/KQ6 b - - 0 1").unwrap();
    assert_eq!(evaluate(&b), -899);
}

#[test]
fn bishop_pair_is_worth_half_a_pawn() {
    // Kings alone versus kings with the pair of bishops, middlegame
    // weights equal on both sides.
    let plain = chess::Board::from_str("4k3/8/8/8/8/8/8/4K3 w - - 0 1").unwrap();
    assert_eq!(evaluate(&plain), 0);
    let pair = chess::Board::from_str("2b1kb2/8/8/8/8/8/8/2B1KB2 w - - 0 1").unwrap();
    // Symmetric position: the pair bonus cancels.
    assert_eq!(evaluate(&pair), 0);
}
