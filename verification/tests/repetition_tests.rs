use funns_bot::bot::search::three_fold;
use funns_bot::rule_engine::Mv;

fn mv(from: u8, to: u8) -> Mv {
    Mv { from, to, promo: 0 }
}

#[test]
fn detects_a_completed_three_move_cycle() {
    let a = mv(1, 2);
    let b = mv(57, 58);
    let c = mv(2, 1);
    let m = mv(58, 57);
    // Two full cycles are on record; m would close the third.
    let history = vec![a, b, c, m, a, b, c, m, a, b, c];
    assert!(three_fold(&history, m));
}

#[test]
fn needs_eleven_moves_of_history() {
    let a = mv(1, 2);
    let b = mv(57, 58);
    let c = mv(2, 1);
    let m = mv(58, 57);
    let history = vec![b, c, m, a, b, c, m, a, b, c];
    assert!(!three_fold(&history, m));
}

#[test]
fn ignores_a_broken_cycle() {
    let a = mv(1, 2);
    let b = mv(57, 58);
    let c = mv(2, 1);
    let m = mv(58, 57);
    let other = mv(10, 18);
    // One move of the middle cycle differs.
    let history = vec![a, b, c, m, a, other, c, m, a, b, c];
    assert!(!three_fold(&history, m));
    // The candidate differs from the recorded cycle move.
    let history2 = vec![a, b, c, m, a, b, c, m, a, b, c];
    assert!(!three_fold(&history2, other));
}

#[test]
fn only_the_last_eleven_moves_matter() {
    let a = mv(1, 2);
    let b = mv(57, 58);
    let c = mv(2, 1);
    let m = mv(58, 57);
    let noise = mv(20, 28);
    let mut history = vec![noise, noise, noise, noise];
    history.extend_from_slice(&[a, b, c, m, a, b, c, m, a, b, c]);
    assert!(three_fold(&history, m));
}
