use funns_bot::bot::{Game, TimeControl};
use funns_bot::rule_engine::Mv;

fn fresh_game() -> Game {
    Game::new(chess::Board::default(), Vec::<Mv>::new())
}

#[test]
fn new_game_starts_cold() {
    // A fresh game: first search age, no clock, no budget, no node
    // counted, and a table that answers nothing.
    let g = fresh_game();
    assert_eq!(g.age, 1);
    assert_eq!(g.time_ctrl.time_left, 0);
    assert_eq!(g.time_ctrl.time_incr, 0);
    assert_eq!(g.time_usable, 0);
    assert_eq!(g.searched, 0);
    assert!(g.trans_table.get(0xfeed_face_dead_beef).is_none());
}

#[test]
fn budget_is_a_fortieth_with_a_floor() {
    // 100 ms left, no increment: a fortieth is 2 ms, the floor is
    // min(25, 50) = 25 ms.
    let mut g = fresh_game();
    g.time_ctrl = TimeControl { time_left: 100, time_incr: 0 };
    g.reserve_time();
    assert_eq!(g.time_usable, 25);
}

#[test]
fn budget_takes_most_of_the_increment() {
    // 60 s left, 1 s increment: 1500 + 800 = 2300 ms.
    let mut g = fresh_game();
    g.time_ctrl = TimeControl { time_left: 60_000, time_incr: 1_000 };
    g.reserve_time();
    assert_eq!(g.time_usable, 2_300);
}

#[test]
fn budget_skips_the_increment_when_the_clock_is_short() {
    // 3 s left, 1 s increment: the clock does not dominate four
    // increments, so only 3000 / 40 = 75 ms.
    let mut g = fresh_game();
    g.time_ctrl = TimeControl { time_left: 3_000, time_incr: 1_000 };
    g.reserve_time();
    assert_eq!(g.time_usable, 75);
}

#[test]
fn times_up_never_goes_back_to_false() {
    let mut g = fresh_game();
    g.time_ctrl = TimeControl { time_left: 0, time_incr: 0 };
    g.time_ref = funns_bot::clock::instant_now();
    g.time_watermark = 0;
    g.reserve_time();
    assert_eq!(g.time_usable, 0);
    // Spin until the clock first reports the budget spent, then the
    // answer must hold on every later ask.
    let mut spins = 0u64;
    while !g.times_up() {
        spins += 1;
        if spins > 1_000_000_000 {
            panic!("clock never advanced");
        }
    }
    for _ in 0..1000 {
        assert!(g.times_up());
    }
}
