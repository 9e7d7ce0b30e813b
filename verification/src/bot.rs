//! The engine proper: the game state kept between moves, the time
//! manager, and the submodules for evaluation, search and the
//! transposition table.

pub mod config;
pub mod eval;
pub mod search;
pub mod trans_table;

use vstd::prelude::*;

use crate::clock::{elapsed_ms, instant_now};
use crate::rule_engine::{board_make, board_rep, legal_moves, rep_after, rep_legal, Mv};
use crate::bot::trans_table::{zeroed_slots, TransTable};

verus! {

/// What a game loop may tell the engine between its own moves.
pub enum GameEvent {
    NextGameState {},
    OpponentGone,
}

/// The clock of the side to move, in milliseconds.
#[derive(Debug)]
pub struct TimeControl {
    pub time_left: usize,
    pub time_incr: usize,
}

impl Default for TimeControl {
    /// No time on the clock and no increment.
    fn default() -> (r: Self)
        ensures
            r.time_left == 0 && r.time_incr == 0,
    {
        TimeControl { time_left: 0, time_incr: 0 }
    }
}

/// Clock values the budget arithmetic cannot overflow on: about twelve
/// days in milliseconds.
pub const TIME_CEILING: usize = 0x40000000;

/// The milliseconds the engine allows itself for one move: a fortieth of
/// the clock, plus most of the increment when the clock dominates it, but
/// never less than the floor of a quarter of the clock capped at 50.
pub open spec fn spec_budget(left: int, incr: int) -> int {
    let think = left / 40 + if left > incr * 4 {
        incr * 4 / 5
    } else {
        0
    };
    let min_think = if left / 4 < 50 {
        left / 4
    } else {
        50
    };
    if min_think > think {
        min_think
    } else {
        think
    }
}

/// One game from the engine's side: the position, the moves played to
/// reach it, the transposition table kept across moves, and the state of
/// the time manager.
pub struct Game {
    /// The current position.
    pub board: chess::Board,
    /// Every move played from the initial position to `board`.
    pub moves: Vec<Mv>,
    /// Search results cached across moves of the whole game.
    pub trans_table: TransTable,
    /// Bumped once per search, so newer entries can be told from older.
    pub age: u32,
    /// The clock of the side the engine plays.
    pub time_ctrl: TimeControl,
    /// When the current search started.
    pub time_ref: std::time::Instant,
    /// The budget of the current search, in milliseconds.
    pub time_usable: u64,
    /// The highest elapsed reading seen in the current search.
    pub time_watermark: u64,
    /// Nodes visited by the current search.
    pub searched: u64,
}

impl Game {
    /// The table has its fixed capacity.
    pub open spec fn wf(self) -> bool {
        self.trans_table.wf()
    }

    /// A fresh game from a position and the moves that led to it: no time
    /// on the clock yet, no budget reserved, no node searched, and a fresh
    /// table that carries no information.
    pub fn new(board: chess::Board, moves: Vec<Mv>) -> (r: Game)
        ensures
            r.wf(),
            r.board == board,
            r.moves == moves,
            r.age == 1,
            r.trans_table.slots() == zeroed_slots(),
            r.time_ctrl.time_left == 0,
            r.time_ctrl.time_incr == 0,
            r.time_usable == 0,
            r.time_watermark == 0,
            r.searched == 0,
    {
        Game {
            board,
            moves,
            trans_table: TransTable::new(),
            age: 1,
            time_ctrl: TimeControl::default(),
            time_ref: instant_now(),
            time_usable: 0,
            time_watermark: 0,
            searched: 0,
        }
    }

    /// Freeze this move's time budget from the clock, as `spec_budget`
    /// says.
    pub fn reserve_time(&mut self)
        requires
            old(self).time_ctrl.time_left <= TIME_CEILING,
            old(self).time_ctrl.time_incr <= TIME_CEILING,
        ensures
            *final(self) == (Game { time_usable: final(self).time_usable, ..*old(self) }),
            final(self).time_usable == spec_budget(
                old(self).time_ctrl.time_left as int,
                old(self).time_ctrl.time_incr as int,
            ),
    {
        let left = self.time_ctrl.time_left as u64;
        let incr = self.time_ctrl.time_incr as u64;
        let mut think_time = left / 40;
        if left > incr * 4 {
            think_time = think_time + incr * 4 / 5;
        }
        let quarter = left / 4;
        let min_think = if quarter < 50 {
            quarter
        } else {
            50
        };
        self.time_usable = if min_think > think_time {
            min_think
        } else {
            think_time
        };
    }

    /// Decide and play the engine's move: freeze the time budget, run the
    /// search, then record the chosen move and advance the position by it.
    /// On a position with no legal moves the game is left unchanged and
    /// the sentinel move comes back.
    pub fn play(&mut self) -> (r: Mv)
        requires
            old(self).wf(),
            old(self).time_ctrl.time_left <= TIME_CEILING,
            old(self).time_ctrl.time_incr <= TIME_CEILING,
            old(self).age < u32::MAX,
        ensures
            final(self).wf(),
            final(self).age == old(self).age + 1,
            rep_legal(board_rep(old(self).board)).len() == 0 ==> r == (Mv {
                from: 0u8,
                to: 0u8,
                promo: 0u8,
            }) && final(self).board == old(self).board && final(self).moves@ == old(self).moves@,
            rep_legal(board_rep(old(self).board)).len() > 0 ==> {
                &&& r.wf()
                &&& rep_legal(board_rep(old(self).board)).contains(r.repr())
                &&& board_rep(final(self).board) == rep_after(
                    board_rep(old(self).board),
                    r.from,
                    r.to,
                    r.promo,
                )
                &&& final(self).moves@ == old(self).moves@.push(r)
            },
    {
        self.time_ref = instant_now();
        self.time_watermark = 0;
        self.searched = 0;
        self.age = self.age + 1;
        self.reserve_time();
        let lm = legal_moves(&self.board);
        if lm.len() == 0 {
            return Mv { from: 0, to: 0, promo: 0 };
        }
        let chosen = self.search();
        let next = chosen.0;
        self.moves.push(next);
        let nb = board_make(&self.board, next);
        self.board = nb;
        next
    }

    /// Whether the budget is spent. The answer compares the budget against
    /// a watermark that only ever rises, so within one search a `true` can
    /// never be followed by a `false`.
    pub fn times_up(&mut self) -> (r: bool)
        ensures
            *final(self) == (Game { time_watermark: final(self).time_watermark, ..*old(self) }),
            final(self).time_watermark >= old(self).time_watermark,
            r == (final(self).time_watermark > final(self).time_usable),
    {
        let e = elapsed_ms(&self.time_ref);
        if e > self.time_watermark {
            self.time_watermark = e;
        }
        self.time_watermark > self.time_usable
    }
}

/// Once `times_up` has answered `true`, every later answer within the same
/// search is `true` as well: the watermark only rises and the budget is
/// frozen, so time-up is monotone.
pub proof fn lemma_times_up_monotone(w1: u64, w2: u64, budget: u64)
    requires
        w1 <= w2,
        w1 > budget,
    ensures
        w2 > budget,
{
}

} // verus!
