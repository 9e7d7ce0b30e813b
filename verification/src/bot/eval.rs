//! The static evaluator: material, a bishop-pair bonus and piece-square
//! tables tapered between a middlegame and an endgame table by how much
//! non-pawn material the opponent has left.
//!
//! The evaluator works on one side's pieces as plain (piece, square) pairs,
//! the shape the rule-engine boundary hands out. All weights are integer:
//! the taper weight is the numerator of a fraction over
//! `END_GAME_MATERIAL`, and the tapered square bonus is summed scaled and
//! divided once at the end, rounding toward zero.

use vstd::prelude::*;

use crate::rule_engine::{board_white_to_move, rep_pieces, rep_white_to_move, side_pieces, board_rep};

verus! {

/// Centipawn worth of pawn, knight, bishop, rook, queen, king.
pub const PIECE_VALUE: [i32; 6] = [100, 305, 333, 563, 950, 20000];

/// Score below every reachable evaluation: the checkmate sentinel in the
/// negamax convention.
pub const MIN_EVAL: i32 = -1073741823;

/// Score above every reachable evaluation: the forced-mate sentinel seen
/// from the winning side.
pub const MAX_EVAL: i32 = 1073741823;

/// Non-pawn material at or above which a side is fully in the middlegame.
pub const END_GAME_MATERIAL: i32 = 1650;

/// No static evaluation leaves (-EVAL_LIMIT, EVAL_LIMIT): 64 pieces of at
/// most 20000 centipawn, the bishop pair, and a square bonus of at most
/// 128 per piece stay well below it.
pub const EVAL_LIMIT: i32 = 3000000;

// Middlegame piece-square bonuses, 64 squares per piece in the order of
// PIECE_VALUE, each block read from white's perspective with a1 first.
pub const PIECE_SQUARE_TABLE_MID: [i32; 384] = [
    // Pawn
      0,   0,   0,   0,   0,   0,   0,   0,
      5,  10,  10, -20, -20,  10,  10,   5,
      5,  -5, -10,   0,   0, -10,  -5,   5,
      0,   0,   0,  20,  20,   0,   0,   0,
      5,   5,  10,  25,  25,  10,   5,   5,
     10,  10,  20,  30,  30,  20,  10,  10,
     50,  50,  50,  50,  50,  50,  50,  50,
      0,   0,   0,   0,   0,   0,   0,   0,
    // Knight
    -50, -40, -30, -30, -30, -30, -40, -50,
    -40, -20,   0,   5,   5,   0, -20, -40,
    -30,   5,  10,  15,  15,  10,   5, -30,
    -30,   0,  15,  20,  20,  15,   0, -30,
    -30,   5,  15,  20,  20,  15,   5, -30,
    -30,   0,  10,  15,  15,  10,   0, -30,
    -40, -20,   0,   0,   0,   0, -20, -40,
    -50, -40, -30, -30, -30, -30, -40, -50,
    // Bishop
    -20, -10, -10, -10, -10, -10, -10, -20,
    -10,   5,   0,   0,   0,   0,   5, -10,
    -10,  10,  10,  10,  10,  10,  10, -10,
    -10,   0,  10,  10,  10,  10,   0, -10,
    -10,   5,   5,  10,  10,   5,   5, -10,
    -10,   0,   5,  10,  10,   5,   0, -10,
    -10,   0,   0,   0,   0,   0,   0, -10,
    -20, -10, -10, -10, -10, -10, -10, -20,
    // Rook
      0,   0,   0,   5,   5,   0,   0,   0,
     -5,   0,   0,   0,   0,   0,   0,  -5,
     -5,   0,   0,   0,   0,   0,   0,  -5,
     -5,   0,   0,   0,   0,   0,   0,  -5,
     -5,   0,   0,   0,   0,   0,   0,  -5,
     -5,   0,   0,   0,   0,   0,   0,  -5,
      5,  10,  10,  10,  10,  10,  10,   5,
      0,   0,   0,   0,   0,   0,   0,   0,
    // Queen
    -20, -10, -10,  -5,  -5, -10, -10, -20,
    -10,   0,   5,   0,   0,   0,   0, -10,
    -10,   5,   5,   5,   5,   5,   0, -10,
      0,   0,   5,   5,   5,   5,   0,  -5,
     -5,   0,   5,   5,   5,   5,   0,  -5,
    -10,   0,   5,   5,   5,   5,   0, -10,
    -10,   0,   0,   0,   0,   0,   0, -10,
    -20, -10, -10,  -5,  -5, -10, -10, -20,
    // King
     20,  30,  10,   0,   0,  10,  30,  20,
     20,  20,   0,   0,   0,   0,  20,  20,
    -10, -20, -20, -20, -20, -20, -20, -10,
    -20, -30, -30, -40, -40, -30, -30, -20,
    -30, -40, -40, -50, -50, -40, -40, -30,
    -30, -40, -40, -50, -50, -40, -40, -30,
    -30, -40, -40, -50, -50, -40, -40, -30,
    -30, -40, -40, -50, -50, -40, -40, -30,
];

// Endgame piece-square bonuses, laid out as the middlegame table.
pub const PIECE_SQUARE_TABLE_END: [i32; 384] = [
    // Pawn
      0,   0,   0,   0,   0,   0,   0,   0,
    -20, -20, -20, -20, -20, -20, -20, -20,
    -10, -10, -10, -10, -10, -10, -10, -10,
     20,  20,  20,  20,  20,  20,  20,  20,
     30,  30,  30,  30,  30,  30,  30,  30,
     40,  40,  40,  40,  40,  40,  40,  40,
     50,  50,  50,  50,  50,  50,  50,  50,
      0,   0,   0,   0,   0,   0,   0,   0,
    // Knight
    -50, -40, -30, -30, -30, -30, -40, -50,
    -40, -20,   0,   5,   5,   0, -20, -40,
    -30,   5,  10,  15,  15,  10,   5, -30,
    -30,   0,  15,  20,  20,  15,   0, -30,
    -30,   5,  15,  20,  20,  15,   5, -30,
    -30,   0,  10,  15,  15,  10,   0, -30,
    -40, -20,   0,   0,   0,   0, -20, -40,
    -50, -40, -30, -30, -30, -30, -40, -50,
    // Bishop
    -20, -10, -10, -10, -10, -10, -10, -20,
    -10,   5,   0,   0,   0,   0,   5, -10,
    -10,  10,  10,  10,  10,  10,  10, -10,
    -10,   0,  10,  10,  10,  10,   0, -10,
    -10,   5,   5,  10,  10,   5,   5, -10,
    -10,   0,   5,  10,  10,   5,   0, -10,
    -10,   0,   0,   0,   0,   0,   0, -10,
    -20, -10, -10, -10, -10, -10, -10, -20,
    // Rook
      0,   0,   0,   5,   5,   0,   0,   0,
     -5,   0,   0,   0,   0,   0,   0,  -5,
     -5,   0,   0,   0,   0,   0,   0,  -5,
     -5,   0,   0,   0,   0,   0,   0,  -5,
     -5,   0,   0,   0,   0,   0,   0,  -5,
     -5,   0,   0,   0,   0,   0,   0,  -5,
      5,  10,  10,  10,  10,  10,  10,   5,
      0,   0,   0,   0,   0,   0,   0,   0,
    // Queen
    -20, -10, -10,  -5,  -5, -10, -10, -20,
    -10,   0,   5,   0,   0,   0,   0, -10,
    -10,   5,   5,   5,   5,   5,   0, -10,
      0,   0,   5,   5,   5,   5,   0,  -5,
     -5,   0,   5,   5,   5,   5,   0,  -5,
    -10,   0,   5,   5,   5,   5,   0, -10,
    -10,   0,   0,   0,   0,   0,   0, -10,
    -20, -10, -10,  -5,  -5, -10, -10, -20,
    // King
    -50, -30, -30, -30, -30, -30, -30, -50,
    -30, -30,   0,   0,   0,   0, -30, -30,
    -30, -10,  20,  30,  30,  20, -10, -30,
    -30, -10,  30,  40,  40,  30, -10, -30,
    -30, -10,  30,  40,  40,  30, -10, -30,
    -30, -10,  20,  30,  30,  20, -10, -30,
    -30, -20, -10,   0,   0, -10, -20, -30,
    -50, -40, -30, -20, -20, -30, -40, -50,
];

/// Every pair indexes a real piece and a real square.
pub open spec fn wf_pieces(s: Seq<(u8, u8)>) -> bool {
    forall|i: int| 0 <= i < s.len() ==> (#[trigger] s[i]).0 < 6 && s[i].1 < 64
}

/// Total material of the pieces.
pub open spec fn spec_material(s: Seq<(u8, u8)>) -> int
    decreases s.len(),
{
    if s.len() == 0 {
        0
    } else {
        spec_material(s.drop_last()) + PIECE_VALUE[s.last().0 as int]
    }
}

/// Material in knights, bishops, rooks and queens only: what the taper
/// weight is computed from.
pub open spec fn spec_eg_material(s: Seq<(u8, u8)>) -> int
    decreases s.len(),
{
    if s.len() == 0 {
        0
    } else {
        spec_eg_material(s.drop_last()) + if 1 <= s.last().0 <= 4 {
            PIECE_VALUE[s.last().0 as int]
        } else {
            0
        }
    }
}

/// The taper weight a side imposes on its opponent, as a numerator over
/// END_GAME_MATERIAL: the full END_GAME_MATERIAL when the side has no
/// non-pawn material left, zero once it still has END_GAME_MATERIAL or
/// more of it.
pub open spec fn spec_end_weight(s: Seq<(u8, u8)>) -> int {
    END_GAME_MATERIAL - if spec_eg_material(s) >= END_GAME_MATERIAL {
        END_GAME_MATERIAL as int
    } else {
        spec_eg_material(s)
    }
}

/// How many of the pieces have this piece index.
pub open spec fn spec_count(s: Seq<(u8, u8)>, p: int) -> int
    decreases s.len(),
{
    if s.len() == 0 {
        0
    } else {
        spec_count(s.drop_last(), p) + if s.last().0 == p {
            1int
        } else {
            0int
        }
    }
}

/// The square a piece reads its bonus from: its own square for White, the
/// vertically flipped one for Black.
pub open spec fn spec_orient(sq: int, white: bool) -> int {
    if white {
        sq
    } else {
        63 - sq
    }
}

/// The tapered square bonus of the pieces, scaled by END_GAME_MATERIAL:
/// each piece contributes its middlegame bonus weighted by what is left of
/// the opponent's material and its endgame bonus weighted by what is gone.
pub open spec fn spec_pst_scaled(s: Seq<(u8, u8)>, white: bool, w: int) -> int
    decreases s.len(),
{
    if s.len() == 0 {
        0
    } else {
        let idx = s.last().0 * 64 + spec_orient(s.last().1 as int, white);
        spec_pst_scaled(s.drop_last(), white, w) + PIECE_SQUARE_TABLE_MID[idx] * (
        END_GAME_MATERIAL - w) + PIECE_SQUARE_TABLE_END[idx] * w
    }
}

/// Signed division rounding toward zero, as the scaled bonus is rounded.
pub open spec fn div_toward_zero(a: int, b: int) -> int {
    if a >= 0 {
        a / b
    } else {
        -((-a) / b)
    }
}

/// One side's full evaluation under taper weight `w`: material, the
/// bishop-pair bonus, and the rounded tapered square bonus.
pub open spec fn spec_side_eval(s: Seq<(u8, u8)>, white: bool, w: int) -> int {
    spec_material(s) + (if spec_count(s, 2) == 2 {
        50int
    } else {
        0int
    }) + div_toward_zero(spec_pst_scaled(s, white, w), END_GAME_MATERIAL as int)
}

/// The whole evaluation, from the side to move's perspective: each side's
/// evaluation under the taper weight its opponent imposes, differenced and
/// signed by who moves.
pub open spec fn spec_evaluate(wp: Seq<(u8, u8)>, bp: Seq<(u8, u8)>, white_to_move: bool) -> int {
    (spec_side_eval(wp, true, spec_end_weight(bp)) - spec_side_eval(
        bp,
        false,
        spec_end_weight(wp),
    )) * (if white_to_move {
        1int
    } else {
        -1int
    })
}

/// One side's pieces after flipping the board vertically: each square `s`
/// becomes `63 - s`, the piece kinds stay.
pub open spec fn mirror_pieces(s: Seq<(u8, u8)>) -> Seq<(u8, u8)> {
    s.map_values(|p: (u8, u8)| (p.0, (63 - p.1) as u8))
}

proof fn lemma_mirror_unfold(s: Seq<(u8, u8)>)
    requires
        wf_pieces(s),
        s.len() > 0,
    ensures
        mirror_pieces(s).drop_last() == mirror_pieces(s.drop_last()),
        mirror_pieces(s).last() == (s.last().0, (63 - s.last().1) as u8),
        wf_pieces(s.drop_last()),
{
    lemma_wf_drop_last(s);
    assert(mirror_pieces(s).drop_last() =~= mirror_pieces(s.drop_last()));
}

proof fn lemma_mirror_material(s: Seq<(u8, u8)>)
    requires
        wf_pieces(s),
    ensures
        spec_material(mirror_pieces(s)) == spec_material(s),
        spec_eg_material(mirror_pieces(s)) == spec_eg_material(s),
        spec_count(mirror_pieces(s), 2) == spec_count(s, 2),
    decreases s.len(),
{
    if s.len() == 0 {
        assert(mirror_pieces(s).len() == 0);
    } else {
        lemma_mirror_unfold(s);
        lemma_mirror_material(s.drop_last());
    }
}

proof fn lemma_mirror_pst(s: Seq<(u8, u8)>, white: bool, w: int)
    requires
        wf_pieces(s),
    ensures
        spec_pst_scaled(mirror_pieces(s), !white, w) == spec_pst_scaled(s, white, w),
    decreases s.len(),
{
    if s.len() == 0 {
        assert(mirror_pieces(s).len() == 0);
    } else {
        lemma_mirror_unfold(s);
        lemma_mirror_pst(s.drop_last(), white, w);
        assert(s.last() == s[s.len() - 1]);
        assert(spec_orient((63 - s.last().1) as u8 as int, !white) == spec_orient(
            s.last().1 as int,
            white,
        ));
    }
}

proof fn lemma_mirror_side(s: Seq<(u8, u8)>, white: bool, w: int)
    requires
        wf_pieces(s),
    ensures
        spec_side_eval(mirror_pieces(s), !white, w) == spec_side_eval(s, white, w),
{
    lemma_mirror_material(s);
    lemma_mirror_pst(s, white, w);
}

/// Flipping the board vertically and swapping the two sides' pieces, with
/// the side to move kept, negates the evaluation: the position is equally
/// good for the other player.
pub proof fn lemma_evaluate_symmetry(wp: Seq<(u8, u8)>, bp: Seq<(u8, u8)>, white_to_move: bool)
    requires
        wf_pieces(wp),
        wf_pieces(bp),
    ensures
        spec_evaluate(mirror_pieces(bp), mirror_pieces(wp), white_to_move) == -spec_evaluate(
            wp,
            bp,
            white_to_move,
        ),
{
    lemma_mirror_material(wp);
    lemma_mirror_material(bp);
    lemma_mirror_side(bp, false, spec_end_weight(wp));
    lemma_mirror_side(wp, true, spec_end_weight(bp));
    let a = spec_side_eval(wp, true, spec_end_weight(bp));
    let c = spec_side_eval(bp, false, spec_end_weight(wp));
    assert((c - a) * 1int == -((a - c) * 1int));
    assert((c - a) * -1int == -((a - c) * -1int));
}

/// No square-table entry exceeds 128 in magnitude.
proof fn lemma_pst_entry_bounds(i: int)
    requires
        0 <= i < 384,
    ensures
        -128 <= PIECE_SQUARE_TABLE_MID[i] <= 128,
        -128 <= PIECE_SQUARE_TABLE_END[i] <= 128,
{
    assert(-128 <= PIECE_SQUARE_TABLE_MID[i] <= 128);
    assert(-128 <= PIECE_SQUARE_TABLE_END[i] <= 128);
}

proof fn lemma_wf_drop_last(s: Seq<(u8, u8)>)
    requires
        wf_pieces(s),
        s.len() > 0,
    ensures
        wf_pieces(s.drop_last()),
{
    assert forall|i: int| 0 <= i < s.drop_last().len() implies (#[trigger] s.drop_last()[i]).0 < 6
        && s.drop_last()[i].1 < 64 by {
        assert(s.drop_last()[i] == s[i]);
    }
}

/// Total material of one side's pieces.
pub fn piece_value(ps: &Vec<(u8, u8)>) -> (r: i32)
    requires
        wf_pieces(ps@),
        ps@.len() <= 64,
    ensures
        r == spec_material(ps@),
        0 <= r <= 1280000,
{
    let mut sum: i32 = 0;
    let n = ps.len();
    for i in 0..n
        invariant
            n == ps@.len(),
            n <= 64,
            wf_pieces(ps@),
            sum == spec_material(ps@.take(i as int)),
            0 <= sum <= 20000 * i,
    {
        let p = ps[i].0;
        proof {
            assert(ps@.take(i + 1).drop_last() =~= ps@.take(i as int));
            assert(ps@.take(i + 1).last() == ps@[i as int]);
        }
        sum = sum + PIECE_VALUE[p as usize];
    }
    proof {
        assert(ps@.take(n as int) =~= ps@);
    }
    sum
}

/// The taper weight this side imposes on its opponent, as the numerator
/// over END_GAME_MATERIAL. A side with no knights, bishops, rooks or
/// queens imposes the full weight; one with END_GAME_MATERIAL or more of
/// them imposes none.
pub fn end_game_weight(ps: &Vec<(u8, u8)>) -> (r: i32)
    requires
        wf_pieces(ps@),
        ps@.len() <= 64,
    ensures
        r == spec_end_weight(ps@),
        0 <= r <= END_GAME_MATERIAL,
{
    let mut m: i32 = 0;
    let n = ps.len();
    for i in 0..n
        invariant
            n == ps@.len(),
            n <= 64,
            wf_pieces(ps@),
            m == spec_eg_material(ps@.take(i as int)),
            0 <= m <= 20000 * i,
    {
        let p = ps[i].0;
        proof {
            assert(ps@.take(i + 1).drop_last() =~= ps@.take(i as int));
            assert(ps@.take(i + 1).last() == ps@[i as int]);
        }
        if p >= 1 && p <= 4 {
            m = m + PIECE_VALUE[p as usize];
        }
    }
    proof {
        assert(ps@.take(n as int) =~= ps@);
    }
    let clamped = if m >= END_GAME_MATERIAL {
        END_GAME_MATERIAL
    } else {
        m
    };
    END_GAME_MATERIAL - clamped
}

/// The rounded tapered square bonus of one side's pieces under taper
/// weight `end_weight`.
#[verifier::rlimit(60)]
pub fn piece_square_table(ps: &Vec<(u8, u8)>, white: bool, end_weight: i32) -> (r: i32)
    requires
        wf_pieces(ps@),
        ps@.len() <= 64,
        0 <= end_weight <= END_GAME_MATERIAL,
    ensures
        r == div_toward_zero(
            spec_pst_scaled(ps@, white, end_weight as int),
            END_GAME_MATERIAL as int,
        ),
        -8192 <= r <= 8192,
{
    let mut sum: i32 = 0;
    let n = ps.len();
    for i in 0..n
        invariant
            n == ps@.len(),
            n <= 64,
            wf_pieces(ps@),
            0 <= end_weight <= END_GAME_MATERIAL,
            sum == spec_pst_scaled(ps@.take(i as int), white, end_weight as int),
            -(211200 * i) <= sum <= 211200 * i,
    {
        let p = ps[i].0;
        let sq = ps[i].1;
        let o: u8 = if white {
            sq
        } else {
            63 - sq
        };
        let idx: usize = (p as usize) * 64 + (o as usize);
        proof {
            assert(ps@.take(i + 1).drop_last() =~= ps@.take(i as int));
            assert(ps@.take(i + 1).last() == ps@[i as int]);
            lemma_pst_entry_bounds(idx as int);
        }
        let mid = PIECE_SQUARE_TABLE_MID[idx];
        let end = PIECE_SQUARE_TABLE_END[idx];
        proof {
            assert(-128 * (1650 - end_weight) <= mid * (END_GAME_MATERIAL - end_weight) <= 128 * (
            1650 - end_weight)) by (nonlinear_arith)
                requires
                    -128 <= mid <= 128,
                    0 <= end_weight <= 1650,
                    END_GAME_MATERIAL == 1650,
            ;
            assert(-128 * end_weight <= end * end_weight <= 128 * end_weight) by (nonlinear_arith)
                requires
                    -128 <= end <= 128,
                    0 <= end_weight,
            ;
        }
        sum = sum + mid * (END_GAME_MATERIAL - end_weight) + end * end_weight;
    }
    proof {
        assert(ps@.take(n as int) =~= ps@);
    }
    if sum >= 0 {
        ((sum as u32) / 1650u32) as i32
    } else {
        -((((-sum) as u32) / 1650u32) as i32)
    }
}

/// One side's evaluation under the taper weight its opponent imposes.
#[verifier::rlimit(60)]
fn eval_single(ps: &Vec<(u8, u8)>, white: bool, opp: &Vec<(u8, u8)>) -> (r: i32)
    requires
        wf_pieces(ps@),
        ps@.len() <= 64,
        wf_pieces(opp@),
        opp@.len() <= 64,
    ensures
        r == spec_side_eval(ps@, white, spec_end_weight(opp@)),
        -1500000 <= r <= 1500000,
{
    let w = end_game_weight(opp);
    let material = piece_value(ps);
    let pst = piece_square_table(ps, white, w);
    let mut bishops: i32 = 0;
    let n = ps.len();
    for i in 0..n
        invariant
            n == ps@.len(),
            n <= 64,
            bishops == spec_count(ps@.take(i as int), 2),
            0 <= bishops <= i,
    {
        proof {
            assert(ps@.take(i + 1).drop_last() =~= ps@.take(i as int));
            assert(ps@.take(i + 1).last() == ps@[i as int]);
        }
        if ps[i].0 == 2 {
            bishops = bishops + 1;
        }
    }
    proof {
        assert(ps@.take(n as int) =~= ps@);
    }
    let pair = if bishops == 2 {
        50
    } else {
        0
    };
    material + pair + pst
}

/// The static evaluation of the position, from the side to move's
/// perspective. Always strictly inside the sentinel window.
pub fn evaluate(b: &chess::Board) -> (r: i32)
    ensures
        r == spec_evaluate(
            rep_pieces(board_rep(*b), true),
            rep_pieces(board_rep(*b), false),
            rep_white_to_move(board_rep(*b)),
        ),
        -EVAL_LIMIT <= r <= EVAL_LIMIT,
        MIN_EVAL < r < MAX_EVAL,
{
    let wp = side_pieces(b, true);
    let bp = side_pieces(b, false);
    let we = eval_single(&wp, true, &bp);
    let be = eval_single(&bp, false, &wp);
    let diff = we - be;
    proof {
        let wps = rep_pieces(board_rep(*b), true);
        let bps = rep_pieces(board_rep(*b), false);
        assert(we == spec_side_eval(wps, true, spec_end_weight(bps)));
        assert(be == spec_side_eval(bps, false, spec_end_weight(wps)));
        assert((we - be) * 1int == we - be);
        assert((we - be) * -1int == -(we - be));
    }
    if board_white_to_move(b) {
        diff
    } else {
        -diff
    }
}

} // verus!
