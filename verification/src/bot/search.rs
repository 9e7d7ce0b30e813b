//! The search: iterative deepening at the root over a negamax alpha-beta
//! with principal-variation scouting, null-move pruning, late-move
//! reductions, check and promotion extensions, a threefold-repetition
//! guard, and quiescence resolution at the leaves.

use vstd::multiset::Multiset;
use vstd::prelude::*;
use vstd::seq_lib::group_to_multiset_ensures;

use crate::bot::Game;
use crate::bot::eval::{evaluate, spec_evaluate, MAX_EVAL, MIN_EVAL};
use crate::bot::config::{
    MAX_SEARCH_DEPTH, QUIESCENCE_LIMIT, REDUCED_SEARCH_DEPTH, SEARCH_EXTENSION_LIMIT,
};
use crate::bot::trans_table::{spec_lookup, HashTableEntry, TransTableEntry};
use crate::rule_engine::{
    board_hash, board_in_check, board_make, board_null, board_status, capture_moves, board_rep,
    legal_moves, rep_after, rep_captures, rep_hash, rep_legal, rep_pieces, rep_status,
    rep_white_to_move, Mv, STATUS_CHECKMATE, STATUS_ONGOING, STATUS_STALEMATE,
};

verus! {

/// The depth tag marking a transposition entry recorded under a full
/// (principal-variation) window rather than a zero-width one.
pub const NON_ZERO_WINDOW: u32 = 0x80000000;

/// A valid fail-soft search window.
pub open spec fn valid_window(alpha: int, beta: int) -> bool {
    MIN_EVAL <= alpha < beta <= MAX_EVAL
}

/// What one search call may change of the game: the transposition table,
/// the node counter and the time watermark. The position, the played
/// moves, the age and the frozen time budget all stay.
pub open spec fn search_frame(pre: Game, post: Game) -> bool {
    &&& post.board == pre.board
    &&& post.moves == pre.moves
    &&& post.age == pre.age
    &&& post.time_ctrl == pre.time_ctrl
    &&& post.time_ref == pre.time_ref
    &&& post.time_usable == pre.time_usable
    &&& post.trans_table.wf()
}

/// The evaluation the quiescence search bottoms out in: the position's
/// static evaluation, as `evaluate` states it.
pub open spec fn spec_static_eval(s: Seq<u64>) -> int {
    spec_evaluate(rep_pieces(s, true), rep_pieces(s, false), rep_white_to_move(s))
}

/// The depth tag a node of this nominal depth asks of the table and
/// records in it: the depth itself inside a zero-width window, the depth
/// with the window tag above it elsewhere.
pub open spec fn spec_tt_depth(depth: u32, zero_window: bool) -> int {
    if zero_window {
        depth as int
    } else {
        depth + NON_ZERO_WINDOW
    }
}

/// The score a transposition probe answers for a node, when it answers at
/// all: the entry stored under the node's hash, provided the slot coheres,
/// the stored depth tag covers the request, the score lies inside the
/// sentinels and, at a principal-variation node, strictly inside the
/// window.
pub open spec fn spec_tt_probe(
    tbl: Seq<HashTableEntry>,
    s: Seq<u64>,
    depth: u32,
    alpha: int,
    beta: int,
    is_pv: bool,
    zero_window: bool,
) -> Option<i32> {
    match spec_lookup(tbl, rep_hash(s)) {
        Some(e) => if (!is_pv || (alpha < e.eval && e.eval < beta)) && e.depth >= spec_tt_depth(
            depth,
            zero_window,
        ) && MIN_EVAL <= e.eval && e.eval <= MAX_EVAL {
            Some(e.eval)
        } else {
            None
        },
        None => None,
    }
}

/// The ordering key of a legal move: the cached table score of the
/// position after it, or that position's static evaluation when the table
/// holds nothing for it.
pub open spec fn spec_order_key(tbl: Seq<HashTableEntry>, s: Seq<u64>, m: Mv) -> int {
    let child = rep_after(s, m.from, m.to, m.promo);
    match spec_lookup(tbl, rep_hash(child)) {
        Some(e) => e.eval as int,
        None => spec_static_eval(child),
    }
}

/// The value the quiescence search computes, defined exactly as it runs:
/// the losing sentinel at a checkmate, zero at a stalemate, the static
/// evaluation when it already reaches `beta` or when the capture budget is
/// spent, and otherwise the best of standing pat and the capture replies,
/// each resolved one level shallower under the narrowed window.
pub open spec fn spec_quiesce(s: Seq<u64>, alpha: int, beta: int, limit: nat) -> int
    decreases limit, 1int, 0int,
{
    if rep_status(s) == STATUS_CHECKMATE {
        MIN_EVAL as int
    } else if rep_status(s) == STATUS_STALEMATE {
        0
    } else {
        let stand = spec_static_eval(s);
        if stand >= beta {
            stand
        } else if limit == 0 {
            stand
        } else {
            let a = if stand > alpha {
                stand
            } else {
                alpha
            };
            spec_quiesce_caps(s, rep_captures(s), 0, a, beta, stand, limit)
        }
    }
}

/// The capture loop of the quiescence search from capture `i` on, carrying
/// the raised window bound and the best score seen so far: a capture reply
/// at or above `beta` is returned at once, any other raises the running
/// bounds.
pub open spec fn spec_quiesce_caps(
    s: Seq<u64>,
    caps: Seq<(u8, u8, u8)>,
    i: int,
    alpha: int,
    beta: int,
    max_eval: int,
    limit: nat,
) -> int
    decreases limit, 0int, caps.len() - i,
{
    if i < 0 || i >= caps.len() || limit == 0 {
        max_eval
    } else {
        let c = caps[i];
        let child = rep_after(s, c.0, c.1, c.2);
        let eval = -spec_quiesce(child, -beta, -alpha, (limit - 1) as nat);
        if eval >= beta {
            eval
        } else {
            let m2 = if eval > max_eval {
                eval
            } else {
                max_eval
            };
            let a2 = if eval > alpha {
                eval
            } else {
                alpha
            };
            spec_quiesce_caps(s, caps, i + 1, a2, beta, m2, limit)
        }
    }
}

/// The exact repetition test: the last eleven moves of the history show
/// the same three-move cycle three times over, and the candidate move
/// matches the move four and eight plies back, so playing it would close
/// the cycle a third time.
pub open spec fn spec_repetition(h: Seq<Mv>, m: Mv) -> bool {
    let n = h.len() as int;
    &&& n >= 11
    &&& h[n - 11] == h[n - 7] && h[n - 7] == h[n - 3]
    &&& h[n - 10] == h[n - 6] && h[n - 6] == h[n - 2]
    &&& h[n - 9] == h[n - 5] && h[n - 5] == h[n - 1]
    &&& h[n - 8] == h[n - 4] && h[n - 4] == m
}

/// Would playing `m` after `history` close a three-fold cycle of the last
/// three moves of each side? A sufficient, cheap detector: it looks at the
/// moves alone.
pub fn three_fold(history: &Vec<Mv>, m: Mv) -> (r: bool)
    ensures
        r == spec_repetition(history@, m),
{
    let n = history.len();
    if n < 11 {
        return false;
    }
    history[n - 11] == history[n - 7] && history[n - 7] == history[n - 3] && history[n - 10]
        == history[n - 6] && history[n - 6] == history[n - 2] && history[n - 9] == history[n - 5]
        && history[n - 5] == history[n - 1] && history[n - 8] == history[n - 4] && history[n - 4]
        == m
}

/// Scores never rise along the list.
pub open spec fn sorted_desc(s: Seq<(Mv, i32)>) -> bool {
    forall|i: int, j: int| 0 <= i <= j < s.len() ==> (#[trigger] s[i]).1 >= (#[trigger] s[j]).1
}

/// Scores never fall along the list.
pub open spec fn sorted_asc(s: Seq<(Mv, i32)>) -> bool {
    forall|i: int, j: int| 0 <= i <= j < s.len() ==> (#[trigger] s[i]).1 <= (#[trigger] s[j]).1
}

/// Sort the scored moves so the highest score comes first. The list keeps
/// exactly the same entries.
pub fn sort_desc(v: &mut Vec<(Mv, i32)>)
    ensures
        final(v)@.len() == old(v)@.len(),
        sorted_desc(final(v)@),
        final(v)@.to_multiset() == old(v)@.to_multiset(),
        forall|i: int| 0 <= i < final(v)@.len() ==> old(v)@.contains(#[trigger] final(v)@[i]),
{
    proof {
        broadcast use group_to_multiset_ensures;

    }
    let ghost orig = v@;
    let mut out: Vec<(Mv, i32)> = Vec::new();
    while v.len() > 0
        invariant
            out@.to_multiset().add(v@.to_multiset()) =~= orig.to_multiset(),
            sorted_desc(out@),
            forall|i: int, j: int|
                0 <= i < out@.len() && 0 <= j < v@.len() ==> (#[trigger] out@[i]).1
                    >= (#[trigger] v@[j]).1,
        decreases v.len(),
    {
        proof {
            broadcast use group_to_multiset_ensures;

        }
        let mut best: usize = 0;
        let mut k: usize = 1;
        while k < v.len()
            invariant
                0 <= best < v@.len(),
                k <= v@.len(),
                forall|t: int| 0 <= t < k ==> v@[best as int].1 >= (#[trigger] v@[t]).1,
            decreases v.len() - k,
        {
            if v[k].1 > v[best].1 {
                best = k;
            }
            k = k + 1;
        }
        let x = v.remove(best);
        out.push(x);
    }
    proof {
        broadcast use group_to_multiset_ensures;

        assert(v@.to_multiset() =~= Multiset::<(Mv, i32)>::empty());
        assert(out@.to_multiset() =~= orig.to_multiset());
        assert(out@.to_multiset().len() == out@.len());
        assert(orig.to_multiset().len() == orig.len());
        assert forall|i: int| 0 <= i < out@.len() implies orig.contains(#[trigger] out@[i]) by {
            assert(out@.to_multiset().count(out@[i]) > 0);
        }
    }
    *v = out;
}

/// Sort the scored moves so the lowest score comes first. The list keeps
/// exactly the same entries.
pub fn sort_asc(v: &mut Vec<(Mv, i32)>)
    ensures
        final(v)@.len() == old(v)@.len(),
        sorted_asc(final(v)@),
        final(v)@.to_multiset() == old(v)@.to_multiset(),
        forall|i: int| 0 <= i < final(v)@.len() ==> old(v)@.contains(#[trigger] final(v)@[i]),
{
    proof {
        broadcast use group_to_multiset_ensures;

    }
    let ghost orig = v@;
    let mut out: Vec<(Mv, i32)> = Vec::new();
    while v.len() > 0
        invariant
            out@.to_multiset().add(v@.to_multiset()) =~= orig.to_multiset(),
            sorted_asc(out@),
            forall|i: int, j: int|
                0 <= i < out@.len() && 0 <= j < v@.len() ==> (#[trigger] out@[i]).1
                    <= (#[trigger] v@[j]).1,
        decreases v.len(),
    {
        proof {
            broadcast use group_to_multiset_ensures;

        }
        let mut best: usize = 0;
        let mut k: usize = 1;
        while k < v.len()
            invariant
                0 <= best < v@.len(),
                k <= v@.len(),
                forall|t: int| 0 <= t < k ==> v@[best as int].1 <= (#[trigger] v@[t]).1,
            decreases v.len() - k,
        {
            if v[k].1 < v[best].1 {
                best = k;
            }
            k = k + 1;
        }
        let x = v.remove(best);
        out.push(x);
    }
    proof {
        broadcast use group_to_multiset_ensures;

        assert(v@.to_multiset() =~= Multiset::<(Mv, i32)>::empty());
        assert(out@.to_multiset() =~= orig.to_multiset());
        assert(out@.to_multiset().len() == out@.len());
        assert(orig.to_multiset().len() == orig.len());
        assert forall|i: int| 0 <= i < out@.len() implies orig.contains(#[trigger] out@[i]) by {
            assert(out@.to_multiset().count(out@[i]) > 0);
        }
    }
    *v = out;
}

/// Two sequences that hold the same entries, multiset-wise, still hold
/// the same entries under any per-entry map.
proof fn lemma_map_values_to_multiset<A, B>(s: Seq<A>, t: Seq<A>, f: spec_fn(A) -> B)
    requires
        s.to_multiset() == t.to_multiset(),
    ensures
        s.map_values(f).to_multiset() == t.map_values(f).to_multiset(),
    decreases s.len(),
{
    broadcast use group_to_multiset_ensures;
    broadcast use vstd::multiset::group_multiset_axioms;

    if s.len() == 0 {
        s.to_multiset_ensures();
        t.to_multiset_ensures();
        assert(t.len() == 0);
        assert(s.map_values(f) =~= Seq::<B>::empty());
        assert(t.map_values(f) =~= Seq::<B>::empty());
    } else {
        let x = s.last();
        let s1 = s.drop_last();
        assert(s =~= s1.push(x));
        assert(s.to_multiset() =~= s1.to_multiset().insert(x));
        assert(s.to_multiset().count(x) > 0);
        assert(t.to_multiset().count(x) > 0);
        assert(t.contains(x));
        let j = choose|j: int| 0 <= j < t.len() && t[j] == x;
        let t1 = t.remove(j);
        assert(t1.to_multiset() =~= t.to_multiset().remove(x));
        assert(s1.to_multiset() =~= t1.to_multiset());
        lemma_map_values_to_multiset(s1, t1, f);
        assert(s.map_values(f) =~= s1.map_values(f).push(f(x)));
        assert(s.map_values(f).to_multiset() =~= s1.map_values(f).to_multiset().insert(f(x)));
        assert(t1.map_values(f) =~= t.map_values(f).remove(j));
        assert(t.map_values(f)[j] == f(x));
        assert(t1.map_values(f).to_multiset() =~= t.map_values(f).to_multiset().remove(f(x)));
        assert(t.map_values(f).contains(f(x)));
        assert(t.map_values(f).to_multiset().count(f(x)) > 0);
        assert(s.map_values(f).to_multiset() =~= t.map_values(f).to_multiset());
    }
}

impl Game {
    /// Resolve the pending captures of a position so its static score can
    /// be trusted: stand on the static evaluation, and only explore
    /// capture moves, deepest first, within the given limit. On a quiet
    /// position the answer is exactly the static evaluation; on a
    /// checkmate it is the losing sentinel, on a stalemate the draw score.
    #[verifier::rlimit(60)]
    pub fn quiescene_search(current: &chess::Board, alpha: i32, beta: i32, limit: u32) -> (r: i32)
        requires
            MIN_EVAL <= alpha < beta <= MAX_EVAL,
        ensures
            r == spec_quiesce(board_rep(*current), alpha as int, beta as int, limit as nat),
            MIN_EVAL <= r <= MAX_EVAL,
            rep_status(board_rep(*current)) == STATUS_CHECKMATE ==> r == MIN_EVAL,
            rep_status(board_rep(*current)) == STATUS_STALEMATE ==> r == 0,
            rep_status(board_rep(*current)) == STATUS_ONGOING ==> r >= spec_static_eval(
                board_rep(*current),
            ),
            rep_status(board_rep(*current)) == STATUS_ONGOING && rep_captures(
                board_rep(*current),
            ).len() == 0 ==> r == spec_static_eval(board_rep(*current)),
        decreases limit,
    {
        let ghost rep = board_rep(*current);
        let status = board_status(current);
        if status == STATUS_CHECKMATE {
            return MIN_EVAL;
        }
        if status == STATUS_STALEMATE {
            return 0;
        }
        let stand_pat = evaluate(current);
        let mut max_eval = stand_pat;
        let mut a = alpha;
        if stand_pat >= beta {
            return stand_pat;
        }
        if stand_pat > a {
            a = stand_pat;
        }
        let caps = capture_moves(current);
        let ghost cseq = caps@.map_values(|m: Mv| m.repr());
        let n = caps.len();
        if limit == 0 {
            return stand_pat;
        }
        proof {
            assert(spec_quiesce(rep, alpha as int, beta as int, limit as nat) == spec_quiesce_caps(
                rep,
                cseq,
                0,
                a as int,
                beta as int,
                stand_pat as int,
                limit as nat,
            ));
        }
        let mut i: usize = 0;
        while i < n
            invariant
                n == caps@.len(),
                i <= n,
                cseq == caps@.map_values(|m: Mv| m.repr()),
                cseq == rep_captures(rep),
                rep == board_rep(*current),
                forall|t: int| 0 <= t < n ==> (#[trigger] caps@[t]).wf(),
                forall|t: int|
                    0 <= t < n ==> rep_legal(board_rep(*current)).contains(
                        (#[trigger] caps@[t]).repr(),
                    ),
                MIN_EVAL <= a < beta <= MAX_EVAL,
                MIN_EVAL <= max_eval <= MAX_EVAL,
                n == 0 ==> max_eval == stand_pat,
                max_eval >= stand_pat,
                stand_pat < beta,
                stand_pat == spec_static_eval(board_rep(*current)),
                limit >= 1,
                rep_status(board_rep(*current)) == STATUS_ONGOING,
                spec_quiesce_caps(
                    rep,
                    cseq,
                    i as int,
                    a as int,
                    beta as int,
                    max_eval as int,
                    limit as nat,
                ) == spec_quiesce(rep, alpha as int, beta as int, limit as nat),
            decreases n - i,
        {
            let m = caps[i];
            proof {
                assert(cseq[i as int] == caps@[i as int].repr());
            }
            let child = board_make(current, m);
            let ce = Game::quiescene_search(&child, -beta, -a, limit - 1);
            let eval = -ce;
            proof {
                assert(spec_quiesce_caps(
                    rep,
                    cseq,
                    i as int,
                    a as int,
                    beta as int,
                    max_eval as int,
                    limit as nat,
                ) == if eval as int >= beta as int {
                    eval as int
                } else {
                    spec_quiesce_caps(
                        rep,
                        cseq,
                        i as int + 1,
                        if eval > a {
                            eval as int
                        } else {
                            a as int
                        },
                        beta as int,
                        if eval > max_eval {
                            eval as int
                        } else {
                            max_eval as int
                        },
                        limit as nat,
                    )
                });
            }
            if eval >= beta {
                return eval;
            }
            if eval > max_eval {
                max_eval = eval;
            }
            if eval > a {
                a = eval;
            }
            i = i + 1;
        }
        max_eval
    }

    /// The legal moves of `board`, cheapest first for the mover: a
    /// permutation of the position's legal-move list, sorted ascending by
    /// the cached table score of the position after each move, or by its
    /// static evaluation when the table has nothing.
    fn move_in_order(&self, board: &chess::Board) -> (r: Vec<Mv>)
        requires
            self.wf(),
        ensures
            r@.len() == rep_legal(board_rep(*board)).len(),
            forall|i: int|
                0 <= i < r@.len() ==> (#[trigger] r@[i]).wf() && rep_legal(
                    board_rep(*board),
                ).contains(r@[i].repr()),
            r@.map_values(|m: Mv| m.repr()).to_multiset() == rep_legal(
                board_rep(*board),
            ).to_multiset(),
            forall|i: int, j: int|
                0 <= i <= j < r@.len() ==> spec_order_key(
                    self.trans_table.slots(),
                    board_rep(*board),
                    #[trigger] r@[i],
                ) <= spec_order_key(self.trans_table.slots(), board_rep(*board), #[trigger] r@[j]),
    {
        let lm = legal_moves(board);
        let mut pairs: Vec<(Mv, i32)> = Vec::new();
        let n = lm.len();
        let mut i: usize = 0;
        while i < n
            invariant
                self.wf(),
                n == lm@.len(),
                i <= n,
                pairs@.len() == i,
                lm@.map_values(|m: Mv| m.repr()) == rep_legal(board_rep(*board)),
                forall|t: int| 0 <= t < n ==> (#[trigger] lm@[t]).wf(),
                forall|t: int| 0 <= t < i ==> (#[trigger] pairs@[t]).0 == lm@[t],
                forall|t: int|
                    0 <= t < i ==> (#[trigger] pairs@[t]).1 as int == spec_order_key(
                        self.trans_table.slots(),
                        board_rep(*board),
                        pairs@[t].0,
                    ),
            decreases n - i,
        {
            let m = lm[i];
            proof {
                assert(rep_legal(board_rep(*board))[i as int] == lm@[i as int].repr());
            }
            let child = board_make(board, m);
            let h = board_hash(&child);
            let key = match self.trans_table.get(h) {
                Some(e) => e.eval,
                None => evaluate(&child),
            };
            proof {
                assert(key as int == spec_order_key(
                    self.trans_table.slots(),
                    board_rep(*board),
                    m,
                ));
            }
            pairs.push((m, key));
            i = i + 1;
        }
        let ghost pre_sort = pairs@;
        proof {
            assert forall|t: int| 0 <= t < pre_sort.len() implies (#[trigger] pre_sort[t]).0.wf()
                && rep_legal(board_rep(*board)).contains(pre_sort[t].0.repr()) by {
                assert(pre_sort[t].0 == lm@[t]);
                assert(rep_legal(board_rep(*board))[t] == lm@[t].repr());
            }
        }
        sort_asc(&mut pairs);
        proof {
            assert forall|t: int| 0 <= t < pairs@.len() implies (#[trigger] pairs@[t]).0.wf()
                && rep_legal(board_rep(*board)).contains(pairs@[t].0.repr()) && pairs@[t].1 as int
                == spec_order_key(self.trans_table.slots(), board_rep(*board), pairs@[t].0) by {
                assert(pre_sort.contains(pairs@[t]));
                let k = choose|k: int| 0 <= k < pre_sort.len() && pre_sort[k] == pairs@[t];
                assert(pre_sort[k].1 as int == spec_order_key(
                    self.trans_table.slots(),
                    board_rep(*board),
                    pre_sort[k].0,
                ));
            }
        }
        let mut r: Vec<Mv> = Vec::new();
        let np = pairs.len();
        let mut j: usize = 0;
        while j < np
            invariant
                np == pairs@.len(),
                j <= np,
                r@.len() == j,
                np == rep_legal(board_rep(*board)).len(),
                forall|t: int|
                    0 <= t < np ==> (#[trigger] pairs@[t]).0.wf() && rep_legal(
                        board_rep(*board),
                    ).contains(pairs@[t].0.repr()),
                forall|t: int| 0 <= t < j ==> (#[trigger] r@[t]) == pairs@[t].0,
            decreases np - j,
        {
            r.push(pairs[j].0);
            j = j + 1;
        }
        proof {
            let tbl = self.trans_table.slots();
            let s = board_rep(*board);
            assert forall|x: int, y: int| 0 <= x <= y < r@.len() implies spec_order_key(
                tbl,
                s,
                #[trigger] r@[x],
            ) <= spec_order_key(tbl, s, #[trigger] r@[y]) by {
                assert(pairs@[x].1 <= pairs@[y].1);
            }
            lemma_map_values_to_multiset(pairs@, pre_sort, |p: (Mv, i32)| p.0);
            assert(r@ =~= pairs@.map_values(|p: (Mv, i32)| p.0));
            assert(pre_sort.map_values(|p: (Mv, i32)| p.0) =~= lm@);
            assert(r@.to_multiset() == lm@.to_multiset());
            lemma_map_values_to_multiset(r@, lm@, |m: Mv| m.repr());
            assert(lm@.map_values(|m: Mv| m.repr()) == rep_legal(s));
        }
        r
    }

    /// Search one child on behalf of the move loop, with the principal
    /// variation treatment: inside a zero-width node everything is
    /// scouted; the first candidate of a full node gets the full window;
    /// later moves are scouted with a null window and re-searched with the
    /// full window only when the scout lands inside it. Returns the
    /// child's score from the parent's perspective.
    #[allow(clippy::too_many_arguments)]
    fn pvs_child(
        &mut self,
        child: &chess::Board,
        hist: &mut Vec<Mv>,
        nd: u32,
        ext_left: u32,
        alpha: i32,
        beta: i32,
        max_eval: i32,
        alpha_raised: bool,
        is_pv: bool,
        zero_window: bool,
    ) -> (r: i32)
        requires
            old(self).wf(),
            valid_window(alpha as int, beta as int),
            nd + ext_left <= 32,
        ensures
            search_frame(*old(self), *final(self)),
            final(hist)@ == old(hist)@,
            MIN_EVAL <= r <= MAX_EVAL,
        decreases nd + ext_left, 3int,
    {
        if zero_window {
            let e = self.zero_window_search(child, hist, nd, ext_left, 1 - beta);
            -e
        } else if !alpha_raised {
            let e = self.alpha_beta_search(child, hist, nd, ext_left, -beta, -alpha, is_pv, false);
            -e
        } else {
            let e = self.zero_window_search(child, hist, nd, ext_left, -alpha);
            let scout = -e;
            if max_eval < scout && scout < beta {
                let e2 = self.alpha_beta_search(child, hist, nd, ext_left, -beta, -alpha, true, false);
                -e2
            } else {
                scout
            }
        }
    }

    /// An alpha-beta search with the window collapsed to nothing: the
    /// cheapest proof that the position is at least, or at most, `beta`.
    fn zero_window_search(
        &mut self,
        current: &chess::Board,
        hist: &mut Vec<Mv>,
        depth: u32,
        ext_depth: u32,
        beta: i32,
    ) -> (r: i32)
        requires
            old(self).wf(),
            MIN_EVAL + 1 <= beta <= MAX_EVAL,
            depth + ext_depth <= 32,
        ensures
            search_frame(*old(self), *final(self)),
            final(hist)@ == old(hist)@,
            MIN_EVAL <= r <= MAX_EVAL,
        decreases depth + ext_depth, 2int,
    {
        self.alpha_beta_search(current, hist, depth, ext_depth, beta - 1, beta, false, true)
    }

    /// The negamax alpha-beta search. `hist` carries every move from the
    /// start of the game to `current`, for the repetition guard; it comes
    /// back exactly as it went in. A checkmated position scores the losing
    /// sentinel, a stalemate scores zero; everything else is fail-soft
    /// within the sentinels. The routine first probes the transposition
    /// table: a coherent entry deep enough for the node, and strictly
    /// inside the window at a principal-variation node, is answered as it
    /// stands (`spec_tt_probe`). Past a failed probe a depth-zero node
    /// resolves to the quiescence value, unless the time manager already
    /// says the budget is spent; deeper nodes recurse over the ordered
    /// moves, fill the table, count the node, and give up with a
    /// provisional zero once time is up.
    #[allow(clippy::too_many_arguments)]
    #[verifier::rlimit(60)]
    fn alpha_beta_search(
        &mut self,
        current: &chess::Board,
        hist: &mut Vec<Mv>,
        depth: u32,
        ext_depth: u32,
        alpha: i32,
        beta: i32,
        is_pv: bool,
        zero_window: bool,
    ) -> (r: i32)
        requires
            old(self).wf(),
            valid_window(alpha as int, beta as int),
            depth + ext_depth <= 32,
        ensures
            search_frame(*old(self), *final(self)),
            final(hist)@ == old(hist)@,
            MIN_EVAL <= r <= MAX_EVAL,
            rep_status(board_rep(*current)) == STATUS_CHECKMATE ==> r == MIN_EVAL,
            rep_status(board_rep(*current)) == STATUS_STALEMATE ==> r == 0,
            ({
                let probe = spec_tt_probe(
                    old(self).trans_table.slots(),
                    board_rep(*current),
                    depth,
                    alpha as int,
                    beta as int,
                    is_pv,
                    zero_window,
                );
                &&& rep_status(board_rep(*current)) == STATUS_ONGOING && probe is Some ==> Some(r)
                    == probe
                &&& rep_status(board_rep(*current)) == STATUS_ONGOING && probe is None && depth
                    == 0 ==> r == 0 || r == spec_quiesce(
                    board_rep(*current),
                    alpha as int,
                    beta as int,
                    QUIESCENCE_LIMIT as nat,
                )
            }),
        decreases depth + ext_depth, 1int,
    {
        let status = board_status(current);
        if status == STATUS_CHECKMATE {
            return MIN_EVAL;
        }
        if status == STATUS_STALEMATE {
            return 0;
        }
        if self.searched < u64::MAX {
            self.searched = self.searched + 1;
        }
        let tt_depth: u32 = if zero_window {
            depth
        } else {
            depth + NON_ZERO_WINDOW
        };
        let h = board_hash(current);
        match self.trans_table.get(h) {
            Some(t_e) => {
                if (!is_pv || (alpha < t_e.eval && t_e.eval < beta)) && t_e.depth >= tt_depth
                    && MIN_EVAL <= t_e.eval && t_e.eval <= MAX_EVAL {
                    proof {
                        assert(spec_tt_probe(
                            old(self).trans_table.slots(),
                            board_rep(*current),
                            depth,
                            alpha as int,
                            beta as int,
                            is_pv,
                            zero_window,
                        ) == Some(t_e.eval));
                    }
                    return t_e.eval;
                }
            },
            None => {},
        }
        proof {
            assert(spec_tt_probe(
                old(self).trans_table.slots(),
                board_rep(*current),
                depth,
                alpha as int,
                beta as int,
                is_pv,
                zero_window,
            ) is None);
        }
        if self.times_up() {
            return 0;
        }
        if depth == 0 {
            return Game::quiescene_search(current, alpha, beta, QUIESCENCE_LIMIT);
        }
        match board_null(current) {
            Some(nb) => {
                let nulld: u32 = if depth >= 4 {
                    depth - 4
                } else {
                    0
                };
                let e = self.zero_window_search(&nb, hist, nulld, ext_depth, 1 - beta);
                let eval = -e;
                if self.times_up() {
                    return 0;
                }
                if eval >= beta {
                    return eval;
                }
            },
            None => {},
        }
        let ordered = self.move_in_order(current);
        let mut max_eval: i32 = if zero_window {
            alpha
        } else {
            MIN_EVAL
        };
        let mut a = alpha;
        let mut alpha_raised = false;
        let n = ordered.len();
        let mut i: usize = 0;
        while i < n
            invariant
                self.wf(),
                search_frame(*old(self), *self),
                hist@ == old(hist)@,
                n == ordered@.len(),
                i <= n,
                forall|t: int|
                    0 <= t < n ==> (#[trigger] ordered@[t]).wf() && rep_legal(
                        board_rep(*current),
                    ).contains(ordered@[t].repr()),
                valid_window(a as int, beta as int),
                MIN_EVAL <= max_eval <= MAX_EVAL,
                max_eval < beta,
                depth >= 1,
                depth + ext_depth <= 32,
                rep_status(board_rep(*current)) == STATUS_ONGOING,
                tt_depth == if zero_window { depth as int } else { depth + NON_ZERO_WINDOW },
                spec_tt_probe(
                    old(self).trans_table.slots(),
                    board_rep(*current),
                    depth,
                    alpha as int,
                    beta as int,
                    is_pv,
                    zero_window,
                ) is None,
            decreases n - i,
        {
            let m = ordered[i];
            let child_score: i32;
            if three_fold(hist, m) {
                child_score = 0;
            } else {
                let child = board_make(current, m);
                let in_chk = board_in_check(&child);
                let mut ext: u32 = 0;
                if in_chk {
                    ext = ext + 1;
                }
                if m.promo != 0 {
                    ext = ext + 1;
                }
                let ext = if ext > ext_depth {
                    ext_depth
                } else {
                    ext
                };
                let reduced = i >= REDUCED_SEARCH_DEPTH;
                let base: u32 = depth - 1 + ext;
                let nd: u32 = if reduced && base > 0 {
                    base - 1
                } else {
                    base
                };
                let ghost h0 = hist@;
                hist.push(m);
                let first = self.pvs_child(
                    &child,
                    hist,
                    nd,
                    ext_depth - ext,
                    a,
                    beta,
                    max_eval,
                    alpha_raised,
                    is_pv,
                    zero_window,
                );
                if self.times_up() {
                    let _ = hist.pop();
                    proof {
                        assert(hist@ =~= h0);
                    }
                    return 0;
                }
                let mut cs = first;
                if !zero_window && cs > max_eval && reduced {
                    let again = self.pvs_child(
                        &child,
                        hist,
                        base,
                        ext_depth - ext,
                        a,
                        beta,
                        max_eval,
                        alpha_raised,
                        is_pv,
                        zero_window,
                    );
                    if !self.times_up() {
                        cs = again;
                    }
                }
                let _ = hist.pop();
                proof {
                    assert(hist@ =~= h0);
                }
                let ch = board_hash(&child);
                self.trans_table.insert(
                    ch,
                    TransTableEntry { depth: tt_depth, eval: cs, age: self.age },
                );
                child_score = cs;
            }
            if child_score >= beta {
                return child_score;
            }
            if child_score > max_eval {
                max_eval = child_score;
                if child_score > a {
                    a = child_score;
                    alpha_raised = true;
                }
            }
            i = i + 1;
        }
        max_eval
    }

    /// One full move decision by iterative deepening. The legal root moves
    /// are scored statically and sorted; each deepening iteration searches
    /// them in order, late ones a ply shallower first, re-sorts by the new
    /// scores, and stops on a forced mate or when the budget runs out. The
    /// answer is always one of the position's legal moves with its score;
    /// on a position with none, the sentinel move and score zero.
    pub fn search(&mut self) -> (r: (Mv, i32))
        requires
            old(self).wf(),
        ensures
            search_frame(*old(self), *final(self)),
            final(self).wf(),
            rep_legal(board_rep(old(self).board)).len() == 0 ==> r == (
                Mv { from: 0u8, to: 0u8, promo: 0u8 },
                0i32,
            ),
            rep_legal(board_rep(old(self).board)).len() > 0 ==> r.0.wf() && rep_legal(
                board_rep(old(self).board),
            ).contains(r.0.repr()),
            rep_legal(board_rep(old(self).board)).len() == 1 ==> r.0.repr() == rep_legal(
                board_rep(old(self).board),
            )[0] && r.1 == spec_static_eval(
                rep_after(board_rep(old(self).board), r.0.from, r.0.to, r.0.promo),
            ),
            MIN_EVAL <= r.1 <= MAX_EVAL,
    {
        let lm = legal_moves(&self.board);
        let n = lm.len();
        if n == 0 {
            return (Mv { from: 0, to: 0, promo: 0 }, 0);
        }
        let mut roots: Vec<(Mv, i32)> = Vec::new();
        let mut i: usize = 0;
        while i < n
            invariant
                *self == *old(self),
                self.wf(),
                n == lm@.len(),
                i <= n,
                roots@.len() == i,
                lm@.map_values(|m: Mv| m.repr()) == rep_legal(board_rep(old(self).board)),
                forall|t: int| 0 <= t < n ==> (#[trigger] lm@[t]).wf(),
                forall|t: int| 0 <= t < i ==> (#[trigger] roots@[t]).0 == lm@[t],
                forall|t: int| 0 <= t < i ==> MIN_EVAL <= (#[trigger] roots@[t]).1 <= MAX_EVAL,
                forall|t: int|
                    0 <= t < i ==> (#[trigger] roots@[t]).1 == spec_static_eval(
                        rep_after(
                            board_rep(old(self).board),
                            lm@[t].from,
                            lm@[t].to,
                            lm@[t].promo,
                        ),
                    ),
            decreases n - i,
        {
            let m = lm[i];
            proof {
                assert(rep_legal(board_rep(self.board))[i as int] == lm@[i as int].repr());
            }
            let child = board_make(&self.board, m);
            let e = evaluate(&child);
            roots.push((m, e));
            i = i + 1;
        }
        proof {
            assert forall|t: int| 0 <= t < roots@.len() implies (#[trigger] roots@[t]).0.wf()
                && rep_legal(board_rep(old(self).board)).contains(roots@[t].0.repr()) by {
                assert(roots@[t].0 == lm@[t]);
                assert(rep_legal(board_rep(old(self).board))[t] == lm@[t].repr());
            }
        }
        if roots.len() == 1 {
            proof {
                assert(roots@[0].0 == lm@[0]);
                assert(rep_legal(board_rep(old(self).board))[0] == lm@[0].repr());
            }
            return roots[0];
        }
        self.sort_roots(&mut roots, Ghost(board_rep(old(self).board)));
        let mut hist: Vec<Mv> = Vec::new();
        let nm = self.moves.len();
        let mut k: usize = 0;
        while k < nm
            invariant
                *self == *old(self),
                nm == self.moves@.len(),
                k <= nm,
                hist@ == self.moves@.take(k as int),
            decreases nm - k,
        {
            hist.push(self.moves[k]);
            k = k + 1;
        }
        proof {
            assert(hist@ =~= old(self).moves@);
        }
        let nr = roots.len();
        let mut d: u32 = 1;
        while d <= MAX_SEARCH_DEPTH
            invariant_except_break
                1 <= d <= MAX_SEARCH_DEPTH + 1,
            invariant
                self.wf(),
                search_frame(*old(self), *self),
                hist@ == old(self).moves@,
                nr == roots@.len(),
                nr >= 1,
                forall|t: int|
                    0 <= t < nr ==> (#[trigger] roots@[t]).0.wf() && rep_legal(
                        board_rep(old(self).board),
                    ).contains(roots@[t].0.repr()),
                forall|t: int| 0 <= t < nr ==> MIN_EVAL <= (#[trigger] roots@[t]).1 <= MAX_EVAL,
            ensures
                true,
            decreases MAX_SEARCH_DEPTH + 1 - d,
        {
            let mut max_root: i32 = MIN_EVAL;
            let mut j: usize = 0;
            while j < nr
                invariant_except_break
                    j <= nr,
                invariant
                    self.wf(),
                    search_frame(*old(self), *self),
                    hist@ == old(self).moves@,
                    nr == roots@.len(),
                    nr >= 1,
                    1 <= d <= MAX_SEARCH_DEPTH,
                    MIN_EVAL <= max_root <= MAX_EVAL,
                    forall|t: int|
                        0 <= t < nr ==> (#[trigger] roots@[t]).0.wf() && rep_legal(
                            board_rep(old(self).board),
                        ).contains(roots@[t].0.repr()),
                    forall|t: int|
                        0 <= t < nr ==> MIN_EVAL <= (#[trigger] roots@[t]).1 <= MAX_EVAL,
                ensures
                    true,
                decreases nr - j,
            {
                let m = roots[j].0;
                if three_fold(&hist, m) {
                    roots[j] = (m, 0);
                    j = j + 1;
                } else {
                    let child = board_make(&self.board, m);
                    let dj: u32 = if j >= REDUCED_SEARCH_DEPTH {
                        d - 1
                    } else {
                        d
                    };
                    let ghost hh = hist@;
                    hist.push(m);
                    let e1 = self.alpha_beta_search(
                        &child,
                        &mut hist,
                        dj,
                        SEARCH_EXTENSION_LIMIT,
                        MIN_EVAL,
                        MAX_EVAL,
                        true,
                        false,
                    );
                    let mut e = -e1;
                    if self.times_up() {
                        let _ = hist.pop();
                        proof {
                            assert(hist@ =~= hh);
                        }
                        break ;
                    }
                    if j >= REDUCED_SEARCH_DEPTH && e > max_root && e < MAX_EVAL {
                        let e2 = self.alpha_beta_search(
                            &child,
                            &mut hist,
                            dj + 1,
                            SEARCH_EXTENSION_LIMIT,
                            MIN_EVAL,
                            -e,
                            true,
                            false,
                        );
                        if !self.times_up() {
                            e = -e2;
                        }
                    }
                    let _ = hist.pop();
                    proof {
                        assert(hist@ =~= hh);
                    }
                    if e > max_root {
                        max_root = e;
                    }
                    roots[j] = (m, e);
                    j = j + 1;
                }
            }
            self.sort_roots(&mut roots, Ghost(board_rep(old(self).board)));
            if roots[0].1 == MAX_EVAL {
                break ;
            }
            if self.times_up() {
                break ;
            }
            d = d + 1;
        }
        self.sort_roots(&mut roots, Ghost(board_rep(old(self).board)));
        roots[0]
    }

    /// Re-sort the scored root moves best first, keeping exactly the same
    /// entries; the ghost snapshot ties their legality to the root
    /// position across the sort.
    fn sort_roots(&self, roots: &mut Vec<(Mv, i32)>, Ghost(rep): Ghost<Seq<u64>>)
        requires
            forall|t: int|
                0 <= t < old(roots)@.len() ==> (#[trigger] old(roots)@[t]).0.wf() && rep_legal(
                    rep,
                ).contains(old(roots)@[t].0.repr()),
            forall|t: int|
                0 <= t < old(roots)@.len() ==> MIN_EVAL <= (#[trigger] old(roots)@[t]).1
                    <= MAX_EVAL,
        ensures
            final(roots)@.len() == old(roots)@.len(),
            sorted_desc(final(roots)@),
            forall|t: int|
                0 <= t < final(roots)@.len() ==> (#[trigger] final(roots)@[t]).0.wf() && rep_legal(
                    rep,
                ).contains(final(roots)@[t].0.repr()),
            forall|t: int|
                0 <= t < final(roots)@.len() ==> MIN_EVAL <= (#[trigger] final(roots)@[t]).1
                    <= MAX_EVAL,
    {
        let ghost pre = roots@;
        sort_desc(roots);
        proof {
            assert forall|t: int| 0 <= t < roots@.len() implies (#[trigger] roots@[t]).0.wf()
                && rep_legal(rep).contains(roots@[t].0.repr()) && MIN_EVAL <= roots@[t].1
                <= MAX_EVAL by {
                assert(pre.contains(roots@[t]));
            }
        }
    }
}

} // verus!
