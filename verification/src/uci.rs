//! The text protocol's data: parsing a long-algebraic move and a
//! millisecond count from raw bytes. The line loop around them lives with
//! the host; these functions carry the exact meaning of the bytes.

use vstd::prelude::*;

use crate::rule_engine::Mv;

verus! {

/// The move a long-algebraic string like `e2e4` or `e7e8q` denotes:
/// file then rank of the source square, file then rank of the
/// destination, and an optional promotion letter. Anything else denotes
/// nothing.
pub open spec fn spec_uci_move(s: Seq<u8>) -> Option<Mv> {
    if s.len() != 4 && s.len() != 5 {
        None
    } else if !(97 <= s[0] <= 104 && 49 <= s[1] <= 56 && 97 <= s[2] <= 104 && 49 <= s[3] <= 56) {
        None
    } else {
        let from = ((s[1] - 49) * 8 + (s[0] - 97)) as u8;
        let to = ((s[3] - 49) * 8 + (s[2] - 97)) as u8;
        if s.len() == 4 {
            Some(Mv { from, to, promo: 0 })
        } else if s[4] == 110 {
            Some(Mv { from, to, promo: 1 })
        } else if s[4] == 98 {
            Some(Mv { from, to, promo: 2 })
        } else if s[4] == 114 {
            Some(Mv { from, to, promo: 3 })
        } else if s[4] == 113 {
            Some(Mv { from, to, promo: 4 })
        } else {
            None
        }
    }
}

/// Parse a long-algebraic move such as `e2e4` or `e7e8q`. Returns exactly
/// the move the bytes denote, and nothing on malformed input; every
/// returned move is well formed.
pub fn move_from_uci(m: &[u8]) -> (r: Option<Mv>)
    ensures
        r == spec_uci_move(m@),
        r matches Some(mv) ==> mv.wf(),
{
    if m.len() != 4 && m.len() != 5 {
        return None;
    }
    let f1 = m[0];
    let r1 = m[1];
    let f2 = m[2];
    let r2 = m[3];
    if !(97 <= f1 && f1 <= 104 && 49 <= r1 && r1 <= 56 && 97 <= f2 && f2 <= 104 && 49 <= r2 && r2
        <= 56) {
        return None;
    }
    let from = (r1 - 49) * 8 + (f1 - 97);
    let to = (r2 - 49) * 8 + (f2 - 97);
    if m.len() == 4 {
        return Some(Mv { from, to, promo: 0 });
    }
    let p = m[4];
    if p == 110 {
        Some(Mv { from, to, promo: 1 })
    } else if p == 98 {
        Some(Mv { from, to, promo: 2 })
    } else if p == 114 {
        Some(Mv { from, to, promo: 3 })
    } else if p == 113 {
        Some(Mv { from, to, promo: 4 })
    } else {
        None
    }
}

/// The number a string of decimal digits denotes.
pub open spec fn spec_digits_val(s: Seq<u8>) -> int
    decreases s.len(),
{
    if s.len() == 0 {
        0
    } else {
        spec_digits_val(s.drop_last()) * 10 + (s.last() - 48)
    }
}

/// Nothing but digits, and at least one of them.
pub open spec fn is_digits(s: Seq<u8>) -> bool {
    s.len() > 0 && forall|i: int| 0 <= i < s.len() ==> 48 <= #[trigger] s[i] <= 57
}

/// Ten to the `n`.
pub open spec fn pow10(n: nat) -> int
    decreases n,
{
    if n == 0 {
        1
    } else {
        10 * pow10((n - 1) as nat)
    }
}

proof fn lemma_pow10_pos(n: nat)
    ensures
        pow10(n) >= 1,
    decreases n,
{
    if n > 0 {
        lemma_pow10_pos((n - 1) as nat);
    }
}

proof fn lemma_pow10_mono(a: nat, b: nat)
    requires
        a <= b,
    ensures
        pow10(a) <= pow10(b),
    decreases b,
{
    lemma_pow10_pos(a);
    if a < b {
        lemma_pow10_mono(a, (b - 1) as nat);
    }
}

proof fn lemma_pow10_13()
    ensures
        pow10(13) == 10000000000000,
{
    assert(pow10(0) == 1);
    assert(pow10(1) == 10);
    assert(pow10(2) == 100);
    assert(pow10(3) == 1000);
    assert(pow10(4) == 10000);
    assert(pow10(5) == 100000);
    assert(pow10(6) == 1000000);
    assert(pow10(7) == 10000000);
    assert(pow10(8) == 100000000);
    assert(pow10(9) == 1000000000);
    assert(pow10(10) == 10000000000);
    assert(pow10(11) == 100000000000);
    assert(pow10(12) == 1000000000000);
    assert(pow10(13) == 10000000000000);
}

proof fn lemma_digits_val_bounds(s: Seq<u8>)
    requires
        forall|i: int| 0 <= i < s.len() ==> 48 <= #[trigger] s[i] <= 57,
    ensures
        0 <= spec_digits_val(s) < pow10(s.len()),
    decreases s.len(),
{
    if s.len() > 0 {
        assert forall|i: int| 0 <= i < s.drop_last().len() implies 48 <= #[trigger] s.drop_last()[i]
            <= 57 by {
            assert(s.drop_last()[i] == s[i]);
        }
        lemma_digits_val_bounds(s.drop_last());
        assert(s.last() == s[s.len() - 1]);
    }
}

/// Parse a millisecond count: a string of at most thirteen decimal digits
/// denotes its number; anything else, including a longer string, denotes
/// nothing. Thirteen digits hold over three hundred years of milliseconds.
pub fn parse_ms(s: &[u8]) -> (r: Option<u64>)
    ensures
        is_digits(s@) && s@.len() <= 13 ==> r == Some(spec_digits_val(s@) as u64),
        !(is_digits(s@) && s@.len() <= 13) ==> r == None::<u64>,
{
    let n = s.len();
    if n == 0 || n > 13 {
        return None;
    }
    let mut acc: u64 = 0;
    let mut i: usize = 0;
    while i < n
        invariant
            n == s@.len(),
            0 < n <= 13,
            i <= n,
            forall|t: int| 0 <= t < i ==> 48 <= #[trigger] s@[t] <= 57,
            acc == spec_digits_val(s@.take(i as int)),
            acc < 10000000000000,
        decreases n - i,
    {
        let d = s[i];
        if d < 48 || d > 57 {
            proof {
                assert(!is_digits(s@));
            }
            return None;
        }
        proof {
            assert(s@.take(i + 1).drop_last() =~= s@.take(i as int));
            assert(s@.take(i + 1).last() == s@[i as int]);
            assert forall|t: int| 0 <= t < s@.take(i + 1).len() implies 48 <= #[trigger] s@.take(
                i + 1,
            )[t] <= 57 by {
                assert(s@.take(i + 1)[t] == s@[t]);
            }
            lemma_digits_val_bounds(s@.take(i + 1));
            lemma_pow10_mono((i + 1) as nat, 13);
            lemma_pow10_13();
        }
        acc = acc * 10 + ((d - 48) as u64);
        i = i + 1;
    }
    proof {
        assert(s@.take(n as int) =~= s@);
    }
    Some(acc)
}

} // verus!
