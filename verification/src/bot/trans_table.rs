//! The transposition table: a fixed-capacity, always-replace cache of
//! search results keyed by position hash.
//!
//! Each slot packs its entry into three 64-bit words — the hash XOR-ed with
//! the meta word, the meta word (age above depth), and the score above a
//! checksum of the whole payload — so that a reader can tell a coherent
//! slot from a torn or mismatched one without any lock: the hash must
//! reconstruct and the checksum must re-compute.

use vstd::arithmetic::div_mod::lemma_fundamental_div_mod_converse;
use vstd::prelude::*;

use crate::bot::config::T_TABLE_SIZE;

verus! {

/// One search result: the nominal depth it was computed at (with the
/// window tag in the high bit), its score, and the age of the search that
/// stored it.
#[derive(Clone, Copy, PartialEq, Eq, Structural, Debug)]
pub struct TransTableEntry {
    pub depth: u32,
    pub eval: i32,
    pub age: u32,
}

/// One slot of the table, as the three packed words.
#[derive(Clone, Copy, PartialEq, Eq, Structural, Debug)]
pub struct HashTableEntry {
    pub hash: u64,
    pub age_depth: u64,
    pub eval_checksum: u64,
}

/// What murmur3::murmur3_32 returns over the little-endian bytes of
/// (depth, eval, age) with seed 0.
pub uninterp spec fn checksum_of(depth: u32, eval: i32, age: u32) -> u32;

/// Relies on murmur3::murmur3_32: a function of the twelve bytes alone.
/// Reading from an in-memory slice cannot fail, so the error arm is dead.
#[verifier::external_body]
fn checksum32(depth: u32, eval: i32, age: u32) -> (r: u32)
    ensures
        r == checksum_of(depth, eval, age),
{
    let mut buf = [0u8; 12];
    buf[0..4].copy_from_slice(&depth.to_le_bytes());
    buf[4..8].copy_from_slice(&eval.to_le_bytes());
    buf[8..12].copy_from_slice(&age.to_le_bytes());
    murmur3::murmur3_32(&mut &buf[..], 0).unwrap_or(0)
}

/// The slot an entry with this hash lives in.
pub open spec fn slot_of(k: u64) -> int {
    (k as int) % (T_TABLE_SIZE as int)
}

/// The meta word: the age in the high half, the depth in the low half.
pub open spec fn meta_of(e: TransTableEntry) -> int {
    e.age * 0x1_0000_0000 + e.depth
}

/// The score's 32 bits read as an unsigned value.
pub open spec fn eval_bits(eval: i32) -> int {
    if eval >= 0 {
        eval as int
    } else {
        eval + 0x1_0000_0000
    }
}

/// The third word: the score's bits in the high half, the checksum of the
/// whole payload in the low half.
pub open spec fn check_word_of(e: TransTableEntry) -> int {
    eval_bits(e.eval) * 0x1_0000_0000 + checksum_of(e.depth, e.eval, e.age)
}

/// The slot an insert of `e` under hash `k` writes.
pub open spec fn packed_slot(k: u64, e: TransTableEntry) -> HashTableEntry {
    HashTableEntry {
        hash: k ^ (meta_of(e) as u64),
        age_depth: meta_of(e) as u64,
        eval_checksum: check_word_of(e) as u64,
    }
}

/// The table after an insert of `e` under hash `k`.
pub open spec fn spec_insert(s: Seq<HashTableEntry>, k: u64, e: TransTableEntry) -> Seq<
    HashTableEntry,
> {
    s.update(slot_of(k), packed_slot(k, e))
}

/// What a lookup under hash `k` returns: the slot's entry when the slot's
/// words reconstruct `k` and re-compute their checksum, and nothing
/// otherwise.
pub open spec fn spec_lookup(s: Seq<HashTableEntry>, k: u64) -> Option<TransTableEntry> {
    let sl = s[slot_of(k)];
    let meta = sl.age_depth;
    if sl.hash ^ meta != k {
        None
    } else {
        let depth = (meta as int) % 0x1_0000_0000;
        let age = (meta as int) / 0x1_0000_0000;
        let bits = (sl.eval_checksum as int) / 0x1_0000_0000;
        let chk = (sl.eval_checksum as int) % 0x1_0000_0000;
        let eval = if bits >= 0x8000_0000 {
            bits - 0x1_0000_0000
        } else {
            bits
        };
        if chk == checksum_of(depth as u32, eval as i32, age as u32) {
            Some(TransTableEntry { depth: depth as u32, eval: eval as i32, age: age as u32 })
        } else {
            None
        }
    }
}

/// The slots of a fresh table: every word of every slot zero.
pub open spec fn zeroed_slots() -> Seq<HashTableEntry> {
    Seq::new(
        T_TABLE_SIZE as nat,
        |i: int| HashTableEntry { hash: 0, age_depth: 0, eval_checksum: 0 },
    )
}

/// The table itself: a vector of packed slots, indexed by hash modulo
/// capacity, always-replace.
pub struct TransTable {
    inner: Vec<HashTableEntry>,
}

impl TransTable {
    /// The slots as the contracts speak of them.
    pub closed spec fn slots(self) -> Seq<HashTableEntry> {
        self.inner@
    }

    /// The table has exactly its fixed capacity.
    pub open spec fn wf(self) -> bool {
        self.slots().len() == T_TABLE_SIZE
    }

    /// A fresh table with every slot zeroed: it answers nothing until its
    /// first insert (see `lemma_fresh_miss`).
    pub fn new() -> (r: TransTable)
        ensures
            r.wf(),
            r.slots() == zeroed_slots(),
    {
        let mut inner: Vec<HashTableEntry> = Vec::with_capacity(T_TABLE_SIZE);
        while inner.len() < T_TABLE_SIZE
            invariant
                inner@.len() <= T_TABLE_SIZE,
                inner@ == zeroed_slots().take(inner@.len() as int),
            decreases T_TABLE_SIZE - inner@.len(),
        {
            inner.push(HashTableEntry { hash: 0, age_depth: 0, eval_checksum: 0 });
            proof {
                assert(inner@ =~= zeroed_slots().take(inner@.len() as int));
            }
        }
        proof {
            assert(inner@ =~= zeroed_slots());
        }
        TransTable { inner }
    }

    /// One slot's raw words, for inspection.
    pub fn raw_slot(&self, idx: usize) -> (r: HashTableEntry)
        requires
            self.wf(),
            idx < T_TABLE_SIZE,
        ensures
            r == self.slots()[idx as int],
    {
        self.inner[idx]
    }

    /// Store `v` in the slot of `k`, overwriting whatever was there.
    pub fn insert(&mut self, k: u64, v: TransTableEntry)
        requires
            old(self).wf(),
        ensures
            final(self).wf(),
            final(self).slots() == spec_insert(old(self).slots(), k, v),
    {
        let checksum = checksum32(v.depth, v.eval, v.age);
        let meta: u64 = (v.age as u64) * 0x1_0000_0000 + (v.depth as u64);
        let bits: u64 = if v.eval >= 0 {
            v.eval as u64
        } else {
            ((v.eval as i64) + 0x1_0000_0000) as u64
        };
        let word: u64 = bits * 0x1_0000_0000 + (checksum as u64);
        let idx = (k % (T_TABLE_SIZE as u64)) as usize;
        self.inner[idx] = HashTableEntry { hash: k ^ meta, age_depth: meta, eval_checksum: word };
        assert(self.slots() =~= spec_insert(old(self).slots(), k, v));
    }

    /// Look `k` up: the stored entry when the slot coheres with `k`, and
    /// `None` on a missing, replaced or torn slot.
    pub fn get(&self, k: u64) -> (r: Option<TransTableEntry>)
        requires
            self.wf(),
        ensures
            r == spec_lookup(self.slots(), k),
    {
        let idx = (k % (T_TABLE_SIZE as u64)) as usize;
        let sl = self.inner[idx];
        let meta = sl.age_depth;
        if (sl.hash ^ meta) != k {
            return None;
        }
        let depth = (meta % 0x1_0000_0000) as u32;
        let age = (meta / 0x1_0000_0000) as u32;
        let word = sl.eval_checksum;
        let bits = word / 0x1_0000_0000;
        let chk = (word % 0x1_0000_0000) as u32;
        let eval: i32 = if bits >= 0x8000_0000 {
            ((bits as i64) - 0x1_0000_0000) as i32
        } else {
            bits as i32
        };
        let expect = checksum32(depth, eval, age);
        if chk == expect {
            Some(TransTableEntry { depth, eval, age })
        } else {
            None
        }
    }
}

/// A lookup right after an insert with the same hash returns exactly the
/// entry that was inserted, all three fields intact.
pub proof fn lemma_round_trip(s: Seq<HashTableEntry>, k: u64, e: TransTableEntry)
    requires
        s.len() == T_TABLE_SIZE,
    ensures
        spec_lookup(spec_insert(s, k, e), k) == Some(e),
{
    let sl = packed_slot(k, e);
    let meta = sl.age_depth;
    assert(((k ^ meta) ^ meta) == k) by (bit_vector);
    lemma_fundamental_div_mod_converse(meta_of(e), 0x1_0000_0000, e.age as int, e.depth as int);
    lemma_fundamental_div_mod_converse(
        check_word_of(e),
        0x1_0000_0000,
        eval_bits(e.eval),
        checksum_of(e.depth, e.eval, e.age) as int,
    );
}

/// A fresh table carries no information: under any nonzero hash the zero
/// slot fails to reconstruct it, so the lookup misses.
pub proof fn lemma_fresh_miss(k: u64)
    requires
        k != 0,
    ensures
        spec_lookup(zeroed_slots(), k) == None::<TransTableEntry>,
{
    assert((0u64 ^ 0u64) == 0u64) by (bit_vector);
}

/// An insert never answers for a different hash: after an insert under
/// `k1`, a lookup under any other hash that maps to the same slot returns
/// nothing, because the slot's words reconstruct `k1`, not `k2`.
pub proof fn lemma_hash_rejection(s: Seq<HashTableEntry>, k1: u64, k2: u64, e: TransTableEntry)
    requires
        s.len() == T_TABLE_SIZE,
        k1 != k2,
        slot_of(k1) == slot_of(k2),
    ensures
        spec_lookup(spec_insert(s, k1, e), k2) == None::<TransTableEntry>,
{
    let sl = packed_slot(k1, e);
    let meta = sl.age_depth;
    assert(((k1 ^ meta) ^ meta) == k1) by (bit_vector);
}

} // verus!
