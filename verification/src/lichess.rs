//! The online-play adapter's data: framing newline-delimited JSON records
//! out of a byte stream, and the challenge-acceptance rule. The HTTP
//! stream and the JSON values live with the host; these parts carry the
//! exact meaning of the bytes.

use vstd::prelude::*;

verus! {

/// Index of the first byte at or after `i` that is not a newline.
pub open spec fn skip_nl(s: Seq<u8>, i: int) -> int
    decreases s.len() - i,
{
    if i >= s.len() {
        i
    } else if s[i] == 10 {
        skip_nl(s, i + 1)
    } else {
        i
    }
}

/// Index of the first newline at or after `i`, or the length when there
/// is none.
pub open spec fn find_nl(s: Seq<u8>, i: int) -> int
    decreases s.len() - i,
{
    if i >= s.len() {
        i
    } else if s[i] == 10 {
        i
    } else {
        find_nl(s, i + 1)
    }
}

/// What one framing step yields: the first nonempty newline-free record
/// in the buffer together with everything after its closing newline, or
/// nothing when no complete record is buffered yet.
pub open spec fn spec_next_record(s: Seq<u8>) -> Option<(Seq<u8>, Seq<u8>)> {
    let k = skip_nl(s, 0);
    let j = find_nl(s, k);
    if j < s.len() {
        Some((s.subrange(k, j), s.subrange(j + 1, s.len() as int)))
    } else {
        None
    }
}

/// A buffer that turns an arriving byte stream into newline-delimited
/// records: chunks go in as they arrive, and each complete nonempty line
/// comes out once.
pub struct NdJsonBuffer {
    data: Vec<u8>,
}

impl NdJsonBuffer {
    /// The bytes received and not yet handed out.
    pub closed spec fn contents(self) -> Seq<u8> {
        self.data@
    }

    /// An empty buffer.
    pub fn new() -> (r: NdJsonBuffer)
        ensures
            r.contents() == Seq::<u8>::empty(),
    {
        NdJsonBuffer { data: Vec::new() }
    }

    /// Append one arrived chunk.
    pub fn push_chunk(&mut self, chunk: &[u8])
        ensures
            final(self).contents() == old(self).contents() + chunk@,
    {
        let n = chunk.len();
        let mut i: usize = 0;
        while i < n
            invariant
                n == chunk@.len(),
                i <= n,
                self.data@ == old(self).data@ + chunk@.take(i as int),
            decreases n - i,
        {
            self.data.push(chunk[i]);
            proof {
                assert(old(self).data@ + chunk@.take(i as int) + seq![chunk@[i as int]] =~= old(
                    self,
                ).data@ + chunk@.take(i + 1));
            }
            i = i + 1;
        }
        proof {
            assert(chunk@.take(n as int) =~= chunk@);
        }
    }

    /// Hand out the next complete record: the first nonempty line of the
    /// buffer, with every byte up to and including its closing newline
    /// consumed. Nothing comes out until a full line has arrived.
    pub fn next_record(&mut self) -> (r: Option<Vec<u8>>)
        ensures
            spec_next_record(old(self).contents()) matches Some(pair) ==> r matches Some(line)
                && line@ == pair.0 && final(self).contents() == pair.1,
            spec_next_record(old(self).contents()) is None ==> r is None && final(self).contents()
                == old(self).contents(),
    {
        let n = self.data.len();
        let mut k: usize = 0;
        while k < n && self.data[k] == 10
            invariant
                self.data@ == old(self).data@,
                n == self.data@.len(),
                k <= n,
                skip_nl(self.data@, 0) == skip_nl(self.data@, k as int),
            decreases n - k,
        {
            k = k + 1;
        }
        let mut j: usize = k;
        while j < n && self.data[j] != 10
            invariant
                self.data@ == old(self).data@,
                n == self.data@.len(),
                k <= j <= n,
                find_nl(self.data@, k as int) == find_nl(self.data@, j as int),
            decreases n - j,
        {
            j = j + 1;
        }
        if j >= n {
            return None;
        }
        let mut line: Vec<u8> = Vec::new();
        let mut t: usize = k;
        while t < j
            invariant
                self.data@ == old(self).data@,
                n == self.data@.len(),
                k <= t <= j < n,
                line@ == self.data@.subrange(k as int, t as int),
            decreases j - t,
        {
            line.push(self.data[t]);
            proof {
                assert(self.data@.subrange(k as int, t as int) + seq![self.data@[t as int]]
                    =~= self.data@.subrange(k as int, t + 1));
            }
            t = t + 1;
        }
        let mut rest: Vec<u8> = Vec::new();
        let mut u: usize = j + 1;
        while u < n
            invariant
                self.data@ == old(self).data@,
                n == self.data@.len(),
                j + 1 <= u <= n,
                rest@ == self.data@.subrange(j + 1, u as int),
            decreases n - u,
        {
            rest.push(self.data[u]);
            proof {
                assert(self.data@.subrange(j + 1, u as int) + seq![self.data@[u as int]]
                    =~= self.data@.subrange(j + 1, u + 1));
            }
            u = u + 1;
        }
        self.data = rest;
        Some(line)
    }
}

/// The one user whose challenges are always taken: the ASCII bytes of
/// "funnsam".
pub const USER_EXCEPTION: [u8; 7] = [102, 117, 110, 110, 115, 97, 109];

/// The only variant played: the ASCII bytes of "standard".
pub const VARIANT_STANDARD: [u8; 8] = [115, 116, 97, 110, 100, 97, 114, 100];

/// A speed too slow to play: the ASCII bytes of "correspondence".
pub const SPEED_CORRESPONDENCE: [u8; 14] = [
    99,
    111,
    114,
    114,
    101,
    115,
    112,
    111,
    110,
    100,
    101,
    110,
    99,
    101,
];

/// A speed too slow to play: the ASCII bytes of "classical".
pub const SPEED_CLASSICAL: [u8; 9] = [99, 108, 97, 115, 115, 105, 99, 97, 108];

/// Whose challenges are taken: a friend always, and otherwise only a
/// standard-variant game that is neither correspondence nor classical and
/// is unrated.
pub open spec fn spec_accept_challenge(
    user: Seq<u8>,
    variant: Seq<u8>,
    speed: Seq<u8>,
    rated: bool,
) -> bool {
    ||| user == USER_EXCEPTION@
    ||| (variant == VARIANT_STANDARD@ && speed != SPEED_CORRESPONDENCE@ && speed
        != SPEED_CLASSICAL@ && !rated)
}

/// Byte-for-byte equality of two slices.
fn bytes_eq(a: &[u8], b: &[u8]) -> (r: bool)
    ensures
        r == (a@ == b@),
{
    if a.len() != b.len() {
        return false;
    }
    let n = a.len();
    let mut i: usize = 0;
    while i < n
        invariant
            n == a@.len(),
            n == b@.len(),
            i <= n,
            forall|t: int| 0 <= t < i ==> a@[t] == b@[t],
        decreases n - i,
    {
        if a[i] != b[i] {
            return false;
        }
        i = i + 1;
    }
    proof {
        assert(a@ =~= b@);
    }
    true
}

/// Decide an incoming challenge, exactly as `spec_accept_challenge` says.
pub fn accept_challenge(user: &[u8], variant: &[u8], speed: &[u8], rated: bool) -> (r: bool)
    ensures
        r == spec_accept_challenge(user@, variant@, speed@, rated),
{
    if bytes_eq(user, USER_EXCEPTION.as_slice()) {
        return true;
    }
    if !bytes_eq(variant, VARIANT_STANDARD.as_slice()) {
        return false;
    }
    if bytes_eq(speed, SPEED_CORRESPONDENCE.as_slice()) {
        return false;
    }
    if bytes_eq(speed, SPEED_CLASSICAL.as_slice()) {
        return false;
    }
    !rated
}

} // verus!
