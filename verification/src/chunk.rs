//! Byte-frequency accounting over chunked reads.
//!
//! A file is read in chunks of up to `MAX_ENTROPY_CHUNK` bytes into one buffer
//! that is reused across reads. The frequency table of each round is built
//! over the whole logical buffer, not only over the bytes the latest read
//! delivered: a short read leaves the tail of the previous, larger read in
//! place, and those leftover bytes are counted again. `ChunkScanner` models
//! that buffer exactly, and `refilled` states what one read does to it.

use vstd::prelude::*;

verus! {

/// Size, in bytes, of one read chunk.
pub const MAX_ENTROPY_CHUNK: usize = 2560000;

/// How often the byte value `b` occurs in `s`.
pub open spec fn count_of(s: Seq<u8>, b: u8) -> nat
    decreases s.len(),
{
    if s.len() == 0 {
        0
    } else {
        count_of(s.drop_last(), b) + if s.last() == b {
            1nat
        } else {
            0nat
        }
    }
}

/// A byte value occurs at most as often as the sequence is long.
pub proof fn lemma_count_le_len(s: Seq<u8>, b: u8)
    ensures
        count_of(s, b) <= s.len(),
    decreases s.len(),
{
    if s.len() > 0 {
        lemma_count_le_len(s.drop_last(), b);
    }
}

/// Appending one byte raises exactly that byte's count by one.
pub proof fn lemma_count_push(s: Seq<u8>, x: u8, b: u8)
    ensures
        count_of(s.push(x), b) == count_of(s, b) + if x == b {
            1nat
        } else {
            0nat
        },
{
    assert(s.push(x).drop_last() =~= s);
}

/// A chunk made of one repeated byte value concentrates the whole count on
/// that byte: every byte of the chunk counts towards `b`, and every other
/// byte value occurs zero times. The distribution is a point mass, so the
/// Shannon entropy computed from it is zero.
pub proof fn lemma_repeated_byte_counts(s: Seq<u8>, b: u8)
    requires
        forall|i: int| 0 <= i < s.len() ==> s[i] == b,
    ensures
        count_of(s, b) == s.len(),
        forall|c: u8| c != b ==> count_of(s, c) == 0,
    decreases s.len(),
{
    if s.len() > 0 {
        lemma_repeated_byte_counts(s.drop_last(), b);
        assert forall|c: u8| c != b implies count_of(s, c) == 0 by {
            assert(s.last() == b);
            assert(count_of(s, c) == count_of(s.drop_last(), c));
        }
    }
}

/// The partial total of a frequency table: how many bytes of `s` have a value
/// below `k`.
pub open spec fn count_below(s: Seq<u8>, k: int) -> nat
    decreases k,
{
    if k <= 0 {
        0
    } else {
        count_below(s, k - 1) + count_of(s, (k - 1) as u8)
    }
}

/// Dropping the last byte lowers the partial total by one exactly where that
/// byte's value lies below `k`.
proof fn lemma_count_below_drop_last(s: Seq<u8>, k: int)
    requires
        s.len() > 0,
        0 <= k <= 256,
    ensures
        count_below(s, k) == count_below(s.drop_last(), k) + if (s.last() as int) < k {
            1nat
        } else {
            0nat
        },
    decreases k,
{
    if k > 0 {
        lemma_count_below_drop_last(s, k - 1);
    }
}

/// The counts of all 256 byte values add up to the chunk's length: the
/// probabilities read off a frequency table sum to one over the bytes
/// actually counted.
pub proof fn lemma_counts_total(s: Seq<u8>)
    ensures
        count_below(s, 256) == s.len(),
    decreases s.len(),
{
    if s.len() == 0 {
        lemma_count_below_empty(s, 256);
    } else {
        lemma_count_below_drop_last(s, 256);
        lemma_counts_total(s.drop_last());
    }
}

/// An empty chunk has an empty frequency table.
proof fn lemma_count_below_empty(s: Seq<u8>, k: int)
    requires
        s.len() == 0,
    ensures
        count_below(s, k) == 0,
    decreases k,
{
    if k > 0 {
        lemma_count_below_empty(s, k - 1);
    }
}

/// The buffer after one read of `chunk` into a buffer that held `prev`: the
/// read overwrites the front, and where it is shorter than what the buffer
/// already held, the tail of `prev` stays in place.
pub open spec fn refilled(prev: Seq<u8>, chunk: Seq<u8>) -> Seq<u8> {
    if chunk.len() >= prev.len() {
        chunk
    } else {
        chunk + prev.skip(chunk.len() as int)
    }
}

/// The read buffer one file scan reuses across its chunk reads.
pub struct ChunkScanner {
    buffer: Vec<u8>,
}

impl View for ChunkScanner {
    type V = Seq<u8>;

    closed spec fn view(&self) -> Seq<u8> {
        self.buffer@
    }
}

impl ChunkScanner {
    /// A fresh scanner with an empty buffer.
    pub fn new() -> (s: Self)
        ensures
            s@ == Seq::<u8>::empty(),
    {
        ChunkScanner { buffer: Vec::new() }
    }

    /// How many bytes the buffer logically holds.
    pub fn len(&self) -> (n: usize)
        ensures
            n == self@.len(),
    {
        self.buffer.len()
    }

    /// Takes one chunk read into the buffer: the chunk overwrites the front of
    /// the buffer, and a tail left over from an earlier, larger read stays.
    pub fn absorb(&mut self, chunk: &[u8])
        requires
            chunk@.len() <= MAX_ENTROPY_CHUNK,
            old(self)@.len() <= MAX_ENTROPY_CHUNK,
        ensures
            final(self)@ == refilled(old(self)@, chunk@),
            final(self)@.len() <= MAX_ENTROPY_CHUNK,
    {
        let ghost prev: Seq<u8> = self.buffer@;
        let n = chunk.len();
        let mut i: usize = 0;
        while i < n && i < self.buffer.len()
            invariant
                i <= n,
                i <= prev.len(),
                n == chunk@.len(),
                self.buffer@.len() == prev.len(),
                forall|j: int| 0 <= j < i ==> self.buffer@[j] == chunk@[j],
                forall|j: int| i <= j < prev.len() ==> self.buffer@[j] == prev[j],
            decreases n - i,
        {
            self.buffer.set(i, chunk[i]);
            i = i + 1;
        }
        if i < n {
            while i < n
                invariant
                    i <= n,
                    n == chunk@.len(),
                    i >= prev.len(),
                    self.buffer@.len() == i,
                    forall|j: int| 0 <= j < i ==> self.buffer@[j] == chunk@[j],
                decreases n - i,
            {
                self.buffer.push(chunk[i]);
                i = i + 1;
            }
        }
        assert(self.buffer@ =~= refilled(prev, chunk@));
    }

    /// The frequency table of the buffer: for each byte value, how often it
    /// occurs over the whole logical buffer.
    pub fn frequencies(&self) -> (counts: Vec<u32>)
        requires
            self@.len() <= MAX_ENTROPY_CHUNK,
        ensures
            counts@.len() == 256,
            forall|b: int| 0 <= b < 256 ==> counts@[b] == count_of(self@, b as u8),
    {
        let mut counts: Vec<u32> = Vec::new();
        let mut k: usize = 0;
        while k < 256
            invariant
                k <= 256,
                counts@.len() == k,
                forall|b: int| 0 <= b < k ==> counts@[b] == 0,
            decreases 256 - k,
        {
            counts.push(0);
            k = k + 1;
        }
        let mut i: usize = 0;
        while i < self.buffer.len()
            invariant
                i <= self.buffer@.len(),
                self.buffer@.len() <= MAX_ENTROPY_CHUNK,
                counts@.len() == 256,
                forall|b: int| 0 <= b < 256 ==> counts@[b] == count_of(
                    self.buffer@.take(i as int),
                    b as u8,
                ),
            decreases self.buffer@.len() - i,
        {
            let byte = self.buffer[i];
            let idx = byte as usize;
            proof {
                lemma_count_le_len(self.buffer@.take(i as int), byte);
                lemma_count_push(self.buffer@.take(i as int), byte, byte);
            }
            let c = counts[idx];
            counts.set(idx, c + 1);
            proof {
                assert(self.buffer@.take(i + 1) =~= self.buffer@.take(i as int).push(
                    self.buffer@[i as int],
                ));
                assert forall|b: int| 0 <= b < 256 implies counts@[b] == count_of(
                    self.buffer@.take(i + 1),
                    b as u8,
                ) by {
                    lemma_count_push(self.buffer@.take(i as int), byte, b as u8);
                }
            }
            i = i + 1;
        }
        proof {
            assert(self.buffer@.take(self.buffer@.len() as int) =~= self.buffer@);
        }
        counts
    }
}

} // verus!
