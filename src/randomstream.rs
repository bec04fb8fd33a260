//! A lazy, length-bounded stream of random byte blocks.
use vstd::prelude::*;
use bytes::Bytes;

use crate::block::block_content;
use crate::lehmer64::{advance3, byte_at3, lemma_advance3_add, lemma_byte_at3_shift, seed_state3, words_for, Lehmer3View, Lehmer64_3};

verus! {

/// Bytes produced by one generator call round into the buffer.
pub const CHUNK_SIZE: usize = 4096;

/// Sub-chunks that make up the buffer.
pub const NUM_CHUNKS: usize = 4;

/// Size of the buffer, and the most that one block holds.
pub const BUF_SIZE: usize = CHUNK_SIZE * NUM_CHUNKS;

/// The seed bytes that rand_core's `seed_from_u64` derives from `n`.
pub uninterp spec fn seed_bytes_of_u64(n: u64) -> Seq<u8>;

/// Relies on rand_core's provided `SeedableRng::seed_from_u64`: it expands
/// `n` into 24 seed bytes with PCG32, which depend on `n` alone, and hands
/// them to `Lehmer64_3::from_seed`.
#[verifier::external_body]
fn generator_from_u64(n: u64) -> (r: Lehmer64_3)
    ensures
        r@ == seed_state3(seed_bytes_of_u64(n)),
{
    <Lehmer64_3 as rand_core::SeedableRng>::seed_from_u64(n)
}

/// The generator state every stream starts from.
pub open spec fn stream_origin() -> Lehmer3View {
    seed_state3(seed_bytes_of_u64(0))
}

/// Byte `i` of every stream: byte `i` of its generator's output.
pub open spec fn stream_byte(i: int) -> u8 {
    byte_at3(stream_origin(), i)
}

/// The size of the block handed out when `emitted` of `target` bytes are out.
pub open spec fn block_len(target: nat, emitted: nat) -> nat {
    if target - emitted < BUF_SIZE {
        (target - emitted) as nat
    } else {
        BUF_SIZE as nat
    }
}

/// All that a stream of `target` bytes hands out once `emitted` are out,
/// block after block, until it ends.
pub open spec fn stream_rest(target: nat, emitted: nat) -> Seq<u8>
    decreases target - emitted,
{
    if emitted >= target {
        Seq::empty()
    } else {
        let n = block_len(target, emitted);
        Seq::new(n, |j: int| stream_byte(emitted + j)) + stream_rest(target, emitted + n)
    }
}

/// Random data of a fixed length, handed out in blocks of at most `BUF_SIZE`
/// bytes that are copied out of one reused buffer.
pub struct RandomStream {
    buf: Vec<u8>,
    rng: Lehmer64_3,
    length: u64,
    done: u64,
}

/// Regenerates the whole buffer, one sub-chunk after another.
fn fill_buffer(rng: &mut Lehmer64_3, buf: &mut Vec<u8>)
    requires
        old(buf)@.len() == BUF_SIZE,
    ensures
        final(buf)@.len() == BUF_SIZE,
        final(rng)@ == advance3(old(rng)@, 2048),
        forall|j: int| 0 <= j < BUF_SIZE ==> #[trigger] final(buf)@[j] == byte_at3(old(rng)@, j),
{
    let ghost g = rng@;
    let mut i: usize = 0;
    while i < NUM_CHUNKS
        invariant
            i <= NUM_CHUNKS,
            buf@.len() == BUF_SIZE,
            rng@ == advance3(g, 512 * i as nat),
            forall|j: int| 0 <= j < CHUNK_SIZE * i ==> #[trigger] buf@[j] == byte_at3(g, j),
        decreases NUM_CHUNKS - i,
    {
        let start = i * CHUNK_SIZE;
        let end = start + CHUNK_SIZE;
        rng.fill_range(buf.as_mut_slice(), start, end);
        proof {
            assert(words_for(end - start) == 512);
            lemma_advance3_add(g, 512 * i as nat, 512);
            assert forall|j: int| start <= j < end implies #[trigger] buf@[j] == byte_at3(g, j) by {
                lemma_byte_at3_shift(g, 512 * i as nat, j - start);
            }
        }
        i = i + 1;
    }
}

impl RandomStream {
    /// The buffer keeps its size, and while bytes remain, all blocks so far
    /// were full and the generator has handed out exactly the words that
    /// they used.
    pub closed spec fn wf(&self) -> bool {
        &&& self.buf@.len() == BUF_SIZE
        &&& self.done <= self.length
        &&& self.done < self.length ==> self.done % (BUF_SIZE as u64) == 0
            && self.rng@ == advance3(stream_origin(), (self.done / 8) as nat)
    }

    /// Bytes the stream hands out in all.
    pub closed spec fn target(&self) -> nat {
        self.length as nat
    }

    /// Bytes handed out so far.
    pub closed spec fn emitted(&self) -> nat {
        self.done as nat
    }

    /// A stream of `length` bytes with nothing handed out yet.
    pub fn new(length: u64) -> (r: RandomStream)
        ensures
            r.wf(),
            r.target() == length,
            r.emitted() == 0,
    {
        let mut buf: Vec<u8> = Vec::new();
        let mut i: usize = 0;
        while i < BUF_SIZE
            invariant
                i <= BUF_SIZE,
                buf@.len() == i,
            decreases BUF_SIZE - i,
        {
            buf.push(0);
            i = i + 1;
        }
        RandomStream { buf, rng: generator_from_u64(0), length, done: 0 }
    }

    /// Bytes the stream hands out in all.
    pub fn length(&self) -> (r: u64)
        ensures
            r == self.target(),
    {
        self.length
    }

    /// Bytes handed out so far.
    pub fn done(&self) -> (r: u64)
        ensures
            r == self.emitted(),
    {
        self.done
    }

    /// The next block, or `None` once all `target` bytes are out.
    ///
    /// The whole buffer is regenerated on every step, sub-chunk by
    /// sub-chunk; the block is a copy of its first
    /// `min(remaining, BUF_SIZE)` bytes.
    pub fn next_chunk(&mut self) -> (r: Option<Bytes>)
        requires
            old(self).wf(),
        ensures
            final(self).wf(),
            final(self).target() == old(self).target(),
            old(self).emitted() >= old(self).target() ==> r.is_none() && final(self).emitted()
                == old(self).emitted(),
            old(self).emitted() < old(self).target() ==> (r matches Some(b) && block_content(b)
                == Seq::new(
                block_len(old(self).target(), old(self).emitted()),
                |j: int| stream_byte(old(self).emitted() + j),
            ) && final(self).emitted() == old(self).emitted() + block_len(
                old(self).target(),
                old(self).emitted(),
            )),
    {
        if self.done >= self.length {
            return None;
        }
        let rest = self.length - self.done;
        let count: usize = if rest < BUF_SIZE as u64 {
            rest as usize
        } else {
            BUF_SIZE
        };
        let ghost done0 = self.done as int;
        let ghost base = (self.done / 8) as nat;
        proof {
            assert(8 * base == done0) by (nonlinear_arith)
                requires done0 % 16384 == 0, base == done0 / 8, done0 >= 0;
        }
        fill_buffer(&mut self.rng, &mut self.buf);
        proof {
            assert forall|j: int| 0 <= j < count implies #[trigger] self.buf@[j] == stream_byte(
                done0 + j,
            ) by {
                lemma_byte_at3_shift(stream_origin(), base, j);
            }
            lemma_advance3_add(stream_origin(), base, 2048);
        }
        let block = Bytes::copy_from_slice(vstd::slice::slice_subrange(self.buf.as_slice(), 0, count));
        self.done = self.done + count as u64;
        proof {
            assert(block_content(block) =~= Seq::new(count as nat, |j: int| stream_byte(done0 + j)));
            if self.done < self.length {
                assert(count == BUF_SIZE);
                let d = self.done as int;
                assert(d % 16384 == 0 && d / 8 == base + 2048) by (nonlinear_arith)
                    requires d == done0 + 16384, done0 % 16384 == 0, 8 * base == done0;
            }
        }
        Some(block)
    }
}

/// Every stream hands out exactly `target` bytes before it ends, and byte
/// `i` of what it hands out is always `stream_byte(i)`: the blocks, joined,
/// are the first `target` bytes of the generator's output.
pub proof fn lemma_stream_output(target: nat)
    ensures
        stream_rest(target, 0).len() == target,
        stream_rest(target, 0) == Seq::new(target, |i: int| stream_byte(i)),
{
    lemma_stream_rest(target, 0);
}

proof fn lemma_stream_rest(target: nat, emitted: nat)
    requires
        emitted <= target,
    ensures
        stream_rest(target, emitted) =~= Seq::new((target - emitted) as nat, |i: int| stream_byte(emitted + i)),
    decreases target - emitted,
{
    if emitted < target {
        let n = block_len(target, emitted);
        lemma_stream_rest(target, emitted + n);
    }
}

} // verus!
