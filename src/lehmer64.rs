//! Lehmer-style 128-bit multiplicative generators.
//!
//! Each step multiplies a 128-bit state by a fixed odd constant, keeping the
//! low 128 bits, and hands out the upper 64 bits of the new state.
//! `Lehmer64` has one such state; `Lehmer64_3` keeps three of them and
//! advances all three on every third call, handing out their outputs in turn.
//! Bytes are taken from the words in little-endian order.
use vstd::prelude::*;

verus! {

/// The multiplier of every Lehmer step.
pub const LEHMER_MULTIPLIER: u128 = 0xda942042e4dd58b5u128;

/// One Lehmer step: the state times the multiplier, modulo 2^128.
pub open spec fn lehmer_step(s: u128) -> u128 {
    s.wrapping_mul(LEHMER_MULTIPLIER)
}

/// The word that a state hands out: its upper 64 bits.
pub open spec fn high_word(s: u128) -> u64 {
    (s >> 64u128) as u64
}

/// Byte `k` (0 = least significant) of a word.
pub open spec fn word_byte(w: u64, k: int) -> u8 {
    (w >> ((8 * k) as u64)) as u8
}

/// The big-endian value of a byte sequence.
pub open spec fn be_value(b: Seq<u8>) -> nat
    decreases b.len(),
{
    if b.len() == 0 {
        0
    } else {
        be_value(b.drop_last()) * 256 + b.last() as nat
    }
}

/// The 64-bit word stored big-endian in `b[at..at + 8]`.
pub open spec fn be_word(b: Seq<u8>, at: int) -> u64 {
    be_value(b.subrange(at, at + 8)) as u64
}

/// Number of words needed to fill `n` bytes.
pub open spec fn words_for(n: int) -> nat {
    ((n + 7) / 8) as nat
}

/// rand_core's error type, which `try_fill_bytes` names in its signature;
/// these generators never return it.
#[verifier::external_type_specification]
#[verifier::external_body]
pub struct ExRandCoreError(rand_core::Error);

/// Why a byte slice could not seed a generator.
#[derive(Clone, Copy, Debug, PartialEq, Eq, Structural)]
pub enum SeedError {
    /// The seed does not have the exact length that the generator needs.
    InvalidSeedLength,
}

/// Multiplies `a` by `b` in place, modulo 2^128.
#[inline]
fn mul(a: &mut u128, b: u128)
    ensures
        *final(a) == old(a).wrapping_mul(b),
{
    *a = a.wrapping_mul(b);
}

/// Reads the big-endian 64-bit word at `b[at..at + 8]`.
fn read_be_u64(b: &[u8], at: usize) -> (r: u64)
    requires
        at + 8 <= b.len(),
    ensures
        r == be_word(b@, at as int),
{
    let mut acc: u64 = 0;
    let mut i: usize = 0;
    while i < 8
        invariant
            i <= 8,
            at + 8 <= b.len(),
            acc as nat == be_value(b@.subrange(at as int, at + i)),
            acc < pow256(i as nat),
        decreases 8 - i,
    {
        let byte = b[at + i];
        proof {
            let s = b@.subrange(at as int, at + i + 1);
            assert(s.drop_last() =~= b@.subrange(at as int, at + i));
            assert(pow256((i + 1) as nat) == 256 * pow256(i as nat));
            lemma_pow256_bound(i as nat);
            assert(acc * 256 + byte < 256 * pow256(i as nat)) by (nonlinear_arith)
                requires acc < pow256(i as nat), byte < 256;
            assert(256 * pow256(i as nat) <= 0x1_0000_0000_0000_0000) by (nonlinear_arith)
                requires pow256(i as nat) <= 0x100_0000_0000_0000;
        }
        acc = acc * 256 + byte as u64;
        i = i + 1;
    }
    proof {
        assert(b@.subrange(at as int, at + 8) =~= b@.subrange(at as int, at as int + 8));
    }
    acc
}

/// 256 to the power `n`.
pub open spec fn pow256(n: nat) -> nat
    decreases n,
{
    if n == 0 {
        1
    } else {
        256 * pow256((n - 1) as nat)
    }
}

proof fn lemma_pow256_bound(n: nat)
    requires
        n < 8,
    ensures
        pow256(n) <= 0x100_0000_0000_0000,
    decreases n,
{
    reveal_with_fuel(pow256, 8);
    if n > 0 {
        lemma_pow256_bound((n - 1) as nat);
    }
}

// ---------------------------------------------------------------------------
// Three interleaved states.

/// Lehmer generator with three interleaved 128-bit states.
///
/// Every third call advances all three states by one step; the outputs of
/// the three new states are then handed out one per call, in order.
pub struct Lehmer64_3 {
    state: [u128; 3],
    pos: u32,
}

/// What a `Lehmer64_3` is: its three states and the index of the state
/// whose word was handed out last.
pub struct Lehmer3View {
    pub s0: u128,
    pub s1: u128,
    pub s2: u128,
    pub pos: u32,
}

impl View for Lehmer64_3 {
    type V = Lehmer3View;

    closed spec fn view(&self) -> Lehmer3View {
        Lehmer3View { s0: self.state[0], s1: self.state[1], s2: self.state[2], pos: self.pos }
    }
}

/// The state of a three-state generator after one call, and the word that
/// the call hands out.
pub open spec fn step3(v: Lehmer3View) -> (Lehmer3View, u64) {
    if v.pos >= 2 {
        let n = Lehmer3View {
            s0: lehmer_step(v.s0),
            s1: lehmer_step(v.s1),
            s2: lehmer_step(v.s2),
            pos: 0,
        };
        (n, high_word(n.s0))
    } else if v.pos == 0 {
        (Lehmer3View { pos: 1, ..v }, high_word(v.s1))
    } else {
        (Lehmer3View { pos: 2, ..v }, high_word(v.s2))
    }
}

/// The state of a three-state generator after `n` calls.
pub open spec fn advance3(v: Lehmer3View, n: nat) -> Lehmer3View
    decreases n,
{
    if n == 0 {
        v
    } else {
        step3(advance3(v, (n - 1) as nat)).0
    }
}

/// The word handed out by call number `t` (from 0) of a three-state generator.
pub open spec fn word_at3(v: Lehmer3View, t: nat) -> u64 {
    step3(advance3(v, t)).1
}

/// The first `n` words of a three-state generator.
pub open spec fn words3(v: Lehmer3View, n: nat) -> Seq<u64> {
    Seq::new(n, |t: int| word_at3(v, t as nat))
}

/// Byte `i` of everything a three-state generator hands out, read as
/// little-endian words.
pub open spec fn byte_at3(v: Lehmer3View, i: int) -> u8 {
    word_byte(word_at3(v, (i / 8) as nat), i % 8)
}

/// The state that a 24-byte seed gives: three big-endian words, widened,
/// with the next call starting a new round.
pub open spec fn seed_state3(seed: Seq<u8>) -> Lehmer3View {
    Lehmer3View {
        s0: be_word(seed, 0) as u128,
        s1: be_word(seed, 8) as u128,
        s2: be_word(seed, 16) as u128,
        pos: 2,
    }
}

/// Calls made in two runs are the calls of one run: advancing by `a`, then
/// by `b`, is advancing by `a + b`.
pub proof fn lemma_advance3_add(v: Lehmer3View, a: nat, b: nat)
    ensures
        advance3(advance3(v, a), b) == advance3(v, a + b),
    decreases b,
{
    if b > 0 {
        lemma_advance3_add(v, a, (b - 1) as nat);
    }
}

/// The words handed out after `a` calls are the generator's words from `a` on.
pub proof fn lemma_word_at3_shift(v: Lehmer3View, a: nat, t: nat)
    ensures
        word_at3(advance3(v, a), t) == word_at3(v, a + t),
{
    lemma_advance3_add(v, a, t);
}

/// The bytes handed out after `a` calls are the generator's bytes from
/// `8 * a` on.
pub proof fn lemma_byte_at3_shift(v: Lehmer3View, a: nat, j: int)
    requires
        j >= 0,
    ensures
        byte_at3(advance3(v, a), j) == byte_at3(v, 8 * a + j),
{
    lemma_word_at3_shift(v, a, (j / 8) as nat);
    assert((8 * a + j) / 8 == a + j / 8 && (8 * a + j) % 8 == j % 8) by (nonlinear_arith)
        requires j >= 0;
}

/// Generators seeded alike hand out the same words, as many as are asked
/// for; and `n` calls followed by `m` more hand out the first `n + m` words,
/// so the output is the same however it is split into calls.
pub proof fn lemma_seeded_alike(a: Seq<u8>, b: Seq<u8>, n: nat, m: nat)
    requires
        a == b,
    ensures
        words3(seed_state3(a), n) == words3(seed_state3(b), n),
        words3(seed_state3(a), n + m) == words3(seed_state3(a), n) + words3(
            advance3(seed_state3(a), n),
            m,
        ),
{
    let v = seed_state3(a);
    assert forall|t: int| n <= t < n + m implies #[trigger] words3(v, n + m)[t] == words3(
        advance3(v, n),
        m,
    )[t - n] by {
        lemma_word_at3_shift(v, n, (t - n) as nat);
    }
    assert(words3(v, n + m) =~= words3(v, n) + words3(advance3(v, n), m));
}

/// Seeding carries nothing over: a generator made from a seed is at the
/// seed's state whatever came before, and its first three words are the
/// first step of each of the seed's three big-endian words.
pub proof fn lemma_seed_resets(seed: Seq<u8>)
    ensures
        word_at3(seed_state3(seed), 0) == high_word(lehmer_step(be_word(seed, 0) as u128)),
        word_at3(seed_state3(seed), 1) == high_word(lehmer_step(be_word(seed, 8) as u128)),
        word_at3(seed_state3(seed), 2) == high_word(lehmer_step(be_word(seed, 16) as u128)),
{
    reveal_with_fuel(advance3, 3);
}

impl Lehmer64_3 {
    #[verifier::type_invariant]
    spec fn inv(&self) -> bool {
        self.pos < 3
    }

    /// Hands out the next word, advancing all three states every third call.
    #[inline]
    fn next(&mut self) -> (r: u64)
        ensures
            (final(self)@, r) == step3(old(self)@),
    {
        proof {
            use_type_invariant(&*self);
        }
        if self.pos >= 2 {
            let mut a = self.state[0];
            let mut b = self.state[1];
            let mut c = self.state[2];
            self::mul(&mut a, LEHMER_MULTIPLIER);
            self::mul(&mut b, LEHMER_MULTIPLIER);
            self::mul(&mut c, LEHMER_MULTIPLIER);
            self.state = [a, b, c];
            self.pos = 0;
        } else {
            self.pos = self.pos + 1;
        }
        (self.state[self.pos as usize] >> 64u32) as u64
    }

    /// A generator seeded from exactly 24 bytes; any other length is refused.
    pub fn try_from_bytes(seed: &[u8]) -> (r: Result<Lehmer64_3, SeedError>)
        ensures
            seed@.len() == 24 ==> (r matches Ok(g) && g@ == seed_state3(seed@)),
            seed@.len() != 24 ==> r == Err::<Lehmer64_3, SeedError>(SeedError::InvalidSeedLength),
    {
        if seed.len() != 24 {
            return Err(SeedError::InvalidSeedLength);
        }
        Ok(Self::from_seed_slice(seed))
    }

    fn from_seed_slice(seed: &[u8]) -> (r: Lehmer64_3)
        requires
            seed@.len() == 24,
        ensures
            r@ == seed_state3(seed@),
    {
        let n1 = read_be_u64(seed, 0);
        let n2 = read_be_u64(seed, 8);
        let n3 = read_be_u64(seed, 16);
        Lehmer64_3 { state: [n1 as u128, n2 as u128, n3 as u128], pos: 2 }
    }

    /// Fills `dest[start..end]` with the bytes of successive words,
    /// little-endian; the last word may be cut short.
    pub(crate) fn fill_range(&mut self, dest: &mut [u8], start: usize, end: usize)
        requires
            start <= end <= old(dest)@.len(),
        ensures
            final(dest)@.len() == old(dest)@.len(),
            final(self)@ == advance3(old(self)@, words_for(end - start)),
            forall|j: int| 0 <= j < start || end <= j < old(dest)@.len()
                ==> #[trigger] final(dest)@[j] == old(dest)@[j],
            forall|j: int| start <= j < end
                ==> #[trigger] final(dest)@[j] == byte_at3(old(self)@, j - start),
    {
        let ghost s0 = self@;
        let ghost d0 = dest@;
        let mut i: usize = start;
        let mut c: usize = 0;
        while i < end
            invariant
                start <= i <= end <= d0.len(),
                dest@.len() == d0.len(),
                i < end ==> i - start == 8 * c,
                i == end ==> c == words_for(end - start),
                self@ == advance3(s0, c as nat),
                forall|j: int| 0 <= j < start || i <= j < d0.len() ==> #[trigger] dest@[j] == d0[j],
                forall|j: int| start <= j < i ==> #[trigger] dest@[j] == byte_at3(s0, j - start),
            decreases end - i,
        {
            let w = self.next();
            assert(w == word_at3(s0, c as nat));
            let mut k: usize = 0;
            while k < 8 && i + k < end
                invariant
                    k <= 8,
                    start <= i <= end <= d0.len(),
                    i - start == 8 * c,
                    i + k <= end,
                    dest@.len() == d0.len(),
                    w == word_at3(s0, c as nat),
                    forall|j: int| 0 <= j < start || i + k <= j < d0.len() ==> #[trigger] dest@[j] == d0[j],
                    forall|j: int| start <= j < i + k ==> #[trigger] dest@[j] == byte_at3(s0, j - start),
                decreases 8 - k,
            {
                let sh: u64 = 8 * (k as u64);
                dest[i + k] = (w >> sh) as u8;
                proof {
                    let j = (i + k) as int;
                    assert((j - start) / 8 == c && (j - start) % 8 == k);
                }
                k = k + 1;
            }
            i = i + k;
            c = c + 1;
        }
    }
}

impl rand_core::RngCore for Lehmer64_3 {
    /// The low 32 bits of the next word.
    #[inline]
    fn next_u32(&mut self) -> (r: u32)
        ensures
            final(self)@ == step3(old(self)@).0,
            r == step3(old(self)@).1 as u32,
    {
        self.next() as u32
    }

    #[inline]
    fn next_u64(&mut self) -> (r: u64)
        ensures
            (final(self)@, r) == step3(old(self)@),
    {
        self.next()
    }

    /// Fills `dest` with the little-endian bytes of successive words.
    #[inline]
    fn fill_bytes(&mut self, dest: &mut [u8])
        ensures
            final(dest)@.len() == old(dest)@.len(),
            final(self)@ == advance3(old(self)@, words_for(old(dest)@.len() as int)),
            forall|j: int| 0 <= j < old(dest)@.len()
                ==> #[trigger] final(dest)@[j] == byte_at3(old(self)@, j),
    {
        let n = dest.len();
        self.fill_range(dest, 0, n);
    }

    #[inline]
    fn try_fill_bytes(&mut self, dest: &mut [u8]) -> (r: Result<(), rand_core::Error>)
        ensures
            r is Ok,
            final(dest)@.len() == old(dest)@.len(),
            final(self)@ == advance3(old(self)@, words_for(old(dest)@.len() as int)),
            forall|j: int| 0 <= j < old(dest)@.len()
                ==> #[trigger] final(dest)@[j] == byte_at3(old(self)@, j),
    {
        let n = dest.len();
        self.fill_range(dest, 0, n);
        Ok(())
    }
}

impl rand_core::SeedableRng for Lehmer64_3 {
    type Seed = [u8; 24];

    /// The three states are the seed's three big-endian `u64`s, widened.
    fn from_seed(seed: [u8; 24]) -> (r: Self)
        ensures
            r@ == seed_state3(seed@),
    {
        Self::from_seed_slice(&seed)
    }
}

impl Default for Lehmer64_3 {
    fn default() -> (r: Self)
        ensures
            r@ == (Lehmer3View { s0: 0, s1: 0, s2: 0, pos: 0 }),
    {
        Lehmer64_3 { state: [0, 0, 0], pos: 0 }
    }
}

// ---------------------------------------------------------------------------
// Single-state generator.

/// Lehmer generator with one 128-bit state.
pub struct Lehmer64(u128);

impl View for Lehmer64 {
    type V = u128;

    closed spec fn view(&self) -> u128 {
        self.0
    }
}

/// The state of a single-state generator after `n` calls.
pub open spec fn advance1(s: u128, n: nat) -> u128
    decreases n,
{
    if n == 0 {
        s
    } else {
        lehmer_step(advance1(s, (n - 1) as nat))
    }
}

/// The word handed out by call number `t` (from 0) of a single-state generator.
pub open spec fn word_at1(s: u128, t: nat) -> u64 {
    high_word(advance1(s, t + 1))
}

/// The state that an 8-byte seed gives: its big-endian value, widened.
pub open spec fn seed_state1(seed: Seq<u8>) -> u128 {
    be_word(seed, 0) as u128
}

impl Lehmer64 {
    /// Advances the state by one step and returns its upper 64 bits.
    #[inline]
    fn next(&mut self) -> (r: u64)
        ensures
            final(self)@ == lehmer_step(old(self)@),
            r == high_word(final(self)@),
    {
        self::mul(&mut self.0, LEHMER_MULTIPLIER);
        (self.0 >> 64u32) as u64
    }

    /// A generator seeded from exactly 8 bytes; any other length is refused.
    pub fn try_from_bytes(seed: &[u8]) -> (r: Result<Lehmer64, SeedError>)
        ensures
            seed@.len() == 8 ==> (r matches Ok(g) && g@ == seed_state1(seed@)),
            seed@.len() != 8 ==> r == Err::<Lehmer64, SeedError>(SeedError::InvalidSeedLength),
    {
        if seed.len() != 8 {
            return Err(SeedError::InvalidSeedLength);
        }
        let n = read_be_u64(seed, 0);
        Ok(Lehmer64(n as u128))
    }

    /// Fills `dest[start..end]` with the bytes of successive words,
    /// little-endian; the last word may be cut short.
    fn fill_range(&mut self, dest: &mut [u8], start: usize, end: usize)
        requires
            start <= end <= old(dest)@.len(),
        ensures
            final(dest)@.len() == old(dest)@.len(),
            final(self)@ == advance1(old(self)@, words_for(end - start)),
            forall|j: int| 0 <= j < start || end <= j < old(dest)@.len()
                ==> #[trigger] final(dest)@[j] == old(dest)@[j],
            forall|j: int| start <= j < end
                ==> #[trigger] final(dest)@[j] == word_byte(word_at1(old(self)@, ((j - start) / 8) as nat), (j - start) % 8),
    {
        let ghost s0 = self@;
        let ghost d0 = dest@;
        let mut i: usize = start;
        let mut c: usize = 0;
        while i < end
            invariant
                start <= i <= end <= d0.len(),
                dest@.len() == d0.len(),
                i < end ==> i - start == 8 * c,
                i == end ==> c == words_for(end - start),
                self@ == advance1(s0, c as nat),
                forall|j: int| 0 <= j < start || i <= j < d0.len() ==> #[trigger] dest@[j] == d0[j],
                forall|j: int| start <= j < i
                    ==> #[trigger] dest@[j] == word_byte(word_at1(s0, ((j - start) / 8) as nat), (j - start) % 8),
            decreases end - i,
        {
            let w = self.next();
            assert(w == word_at1(s0, c as nat));
            let mut k: usize = 0;
            while k < 8 && i + k < end
                invariant
                    k <= 8,
                    start <= i <= end <= d0.len(),
                    i - start == 8 * c,
                    i + k <= end,
                    dest@.len() == d0.len(),
                    w == word_at1(s0, c as nat),
                    forall|j: int| 0 <= j < start || i + k <= j < d0.len() ==> #[trigger] dest@[j] == d0[j],
                    forall|j: int| start <= j < i + k
                        ==> #[trigger] dest@[j] == word_byte(word_at1(s0, ((j - start) / 8) as nat), (j - start) % 8),
                decreases 8 - k,
            {
                let sh: u64 = 8 * (k as u64);
                dest[i + k] = (w >> sh) as u8;
                proof {
                    let j = (i + k) as int;
                    assert((j - start) / 8 == c && (j - start) % 8 == k);
                }
                k = k + 1;
            }
            i = i + k;
            c = c + 1;
        }
    }
}

impl rand_core::RngCore for Lehmer64 {
    /// The low 32 bits of the next word.
    #[inline]
    fn next_u32(&mut self) -> (r: u32)
        ensures
            final(self)@ == lehmer_step(old(self)@),
            r == high_word(final(self)@) as u32,
    {
        self.next() as u32
    }

    #[inline]
    fn next_u64(&mut self) -> (r: u64)
        ensures
            final(self)@ == lehmer_step(old(self)@),
            r == high_word(final(self)@),
    {
        self.next()
    }

    /// Fills `dest` with the little-endian bytes of successive words.
    #[inline]
    fn fill_bytes(&mut self, dest: &mut [u8])
        ensures
            final(dest)@.len() == old(dest)@.len(),
            final(self)@ == advance1(old(self)@, words_for(old(dest)@.len() as int)),
            forall|j: int| 0 <= j < old(dest)@.len()
                ==> #[trigger] final(dest)@[j] == word_byte(word_at1(old(self)@, (j / 8) as nat), j % 8),
    {
        let n = dest.len();
        self.fill_range(dest, 0, n);
    }

    #[inline]
    fn try_fill_bytes(&mut self, dest: &mut [u8]) -> (r: Result<(), rand_core::Error>)
        ensures
            r is Ok,
            final(dest)@.len() == old(dest)@.len(),
            final(self)@ == advance1(old(self)@, words_for(old(dest)@.len() as int)),
            forall|j: int| 0 <= j < old(dest)@.len()
                ==> #[trigger] final(dest)@[j] == word_byte(word_at1(old(self)@, (j / 8) as nat), j % 8),
    {
        let n = dest.len();
        self.fill_range(dest, 0, n);
        Ok(())
    }
}

impl rand_core::SeedableRng for Lehmer64 {
    type Seed = [u8; 8];

    /// The state is the seed read as a big-endian `u64`, widened.
    fn from_seed(seed: [u8; 8]) -> (r: Self)
        ensures
            r@ == seed_state1(seed@),
    {
        let n = read_be_u64(&seed, 0);
        Lehmer64(n as u128)
    }
}

impl Default for Lehmer64 {
    fn default() -> (r: Self)
        ensures
            r@ == 0,
    {
        Lehmer64(0)
    }
}

} // verus!
