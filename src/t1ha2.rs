//! t1ha2: the 64/128-bit hash with stronger seed mixing, in one-shot and
//! streaming form.
use vstd::prelude::*;

use crate::bits::{
    aligned_to, final64, final64_spec, le64, lemma_le64_frame, mixup64, mixup64_spec, rot64,
    rotr64, LittenEndianAligned, LittenEndianUnaligned, MemoryModel, PRIME_0, PRIME_1, PRIME_2,
    PRIME_3, PRIME_4, PRIME_5, PRIME_6,
};
use crate::nightly::{likely, prefetch, unlikely};
use vstd::arithmetic::div_mod::{lemma_mod_add_multiples_vanish, lemma_small_mod};

verus! {

/// The four accumulators.
#[derive(Clone, Copy, Debug)]
pub struct State {
    pub a: u64,
    pub b: u64,
    pub c: u64,
    pub d: u64,
}

impl State {
    /// Seeds `a` and `b` with `x` and `y`.
    pub fn init_ab(&mut self, x: u64, y: u64)
        ensures
            *final(self) == (State { a: x, b: y, ..*old(self) }),
    {
        self.a = x;
        self.b = y;
    }

    /// Seeds `c` and `d` from `x` and `y`, each word mixing both seeds.
    pub fn init_cd(&mut self, x: u64, y: u64)
        ensures
            *final(self) == (State {
                c: rotr64(y, 23).wrapping_add(!x),
                d: (!y).wrapping_add(rotr64(x, 19)),
                ..*old(self)
            }),
    {
        self.c = rot64(y, 23).wrapping_add(!x);
        self.d = (!y).wrapping_add(rot64(x, 19));
    }

    fn squash(&mut self)
        ensures
            *final(self) == squash_spec(*old(self)),
    {
        self.a = self.a ^ PRIME_6.wrapping_mul(self.c.wrapping_add(rot64(self.d, 23)));
        self.b = self.b ^ PRIME_5.wrapping_mul(rot64(self.c, 19).wrapping_add(self.d));
    }
}

/// The state seeded by `x` and `y`.
pub open spec fn init_state(x: u64, y: u64) -> State {
    State {
        a: x,
        b: y,
        c: rotr64(y, 23).wrapping_add(!x),
        d: (!y).wrapping_add(rotr64(x, 19)),
    }
}

/// Folds `c` and `d` into `a` and `b`.
pub open spec fn squash_spec(st: State) -> State {
    State {
        a: st.a ^ PRIME_6.wrapping_mul(st.c.wrapping_add(rotr64(st.d, 23))),
        b: st.b ^ PRIME_5.wrapping_mul(rotr64(st.c, 19).wrapping_add(st.d)),
        ..st
    }
}

/// One 32-byte block of the bulk loop, read little-endian at `p`.
#[verifier::opaque]
pub open spec fn t2_block(st: State, s: Seq<u8>, p: int) -> State {
    let w0 = le64(s, p, 8);
    let w1 = le64(s, p + 8, 8);
    let w2 = le64(s, p + 16, 8);
    let w3 = le64(s, p + 24, 8);
    let d02 = w0.wrapping_add(rotr64(w2.wrapping_add(st.d), 56));
    let c13 = w1.wrapping_add(rotr64(w3.wrapping_add(st.c), 19));
    State {
        a: st.a ^ PRIME_5.wrapping_mul(d02.wrapping_add(w3)),
        b: st.b ^ PRIME_6.wrapping_mul(c13.wrapping_add(w2)),
        c: st.c ^ st.a.wrapping_add(rotr64(w0, 57)),
        d: st.d ^ st.b.wrapping_add(rotr64(w1, 38)),
    }
}

/// The pair update with the accumulators in the other order.
pub open spec fn mixup64_swapped(a: u64, b: u64, v: u64, p: u64) -> (u64, u64) {
    let (b1, a1) = mixup64_spec(b, a, v, p);
    (a1, b1)
}

/// The last `n <= 32` bytes, at `p`, into `a` and `b`, and the 64-bit
/// finishing mix.
#[verifier::opaque]
pub open spec fn tail_ab_spec(st: State, s: Seq<u8>, p: int, n: int) -> u64 {
    let (a, b) = (st.a, st.b);
    if n > 24 {
        let (a1, b1) = mixup64_spec(a, b, le64(s, p, 8), PRIME_4);
        let (a2, b2) = mixup64_swapped(a1, b1, le64(s, p + 8, 8), PRIME_3);
        let (a3, b3) = mixup64_spec(a2, b2, le64(s, p + 16, 8), PRIME_2);
        let (a4, b4) = mixup64_swapped(a3, b3, le64(s, p + 24, n - 24), PRIME_1);
        final64_spec(a4, b4)
    } else if n > 16 {
        let (a1, b1) = mixup64_swapped(a, b, le64(s, p, 8), PRIME_3);
        let (a2, b2) = mixup64_spec(a1, b1, le64(s, p + 8, 8), PRIME_2);
        let (a3, b3) = mixup64_swapped(a2, b2, le64(s, p + 16, n - 16), PRIME_1);
        final64_spec(a3, b3)
    } else if n > 8 {
        let (a1, b1) = mixup64_spec(a, b, le64(s, p, 8), PRIME_2);
        let (a2, b2) = mixup64_swapped(a1, b1, le64(s, p + 8, n - 8), PRIME_1);
        final64_spec(a2, b2)
    } else if n > 0 {
        let (a1, b1) = mixup64_swapped(a, b, le64(s, p, n), PRIME_1);
        final64_spec(a1, b1)
    } else {
        final64_spec(a, b)
    }
}

/// The 128-bit finishing mix: four cross-diffusing rounds; the high half
/// comes from `c + d`, the low half from `a ^ b`.
pub open spec fn final128_spec(st: State) -> u128 {
    let (a1, b1) = mixup64_spec(st.a, st.b, rotr64(st.c, 41) ^ st.d, PRIME_0);
    let (b2, c1) = mixup64_spec(b1, st.c, rotr64(st.d, 23) ^ a1, PRIME_6);
    let (c2, d1) = mixup64_spec(c1, st.d, rotr64(a1, 19) ^ b2, PRIME_5);
    let (d2, a2) = mixup64_spec(d1, a1, rotr64(b2, 31) ^ c2, PRIME_4);
    ((c2.wrapping_add(d2) as u128) << 64u128) | ((a2 ^ b2) as u128)
}

/// The last `n <= 32` bytes, at `p`, into all four accumulators, and the
/// 128-bit finishing mix.
#[verifier::opaque]
pub open spec fn tail_abcd_spec(st: State, s: Seq<u8>, p: int, n: int) -> u128 {
    if n > 24 {
        let (a1, d1) = mixup64_spec(st.a, st.d, le64(s, p, 8), PRIME_4);
        let (b1, a2) = mixup64_spec(st.b, a1, le64(s, p + 8, 8), PRIME_3);
        let (c1, b2) = mixup64_spec(st.c, b1, le64(s, p + 16, 8), PRIME_2);
        let (d2, c2) = mixup64_spec(d1, c1, le64(s, p + 24, n - 24), PRIME_1);
        final128_spec(State { a: a2, b: b2, c: c2, d: d2 })
    } else if n > 16 {
        let (b1, a1) = mixup64_spec(st.b, st.a, le64(s, p, 8), PRIME_3);
        let (c1, b2) = mixup64_spec(st.c, b1, le64(s, p + 8, 8), PRIME_2);
        let (d1, c2) = mixup64_spec(st.d, c1, le64(s, p + 16, n - 16), PRIME_1);
        final128_spec(State { a: a1, b: b2, c: c2, d: d1 })
    } else if n > 8 {
        let (c1, b1) = mixup64_spec(st.c, st.b, le64(s, p, 8), PRIME_2);
        let (d1, c2) = mixup64_spec(st.d, c1, le64(s, p + 8, n - 8), PRIME_1);
        final128_spec(State { b: b1, c: c2, d: d1, ..st })
    } else if n > 0 {
        let (d1, c1) = mixup64_spec(st.d, st.c, le64(s, p, n), PRIME_1);
        final128_spec(State { c: c1, d: d1, ..st })
    } else {
        final128_spec(st)
    }
}

/// The one-shot t1ha2 64-bit digest of `s` under `seed`.
pub open spec fn t1ha2_atonce_spec(s: Seq<u8>, seed: u64) -> u64 {
    let len = s.len() as u64;
    if s.len() > 32 {
        let st = t2_blocks_at(init_state(seed, len), s, 0, s.len() / 32);
        tail_ab_spec(squash_spec(st), s, 32 * (s.len() / 32) as int, (s.len() % 32) as int)
    } else {
        tail_ab_spec(State { a: seed, b: len, c: 0, d: 0 }, s, 0, s.len() as int)
    }
}

/// The one-shot t1ha2 128-bit digest of `s` under `seed`.
pub open spec fn t1ha2_atonce128_spec(s: Seq<u8>, seed: u64) -> u128 {
    let st = init_state(seed, s.len() as u64);
    if s.len() > 32 {
        tail_abcd_spec(
            t2_blocks_at(st, s, 0, s.len() / 32),
            s,
            32 * (s.len() / 32) as int,
            (s.len() % 32) as int,
        )
    } else {
        tail_abcd_spec(st, s, 0, s.len() as int)
    }
}

/// Whether a memory model reads 64-bit little-endian words.
pub open spec fn reads_le64<M: MemoryModel<Item = u64>>() -> bool {
    &&& M::word_size() == 8
    &&& forall|s: Seq<u8>, i: int, n: int| #[trigger] M::read(s, i, n) == le64(s, i, n)
}

/// The at-once variant with 64-bit result
pub fn t1ha2_atonce(data: &[u8], seed: u64) -> (r: u64)
    ensures
        r == t1ha2_atonce_spec(data@, seed),
{
    let len = data.len();
    let mut state = State { a: 0, b: 0, c: 0, d: 0 };
    state.init_ab(seed, len as u64);

    let mut pos: usize = 0;
    if unlikely(len > 32) {
        state.init_cd(seed, len as u64);
        pos = t1ha2_loop::<LittenEndianUnaligned<u64>>(&mut state, data, 0);
        assert(pos == 32 * (len / 32) && len - pos == len % 32);
        state.squash();
        assert(state == squash_spec(
            t2_blocks_at(init_state(seed, len as u64), data@, 0, (len / 32) as nat),
        ));
    }
    t1ha2_tail_ab::<LittenEndianUnaligned<u64>>(state, data, pos, len - pos)
}

/// The at-once variant with 128-bit result.
pub fn t1ha2_atonce128(data: &[u8], seed: u64) -> (r: u128)
    ensures
        r == t1ha2_atonce128_spec(data@, seed),
{
    let len = data.len();
    let mut state = State { a: 0, b: 0, c: 0, d: 0 };
    state.init_ab(seed, len as u64);
    state.init_cd(seed, len as u64);

    let mut pos: usize = 0;
    if unlikely(len > 32) {
        pos = t1ha2_loop::<LittenEndianUnaligned<u64>>(&mut state, data, 0);
        assert(pos == 32 * (len / 32) && len - pos == len % 32);
    }
    t1ha2_tail_abcd::<LittenEndianUnaligned<u64>>(state, data, pos, len - pos)
}

/// One block step over the 32 bytes of `data` at `pos`.
fn t1ha2_update<M: MemoryModel<Item = u64>>(state: &mut State, data: &[u8], pos: usize)
    requires
        reads_le64::<M>(),
        pos + 32 <= data@.len(),
        M::aligned() ==> pos % 8 == 0,
    ensures
        *final(state) == t2_block(*old(state), data@, pos as int),
{
    reveal(t2_block);
    let len = data.len();
    assert(pos + 32 <= len);
    let w0 = M::fetch(data, pos);
    let w1 = M::fetch(data, pos + 8);
    let w2 = M::fetch(data, pos + 16);
    let w3 = M::fetch(data, pos + 24);

    let d02 = w0.wrapping_add(rot64(w2.wrapping_add(state.d), 56));
    let c13 = w1.wrapping_add(rot64(w3.wrapping_add(state.c), 19));

    state.d = state.d ^ state.b.wrapping_add(rot64(w1, 38));
    state.c = state.c ^ state.a.wrapping_add(rot64(w0, 57));
    state.b = state.b ^ PRIME_6.wrapping_mul(c13.wrapping_add(w2));
    state.a = state.a ^ PRIME_5.wrapping_mul(d02.wrapping_add(w3));
}

/// Runs the block step over every whole block of `data` from `start` on and
/// returns where the unprocessed rest begins.
fn t1ha2_loop<M: MemoryModel<Item = u64>>(state: &mut State, data: &[u8], start: usize) -> (end:
    usize)
    requires
        reads_le64::<M>(),
        start <= data@.len(),
        M::aligned() ==> start % 8 == 0,
    ensures
        start <= end <= data@.len(),
        (end - start) % 32 == 0,
        data@.len() - end < 32,
        *final(state) == t2_blocks_at(*old(state), data@, start as int, ((end - start) / 32) as nat),
{
    let len = data.len();
    let mut pos: usize = start;
    let ghost st0 = *state;
    let ghost mut k: nat = 0;
    while likely(len - pos >= 32)
        invariant
            reads_le64::<M>(),
            len == data@.len(),
            start <= pos <= len,
            pos == start + 32 * k,
            M::aligned() ==> start % 8 == 0,
            *state == t2_blocks_at(st0, data@, start as int, k),
        decreases len - pos,
    {
        let p = pos;
        pos = pos + 32;
        prefetch(data, pos);
        let ghost prev = *state;
        assert(M::aligned() ==> p % 8 == 0);
        t1ha2_update::<M>(state, data, p);
        proof {
            assert(t2_blocks_at(st0, data@, start as int, k + 1) == t2_block(prev, data@, p as int));
            k = k + 1;
        }
    }
    assert((pos - start) / 32 == k);
    pos
}

/// The state after the first `m` blocks of `s` from `start` on.
pub open spec fn t2_blocks_at(st: State, s: Seq<u8>, start: int, m: nat) -> State
    decreases m,
{
    if m == 0 {
        st
    } else {
        t2_block(t2_blocks_at(st, s, start, (m - 1) as nat), s, start + 32 * (m - 1))
    }
}

pub(crate) fn t1ha2_tail_ab<M: MemoryModel<Item = u64>>(st: State, data: &[u8], pos: usize, n: usize) -> (r:
    u64)
    requires
        reads_le64::<M>(),
        n <= 32,
        pos + n <= data@.len(),
        pos % 8 == 0,
    ensures
        r == tail_ab_spec(st, data@, pos as int, n as int),
{
    reveal(tail_ab_spec);
    let mut a = st.a;
    let mut b = st.b;
    let len = data.len();
    assert(pos + n <= len);
    if n > 24 {
        mixup64(&mut a, &mut b, M::fetch(data, pos), PRIME_4);
        mixup64(&mut b, &mut a, M::fetch(data, pos + 8), PRIME_3);
        mixup64(&mut a, &mut b, M::fetch(data, pos + 16), PRIME_2);
        mixup64(&mut b, &mut a, M::tail(data, pos + 24, n - 24), PRIME_1);
    } else if n > 16 {
        mixup64(&mut b, &mut a, M::fetch(data, pos), PRIME_3);
        mixup64(&mut a, &mut b, M::fetch(data, pos + 8), PRIME_2);
        mixup64(&mut b, &mut a, M::tail(data, pos + 16, n - 16), PRIME_1);
    } else if n > 8 {
        mixup64(&mut a, &mut b, M::fetch(data, pos), PRIME_2);
        mixup64(&mut b, &mut a, M::tail(data, pos + 8, n - 8), PRIME_1);
    } else if n > 0 {
        mixup64(&mut b, &mut a, M::tail(data, pos, n), PRIME_1);
    }
    final64(a, b)
}

fn t1ha2_tail_abcd<M: MemoryModel<Item = u64>>(st: State, data: &[u8], pos: usize, n: usize) -> (r:
    u128)
    requires
        reads_le64::<M>(),
        n <= 32,
        pos + n <= data@.len(),
        pos % 8 == 0,
    ensures
        r == tail_abcd_spec(st, data@, pos as int, n as int),
{
    reveal(tail_abcd_spec);
    let mut st = st;
    let len = data.len();
    assert(pos + n <= len);
    if n > 24 {
        mixup64(&mut st.a, &mut st.d, M::fetch(data, pos), PRIME_4);
        mixup64(&mut st.b, &mut st.a, M::fetch(data, pos + 8), PRIME_3);
        mixup64(&mut st.c, &mut st.b, M::fetch(data, pos + 16), PRIME_2);
        mixup64(&mut st.d, &mut st.c, M::tail(data, pos + 24, n - 24), PRIME_1);
    } else if n > 16 {
        mixup64(&mut st.b, &mut st.a, M::fetch(data, pos), PRIME_3);
        mixup64(&mut st.c, &mut st.b, M::fetch(data, pos + 8), PRIME_2);
        mixup64(&mut st.d, &mut st.c, M::tail(data, pos + 16, n - 16), PRIME_1);
    } else if n > 8 {
        mixup64(&mut st.c, &mut st.b, M::fetch(data, pos), PRIME_2);
        mixup64(&mut st.d, &mut st.c, M::tail(data, pos + 8, n - 8), PRIME_1);
    } else if n > 0 {
        mixup64(&mut st.d, &mut st.c, M::tail(data, pos, n), PRIME_1);
    }
    final128(st)
}

fn final128(st: State) -> (r: u128)
    ensures
        r == final128_spec(st),
{
    let mut st = st;
    mixup64(&mut st.a, &mut st.b, rot64(st.c, 41) ^ st.d, PRIME_0);
    mixup64(&mut st.b, &mut st.c, rot64(st.d, 23) ^ st.a, PRIME_6);
    mixup64(&mut st.c, &mut st.d, rot64(st.a, 19) ^ st.b, PRIME_5);
    mixup64(&mut st.d, &mut st.a, rot64(st.b, 31) ^ st.c, PRIME_4);
    ((st.c.wrapping_add(st.d) as u128) << 64u128) | ((st.a ^ st.b) as u128)
}

// ---------------------------------------------------------------------------
// Streaming
/// An implementation of `t1ha2` stream hasher.
///
/// Bytes that do not yet fill a 32-byte block wait in `buffer`. A hasher
/// is finished by `finish` or `finish128`; calling either again, or
/// `update`, on a finished hasher is ruled out by their preconditions.
pub struct T1ha2Hasher {
    state: State,
    buffer: [u8; 32],
    partial: usize,
    total: usize,
    finished: bool,
}

impl Default for T1ha2Hasher {
    /// A hasher whose accumulators are all zero, as if seeded by nothing.
    fn default() -> (h: Self)
        ensures
            h.wf(),
            h.hash_state() == (State { a: 0, b: 0, c: 0, d: 0 }),
            h.pending() == Seq::<u8>::empty(),
            h.total_len() == 0,
            !h.is_finished(),
    {
        let h = T1ha2Hasher {
            state: State { a: 0, b: 0, c: 0, d: 0 },
            buffer: [0u8; 32],
            partial: 0,
            total: 0,
            finished: false,
        };
        assert(h.pending() =~= Seq::<u8>::empty());
        h
    }
}

/// Absorbing `data` after the bytes `pending` that wait in the buffer: every
/// whole 32-byte block of `pending + data` goes through the block step, in
/// order, and what is left over waits.
pub open spec fn absorb(st: State, pending: Seq<u8>, data: Seq<u8>) -> (State, Seq<u8>) {
    let all = pending + data;
    let m = all.len() / 32;
    (t2_blocks_at(st, all, 0, m), all.subrange(32 * m as int, all.len() as int))
}

/// Absorbing each chunk in turn.
pub open spec fn feed(st: State, pending: Seq<u8>, chunks: Seq<Seq<u8>>) -> (State, Seq<u8>)
    decreases chunks.len(),
{
    if chunks.len() == 0 {
        (st, pending)
    } else {
        let (st1, p1) = absorb(st, pending, chunks[0]);
        feed(st1, p1, chunks.drop_first())
    }
}

/// The eight bytes of `v`, least significant first.
pub open spec fn le_bytes(v: u64) -> Seq<u8> {
    seq![
        v as u8,
        (v >> 8u64) as u8,
        (v >> 16u64) as u8,
        (v >> 24u64) as u8,
        (v >> 32u64) as u8,
        (v >> 40u64) as u8,
        (v >> 48u64) as u8,
        (v >> 56u64) as u8,
    ]
}

/// A byte count as the hasher keeps it: modulo the range of `usize`.
pub open spec fn wrap_len(n: nat) -> nat {
    n % (usize::MAX as nat + 1)
}

/// The word appended when a stream ends: its length in bits, with the top
/// bit flipped.
pub open spec fn length_marker(total: nat) -> u64 {
    ((total as u64) << 3u64) ^ (1u64 << 63u64)
}

/// The 64-bit digest of a stream that has reached `st` with `pending`
/// bytes waiting after `total` bytes in all.
pub open spec fn finish_spec(st: State, pending: Seq<u8>, total: nat) -> u64 {
    let (st1, rest) = absorb(st, pending, le_bytes(length_marker(total)));
    tail_ab_spec(squash_spec(st1), rest, 0, rest.len() as int)
}

/// The 128-bit digest of a stream that has reached `st` with `pending`
/// bytes waiting after `total` bytes in all.
pub open spec fn finish128_spec(st: State, pending: Seq<u8>, total: nat) -> u128 {
    let (st1, rest) = absorb(st, pending, le_bytes(length_marker(total)));
    tail_abcd_spec(st1, rest, 0, rest.len() as int)
}

/// The 64-bit stream digest of all of `s` under the seeds `x` and `y`.
pub open spec fn t1ha2_stream_spec(x: u64, y: u64, s: Seq<u8>) -> u64 {
    let (st, rest) = absorb(init_state(x, y), Seq::empty(), s);
    finish_spec(st, rest, wrap_len(s.len()))
}

/// The 128-bit stream digest of all of `s` under the seeds `x` and `y`.
pub open spec fn t1ha2_stream128_spec(x: u64, y: u64, s: Seq<u8>) -> u128 {
    let (st, rest) = absorb(init_state(x, y), Seq::empty(), s);
    finish128_spec(st, rest, wrap_len(s.len()))
}

impl T1ha2Hasher {
    /// The accumulators.
    pub closed spec fn hash_state(&self) -> State {
        self.state
    }

    /// The bytes that wait for a whole block.
    pub closed spec fn pending(&self) -> Seq<u8> {
        self.buffer@.subrange(0, self.partial as int)
    }

    /// The number of bytes consumed so far, modulo the range of `usize`.
    pub closed spec fn total_len(&self) -> nat {
        self.total as nat
    }

    /// Whether `finish` or `finish128` has been called.
    pub closed spec fn is_finished(&self) -> bool {
        self.finished
    }

    /// Fewer than 32 bytes wait in the buffer.
    pub closed spec fn wf(&self) -> bool {
        self.partial < 32
    }

    /// What a well-formed hasher guarantees its callers: fewer than 32
    /// bytes wait, and the byte count fits in a `usize`.
    pub proof fn lemma_wf(&self)
        requires
            self.wf(),
        ensures
            self.pending().len() < 32,
            self.total_len() <= usize::MAX,
    {
    }

    /// A hasher seeded with `seed_x` and `seed_y` that has consumed nothing.
    pub fn with_seeds(seed_x: u64, seed_y: u64) -> (h: Self)
        ensures
            h.wf(),
            h.hash_state() == init_state(seed_x, seed_y),
            h.pending() == Seq::<u8>::empty(),
            h.total_len() == 0,
            !h.is_finished(),
    {
        let mut state = State { a: 0, b: 0, c: 0, d: 0 };
        state.init_ab(seed_x, seed_y);
        state.init_cd(seed_x, seed_y);
        let h = T1ha2Hasher { state, buffer: [0u8; 32], partial: 0, total: 0, finished: false };
        assert(h.pending() =~= Seq::<u8>::empty());
        h
    }

    /// Consumes `data`: each whole 32-byte block of the waiting bytes
    /// followed by `data` goes through the block step, and the rest waits
    /// for the next call.
    pub fn update(&mut self, data: &[u8])
        requires
            old(self).wf(),
            !old(self).is_finished(),
        ensures
            final(self).wf(),
            !final(self).is_finished(),
            (final(self).hash_state(), final(self).pending()) == absorb(
                old(self).hash_state(),
                old(self).pending(),
                data@,
            ),
            final(self).total_len() == wrap_len(old(self).total_len() + data@.len()),
    {
        let ghost st0 = self.state;
        let ghost p0 = self.partial as int;
        let ghost all = self.pending() + data@;
        let len = data.len();
        proof {
            lemma_wrapping_add_len(self.total, len);
        }
        self.total = self.total.wrapping_add(len);

        let mut pos: usize = 0;
        if self.partial > 0 {
            let left = 32 - self.partial;
            let chunk = if len < left {
                len
            } else {
                left
            };
            self.append(data, 0, chunk);
            if self.partial < 32 {
                assert(self.pending() =~= all);
                assert(all.subrange(0, all.len() as int) =~= all);
                return;
            }
            let ghost filled = self.pending();
            assert(filled =~= all.subrange(0, 32));
            assert forall|j: int| 0 <= j < 32 implies #[trigger] self.buffer@[j] == all[j + 0] by {
                assert(self.buffer@[j] == filled[j]);
            }
            self.partial = 0;
            pos = chunk;
            let mut st = self.state;
            t1ha2_update::<LittenEndianAligned<u64>>(&mut st, self.buffer.as_slice(), 0);
            self.state = st;
            proof {
                lemma_block_frame(st0, self.buffer@, all, 0, 0);
                assert(t2_blocks_at(st0, all, 0, 0) == st0);
                assert(t2_blocks_at(st0, all, 0, 1) == t2_block(st0, all, 0));
            }
        } else {
            assert(all =~= data@);
        }
        let ghost k0: nat = ((p0 + pos) / 32) as nat;
        assert(self.state == t2_blocks_at(st0, all, 0, k0));
        assert(p0 + pos == 32 * k0);
        assert(forall|j: int| 0 <= j < len ==> #[trigger] data@[j] == all[j + p0]);

        if len - pos >= 32 {
            let ghost s1 = self.state;
            let mut st = self.state;
            let end = if aligned_to(pos, 8) {
                t1ha2_loop::<LittenEndianAligned<u64>>(&mut st, data, pos)
            } else {
                t1ha2_loop::<LittenEndianUnaligned<u64>>(&mut st, data, pos)
            };
            self.state = st;
            proof {
                let j = ((end - pos) / 32) as nat;
                lemma_blocks_frame(s1, data@, all, p0, pos as int, j);
                lemma_blocks_split(st0, all, 0, k0, j);
            }
            pos = end;
        }
        assert(self.partial == 0);
        assert(self.pending() =~= Seq::<u8>::empty());
        if len - pos > 0 {
            self.append(data, pos, len);
        }
        assert(all.len() / 32 == (p0 + pos) / 32);
        assert(self.pending() =~= all.subrange(p0 + pos, all.len() as int));
    }

    /// Copies `data[from..to]` behind the bytes that wait in the buffer.
    fn append(&mut self, data: &[u8], from: usize, to: usize)
        requires
            from <= to <= data@.len(),
            old(self).partial + (to - from) <= 32,
        ensures
            final(self).state == old(self).state,
            final(self).total == old(self).total,
            final(self).finished == old(self).finished,
            final(self).partial == old(self).partial + (to - from),
            final(self).pending() == old(self).pending() + data@.subrange(from as int, to as int),
            forall|j: int|
                0 <= j < 32 && !(old(self).partial <= j < final(self).partial) ==> #[trigger] (
                final(self).buffer@[j]) == old(self).buffer@[j],
    {
        let ghost p0 = self.pending();
        let mut i: usize = from;
        while i < to
            invariant
                from <= i <= to <= data@.len(),
                self.partial == old(self).partial + (i - from),
                self.partial <= 32,
                old(self).partial + (to - from) <= 32,
                self.state == old(self).state,
                self.total == old(self).total,
                self.finished == old(self).finished,
                self.pending() == p0 + data@.subrange(from as int, i as int),
                forall|j: int|
                    0 <= j < 32 && !(old(self).partial <= j < self.partial) ==> #[trigger] self.buffer@[j]
                        == old(self).buffer@[j],
            decreases to - i,
        {
            let ghost before = self.pending();
            let ghost buf0 = self.buffer@;
            let ghost part = self.partial as int;
            self.buffer[self.partial] = data[i];
            assert(self.buffer@ =~= buf0.update(part, data@[i as int]));
            self.partial = self.partial + 1;
            i = i + 1;
            assert(self.pending() =~= before.push(data@[i - 1]));
            assert(data@.subrange(from as int, i as int) =~= data@.subrange(
                from as int,
                i - 1,
            ).push(data@[i - 1]));
            assert(self.pending() =~= p0 + data@.subrange(from as int, i as int));
        }
    }

    /// Appends the length marker and returns the 128-bit digest of
    /// everything consumed.
    pub fn finish128(&mut self) -> (r: u128)
        requires
            old(self).wf(),
            !old(self).is_finished(),
        ensures
            final(self).is_finished(),
            r == finish128_spec(old(self).hash_state(), old(self).pending(), old(self).total_len()),
            final(self).wf(),
            (final(self).hash_state(), final(self).pending()) == absorb(
                old(self).hash_state(),
                old(self).pending(),
                le_bytes(length_marker(old(self).total_len())),
            ),
    {
        self.append_length_marker();
        let r = t1ha2_tail_abcd::<LittenEndianAligned<u64>>(
            self.state,
            self.buffer.as_slice(),
            0,
            self.partial,
        );
        proof {
            lemma_tail_frame(self.state, self.buffer@, self.pending(), self.partial as int);
        }
        self.finished = true;
        r
    }

    /// Appends the length marker and returns the 64-bit digest of
    /// everything consumed.
    pub fn finish(&mut self) -> (r: u64)
        requires
            old(self).wf(),
            !old(self).is_finished(),
        ensures
            final(self).is_finished(),
            r == finish_spec(old(self).hash_state(), old(self).pending(), old(self).total_len()),
            final(self).wf(),
            (final(self).hash_state(), final(self).pending()) == absorb(
                old(self).hash_state(),
                old(self).pending(),
                le_bytes(length_marker(old(self).total_len())),
            ),
    {
        self.append_length_marker();
        let mut st = self.state;
        st.squash();
        let r = t1ha2_tail_ab::<LittenEndianAligned<u64>>(
            st,
            self.buffer.as_slice(),
            0,
            self.partial,
        );
        proof {
            lemma_tail_frame(st, self.buffer@, self.pending(), self.partial as int);
        }
        self.finished = true;
        r
    }

    /// Feeds the length marker of everything consumed so far.
    fn append_length_marker(&mut self)
        requires
            old(self).wf(),
            !old(self).is_finished(),
        ensures
            final(self).wf(),
            !final(self).is_finished(),
            (final(self).hash_state(), final(self).pending()) == absorb(
                old(self).hash_state(),
                old(self).pending(),
                le_bytes(length_marker(old(self).total_len())),
            ),
            final(self).total_len() == wrap_len(old(self).total_len() + 8),
    {
        let bits: u64 = ((self.total as u64) << 3u64) ^ (1u64 << 63u64);
        let bytes: [u8; 8] = [
            bits as u8,
            (bits >> 8u64) as u8,
            (bits >> 16u64) as u8,
            (bits >> 24u64) as u8,
            (bits >> 32u64) as u8,
            (bits >> 40u64) as u8,
            (bits >> 48u64) as u8,
            (bits >> 56u64) as u8,
        ];
        assert(bytes@ =~= le_bytes(length_marker(self.total_len())));
        self.update(bytes.as_slice());
    }
}

/// Adding to the byte counter wraps exactly as `wrap_len` says.
proof fn lemma_wrapping_add_len(t: usize, n: usize)
    ensures
        t.wrapping_add(n) as nat == wrap_len(t as nat + n as nat),
{
    let m = usize::MAX as nat + 1;
    if t + n > usize::MAX {
        lemma_mod_add_multiples_vanish((t + n - m) as int, m as int);
        lemma_small_mod((t + n - m) as nat, m);
    } else {
        lemma_small_mod((t + n) as nat, m);
    }
}

/// A block step sees only the 32 bytes it reads.
proof fn lemma_block_frame(st: State, s1: Seq<u8>, s2: Seq<u8>, d: int, p: int)
    requires
        forall|j: int| p <= j < p + 32 ==> #[trigger] s1[j] == s2[j + d],
    ensures
        t2_block(st, s1, p) == t2_block(st, s2, p + d),
{
    reveal(t2_block);
    lemma_le64_frame(s1, s2, d, p, 8);
    lemma_le64_frame(s1, s2, d, p + 8, 8);
    lemma_le64_frame(s1, s2, d, p + 16, 8);
    lemma_le64_frame(s1, s2, d, p + 24, 8);
    assert((p + 8) + d == (p + d) + 8);
    assert((p + 16) + d == (p + d) + 16);
    assert((p + 24) + d == (p + d) + 24);
}

/// `m` block steps see only the `32 * m` bytes they read.
proof fn lemma_blocks_frame(st: State, s1: Seq<u8>, s2: Seq<u8>, d: int, q: int, m: nat)
    requires
        forall|j: int| q <= j < q + 32 * m ==> #[trigger] s1[j] == s2[j + d],
    ensures
        t2_blocks_at(st, s1, q, m) == t2_blocks_at(st, s2, q + d, m),
    decreases m,
{
    if m > 0 {
        let m1 = (m - 1) as nat;
        lemma_blocks_frame(st, s1, s2, d, q, m1);
        let prev = t2_blocks_at(st, s1, q, m1);
        lemma_block_frame(prev, s1, s2, d, q + 32 * m1);
        assert((q + 32 * m1) + d == (q + d) + 32 * m1);
    }
}

/// Running `m1 + m2` block steps is running `m1`, then `m2` more.
proof fn lemma_blocks_split(st: State, s: Seq<u8>, q: int, m1: nat, m2: nat)
    ensures
        t2_blocks_at(st, s, q, m1 + m2) == t2_blocks_at(
            t2_blocks_at(st, s, q, m1),
            s,
            q + 32 * m1,
            m2,
        ),
    decreases m2,
{
    if m2 > 0 {
        lemma_blocks_split(st, s, q, m1, (m2 - 1) as nat);
        assert(q + 32 * ((m1 + m2) - 1) == (q + 32 * m1) + 32 * (m2 - 1)) by (nonlinear_arith);
    }
}

/// The tail cascades see only the `n` bytes they read.
proof fn lemma_tail_frame(st: State, s1: Seq<u8>, s2: Seq<u8>, n: int)
    requires
        0 <= n <= s1.len(),
        n <= s2.len(),
        forall|j: int| 0 <= j < n ==> #[trigger] s1[j] == s2[j],
    ensures
        tail_ab_spec(st, s1, 0, n) == tail_ab_spec(st, s2, 0, n),
        tail_abcd_spec(st, s1, 0, n) == tail_abcd_spec(st, s2, 0, n),
{
    reveal(tail_ab_spec);
    reveal(tail_abcd_spec);
    assert forall|o: int, c: int| 0 <= o && 0 <= c && o + c <= n implies le64(s1, o, c) == le64(
        s2,
        o,
        c,
    ) by {
        assert forall|j: int| o <= j < o + c implies #[trigger] s1[j] == s2[j + 0] by {
            assert(s1[j] == s2[j]);
        }
        lemma_le64_frame(s1, s2, 0, o, c);
    }
    if n > 0 {
        assert(le64(s1, 0, n) == le64(s2, 0, n));
    }
    if n > 8 {
        assert(le64(s1, 0, 8) == le64(s2, 0, 8));
        assert(le64(s1, 8, n - 8) == le64(s2, 8, n - 8));
    }
    if n > 16 {
        assert(le64(s1, 8, 8) == le64(s2, 8, 8));
        assert(le64(s1, 16, n - 16) == le64(s2, 16, n - 16));
    }
    if n > 24 {
        assert(le64(s1, 16, 8) == le64(s2, 16, 8));
        assert(le64(s1, 24, n - 24) == le64(s2, 24, n - 24));
    }
}

/// Absorbing `d1` and then `d2` leaves the stream where absorbing `d1 + d2`
/// at once would: where a chunk boundary falls does not matter.
pub proof fn lemma_absorb_concat(st: State, pending: Seq<u8>, d1: Seq<u8>, d2: Seq<u8>)
    ensures
        ({
            let (st1, p1) = absorb(st, pending, d1);
            absorb(st1, p1, d2)
        }) == absorb(st, pending, d1 + d2),
{
    let all1 = pending + d1;
    let m1 = all1.len() / 32;
    let p1 = all1.subrange(32 * m1 as int, all1.len() as int);
    let st1 = t2_blocks_at(st, all1, 0, m1);
    let all2 = p1 + d2;
    let m2 = all2.len() / 32;
    let all = pending + (d1 + d2);
    assert(all.len() == 32 * m1 + all2.len());
    assert(all.len() / 32 == m1 + m2);
    lemma_blocks_split(st, all, 0, m1, m2);
    assert forall|j: int| 0 <= j < 0 + 32 * m1 implies #[trigger] all[j] == all1[j + 0] by {}
    lemma_blocks_frame(st, all, all1, 0, 0, m1);
    let q = 32 * m1 as int;
    assert forall|j: int| q <= j < q + 32 * m2 implies #[trigger] all[j] == all2[j + (-q)] by {
        if j < all1.len() {
            assert(all2[j - q] == p1[j - q]);
        } else {
            assert(all2[j - q] == d2[j - all1.len()]);
        }
    }
    lemma_blocks_frame(st1, all, all2, -q, q, m2);
    assert(all.subrange(32 * (m1 + m2) as int, all.len() as int) =~= all2.subrange(
        32 * m2 as int,
        all2.len() as int,
    ));
}

/// Feeding chunks one `update` at a time absorbs their concatenation.
pub proof fn lemma_feed_flatten(st: State, pending: Seq<u8>, chunks: Seq<Seq<u8>>)
    requires
        pending.len() < 32,
    ensures
        feed(st, pending, chunks) == absorb(st, pending, chunks.flatten()),
    decreases chunks.len(),
{
    if chunks.len() == 0 {
        assert(pending + chunks.flatten() =~= pending);
        assert(pending.subrange(0, pending.len() as int) =~= pending);
    } else {
        let (st1, p1) = absorb(st, pending, chunks[0]);
        lemma_feed_flatten(st1, p1, chunks.drop_first());
        lemma_absorb_concat(st, pending, chunks[0], chunks.drop_first().flatten());
    }
}

/// Chunk-boundary independence: a hasher seeded with `x` and `y` and fed
/// `chunks` by consecutive `update` calls finishes, in 64 and in 128 bits,
/// with the stream digest of the chunks' concatenation, whatever the split.
pub proof fn lemma_stream_chunking(x: u64, y: u64, chunks: Seq<Seq<u8>>)
    ensures
        ({
            let (st, rest) = feed(init_state(x, y), Seq::empty(), chunks);
            finish_spec(st, rest, wrap_len(chunks.flatten().len()))
        }) == t1ha2_stream_spec(x, y, chunks.flatten()),
        ({
            let (st, rest) = feed(init_state(x, y), Seq::empty(), chunks);
            finish128_spec(st, rest, wrap_len(chunks.flatten().len()))
        }) == t1ha2_stream128_spec(x, y, chunks.flatten()),
{
    lemma_feed_flatten(init_state(x, y), Seq::empty(), chunks);
}

} // verus!
