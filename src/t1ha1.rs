//! t1ha1: the 64-bit baseline portable hash.
//!
//! It is stable across architectures and fast on 64-bit CPUs. Its finishing
//! mix is known not to meet the strict avalanche criterion; that property is
//! part of its definition and is kept as it is.
use vstd::prelude::*;

use crate::bits::{
    mix64, mix64_spec, mux64, mux64_spec, rot64, rotr64, BigEndianUnaligned,
    LittenEndianUnaligned, MemoryModel, PRIME_0, PRIME_1, PRIME_2, PRIME_3, PRIME_4, PRIME_5,
    PRIME_6,
};
use crate::nightly::{likely, prefetch, unlikely};

verus! {

/// The four accumulators `(a, b, c, d)`.
pub type Acc64 = (u64, u64, u64, u64);

/// One 32-byte block of the bulk loop, read at `p`.
pub open spec fn t1h1_block<M: MemoryModel<Item = u64>>(st: Acc64, s: Seq<u8>, p: int) -> Acc64 {
    let (a, b, c, d) = st;
    let w0 = M::read(s, p, 8);
    let w1 = M::read(s, p + 8, 8);
    let w2 = M::read(s, p + 16, 8);
    let w3 = M::read(s, p + 24, 8);
    let d02 = w0 ^ rotr64(w2.wrapping_add(d), 17);
    let c13 = w1 ^ rotr64(w3.wrapping_add(c), 17);
    (
        a ^ PRIME_1.wrapping_mul(d02.wrapping_add(w3)),
        b ^ PRIME_0.wrapping_mul(c13.wrapping_add(w2)),
        c.wrapping_add(a ^ rotr64(w0, 41)),
        d.wrapping_sub(b ^ rotr64(w1, 31)),
    )
}

/// The state after the first `m` blocks of `s`.
pub open spec fn t1h1_blocks<M: MemoryModel<Item = u64>>(st: Acc64, s: Seq<u8>, m: nat) -> Acc64
    decreases m,
{
    if m == 0 {
        st
    } else {
        t1h1_block::<M>(t1h1_blocks::<M>(st, s, (m - 1) as nat), s, 32 * (m - 1))
    }
}

pub open spec fn final_weak_avalanche_spec(a: u64, b: u64) -> u64 {
    mux64_spec(rotr64(a.wrapping_add(b), 17), PRIME_4).wrapping_add(mix64_spec(a ^ b, PRIME_0))
}

/// The last `n < 32` (or exactly 32, for short inputs) bytes, at `p`, and
/// the finishing mix.
pub open spec fn t1h1_tail<M: MemoryModel<Item = u64>>(
    a: u64,
    b: u64,
    s: Seq<u8>,
    p: int,
    n: int,
) -> u64 {
    if n > 24 {
        let b1 = b.wrapping_add(mux64_spec(M::read(s, p, 8), PRIME_4));
        let a1 = a.wrapping_add(mux64_spec(M::read(s, p + 8, 8), PRIME_3));
        let b2 = b1.wrapping_add(mux64_spec(M::read(s, p + 16, 8), PRIME_2));
        let a2 = a1.wrapping_add(mux64_spec(M::read(s, p + 24, n - 24), PRIME_1));
        final_weak_avalanche_spec(a2, b2)
    } else if n > 16 {
        let a1 = a.wrapping_add(mux64_spec(M::read(s, p, 8), PRIME_3));
        let b1 = b.wrapping_add(mux64_spec(M::read(s, p + 8, 8), PRIME_2));
        let a2 = a1.wrapping_add(mux64_spec(M::read(s, p + 16, n - 16), PRIME_1));
        final_weak_avalanche_spec(a2, b1)
    } else if n > 8 {
        let b1 = b.wrapping_add(mux64_spec(M::read(s, p, 8), PRIME_2));
        let a1 = a.wrapping_add(mux64_spec(M::read(s, p + 8, n - 8), PRIME_1));
        final_weak_avalanche_spec(a1, b1)
    } else if n > 0 {
        let a1 = a.wrapping_add(mux64_spec(M::read(s, p, n), PRIME_1));
        final_weak_avalanche_spec(a1, b)
    } else {
        final_weak_avalanche_spec(a, b)
    }
}

/// The t1ha1 digest of `s` under `seed`, with words read by `M`.
pub open spec fn t1ha1_spec<M: MemoryModel<Item = u64>>(s: Seq<u8>, seed: u64) -> u64 {
    let len = s.len() as u64;
    if s.len() > 32 {
        let c = rotr64(len, 17).wrapping_add(seed);
        let d = len ^ rotr64(seed, 17);
        let (a1, b1, c1, d1) = t1h1_blocks::<M>((seed, len, c, d), s, s.len() / 32);
        let a2 = a1 ^ PRIME_6.wrapping_mul(rotr64(c1, 17).wrapping_add(d1));
        let b2 = b1 ^ PRIME_5.wrapping_mul(c1.wrapping_add(rotr64(d1, 17)));
        t1h1_tail::<M>(a2, b2, s, 32 * (s.len() / 32) as int, (s.len() % 32) as int)
    } else {
        t1h1_tail::<M>(seed, len, s, 0, s.len() as int)
    }
}

/// The little-endian variant for 64-bit CPU.
pub fn t1ha1_le(data: &[u8], seed: u64) -> (r: u64)
    ensures
        r == t1ha1_spec::<LittenEndianUnaligned<u64>>(data@, seed),
{
    t1h1_body::<LittenEndianUnaligned<u64>>(data, seed)
}

/// The big-endian variant for 64-bit CPU.
pub fn t1ha1_be(data: &[u8], seed: u64) -> (r: u64)
    ensures
        r == t1ha1_spec::<BigEndianUnaligned<u64>>(data@, seed),
{
    t1h1_body::<BigEndianUnaligned<u64>>(data, seed)
}

fn t1h1_body<M: MemoryModel<Item = u64>>(data: &[u8], seed: u64) -> (r: u64)
    requires
        M::word_size() == 8,
    ensures
        r == t1ha1_spec::<M>(data@, seed),
{
    let len = data.len();
    let mut a: u64 = seed;
    let mut b: u64 = len as u64;
    let mut pos: usize = 0;

    if unlikely(len > 32) {
        let mut c: u64 = rot64(len as u64, 17).wrapping_add(seed);
        let mut d: u64 = (len as u64) ^ rot64(seed, 17);
        let ghost init: Acc64 = (a, b, c, d);

        while likely(len - pos >= 32)
            invariant
                M::word_size() == 8,
                len == data@.len(),
                pos <= len,
                pos % 32 == 0,
                (a, b, c, d) == t1h1_blocks::<M>(init, data@, (pos / 32) as nat),
            decreases len - pos,
        {
            let w0 = M::fetch(data, pos);
            let w1 = M::fetch(data, pos + 8);
            let w2 = M::fetch(data, pos + 16);
            let w3 = M::fetch(data, pos + 24);
            pos = pos + 32;
            prefetch(data, pos);

            let d02 = w0 ^ rot64(w2.wrapping_add(d), 17);
            let c13 = w1 ^ rot64(w3.wrapping_add(c), 17);
            d = d.wrapping_sub(b ^ rot64(w1, 31));
            c = c.wrapping_add(a ^ rot64(w0, 41));
            b = b ^ PRIME_0.wrapping_mul(c13.wrapping_add(w2));
            a = a ^ PRIME_1.wrapping_mul(d02.wrapping_add(w3));
        }

        a = a ^ PRIME_6.wrapping_mul(rot64(c, 17).wrapping_add(d));
        b = b ^ PRIME_5.wrapping_mul(c.wrapping_add(rot64(d, 17)));
    }
    t1h1_tail_exec::<M>(a, b, data, pos, len - pos)
}

fn t1h1_tail_exec<M: MemoryModel<Item = u64>>(
    a: u64,
    b: u64,
    data: &[u8],
    pos: usize,
    n: usize,
) -> (r: u64)
    requires
        M::word_size() == 8,
        n <= 32,
        pos + n <= data@.len(),
        pos % 8 == 0,
    ensures
        r == t1h1_tail::<M>(a, b, data@, pos as int, n as int),
{
    let mut a = a;
    let mut b = b;
    let len = data.len();
    assert(pos + n <= len);
    if n > 24 {
        b = b.wrapping_add(mux64(M::fetch(data, pos), PRIME_4));
        a = a.wrapping_add(mux64(M::fetch(data, pos + 8), PRIME_3));
        b = b.wrapping_add(mux64(M::fetch(data, pos + 16), PRIME_2));
        a = a.wrapping_add(mux64(M::tail(data, pos + 24, n - 24), PRIME_1));
    } else if n > 16 {
        a = a.wrapping_add(mux64(M::fetch(data, pos), PRIME_3));
        b = b.wrapping_add(mux64(M::fetch(data, pos + 8), PRIME_2));
        a = a.wrapping_add(mux64(M::tail(data, pos + 16, n - 16), PRIME_1));
    } else if n > 8 {
        b = b.wrapping_add(mux64(M::fetch(data, pos), PRIME_2));
        a = a.wrapping_add(mux64(M::tail(data, pos + 8, n - 8), PRIME_1));
    } else if n > 0 {
        a = a.wrapping_add(mux64(M::tail(data, pos, n), PRIME_1));
    }
    final_weak_avalanche(a, b)
}

fn final_weak_avalanche(a: u64, b: u64) -> (r: u64)
    ensures
        r == final_weak_avalanche_spec(a, b),
{
    mux64(rot64(a.wrapping_add(b), 17), PRIME_4).wrapping_add(mix64(a ^ b, PRIME_0))
}

} // verus!
