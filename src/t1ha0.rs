//! t1ha0 for 32-bit CPUs: four 32-bit accumulators over 16-byte blocks.
use vstd::prelude::*;

use crate::bits::{
    final32, final32_spec, mixup32, mixup32_spec, rot32, rotr32, BigEndianUnaligned,
    LittenEndianUnaligned, MemoryModel,
};
use crate::nightly::{likely, prefetch, unlikely};

verus! {

// 32-bit 'magic' primes
pub const PRIME32_0: u32 = 0x92D7_8269;

pub const PRIME32_1: u32 = 0xCA9B_4735;

pub const PRIME32_2: u32 = 0xA4AB_A1C3;

pub const PRIME32_3: u32 = 0xF649_9843;

pub const PRIME32_4: u32 = 0x86F0_FD61;

pub const PRIME32_5: u32 = 0xCA2D_A6FB;

pub const PRIME32_6: u32 = 0xC4BB_3575;

/// The four accumulators `(a, b, c, d)`.
pub type Acc32 = (u32, u32, u32, u32);

/// One 16-byte block of the bulk loop, read at `p`.
pub open spec fn t1h0_block<M: MemoryModel<Item = u32>>(st: Acc32, s: Seq<u8>, p: int) -> Acc32 {
    let (a, b, c, d) = st;
    let w0 = M::read(s, p, 4);
    let w1 = M::read(s, p + 4, 4);
    let w2 = M::read(s, p + 8, 4);
    let w3 = M::read(s, p + 12, 4);
    let d13 = w1.wrapping_add(rotr32(w3.wrapping_add(d), 17));
    let c02 = w0 ^ rotr32(w2.wrapping_add(c), 11);
    (
        PRIME32_0.wrapping_mul(d13 ^ w2),
        PRIME32_1.wrapping_mul(c02.wrapping_add(w3)),
        c ^ rotr32(b.wrapping_add(w1), 7),
        d ^ rotr32(a.wrapping_add(w0), 3),
    )
}

/// The state after the first `m` blocks of `s`.
pub open spec fn t1h0_blocks<M: MemoryModel<Item = u32>>(st: Acc32, s: Seq<u8>, m: nat) -> Acc32
    decreases m,
{
    if m == 0 {
        st
    } else {
        t1h0_block::<M>(t1h0_blocks::<M>(st, s, (m - 1) as nat), s, 16 * (m - 1))
    }
}

/// The pair update with the accumulators in the other order.
pub open spec fn mixup32_swapped(a: u32, b: u32, v: u32, p: u32) -> (u32, u32) {
    let (b1, a1) = mixup32_spec(b, a, v, p);
    (a1, b1)
}

/// The last `n <= 16` bytes, at `p`, and the finishing mix.
pub open spec fn t1h0_tail<M: MemoryModel<Item = u32>>(
    a: u32,
    b: u32,
    s: Seq<u8>,
    p: int,
    n: int,
) -> u64 {
    if n > 12 {
        let (a1, b1) = mixup32_spec(a, b, M::read(s, p, 4), PRIME32_4);
        let (a2, b2) = mixup32_swapped(a1, b1, M::read(s, p + 4, 4), PRIME32_3);
        let (a3, b3) = mixup32_spec(a2, b2, M::read(s, p + 8, 4), PRIME32_2);
        let (a4, b4) = mixup32_swapped(a3, b3, M::read(s, p + 12, n - 12), PRIME32_1);
        final32_spec(a4, b4)
    } else if n > 8 {
        let (a1, b1) = mixup32_swapped(a, b, M::read(s, p, 4), PRIME32_3);
        let (a2, b2) = mixup32_spec(a1, b1, M::read(s, p + 4, 4), PRIME32_2);
        let (a3, b3) = mixup32_swapped(a2, b2, M::read(s, p + 8, n - 8), PRIME32_1);
        final32_spec(a3, b3)
    } else if n > 4 {
        let (a1, b1) = mixup32_spec(a, b, M::read(s, p, 4), PRIME32_2);
        let (a2, b2) = mixup32_swapped(a1, b1, M::read(s, p + 4, n - 4), PRIME32_1);
        final32_spec(a2, b2)
    } else if n > 0 {
        let (a1, b1) = mixup32_swapped(a, b, M::read(s, p, n), PRIME32_1);
        final32_spec(a1, b1)
    } else {
        final32_spec(a, b)
    }
}

/// The 32-bit t1ha0 digest of `s` under `seed`, with words read by `M`.
pub open spec fn t1ha0_32_spec<M: MemoryModel<Item = u32>>(s: Seq<u8>, seed: u64) -> u64 {
    let len = s.len() as u32;
    let a = rotr32(len, 17).wrapping_add(seed as u32);
    let b = len ^ ((seed >> 32u64) as u32);
    if s.len() > 16 {
        let (a1, b1, c1, d1) = t1h0_blocks::<M>((a, b, !a, rotr32(b, 5)), s, s.len() / 16);
        let c2 = c1.wrapping_add(a1);
        let d2 = d1.wrapping_add(b1);
        let a2 = a1 ^ rotr32(c2, 16).wrapping_add(d2).wrapping_mul(PRIME32_6);
        let b2 = b1 ^ c2.wrapping_add(rotr32(d2, 16)).wrapping_mul(PRIME32_5);
        t1h0_tail::<M>(a2, b2, s, 16 * (s.len() / 16) as int, (s.len() % 16) as int)
    } else {
        t1h0_tail::<M>(a, b, s, 0, s.len() as int)
    }
}

/// The little-endian variant for 32-bit CPU.
pub fn t1ha0_32le(data: &[u8], seed: u64) -> (r: u64)
    ensures
        r == t1ha0_32_spec::<LittenEndianUnaligned<u32>>(data@, seed),
{
    t1h0_body::<LittenEndianUnaligned<u32>>(data, seed)
}

/// The big-endian variant for 32-bit CPU.
pub fn t1ha0_32be(data: &[u8], seed: u64) -> (r: u64)
    ensures
        r == t1ha0_32_spec::<BigEndianUnaligned<u32>>(data@, seed),
{
    t1h0_body::<BigEndianUnaligned<u32>>(data, seed)
}

fn t1h0_body<M: MemoryModel<Item = u32>>(data: &[u8], seed: u64) -> (r: u64)
    requires
        M::word_size() == 4,
    ensures
        r == t1ha0_32_spec::<M>(data@, seed),
{
    let len = data.len();
    let mut a: u32 = rot32(len as u32, 17).wrapping_add(seed as u32);
    let mut b: u32 = (len as u32) ^ ((seed >> 32u64) as u32);
    let mut pos: usize = 0;

    if unlikely(len > 16) {
        let mut c: u32 = !a;
        let mut d: u32 = rot32(b, 5);
        let ghost init: Acc32 = (a, b, c, d);

        while likely(len - pos >= 16)
            invariant
                M::word_size() == 4,
                len == data@.len(),
                pos <= len,
                pos % 16 == 0,
                (a, b, c, d) == t1h0_blocks::<M>(init, data@, (pos / 16) as nat),
            decreases len - pos,
        {
            let w0 = M::fetch(data, pos);
            let w1 = M::fetch(data, pos + 4);
            let w2 = M::fetch(data, pos + 8);
            let w3 = M::fetch(data, pos + 12);
            pos = pos + 16;
            prefetch(data, pos);

            let d13 = w1.wrapping_add(rot32(w3.wrapping_add(d), 17));
            let c02 = w0 ^ rot32(w2.wrapping_add(c), 11);
            d = d ^ rot32(a.wrapping_add(w0), 3);
            c = c ^ rot32(b.wrapping_add(w1), 7);
            b = PRIME32_1.wrapping_mul(c02.wrapping_add(w3));
            a = PRIME32_0.wrapping_mul(d13 ^ w2);
        }

        c = c.wrapping_add(a);
        d = d.wrapping_add(b);
        a = a ^ rot32(c, 16).wrapping_add(d).wrapping_mul(PRIME32_6);
        b = b ^ c.wrapping_add(rot32(d, 16)).wrapping_mul(PRIME32_5);
    }
    t1h0_tail_exec::<M>(a, b, data, pos, len - pos)
}

fn t1h0_tail_exec<M: MemoryModel<Item = u32>>(
    a: u32,
    b: u32,
    data: &[u8],
    pos: usize,
    n: usize,
) -> (r: u64)
    requires
        M::word_size() == 4,
        n <= 16,
        pos + n <= data@.len(),
        pos % 4 == 0,
    ensures
        r == t1h0_tail::<M>(a, b, data@, pos as int, n as int),
{
    let mut a = a;
    let mut b = b;
    let len = data.len();
    assert(pos + n <= len);
    if n > 12 {
        mixup32(&mut a, &mut b, M::fetch(data, pos), PRIME32_4);
        mixup32(&mut b, &mut a, M::fetch(data, pos + 4), PRIME32_3);
        mixup32(&mut a, &mut b, M::fetch(data, pos + 8), PRIME32_2);
        mixup32(&mut b, &mut a, M::tail(data, pos + 12, n - 12), PRIME32_1);
    } else if n > 8 {
        mixup32(&mut b, &mut a, M::fetch(data, pos), PRIME32_3);
        mixup32(&mut a, &mut b, M::fetch(data, pos + 4), PRIME32_2);
        mixup32(&mut b, &mut a, M::tail(data, pos + 8, n - 8), PRIME32_1);
    } else if n > 4 {
        mixup32(&mut a, &mut b, M::fetch(data, pos), PRIME32_2);
        mixup32(&mut b, &mut a, M::tail(data, pos + 4, n - 4), PRIME32_1);
    } else if n > 0 {
        mixup32(&mut b, &mut a, M::tail(data, pos, n), PRIME32_1);
    }
    final32(a, b)
}

} // verus!
