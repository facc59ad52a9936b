//! t1ha0 bodies built on AES rounds over 128-bit registers.
//!
//! The CPU's single-round AES instructions are used there as a fast
//! diffusion step, not for encryption. Here each round is computed in
//! portable code, as the AES standard defines it, so these bodies run, and
//! give the same digests, on every CPU.
use vstd::prelude::*;

use crate::bits::{le64, LittenEndianUnaligned, MemoryModel, PRIME_0, PRIME_1, PRIME_5, PRIME_6};
use crate::nightly::{likely, prefetch, unlikely};
use crate::t1ha2::{t1ha2_tail_ab, tail_ab_spec, State};

verus! {

/// A 128-bit register as two 64-bit lanes. Its byte `i` is byte `i % 8` of
/// `lo` (for `i < 8`) or of `hi`, least significant first.
#[derive(Clone, Copy, Debug)]
pub struct Block128 {
    pub lo: u64,
    pub hi: u64,
}

// ---------------------------------------------------------------------------
// Arithmetic in GF(2^8) modulo x^8 + x^4 + x^3 + x + 1
/// Multiplication by `x`.
pub open spec fn xtime_spec(a: u8) -> u8 {
    if a >= 128 {
        ((a as int * 2 - 256) as u8) ^ 0x1bu8
    } else {
        (a as int * 2) as u8
    }
}

pub open spec fn gf_mul_spec(a: u8, b: u8) -> u8
    decreases b,
{
    if b == 0 {
        0
    } else {
        (if b % 2 == 1 {
            a
        } else {
            0u8
        }) ^ gf_mul_spec(xtime_spec(a), b / 2)
    }
}

pub open spec fn gf_pow_spec(a: u8, n: nat) -> u8
    decreases n,
{
    if n == 0 {
        1
    } else if n % 2 == 0 {
        let h = gf_pow_spec(a, n / 2);
        gf_mul_spec(h, h)
    } else {
        gf_mul_spec(a, gf_pow_spec(a, (n - 1) as nat))
    }
}

/// The multiplicative inverse, with 0 mapped to 0.
pub open spec fn gf_inv_spec(a: u8) -> u8 {
    gf_pow_spec(a, 254)
}

pub open spec fn rotl8(b: u8, n: u8) -> u8 {
    ((b << n) | (b >> (8 - n) as u8)) as u8
}

/// The AES S-box: the inverse followed by the affine map.
#[verifier::opaque]
pub open spec fn sbox_spec(a: u8) -> u8 {
    let b = gf_inv_spec(a);
    b ^ rotl8(b, 1) ^ rotl8(b, 2) ^ rotl8(b, 3) ^ rotl8(b, 4) ^ 0x63u8
}

/// The inverse AES S-box: the inverse affine map followed by the inverse.
#[verifier::opaque]
pub open spec fn inv_sbox_spec(a: u8) -> u8 {
    gf_inv_spec(rotl8(a, 1) ^ rotl8(a, 3) ^ rotl8(a, 6) ^ 0x05u8)
}

#[verifier::opaque]
pub open spec fn mix_column_spec(a0: u8, a1: u8, a2: u8, a3: u8) -> (u8, u8, u8, u8) {
    (
        xtime_spec(a0) ^ (xtime_spec(a1) ^ a1) ^ a2 ^ a3,
        a0 ^ xtime_spec(a1) ^ (xtime_spec(a2) ^ a2) ^ a3,
        a0 ^ a1 ^ xtime_spec(a2) ^ (xtime_spec(a3) ^ a3),
        (xtime_spec(a0) ^ a0) ^ a1 ^ a2 ^ xtime_spec(a3),
    )
}

#[verifier::opaque]
pub open spec fn inv_mix_column_spec(a0: u8, a1: u8, a2: u8, a3: u8) -> (u8, u8, u8, u8) {
    (
        gf_mul_spec(a0, 14) ^ gf_mul_spec(a1, 11) ^ gf_mul_spec(a2, 13) ^ gf_mul_spec(a3, 9),
        gf_mul_spec(a0, 9) ^ gf_mul_spec(a1, 14) ^ gf_mul_spec(a2, 11) ^ gf_mul_spec(a3, 13),
        gf_mul_spec(a0, 13) ^ gf_mul_spec(a1, 9) ^ gf_mul_spec(a2, 14) ^ gf_mul_spec(a3, 11),
        gf_mul_spec(a0, 11) ^ gf_mul_spec(a1, 13) ^ gf_mul_spec(a2, 9) ^ gf_mul_spec(a3, 14),
    )
}

/// The 16 bytes of a register as an AES state: byte `4 * c + r` holds row
/// `r` of column `c`.
pub open spec fn block_bytes(x: Block128) -> Seq<u8> {
    Seq::new(
        16,
        |i: int|
            if i < 8 {
                (x.lo >> (8 * i) as u64) as u8
            } else {
                (x.hi >> (8 * (i - 8)) as u64) as u8
            },
    )
}

/// The register whose bytes are the first 16 of `s`.
pub open spec fn block_of(s: Seq<u8>) -> Block128 {
    Block128 { lo: le64(s, 0, 8), hi: le64(s, 8, 8) }
}

/// SubBytes: the S-box on every byte.
pub open spec fn sub_bytes(s: Seq<u8>) -> Seq<u8> {
    s.map_values(|b: u8| sbox_spec(b))
}

/// InvSubBytes: the inverse S-box on every byte.
pub open spec fn inv_sub_bytes(s: Seq<u8>) -> Seq<u8> {
    s.map_values(|b: u8| inv_sbox_spec(b))
}

/// ShiftRows: row `r` turns left by `r` columns.
pub open spec fn shift_rows(s: Seq<u8>) -> Seq<u8> {
    Seq::new(16, |i: int| s[4 * ((i / 4 + i % 4) % 4) + i % 4])
}

/// InvShiftRows: row `r` turns right by `r` columns.
pub open spec fn inv_shift_rows(s: Seq<u8>) -> Seq<u8> {
    Seq::new(16, |i: int| s[4 * ((i / 4 + 4 - i % 4) % 4) + i % 4])
}

/// Row `r` of a column mixed by `m`.
pub open spec fn column_row(m: (u8, u8, u8, u8), r: int) -> u8 {
    if r == 0 {
        m.0
    } else if r == 1 {
        m.1
    } else if r == 2 {
        m.2
    } else {
        m.3
    }
}

/// MixColumns: each column through `mix_column_spec`.
pub open spec fn mix_columns(s: Seq<u8>) -> Seq<u8> {
    Seq::new(
        16,
        |i: int|
            {
                let c = i - i % 4;
                column_row(mix_column_spec(s[c], s[c + 1], s[c + 2], s[c + 3]), i % 4)
            },
    )
}

/// InvMixColumns: each column through `inv_mix_column_spec`.
pub open spec fn inv_mix_columns(s: Seq<u8>) -> Seq<u8> {
    Seq::new(
        16,
        |i: int|
            {
                let c = i - i % 4;
                column_row(inv_mix_column_spec(s[c], s[c + 1], s[c + 2], s[c + 3]), i % 4)
            },
    )
}

/// One AES encryption round of `x` with round key `k`: SubBytes,
/// ShiftRows, MixColumns, then AddRoundKey.
#[verifier::opaque]
pub open spec fn aesenc_spec(x: Block128, k: Block128) -> Block128 {
    xor128(block_of(mix_columns(shift_rows(sub_bytes(block_bytes(x))))), k)
}

/// One AES decryption round of `x` with round key `k`: InvShiftRows,
/// InvSubBytes, InvMixColumns, then AddRoundKey.
#[verifier::opaque]
pub open spec fn aesdec_spec(x: Block128, k: Block128) -> Block128 {
    xor128(block_of(inv_mix_columns(inv_sub_bytes(inv_shift_rows(block_bytes(x))))), k)
}

fn xtime(a: u8) -> (r: u8)
    ensures
        r == xtime_spec(a),
{
    if a >= 128 {
        ((a - 128) * 2) ^ 0x1bu8
    } else {
        a * 2
    }
}

fn gf_mul(a: u8, b: u8) -> (r: u8)
    ensures
        r == gf_mul_spec(a, b),
    decreases b,
{
    if b == 0 {
        0
    } else {
        let low = if b % 2 == 1 {
            a
        } else {
            0u8
        };
        low ^ gf_mul(xtime(a), b / 2)
    }
}

fn gf_pow(a: u8, n: u32) -> (r: u8)
    ensures
        r == gf_pow_spec(a, n as nat),
    decreases n,
{
    if n == 0 {
        1
    } else if n % 2 == 0 {
        let h = gf_pow(a, n / 2);
        gf_mul(h, h)
    } else {
        gf_mul(a, gf_pow(a, n - 1))
    }
}

fn rotl(b: u8, n: u8) -> (r: u8)
    requires
        1 <= n <= 7,
    ensures
        r == rotl8(b, n),
{
    ((b << n) | (b >> (8 - n))) as u8
}

fn sbox(a: u8) -> (r: u8)
    ensures
        r == sbox_spec(a),
{
    reveal(sbox_spec);
    let b = gf_pow(a, 254);
    b ^ rotl(b, 1) ^ rotl(b, 2) ^ rotl(b, 3) ^ rotl(b, 4) ^ 0x63u8
}

fn inv_sbox(a: u8) -> (r: u8)
    ensures
        r == inv_sbox_spec(a),
{
    reveal(inv_sbox_spec);
    gf_pow(rotl(a, 1) ^ rotl(a, 3) ^ rotl(a, 6) ^ 0x05u8, 254)
}

fn mix_column(a0: u8, a1: u8, a2: u8, a3: u8) -> (r: (u8, u8, u8, u8))
    ensures
        r == mix_column_spec(a0, a1, a2, a3),
{
    reveal(mix_column_spec);
    (
        xtime(a0) ^ (xtime(a1) ^ a1) ^ a2 ^ a3,
        a0 ^ xtime(a1) ^ (xtime(a2) ^ a2) ^ a3,
        a0 ^ a1 ^ xtime(a2) ^ (xtime(a3) ^ a3),
        (xtime(a0) ^ a0) ^ a1 ^ a2 ^ xtime(a3),
    )
}

fn inv_mix_column(a0: u8, a1: u8, a2: u8, a3: u8) -> (r: (u8, u8, u8, u8))
    ensures
        r == inv_mix_column_spec(a0, a1, a2, a3),
{
    reveal(inv_mix_column_spec);
    (
        gf_mul(a0, 14) ^ gf_mul(a1, 11) ^ gf_mul(a2, 13) ^ gf_mul(a3, 9),
        gf_mul(a0, 9) ^ gf_mul(a1, 14) ^ gf_mul(a2, 11) ^ gf_mul(a3, 13),
        gf_mul(a0, 13) ^ gf_mul(a1, 9) ^ gf_mul(a2, 14) ^ gf_mul(a3, 11),
        gf_mul(a0, 11) ^ gf_mul(a1, 13) ^ gf_mul(a2, 9) ^ gf_mul(a3, 14),
    )
}

/// The bytes of a register.
fn state_bytes(x: Block128) -> (b: [u8; 16])
    ensures
        b@ == block_bytes(x),
{
    let b: [u8; 16] = [
        (x.lo >> 0u64) as u8,
        (x.lo >> 8u64) as u8,
        (x.lo >> 16u64) as u8,
        (x.lo >> 24u64) as u8,
        (x.lo >> 32u64) as u8,
        (x.lo >> 40u64) as u8,
        (x.lo >> 48u64) as u8,
        (x.lo >> 56u64) as u8,
        (x.hi >> 0u64) as u8,
        (x.hi >> 8u64) as u8,
        (x.hi >> 16u64) as u8,
        (x.hi >> 24u64) as u8,
        (x.hi >> 32u64) as u8,
        (x.hi >> 40u64) as u8,
        (x.hi >> 48u64) as u8,
        (x.hi >> 56u64) as u8,
    ];
    assert(b@ =~= block_bytes(x));
    b
}

/// The register made of 16 bytes.
fn state_block(o: [u8; 16]) -> (x: Block128)
    ensures
        x == block_of(o@),
{
    Block128 {
        lo: LittenEndianUnaligned::<u64>::fetch(o.as_slice(), 0),
        hi: LittenEndianUnaligned::<u64>::fetch(o.as_slice(), 8),
    }
}

/// SubBytes and ShiftRows.
fn sub_shift(b: [u8; 16]) -> (t: [u8; 16])
    ensures
        t@ == shift_rows(sub_bytes(b@)),
{
    let t: [u8; 16] = [
        sbox(b[0]),
        sbox(b[5]),
        sbox(b[10]),
        sbox(b[15]),
        sbox(b[4]),
        sbox(b[9]),
        sbox(b[14]),
        sbox(b[3]),
        sbox(b[8]),
        sbox(b[13]),
        sbox(b[2]),
        sbox(b[7]),
        sbox(b[12]),
        sbox(b[1]),
        sbox(b[6]),
        sbox(b[11]),
    ];
    assert(t@ =~= shift_rows(sub_bytes(b@)));
    t
}

/// InvShiftRows and InvSubBytes.
fn inv_shift_sub(b: [u8; 16]) -> (t: [u8; 16])
    ensures
        t@ == inv_sub_bytes(inv_shift_rows(b@)),
{
    let t: [u8; 16] = [
        inv_sbox(b[0]),
        inv_sbox(b[13]),
        inv_sbox(b[10]),
        inv_sbox(b[7]),
        inv_sbox(b[4]),
        inv_sbox(b[1]),
        inv_sbox(b[14]),
        inv_sbox(b[11]),
        inv_sbox(b[8]),
        inv_sbox(b[5]),
        inv_sbox(b[2]),
        inv_sbox(b[15]),
        inv_sbox(b[12]),
        inv_sbox(b[9]),
        inv_sbox(b[6]),
        inv_sbox(b[3]),
    ];
    assert(t@ =~= inv_sub_bytes(inv_shift_rows(b@)));
    t
}

/// MixColumns.
fn mix_all(t: [u8; 16]) -> (o: [u8; 16])
    ensures
        o@ == mix_columns(t@),
{
    let (o0, o1, o2, o3) = mix_column(t[0], t[1], t[2], t[3]);
    let (o4, o5, o6, o7) = mix_column(t[4], t[5], t[6], t[7]);
    let (o8, o9, o10, o11) = mix_column(t[8], t[9], t[10], t[11]);
    let (o12, o13, o14, o15) = mix_column(t[12], t[13], t[14], t[15]);
    let o: [u8; 16] = [o0, o1, o2, o3, o4, o5, o6, o7, o8, o9, o10, o11, o12, o13, o14, o15];
    assert(o@ =~= mix_columns(t@));
    o
}

/// InvMixColumns.
fn inv_mix_all(t: [u8; 16]) -> (o: [u8; 16])
    ensures
        o@ == inv_mix_columns(t@),
{
    let (o0, o1, o2, o3) = inv_mix_column(t[0], t[1], t[2], t[3]);
    let (o4, o5, o6, o7) = inv_mix_column(t[4], t[5], t[6], t[7]);
    let (o8, o9, o10, o11) = inv_mix_column(t[8], t[9], t[10], t[11]);
    let (o12, o13, o14, o15) = inv_mix_column(t[12], t[13], t[14], t[15]);
    let o: [u8; 16] = [o0, o1, o2, o3, o4, o5, o6, o7, o8, o9, o10, o11, o12, o13, o14, o15];
    assert(o@ =~= inv_mix_columns(t@));
    o
}

/// One AES encryption round, as the `aesenc` instruction computes it.
pub fn aesenc(x: Block128, k: Block128) -> (r: Block128)
    ensures
        r == aesenc_spec(x, k),
{
    reveal(aesenc_spec);
    let o = state_block(mix_all(sub_shift(state_bytes(x))));
    xor_si128(o, k)
}

/// One AES decryption round, as the `aesdec` instruction computes it.
pub fn aesdec(x: Block128, k: Block128) -> (r: Block128)
    ensures
        r == aesdec_spec(x, k),
{
    reveal(aesdec_spec);
    let o = state_block(inv_mix_all(inv_shift_sub(state_bytes(x))));
    xor_si128(o, k)
}

// ---------------------------------------------------------------------------
// Lane operations
/// Lane-wise wrapping addition.
pub open spec fn add64(x: Block128, y: Block128) -> Block128 {
    Block128 { lo: x.lo.wrapping_add(y.lo), hi: x.hi.wrapping_add(y.hi) }
}

/// Lane-wise wrapping subtraction.
pub open spec fn sub64(x: Block128, y: Block128) -> Block128 {
    Block128 { lo: x.lo.wrapping_sub(y.lo), hi: x.hi.wrapping_sub(y.hi) }
}

pub open spec fn xor128(x: Block128, y: Block128) -> Block128 {
    Block128 { lo: x.lo ^ y.lo, hi: x.hi ^ y.hi }
}

/// The 16 bytes of `s` at `p` as a register.
pub open spec fn load128(s: Seq<u8>, p: int) -> Block128 {
    Block128 { lo: le64(s, p, 8), hi: le64(s, p + 8, 8) }
}

fn add_epi64(x: Block128, y: Block128) -> (r: Block128)
    ensures
        r == add64(x, y),
{
    Block128 { lo: x.lo.wrapping_add(y.lo), hi: x.hi.wrapping_add(y.hi) }
}

fn sub_epi64(x: Block128, y: Block128) -> (r: Block128)
    ensures
        r == sub64(x, y),
{
    Block128 { lo: x.lo.wrapping_sub(y.lo), hi: x.hi.wrapping_sub(y.hi) }
}

fn xor_si128(x: Block128, y: Block128) -> (r: Block128)
    ensures
        r == xor128(x, y),
{
    Block128 { lo: x.lo ^ y.lo, hi: x.hi ^ y.hi }
}

fn loadu_si128(data: &[u8], pos: usize) -> (r: Block128)
    requires
        pos + 16 <= data@.len(),
    ensures
        r == load128(data@, pos as int),
{
    let len = data.len();
    assert(pos + 16 <= len);
    Block128 {
        lo: LittenEndianUnaligned::<u64>::fetch(data, pos),
        hi: LittenEndianUnaligned::<u64>::fetch(data, pos + 8),
    }
}

// ---------------------------------------------------------------------------
// The bodies
/// The register pair `(x, y)` absorbs the 32 bytes at `p` by two decryption
/// rounds.
pub open spec fn aes_pair_step(st: (Block128, Block128), s: Seq<u8>, p: int) -> (
    Block128,
    Block128,
) {
    let (x, y) = st;
    (aesdec_spec(x, add64(y, load128(s, p))), aesdec_spec(y, sub64(x, load128(s, p + 16))))
}

/// `m` pair steps from `q` on.
pub open spec fn aes_pairs(st: (Block128, Block128), s: Seq<u8>, q: int, m: nat) -> (
    Block128,
    Block128,
)
    decreases m,
{
    if m == 0 {
        st
    } else {
        aes_pair_step(aes_pairs(st, s, q, (m - 1) as nat), s, q + 32 * (m - 1))
    }
}

/// Folds the register pair into one register.
pub open spec fn aes_fold(x: Block128, y: Block128) -> Block128 {
    add64(aesdec_spec(x, aesenc_spec(y, x)), y)
}

/// The digest once the registers are folded into `x` and the input is read
/// up to `p`: the 64-bit tail cascade over what is left.
pub open spec fn aes_finish(x: Block128, s: Seq<u8>, p: int) -> u64 {
    tail_ab_spec(State { a: x.lo, b: x.hi, c: 0, d: 0 }, s, p, s.len() - p)
}

/// One 128-byte block of the first body's bulk loop.
#[verifier::opaque]
pub open spec fn ia32aes_block(st: (Block128, Block128), s: Seq<u8>, p: int) -> (
    Block128,
    Block128,
) {
    let (x, y) = st;
    let v0 = load128(s, p);
    let v1 = load128(s, p + 16);
    let v2 = load128(s, p + 32);
    let v3 = load128(s, p + 48);
    let v4 = load128(s, p + 64);
    let v5 = load128(s, p + 80);
    let v6 = load128(s, p + 96);
    let v7 = load128(s, p + 112);
    let v0y = aesenc_spec(v0, y);
    let v2x6 = aesenc_spec(v2, xor128(x, v6));
    let v45_67 = xor128(aesenc_spec(v4, v5), add64(v6, v7));
    let v0y7_1 = aesdec_spec(sub64(v7, v0y), v1);
    let v2x6_3 = aesenc_spec(v2x6, v3);
    (aesenc_spec(v45_67, add64(x, y)), aesenc_spec(v2x6_3, xor128(v0y7_1, v5)))
}

pub open spec fn ia32aes_blocks(st: (Block128, Block128), s: Seq<u8>, m: nat) -> (
    Block128,
    Block128,
)
    decreases m,
{
    if m == 0 {
        st
    } else {
        ia32aes_block(ia32aes_blocks(st, s, (m - 1) as nat), s, 128 * (m - 1))
    }
}

/// After the bulk loop, fewer than 128 bytes remain at `p`: a 64-byte, a
/// 32-byte and a 16-byte step, each where that much remains.
pub open spec fn ia32aes_rest(st: (Block128, Block128), s: Seq<u8>, p: int) -> u64 {
    let (st1, p1) = if s.len() - p >= 64 {
        (aes_pair_step(aes_pair_step(st, s, p), s, p + 32), p + 64)
    } else {
        (st, p)
    };
    let (st2, p2) = if s.len() - p1 >= 32 {
        (aes_pair_step(st1, s, p1), p1 + 32)
    } else {
        (st1, p1)
    };
    let (x, y) = st2;
    if s.len() - p2 >= 16 {
        aes_finish(aes_fold(aesdec_spec(x, load128(s, p2)), add64(x, y)), s, p2 + 16)
    } else {
        aes_finish(aes_fold(x, y), s, p2)
    }
}

/// The digest of the AES-based t1ha0 body with 128-byte blocks.
pub open spec fn t1ha0_ia32aes_spec(s: Seq<u8>, seed: u64) -> u64 {
    let len = s.len() as u64;
    if s.len() > 32 {
        let x = Block128 { lo: len, hi: seed };
        let y = aesenc_spec(x, Block128 { lo: PRIME_6, hi: PRIME_5 });
        let m = s.len() / 128;
        ia32aes_rest(ia32aes_blocks((x, y), s, m), s, 128 * m as int)
    } else {
        tail_ab_spec(State { a: seed, b: len, c: 0, d: 0 }, s, 0, s.len() as int)
    }
}

fn pair_step(x: Block128, y: Block128, data: &[u8], pos: usize) -> (r: (Block128, Block128))
    requires
        pos + 32 <= data@.len(),
    ensures
        r == aes_pair_step((x, y), data@, pos as int),
{
    let len = data.len();
    assert(pos + 32 <= len);
    let v0y = add_epi64(y, loadu_si128(data, pos));
    let v1x = sub_epi64(x, loadu_si128(data, pos + 16));
    (aesdec(x, v0y), aesdec(y, v1x))
}

/// The steps of the first body after its bulk loop, and the tail.
fn ia32aes_finish(x: Block128, y: Block128, data: &[u8], pos: usize) -> (r: u64)
    requires
        pos <= data@.len() < pos + 128,
        pos % 16 == 0,
    ensures
        r == ia32aes_rest((x, y), data@, pos as int),
{
    let len = data.len();
    let mut x = x;
    let mut y = y;
    let mut pos = pos;
    if len - pos >= 64 {
        let (x1, y1) = pair_step(x, y, data, pos);
        let (x2, y2) = pair_step(x1, y1, data, pos + 32);
        x = x2;
        y = y2;
        pos = pos + 64;
    }
    if len - pos >= 32 {
        let (x1, y1) = pair_step(x, y, data, pos);
        x = x1;
        y = y1;
        pos = pos + 32;
    }
    if len - pos >= 16 {
        y = add_epi64(x, y);
        x = aesdec(x, loadu_si128(data, pos));
        pos = pos + 16;
    }
    fold_and_tail(x, y, data, pos)
}

/// The AES-based t1ha0 body: 128-byte blocks through eight registers.
pub fn t1ha0_ia32aes(data: &[u8], seed: u64) -> (r: u64)
    ensures
        r == t1ha0_ia32aes_spec(data@, seed),
{
    let len = data.len();
    if unlikely(len > 32) {
        let mut x = Block128 { lo: len as u64, hi: seed };
        let mut y = aesenc(x, Block128 { lo: PRIME_6, hi: PRIME_5 });
        let ghost st0 = (x, y);
        let ghost mut k: nat = 0;
        let mut pos: usize = 0;

        while likely(len - pos >= 128)
            invariant
                len == data@.len(),
                pos <= len,
                pos == 128 * k,
                (x, y) == ia32aes_blocks(st0, data@, k),
            decreases len - pos,
        {
            let v0 = loadu_si128(data, pos);
            let v1 = loadu_si128(data, pos + 16);
            let v2 = loadu_si128(data, pos + 32);
            let v3 = loadu_si128(data, pos + 48);
            let v4 = loadu_si128(data, pos + 64);
            let v5 = loadu_si128(data, pos + 80);
            let v6 = loadu_si128(data, pos + 96);
            let v7 = loadu_si128(data, pos + 112);
            pos = pos + 128;
            prefetch(data, pos);

            let v0y = aesenc(v0, y);
            let v2x6 = aesenc(v2, xor_si128(x, v6));
            let v45_67 = xor_si128(aesenc(v4, v5), add_epi64(v6, v7));

            let v0y7_1 = aesdec(sub_epi64(v7, v0y), v1);
            let v2x6_3 = aesenc(v2x6, v3);

            x = aesenc(v45_67, add_epi64(x, y));
            y = aesenc(v2x6_3, xor_si128(v0y7_1, v5));
            proof {
                reveal(ia32aes_block);
                k = k + 1;
            }
        }
        assert(k == len / 128);
        ia32aes_finish(x, y, data, pos)
    } else {
        t1ha2_tail_ab::<LittenEndianUnaligned<u64>>(
            State { a: seed, b: len as u64, c: 0, d: 0 },
            data,
            0,
            len,
        )
    }
}

/// One 128-byte block of the second body's bulk loop: a chain of eight
/// rounds salted by a register that grows every block.
#[verifier::opaque]
pub open spec fn avx2_block(st: (Block128, Block128, Block128), s: Seq<u8>, p: int) -> (
    Block128,
    Block128,
    Block128,
) {
    let (x, y, salt) = st;
    let t1 = aesenc_spec(load128(s, p), salt);
    let t2 = aesdec_spec(t1, load128(s, p + 16));
    let t3 = aesdec_spec(t2, load128(s, p + 32));
    let t4 = aesdec_spec(t3, load128(s, p + 48));
    let t5 = aesdec_spec(t4, load128(s, p + 64));
    let t6 = aesdec_spec(t5, load128(s, p + 80));
    let t7 = aesdec_spec(t6, load128(s, p + 96));
    let t8 = aesdec_spec(t7, load128(s, p + 112));
    (add64(y, x), aesenc_spec(x, t8), add64(salt, Block128 { lo: PRIME_6, hi: PRIME_5 }))
}

/// `m` blocks from `q` on.
pub open spec fn avx2_blocks(st: (Block128, Block128, Block128), s: Seq<u8>, q: int, m: nat) -> (
    Block128,
    Block128,
    Block128,
)
    decreases m,
{
    if m == 0 {
        st
    } else {
        avx2_block(avx2_blocks(st, s, q, (m - 1) as nat), s, q + 128 * (m - 1))
    }
}

/// The digest of the AES-based t1ha0 body with salted 128-byte blocks.
///
/// The input is taken in 16-byte units: an odd one first, then blocks of
/// eight while they last, then pairs; the last `len % 16` bytes go to the
/// tail cascade.
pub open spec fn t1ha0_ia32aes_avx2_spec(s: Seq<u8>, seed: u64) -> u64 {
    let len = s.len() as u64;
    if s.len() > 32 {
        let units = s.len() / 16;
        let x0 = Block128 { lo: len, hi: seed };
        let y0 = aesenc_spec(x0, Block128 { lo: PRIME_1, hi: PRIME_0 });
        let (x1, y1, q1) = if units % 2 == 1 {
            let x1 = add64(x0, load128(s, 0));
            (x1, aesenc_spec(x1, y0), 1nat)
        } else {
            (x0, y0, 0nat)
        };
        let m8 = ((units - q1) / 8) as nat;
        let (x2, y2, salt) = avx2_blocks((x1, y1, y1), s, 16 * q1 as int, m8);
        let q2 = q1 + 8 * m8;
        let (x3, y3) = aes_pairs((x2, y2), s, 16 * q2 as int, ((units - q2) / 2) as nat);
        aes_finish(aes_fold(x3, y3), s, 16 * units as int)
    } else {
        tail_ab_spec(State { a: seed, b: len, c: 0, d: 0 }, s, 0, s.len() as int)
    }
}

/// Pair steps over the 16-byte units from `v` up to the last whole one.
fn pairs_to_end(x: Block128, y: Block128, data: &[u8], v: usize) -> (r: (Block128, Block128))
    requires
        v <= data@.len() / 16,
        (data@.len() / 16 - v) % 2 == 0,
    ensures
        r == aes_pairs((x, y), data@, 16 * v, ((data@.len() / 16 - v) / 2) as nat),
{
    let len = data.len();
    let units = len / 16;
    let mut x = x;
    let mut y = y;
    let mut v = v;
    let ghost st2 = (x, y);
    let ghost q2 = v as int;
    let ghost mut j: nat = 0;
    while v < units
        invariant
            len == data@.len(),
            units == len / 16,
            v <= units,
            (units - v) % 2 == 0,
            v == q2 + 2 * j,
            (x, y) == aes_pairs(st2, data@, 16 * q2, j),
        decreases units - v,
    {
        let (x1, y1) = pair_step(x, y, data, 16 * v);
        proof {
            assert(16 * q2 + 32 * j == 16 * v);
            j = j + 1;
        }
        v = v + 2;
        x = x1;
        y = y1;
    }
    assert(j == (units - q2) / 2);
    (x, y)
}

/// Folds the register pair and runs the tail cascade from `pos` on.
fn fold_and_tail(x: Block128, y: Block128, data: &[u8], pos: usize) -> (r: u64)
    requires
        pos <= data@.len() < pos + 32,
        pos % 16 == 0,
    ensures
        r == aes_finish(aes_fold(x, y), data@, pos as int),
{
    let len = data.len();
    let f = add_epi64(aesdec(x, aesenc(y, x)), y);
    t1ha2_tail_ab::<LittenEndianUnaligned<u64>>(
        State { a: f.lo, b: f.hi, c: 0, d: 0 },
        data,
        pos,
        len - pos,
    )
}

/// The salted blocks of eight 16-byte units from unit `v` on, while eight
/// whole units remain; returns the registers and the next unit.
fn salted_blocks(x: Block128, y: Block128, data: &[u8], v: usize) -> (r: (
    Block128,
    Block128,
    usize,
))
    requires
        v <= data@.len() / 16,
    ensures
        r.2 == v + 8 * ((data@.len() / 16 - v) / 8),
        ({
            let (sx, sy, _) = avx2_blocks(
                (x, y, y),
                data@,
                16 * v as int,
                ((data@.len() / 16 - v) / 8) as nat,
            );
            (r.0, r.1) == (sx, sy)
        }),
{
    let len = data.len();
    let units = len / 16;
    let mut x = x;
    let mut y = y;
    let mut v = v;
    let mut salt = y;
    let ghost st1 = (x, y, salt);
    let ghost q1 = v as int;
    let ghost mut k: nat = 0;
    while v + 8 <= units
        invariant
            len == data@.len(),
            units == len / 16,
            v <= units,
            v == q1 + 8 * k,
            (x, y, salt) == avx2_blocks(st1, data@, 16 * q1, k),
        decreases units - v,
    {
        let p = 16 * v;
        let mut t = aesenc(loadu_si128(data, p), salt);
        t = aesdec(t, loadu_si128(data, p + 16));
        t = aesdec(t, loadu_si128(data, p + 32));
        t = aesdec(t, loadu_si128(data, p + 48));
        t = aesdec(t, loadu_si128(data, p + 64));
        t = aesdec(t, loadu_si128(data, p + 80));
        t = aesdec(t, loadu_si128(data, p + 96));
        t = aesdec(t, loadu_si128(data, p + 112));

        v = v + 8;
        prefetch(data, 16 * v);

        salt = add_epi64(salt, Block128 { lo: PRIME_6, hi: PRIME_5 });
        t = aesenc(x, t);
        x = add_epi64(y, x);
        y = t;
        proof {
            reveal(avx2_block);
            assert(16 * q1 + 128 * k == p);
            k = k + 1;
        }
    }
    assert(k == (units - q1) / 8);
    (x, y, v)
}

/// The AES-based t1ha0 body for CPUs with AVX2: salted 128-byte blocks.
#[verifier::spinoff_prover]
#[verifier::rlimit(60)]
pub fn t1ha0_ia32aes_avx2(data: &[u8], seed: u64) -> (r: u64)
    ensures
        r == t1ha0_ia32aes_avx2_spec(data@, seed),
{
    let len = data.len();
    if unlikely(len > 32) {
        let units = len / 16;
        let mut x = Block128 { lo: len as u64, hi: seed };
        let mut y = aesenc(x, Block128 { lo: PRIME_1, hi: PRIME_0 });
        let mut v: usize = 0;

        if units % 2 == 1 {
            x = add_epi64(x, loadu_si128(data, 0));
            y = aesenc(x, y);
            v = 1;
        }

        let (x2, y2, v2) = salted_blocks(x, y, data, v);
        proof {
            let (sx, sy, _) = avx2_blocks((x, y, y), data@, 16 * v as int, ((units - v) / 8) as nat);
            assert(x2 == sx && y2 == sy);
        }
        let (x3, y3) = pairs_to_end(x2, y2, data, v2);
        fold_and_tail(x3, y3, data, 16 * units)
    } else {
        t1ha2_tail_ab::<LittenEndianUnaligned<u64>>(
            State { a: seed, b: len as u64, c: 0, d: 0 },
            data,
            0,
            len,
        )
    }
}

} // verus!
