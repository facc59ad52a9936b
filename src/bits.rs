//! Word reads from byte buffers and the arithmetic mixing primitives that
//! every hash body is built from.
use vstd::prelude::*;

verus! {

// 'magic' primes
pub const PRIME_0: u64 = 0xEC99_BF0D_8372_CAAB;

pub const PRIME_1: u64 = 0x8243_4FE9_0EDC_EF39;

pub const PRIME_2: u64 = 0xD4F0_6DB9_9D67_BE4B;

pub const PRIME_3: u64 = 0xBD9C_ACC2_2C6E_9571;

pub const PRIME_4: u64 = 0x9C06_FAF4_D023_E3AB;

pub const PRIME_5: u64 = 0xC060_724A_8424_F345;

pub const PRIME_6: u64 = 0xCB5A_F53A_E3AA_AC31;

/// Whether a buffer position lies on a boundary of `size`-byte words.
pub fn aligned_to(pos: usize, size: usize) -> (r: bool)
    requires
        size > 0,
    ensures
        r == (pos % size == 0),
{
    pos % size == 0
}

// ---------------------------------------------------------------------------
// Byte-order models
/// The `n` bytes of `s` starting at `i`, read as a little-endian number.
#[verifier::opaque]
pub open spec fn le64(s: Seq<u8>, i: int, n: int) -> u64
    decreases n,
{
    if n <= 0 {
        0
    } else {
        (le64(s, i + 1, n - 1) << 8u64) | (s[i] as u64)
    }
}

/// The `n` bytes of `s` starting at `i`, read as a big-endian number.
#[verifier::opaque]
pub open spec fn be64(s: Seq<u8>, i: int, n: int) -> u64
    decreases n,
{
    if n <= 0 {
        0
    } else {
        (be64(s, i, n - 1) << 8u64) | (s[i + n - 1] as u64)
    }
}

#[verifier::opaque]
pub open spec fn le32(s: Seq<u8>, i: int, n: int) -> u32
    decreases n,
{
    if n <= 0 {
        0
    } else {
        (le32(s, i + 1, n - 1) << 8u32) | (s[i] as u32)
    }
}

#[verifier::opaque]
pub open spec fn be32(s: Seq<u8>, i: int, n: int) -> u32
    decreases n,
{
    if n <= 0 {
        0
    } else {
        (be32(s, i, n - 1) << 8u32) | (s[i + n - 1] as u32)
    }
}

fn load_le64(data: &[u8], pos: usize, n: usize) -> (r: u64)
    requires
        pos + n <= data@.len(),
    ensures
        r == le64(data@, pos as int, n as int),
{
    reveal_with_fuel(le64, 1);
    let mut r: u64 = 0;
    let mut k: usize = n;
    let dl: usize = data.len();
    while k > 0
        invariant
            k <= n,
            pos + n <= dl == data@.len(),
            r == le64(data@, pos + k, n - k),
        decreases k,
    {
        reveal_with_fuel(le64, 1);
        k = k - 1;
        r = (r << 8u64) | (data[pos + k] as u64);
    }
    r
}

fn load_be64(data: &[u8], pos: usize, n: usize) -> (r: u64)
    requires
        pos + n <= data@.len(),
    ensures
        r == be64(data@, pos as int, n as int),
{
    reveal_with_fuel(be64, 1);
    let mut r: u64 = 0;
    let mut k: usize = 0;
    let dl: usize = data.len();
    while k < n
        invariant
            k <= n,
            pos + n <= dl == data@.len(),
            r == be64(data@, pos as int, k as int),
        decreases n - k,
    {
        reveal_with_fuel(be64, 1);
        r = (r << 8u64) | (data[pos + k] as u64);
        k = k + 1;
    }
    r
}

fn load_le32(data: &[u8], pos: usize, n: usize) -> (r: u32)
    requires
        pos + n <= data@.len(),
    ensures
        r == le32(data@, pos as int, n as int),
{
    reveal_with_fuel(le32, 1);
    let mut r: u32 = 0;
    let mut k: usize = n;
    let dl: usize = data.len();
    while k > 0
        invariant
            k <= n,
            pos + n <= dl == data@.len(),
            r == le32(data@, pos + k, n - k),
        decreases k,
    {
        reveal_with_fuel(le32, 1);
        k = k - 1;
        r = (r << 8u32) | (data[pos + k] as u32);
    }
    r
}

fn load_be32(data: &[u8], pos: usize, n: usize) -> (r: u32)
    requires
        pos + n <= data@.len(),
    ensures
        r == be32(data@, pos as int, n as int),
{
    reveal_with_fuel(be32, 1);
    let mut r: u32 = 0;
    let mut k: usize = 0;
    let dl: usize = data.len();
    while k < n
        invariant
            k <= n,
            pos + n <= dl == data@.len(),
            r == be32(data@, pos as int, k as int),
        decreases n - k,
    {
        reveal_with_fuel(be32, 1);
        r = (r << 8u32) | (data[pos + k] as u32);
        k = k + 1;
    }
    r
}

/// A discipline for reading machine words out of a byte buffer: a byte
/// order, a word width, and whether reads must sit on word boundaries.
///
/// `tail` reads the last, partial word of a buffer: only the `len` bytes
/// that belong to the input contribute, as if the word had been read whole
/// and its invalid part masked off after byte-order normalisation. Reads
/// never leave the buffer: a slice gives no guarantee about the memory
/// page around it, so no model reads a whole word that reaches before or
/// past the input; each takes the tail's own bytes, which yields the same
/// word as the masked read.
pub trait MemoryModel {
    type Item;

    /// Bytes in one word.
    spec fn word_size() -> nat;

    /// Whether reads must start on a multiple of the word size.
    spec fn aligned() -> bool;

    /// The word made of the `n` bytes of `s` at `i`.
    spec fn read(s: Seq<u8>, i: int, n: int) -> Self::Item;

    fn fetch(data: &[u8], pos: usize) -> (r: Self::Item)
        requires
            pos + Self::word_size() <= data@.len(),
            Self::aligned() ==> pos as int % Self::word_size() as int == 0,
        ensures
            r == Self::read(data@, pos as int, Self::word_size() as int),
    ;

    fn tail(data: &[u8], pos: usize, len: usize) -> (r: Self::Item)
        requires
            1 <= len <= Self::word_size(),
            pos + len <= data@.len(),
            Self::aligned() ==> pos as int % Self::word_size() as int == 0,
        ensures
            r == Self::read(data@, pos as int, len as int),
    ;
}

pub struct LittenEndianAligned<T>(pub core::marker::PhantomData<T>);

pub struct BigEndianAligned<T>(pub core::marker::PhantomData<T>);

pub struct LittenEndianUnaligned<T>(pub core::marker::PhantomData<T>);

pub struct BigEndianUnaligned<T>(pub core::marker::PhantomData<T>);

impl MemoryModel for LittenEndianAligned<u64> {
    type Item = u64;

    open spec fn word_size() -> nat {
        8
    }

    open spec fn aligned() -> bool {
        true
    }

    open spec fn read(s: Seq<u8>, i: int, n: int) -> u64 {
        le64(s, i, n)
    }

    fn fetch(data: &[u8], pos: usize) -> (r: u64) {
        load_le64(data, pos, 8)
    }

    fn tail(data: &[u8], pos: usize, len: usize) -> (r: u64) {
        load_le64(data, pos, len)
    }
}

impl MemoryModel for LittenEndianUnaligned<u64> {
    type Item = u64;

    open spec fn word_size() -> nat {
        8
    }

    open spec fn aligned() -> bool {
        false
    }

    open spec fn read(s: Seq<u8>, i: int, n: int) -> u64 {
        le64(s, i, n)
    }

    fn fetch(data: &[u8], pos: usize) -> (r: u64) {
        load_le64(data, pos, 8)
    }

    fn tail(data: &[u8], pos: usize, len: usize) -> (r: u64) {
        load_le64(data, pos, len)
    }
}

impl MemoryModel for BigEndianAligned<u64> {
    type Item = u64;

    open spec fn word_size() -> nat {
        8
    }

    open spec fn aligned() -> bool {
        true
    }

    open spec fn read(s: Seq<u8>, i: int, n: int) -> u64 {
        be64(s, i, n)
    }

    fn fetch(data: &[u8], pos: usize) -> (r: u64) {
        load_be64(data, pos, 8)
    }

    fn tail(data: &[u8], pos: usize, len: usize) -> (r: u64) {
        load_be64(data, pos, len)
    }
}

impl MemoryModel for BigEndianUnaligned<u64> {
    type Item = u64;

    open spec fn word_size() -> nat {
        8
    }

    open spec fn aligned() -> bool {
        false
    }

    open spec fn read(s: Seq<u8>, i: int, n: int) -> u64 {
        be64(s, i, n)
    }

    fn fetch(data: &[u8], pos: usize) -> (r: u64) {
        load_be64(data, pos, 8)
    }

    fn tail(data: &[u8], pos: usize, len: usize) -> (r: u64) {
        load_be64(data, pos, len)
    }
}

impl MemoryModel for LittenEndianAligned<u32> {
    type Item = u32;

    open spec fn word_size() -> nat {
        4
    }

    open spec fn aligned() -> bool {
        true
    }

    open spec fn read(s: Seq<u8>, i: int, n: int) -> u32 {
        le32(s, i, n)
    }

    fn fetch(data: &[u8], pos: usize) -> (r: u32) {
        load_le32(data, pos, 4)
    }

    fn tail(data: &[u8], pos: usize, len: usize) -> (r: u32) {
        load_le32(data, pos, len)
    }
}

impl MemoryModel for LittenEndianUnaligned<u32> {
    type Item = u32;

    open spec fn word_size() -> nat {
        4
    }

    open spec fn aligned() -> bool {
        false
    }

    open spec fn read(s: Seq<u8>, i: int, n: int) -> u32 {
        le32(s, i, n)
    }

    fn fetch(data: &[u8], pos: usize) -> (r: u32) {
        load_le32(data, pos, 4)
    }

    fn tail(data: &[u8], pos: usize, len: usize) -> (r: u32) {
        load_le32(data, pos, len)
    }
}

impl MemoryModel for BigEndianAligned<u32> {
    type Item = u32;

    open spec fn word_size() -> nat {
        4
    }

    open spec fn aligned() -> bool {
        true
    }

    open spec fn read(s: Seq<u8>, i: int, n: int) -> u32 {
        be32(s, i, n)
    }

    fn fetch(data: &[u8], pos: usize) -> (r: u32) {
        load_be32(data, pos, 4)
    }

    fn tail(data: &[u8], pos: usize, len: usize) -> (r: u32) {
        load_be32(data, pos, len)
    }
}

impl MemoryModel for BigEndianUnaligned<u32> {
    type Item = u32;

    open spec fn word_size() -> nat {
        4
    }

    open spec fn aligned() -> bool {
        false
    }

    open spec fn read(s: Seq<u8>, i: int, n: int) -> u32 {
        be32(s, i, n)
    }

    fn fetch(data: &[u8], pos: usize) -> (r: u32) {
        load_be32(data, pos, 4)
    }

    fn tail(data: &[u8], pos: usize, len: usize) -> (r: u32) {
        load_be32(data, pos, len)
    }
}

/// A little-endian read sees only the bytes it covers: two sequences that
/// agree on the `n` bytes at `i` and `i + d` give the same word there.
pub proof fn lemma_le64_frame(s1: Seq<u8>, s2: Seq<u8>, d: int, i: int, n: int)
    requires
        forall|j: int| i <= j < i + n ==> #[trigger] s1[j] == s2[j + d],
    ensures
        le64(s1, i, n) == le64(s2, i + d, n),
    decreases n,
{
    reveal_with_fuel(le64, 1);
    if n > 0 {
        lemma_le64_frame(s1, s2, d, i + 1, n - 1);
        assert(s1[i] == s2[i + d]);
        assert((i + 1) + d == (i + d) + 1);
    }
}

// ---------------------------------------------------------------------------
// Mixing primitives
pub open spec fn rotr32(v: u32, n: u32) -> u32 {
    v.wrapping_shr(n) | v.wrapping_shl((32 - n % 32) as u32)
}

pub open spec fn rotr64(v: u64, n: u32) -> u64 {
    v.wrapping_shr(n) | v.wrapping_shl((64 - n % 64) as u32)
}

/// Rotate right.
pub fn rot32(v: u32, n: u32) -> (r: u32)
    ensures
        r == rotr32(v, n),
{
    v.wrapping_shr(n) | v.wrapping_shl(32 - n % 32)
}

/// Rotate right.
pub fn rot64(v: u64, n: u32) -> (r: u64)
    ensures
        r == rotr64(v, n),
{
    v.wrapping_shr(n) | v.wrapping_shl(64 - n % 64)
}

/// Low half of the 128-bit product.
#[verifier::opaque]
pub open spec fn mul_lo(a: u64, b: u64) -> u64 {
    a.wrapping_mul(b)
}

/// High half of the 128-bit product.
#[verifier::opaque]
pub open spec fn mul_hi(a: u64, b: u64) -> u64 {
    ((a as int * b as int) / 0x1_0000_0000_0000_0000int) as u64
}

pub open spec fn final32_spec(a: u32, b: u32) -> u64 {
    let l0 = ((b ^ rotr32(a, 13)) as u64) | ((a as u64) << 32u64);
    let l1 = l0.wrapping_mul(PRIME_0);
    let l2 = l1 ^ l1.wrapping_shr(41);
    let l3 = l2.wrapping_mul(PRIME_4);
    let l4 = l3 ^ l3.wrapping_shr(47);
    l4.wrapping_mul(PRIME_6)
}

pub open spec fn mix64_spec(v: u64, p: u64) -> u64 {
    let w = v.wrapping_mul(p);
    w ^ rotr64(w, 41)
}

pub open spec fn mux64_spec(v: u64, p: u64) -> u64 {
    mul_lo(v, p) ^ mul_hi(v, p)
}

pub open spec fn final64_spec(a: u64, b: u64) -> u64 {
    let x = a.wrapping_add(rotr64(b, 41)).wrapping_mul(PRIME_0);
    let y = rotr64(a, 23).wrapping_add(b).wrapping_mul(PRIME_6);
    mux64_spec(x ^ y, PRIME_5)
}

/// The pair update of two 32-bit accumulators by one word: the result is
/// the new `(a, b)`.
pub open spec fn mixup32_spec(a: u32, b: u32, v: u32, p: u32) -> (u32, u32) {
    let l = ((b.wrapping_add(v) as u64) * (p as u64)) as u64;
    (a ^ (l as u32), b.wrapping_add((l >> 32u64) as u32))
}

/// The pair update of two 64-bit accumulators by one word: the result is
/// the new `(a, b)`.
pub open spec fn mixup64_spec(a: u64, b: u64, v: u64, p: u64) -> (u64, u64) {
    let m = b.wrapping_add(v);
    (a ^ mul_lo(m, p), b.wrapping_add(mul_hi(m, p)))
}

/// The 32-bit finishing mix of two accumulators into a 64-bit digest.
pub fn final32(a: u32, b: u32) -> (r: u64)
    ensures
        r == final32_spec(a, b),
{
    let mut l: u64 = ((b ^ rot32(a, 13)) as u64) | ((a as u64) << 32u64);
    l = l.wrapping_mul(PRIME_0);
    l = l ^ l.wrapping_shr(41);
    l = l.wrapping_mul(PRIME_4);
    l = l ^ l.wrapping_shr(47);
    l = l.wrapping_mul(PRIME_6);
    l
}

/// The 64-bit finishing mix of two accumulators.
pub fn final64(a: u64, b: u64) -> (r: u64)
    ensures
        r == final64_spec(a, b),
{
    let x = a.wrapping_add(rot64(b, 41)).wrapping_mul(PRIME_0);
    let y = rot64(a, 23).wrapping_add(b).wrapping_mul(PRIME_6);
    mux64(x ^ y, PRIME_5)
}

/// xor-mul-xor mixer
pub fn mix64(v: u64, p: u64) -> (r: u64)
    ensures
        r == mix64_spec(v, p),
{
    let v = v.wrapping_mul(p);
    v ^ rot64(v, 41)
}

/// xor high and low parts of full 128-bit product
pub fn mux64(v: u64, prime: u64) -> (r: u64)
    ensures
        r == mux64_spec(v, prime),
{
    let mut h: u64 = 0;
    let l = mul_64x64_128(v, prime, &mut h);
    l ^ h
}

/// The 32-bit pair update: the double-width product of `b + v` and
/// `prime` has its low half xored into `a` and its high half added to `b`.
pub fn mixup32(a: &mut u32, b: &mut u32, v: u32, prime: u32)
    ensures
        (*final(a), *final(b)) == mixup32_spec(*old(a), *old(b), v, prime),
{
    let l = mul_32x32_64(b.wrapping_add(v), prime);
    *a = *a ^ (l as u32);
    *b = b.wrapping_add((l >> 32u64) as u32);
}

/// The 64-bit pair update: the double-width product of `b + v` and
/// `prime` has its low half xored into `a` and its high half added to `b`.
pub fn mixup64(a: &mut u64, b: &mut u64, v: u64, prime: u64)
    ensures
        (*final(a), *final(b)) == mixup64_spec(*old(a), *old(b), v, prime),
{
    let mut h: u64 = 0;
    let l = mul_64x64_128(b.wrapping_add(v), prime, &mut h);
    *a = *a ^ l;
    *b = b.wrapping_add(h);
}

fn mul_32x32_64(a: u32, b: u32) -> (r: u64)
    ensures
        r == (a as u64) * (b as u64),
{
    proof {
        assert((a as u64) * (b as u64) <= u64::MAX) by (nonlinear_arith);
    }
    (a as u64) * (b as u64)
}

fn mul_64x64_128(a: u64, b: u64, h: &mut u64) -> (r: u64)
    ensures
        r == mul_lo(a, b),
        *final(h) == mul_hi(a, b),
{
    reveal(mul_lo);
    reveal(mul_hi);
    proof {
        assert((a as u128) * (b as u128) <= u128::MAX) by (nonlinear_arith);
    }
    let r: u128 = (a as u128) * (b as u128);
    assert(r >> 64u128 == r / 0x1_0000_0000_0000_0000u128) by (bit_vector);
    assert(r as u64 == (r % 0x1_0000_0000_0000_0000u128) as u64) by (bit_vector);
    *h = (r >> 64u128) as u64;
    r as u64
}

} // verus!
