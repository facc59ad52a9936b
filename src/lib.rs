//! t1ha = { Fast Positive Hash }
//!
//! A family of fast, portable, non-cryptographic 64-bit and 128-bit hash
//! functions: t1ha0 (the fastest for the running CPU), t1ha1 (the 64-bit
//! baseline) and t1ha2 (better quality, with a streaming hasher).
//!
//! t1ha0 is a choice among several bodies: `t1ha0_resolve` picks one from
//! the CPU's features and `t1ha0_with` hashes through it.
use vstd::prelude::*;

pub mod bits;
pub mod nightly;
pub mod t1ha0;
pub mod t1ha0_aes;
pub mod t1ha1;
pub mod t1ha2;

pub use crate::t1ha0::{t1ha0_32be, t1ha0_32le};
pub use crate::t1ha0_aes::t1ha0_ia32aes as t1ha0_ia32aes_avx;
pub use crate::t1ha0_aes::t1ha0_ia32aes as t1ha0_ia32aes_noavx;
pub use crate::t1ha0_aes::t1ha0_ia32aes_avx2;
pub use crate::t1ha1::{t1ha1_be, t1ha1_le};
pub use crate::t1ha2::{t1ha2_atonce, t1ha2_atonce128, T1ha2Hasher};

use crate::bits::{BigEndianUnaligned, LittenEndianUnaligned};
use crate::t1ha0::t1ha0_32_spec;
use crate::t1ha0_aes::{t1ha0_ia32aes_avx2_spec, t1ha0_ia32aes_spec};
use crate::t1ha1::t1ha1_spec;

verus! {

/// An implementation of the `t1ha` hash function as a `Hasher`: its state is
/// the digest of everything written so far, which seeds the next write.
/// Each write goes through the t1ha0 body the hasher was made with, which
/// is the one `t1ha0_resolve` picked for the running CPU.
#[derive(Clone, Copy, Debug)]
pub struct T1haHasher {
    state: u64,
    body: T1ha0Impl,
}

impl T1haHasher {
    /// The current state.
    pub closed spec fn value(&self) -> u64 {
        self.state
    }

    /// The t1ha0 body that writes go through.
    pub closed spec fn body(&self) -> T1ha0Impl {
        self.body
    }

    /// Create a `t1ha` hasher starting with a state corresponding to the hash
    /// `seed`, hashing through the t1ha0 body `body`.
    pub fn with_seed(seed: u64, body: T1ha0Impl) -> (h: Self)
        ensures
            h.value() == seed,
            h.body() == body,
    {
        T1haHasher { state: seed, body }
    }
}

impl core::hash::Hasher for T1haHasher {
    fn finish(&self) -> (r: u64)
        ensures
            r == self.value(),
    {
        self.state
    }

    fn write(&mut self, bytes: &[u8])
        ensures
            final(self).value() == t1ha0_impl_spec(old(self).body(), bytes@, old(self).value()),
            final(self).body() == old(self).body(),
    {
        self.state = t1ha0_with(self.body, bytes, self.state);
    }
}

/// The bodies that t1ha0 can resolve to on a given CPU.
#[derive(Clone, Copy, Debug, PartialEq, Eq, Structural)]
pub enum T1ha0Impl {
    /// AES rounds, salted 128-byte blocks (CPUs with AVX2).
    Ia32AesAvx2,
    /// AES rounds, 128-byte blocks (CPUs with AVX).
    Ia32AesAvx,
    /// AES rounds, 128-byte blocks (CPUs with AES only).
    Ia32AesNoavx,
    /// t1ha1, little-endian (64-bit CPUs).
    T1ha1Le,
    /// t1ha1, big-endian (64-bit CPUs).
    T1ha1Be,
    /// The 32-bit body, little-endian.
    T1ha0_32Le,
    /// The 32-bit body, big-endian.
    T1ha0_32Be,
}

/// What a CPU offers, as far as the choice of a t1ha0 body goes.
#[derive(Clone, Copy, Debug)]
pub struct CpuFeatures {
    pub aes: bool,
    pub avx: bool,
    pub avx2: bool,
    /// Native words are 64 bits wide.
    pub word64: bool,
    pub big_endian: bool,
}

/// The preferred body: the widest AES form available, else the portable
/// body for the CPU's word width and byte order.
pub open spec fn resolve_spec(f: CpuFeatures) -> T1ha0Impl {
    if f.avx2 {
        T1ha0Impl::Ia32AesAvx2
    } else if f.avx {
        T1ha0Impl::Ia32AesAvx
    } else if f.aes {
        T1ha0Impl::Ia32AesNoavx
    } else if f.word64 {
        if f.big_endian {
            T1ha0Impl::T1ha1Be
        } else {
            T1ha0Impl::T1ha1Le
        }
    } else if f.big_endian {
        T1ha0Impl::T1ha0_32Be
    } else {
        T1ha0Impl::T1ha0_32Le
    }
}

/// The digest that a body gives.
pub open spec fn t1ha0_impl_spec(which: T1ha0Impl, s: Seq<u8>, seed: u64) -> u64 {
    match which {
        T1ha0Impl::Ia32AesAvx2 => t1ha0_ia32aes_avx2_spec(s, seed),
        T1ha0Impl::Ia32AesAvx => t1ha0_ia32aes_spec(s, seed),
        T1ha0Impl::Ia32AesNoavx => t1ha0_ia32aes_spec(s, seed),
        T1ha0Impl::T1ha1Le => t1ha1_spec::<LittenEndianUnaligned<u64>>(s, seed),
        T1ha0Impl::T1ha1Be => t1ha1_spec::<BigEndianUnaligned<u64>>(s, seed),
        T1ha0Impl::T1ha0_32Le => t1ha0_32_spec::<LittenEndianUnaligned<u32>>(s, seed),
        T1ha0Impl::T1ha0_32Be => t1ha0_32_spec::<BigEndianUnaligned<u32>>(s, seed),
    }
}

/// Picks the body that t1ha0 uses on a CPU with the features `f`. The
/// choice depends on `f` alone, so concurrent first resolutions agree.
pub fn t1ha0_resolve(f: CpuFeatures) -> (r: T1ha0Impl)
    ensures
        r == resolve_spec(f),
{
    if f.avx2 {
        T1ha0Impl::Ia32AesAvx2
    } else if f.avx {
        T1ha0Impl::Ia32AesAvx
    } else if f.aes {
        T1ha0Impl::Ia32AesNoavx
    } else if f.word64 {
        if f.big_endian {
            T1ha0Impl::T1ha1Be
        } else {
            T1ha0Impl::T1ha1Le
        }
    } else if f.big_endian {
        T1ha0Impl::T1ha0_32Be
    } else {
        T1ha0Impl::T1ha0_32Le
    }
}

/// t1ha0 through the body `which`. The fastest-for-this-CPU `t1ha0` is this
/// with the body that `t1ha0_resolve` picks from the CPU's features.
pub fn t1ha0_with(which: T1ha0Impl, data: &[u8], seed: u64) -> (r: u64)
    ensures
        r == t1ha0_impl_spec(which, data@, seed),
{
    match which {
        T1ha0Impl::Ia32AesAvx2 => t1ha0_ia32aes_avx2(data, seed),
        T1ha0Impl::Ia32AesAvx => t1ha0_ia32aes_avx(data, seed),
        T1ha0Impl::Ia32AesNoavx => t1ha0_ia32aes_noavx(data, seed),
        T1ha0Impl::T1ha1Le => t1ha1_le(data, seed),
        T1ha0Impl::T1ha1Be => t1ha1_be(data, seed),
        T1ha0Impl::T1ha0_32Le => t1ha0_32le(data, seed),
        T1ha0Impl::T1ha0_32Be => t1ha0_32be(data, seed),
    }
}

} // verus!
