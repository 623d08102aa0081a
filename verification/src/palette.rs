//! The seed-derived randomness behind the colour walk: an FNV-1a hash of the
//! seed text and a xorshift generator.

use vstd::prelude::*;
use vstd::string::StringSliceAdditionalSpecFns;

verus! {

/// FNV-1a offset basis.
pub const FNV_OFFSET: u64 = 0xcbf29ce484222325;

/// FNV-1a prime.
pub const FNV_PRIME: u64 = 0x00000100000001b3;

/// FNV-1a over the first `n` bytes of `b`: xor in each byte, then multiply
/// by the prime modulo 2^64.
pub open spec fn fnv1a_prefix(b: Seq<u8>, n: nat) -> u64
    recommends
        n <= b.len(),
    decreases n,
{
    if n == 0 {
        FNV_OFFSET
    } else {
        let h = fnv1a_prefix(b, (n - 1) as nat) ^ (b[n - 1] as u64);
        ((h as nat * FNV_PRIME as nat) % 0x1_0000_0000_0000_0000nat) as u64
    }
}

/// FNV-1a over all of `b`.
pub open spec fn fnv1a(b: Seq<u8>) -> u64 {
    fnv1a_prefix(b, b.len())
}

/// FNV-1a takes every byte as it is: the hash of no bytes is the offset
/// basis 0xcbf29ce484222325, and appending a byte `x` xors `x` into the
/// hash and multiplies by 0x100000001b3 modulo 2^64.
pub proof fn lemma_fnv1a_append(b: Seq<u8>, x: u8)
    ensures
        fnv1a(Seq::empty()) == 0xcbf29ce484222325u64,
        fnv1a(b.push(x)) as int == ((fnv1a(b) ^ (x as u64)) as int * 0x100000001b3) % 0x1_0000_0000_0000_0000,
{
    lemma_fnv1a_prefix_same(b.push(x), b, b.len());
}

proof fn lemma_fnv1a_prefix_same(a: Seq<u8>, b: Seq<u8>, n: nat)
    requires
        n <= a.len(),
        n <= b.len(),
        forall|k: int| 0 <= k < n ==> a[k] == b[k],
    ensures
        fnv1a_prefix(a, n) == fnv1a_prefix(b, n),
    decreases n,
{
    if n > 0 {
        lemma_fnv1a_prefix_same(a, b, (n - 1) as nat);
    }
}

/// Different one-byte texts hash differently: each step of FNV-1a is
/// one-to-one in the byte it takes, so, for instance, `A` and `a` differ.
pub proof fn lemma_fnv1a_single_byte(x: u8, y: u8)
    requires
        x != y,
    ensures
        fnv1a(seq![x]) != fnv1a(seq![y]),
{
    let o: u64 = 0xcbf29ce484222325;
    lemma_fnv1a_append(Seq::empty(), x);
    lemma_fnv1a_append(Seq::empty(), y);
    assert(Seq::<u8>::empty().push(x) =~= seq![x]);
    assert(Seq::<u8>::empty().push(y) =~= seq![y]);
    let hx = o ^ (x as u64);
    let hy = o ^ (y as u64);
    assert(hx != hy) by (bit_vector)
        requires
            x != y,
            hx == o ^ (x as u64),
            hy == o ^ (y as u64),
    ;
    assert(((hx as int * 0x100000001b3) % 0x1_0000_0000_0000_0000) != ((hy as int * 0x100000001b3)
        % 0x1_0000_0000_0000_0000)) by {
        lemma_odd_multiplier_injective(hx, hy);
    }
}

proof fn lemma_odd_multiplier_injective(a: u64, b: u64)
    requires
        a != b,
    ensures
        (a as int * 0x100000001b3) % 0x1_0000_0000_0000_0000 != (b as int * 0x100000001b3)
            % 0x1_0000_0000_0000_0000,
{
    let ma = (a as int * 0x100000001b3) % 0x1_0000_0000_0000_0000;
    let mb = (b as int * 0x100000001b3) % 0x1_0000_0000_0000_0000;
    let pa: u64 = a.wrapping_mul(0x100000001b3u64);
    let pb: u64 = b.wrapping_mul(0x100000001b3u64);
    assert(pa as int == ma);
    assert(pb as int == mb);
    assert(a != b ==> a.wrapping_mul(0x100000001b3u64) != b.wrapping_mul(0x100000001b3u64))
        by (bit_vector);
}

/// The 64-bit FNV-1a hash of a seed's UTF-8 bytes; the colour walk starts
/// its generator from it.
pub fn world_seed_hash(world_seed: &str) -> (h: u64)
    ensures
        h == fnv1a(world_seed.spec_bytes()),
{
    let bytes = world_seed.as_bytes();
    let mut h: u64 = FNV_OFFSET;
    let mut i: usize = 0;
    while i < bytes.len()
        invariant
            i <= bytes@.len(),
            bytes@ == world_seed.spec_bytes(),
            h == fnv1a_prefix(bytes@, i as nat),
        decreases bytes@.len() - i,
    {
        let b = bytes[i];
        h = (h ^ (b as u64)).wrapping_mul(FNV_PRIME);
        i = i + 1;
    }
    h
}

/// One xorshift64 step (shifts 13, 7, 17).
pub open spec fn xorshift_step(x: u64) -> u64 {
    let a = x ^ (x << 13u64);
    let b = a ^ (a >> 7u64);
    b ^ (b << 17u64)
}

/// A xorshift step never reaches the all-zero state from a nonzero one, so
/// a generator started from a nonzero state (such as `hash | 1`) never
/// gets stuck at zero.
pub proof fn lemma_xorshift_nonzero(x: u64)
    requires
        x != 0,
    ensures
        xorshift_step(x) != 0,
{
    assert(x != 0 ==> (x ^ (x << 13u64)) ^ ((x ^ (x << 13u64)) >> 7u64) ^ (((x ^ (x << 13u64)) ^ ((x
        ^ (x << 13u64)) >> 7u64)) << 17u64) != 0) by (bit_vector);
}

/// The step shifts left by 13, right by 7, then left by 17: from state 1
/// it reaches 1082269761.
pub proof fn lemma_xorshift_shifts(x: u64)
    ensures
        xorshift_step(1) == 1082269761,
        xorshift_step(x) == ((x ^ (x << 13u64)) ^ ((x ^ (x << 13u64)) >> 7u64)) ^ (((x ^ (x
            << 13u64)) ^ ((x ^ (x << 13u64)) >> 7u64)) << 17u64),
{
    let one: u64 = 1;
    assert(((one ^ (one << 13u64)) ^ ((one ^ (one << 13u64)) >> 7u64)) ^ (((one ^ (one << 13u64))
        ^ ((one ^ (one << 13u64)) >> 7u64)) << 17u64) == 1082269761u64) by (bit_vector)
        requires
            one == 1u64,
    ;
}

/// The xorshift64 generator; its state is the public field.
pub struct Xorshift64(pub u64);

impl Xorshift64 {
    /// Advances the state one xorshift step and returns the new state.
    pub fn next(&mut self) -> (r: u64)
        ensures
            final(self).0 == xorshift_step(old(self).0),
            r == final(self).0,
    {
        self.0 = self.0 ^ (self.0 << 13u64);
        self.0 = self.0 ^ (self.0 >> 7u64);
        self.0 = self.0 ^ (self.0 << 17u64);
        self.0
    }
}

/// Which colour algorithm the palette generator uses.
#[derive(Clone, Copy, PartialEq, Eq, Debug)]
pub enum Palette {
    /// Anchored at espresso brown, a 3-D orbital walk (warm, muted).
    Espresso,
    /// Full-gamut vivid hues spread around the hue circle at high chroma.
    Wide,
}

} // verus!
