//! Seed strings and the linear congruential generator that derives them.

use std::collections::hash_map::DefaultHasher;
use std::hash::Hash;
use std::hash::Hasher;
use vstd::std_specs::hash::DefaultHasherAdditionalSpecFns;
use vstd::prelude::*;

verus! {

/// Multiplier of the generator (Knuth's MMIX constant).
pub const LCG_MUL: u64 = 6364136223846793005;

/// Increment of the generator.
pub const LCG_INC: u64 = 1442695040888963407;

/// One step of the generator: `s * LCG_MUL + LCG_INC` modulo 2^64.
pub open spec fn lcg_step(s: u64) -> u64 {
    ((s as nat * LCG_MUL as nat + LCG_INC as nat) % 0x1_0000_0000_0000_0000nat) as u64
}

/// The state after `n` steps from `s`.
pub open spec fn lcg_iter(s: u64, n: nat) -> u64
    decreases n,
{
    if n == 0 {
        s
    } else {
        lcg_step(lcg_iter(s, (n - 1) as nat))
    }
}

/// The 32-bit output drawn from a state: its top 31 bits.
pub open spec fn lcg_output(s: u64) -> u32 {
    (s >> 33u64) as u32
}

/// One generator step is `s * 6364136223846793005 + 1442695040888963407`
/// modulo 2^64, and an output is the state's top 31 bits (the state divided
/// by 2^33).
pub proof fn lemma_lcg_arithmetic(s: u64)
    ensures
        lcg_step(s) as int == (s as int * 6364136223846793005 + 1442695040888963407) % 0x1_0000_0000_0000_0000,
        lcg_output(s) as int == s as int / 0x2_0000_0000,
        lcg_output(s) < 0x8000_0000,
        lcg_iter(s, 1) == lcg_step(s),
{
    assert(s >> 33u64 == s / 0x2_0000_0000u64) by (bit_vector);
    assert(lcg_iter(s, 1) == lcg_step(lcg_iter(s, 0)));
}

/// A simple linear congruential generator for deterministic seeding.
pub struct Lcg(u64);

impl View for Lcg {
    type V = u64;

    closed spec fn view(&self) -> u64 {
        self.0
    }
}

impl Lcg {
    /// A generator whose state is `seed`.
    pub fn new(seed: u64) -> (r: Self)
        ensures
            r@ == seed,
    {
        Lcg(seed)
    }

    /// Advances the state one step and returns the new state's top bits.
    pub fn next_u32(&mut self) -> (r: u32)
        ensures
            final(self)@ == lcg_step(old(self)@),
            r == lcg_output(final(self)@),
    {
        let s = self.0;
        let next = s.wrapping_mul(LCG_MUL).wrapping_add(LCG_INC);
        proof {
            let m: int = 0x1_0000_0000_0000_0000;
            let prod: int = s as int * LCG_MUL as int;
            vstd::arithmetic::div_mod::lemma_add_mod_noop(prod, LCG_INC as int, m);
            vstd::arithmetic::div_mod::lemma_mod_twice(LCG_INC as int, m);
            vstd::arithmetic::div_mod::lemma_mod_bound(prod, m);
            assert(LCG_INC as int % m == LCG_INC as int);
            assert(((prod % m) + LCG_INC as int) % m == (prod + LCG_INC as int) % m);
        }
        self.0 = next;
        (next >> 33u64) as u32
    }
}


/// The 52 symbols a seed is written in: digits and consonants.
pub open spec fn seed_alphabet() -> Seq<char> {
    seq!['0', '1', '2', '3', '4', '5', '6', '7', '8', '9', 'B', 'C', 'D', 'F', 'G', 'H', 'J', 'K', 'L', 'M', 'N', 'P', 'Q', 'R', 'S', 'T', 'V', 'W', 'X', 'Y', 'Z', 'b', 'c', 'd', 'f', 'g', 'h', 'j', 'k', 'l', 'm', 'n', 'p', 'q', 'r', 's', 't', 'v', 'w', 'x', 'y', 'z']
}


/// A symbol a seed may contain: a decimal digit, or an ASCII letter of
/// either case that is not a vowel.
pub open spec fn is_seed_symbol(c: char) -> bool {
    ||| '0' <= c <= '9'
    ||| ('A' <= c <= 'Z' || 'a' <= c <= 'z') && c != 'A' && c != 'E' && c != 'I' && c != 'O'
        && c != 'U' && c != 'a' && c != 'e' && c != 'i' && c != 'o' && c != 'u'
}

proof fn lemma_increasing_from_adjacent(a: Seq<char>)
    requires
        forall|i: int| 0 <= i < a.len() - 1 ==> (#[trigger] a[i]) < a[i + 1],
    ensures
        forall|i: int, j: int| 0 <= i < j < a.len() ==> a[i] < a[j],
{
    assert forall|i: int, j: int| 0 <= i < j < a.len() implies a[i] < a[j] by {
        lemma_increasing_step(a, i, j);
    }
}

proof fn lemma_increasing_step(a: Seq<char>, i: int, j: int)
    requires
        0 <= i < j < a.len(),
        forall|k: int| 0 <= k < a.len() - 1 ==> (#[trigger] a[k]) < a[k + 1],
    ensures
        a[i] < a[j],
    decreases j - i,
{
    if j > i + 1 {
        lemma_increasing_step(a, i, j - 1);
        assert(a[j - 1] < a[j]);
    } else {
        assert(a[i] < a[i + 1]);
    }
}

/// The seed alphabet is 52 symbols in strictly increasing order, each a
/// digit or a non-vowel ASCII letter. There are exactly 52 such symbols, so
/// this is all of them, each once: the ten digits, then the 21 upper-case
/// consonants, then the 21 lower-case ones, ending with `z`.
pub proof fn lemma_seed_alphabet()
    ensures
        seed_alphabet().len() == 52,
        forall|i: int, j: int|
            0 <= i < j < 52 ==> seed_alphabet()[i] < seed_alphabet()[j],
        forall|i: int| 0 <= i < 52 ==> is_seed_symbol(#[trigger] seed_alphabet()[i]),
        seed_alphabet()[0] == '0',
        seed_alphabet()[51] == 'z',
{
    let a = seed_alphabet();
    assert forall|i: int| 0 <= i < 51 implies (#[trigger] a[i]) < a[i + 1] by {
        if i == 0 {} else if i == 1 {} else if i == 2 {} else if i == 3 {} else if i == 4 {} else if i == 5 {} else if i == 6 {} else if i == 7 {} else if i == 8 {} else if i == 9 {} else if i == 10 {} else if i == 11 {} else if i == 12 {} else if i == 13 {} else if i == 14 {} else if i == 15 {} else if i == 16 {} else if i == 17 {} else if i == 18 {} else if i == 19 {} else if i == 20 {} else if i == 21 {} else if i == 22 {} else if i == 23 {} else if i == 24 {} else if i == 25 {} else if i == 26 {} else if i == 27 {} else if i == 28 {} else if i == 29 {} else if i == 30 {} else if i == 31 {} else if i == 32 {} else if i == 33 {} else if i == 34 {} else if i == 35 {} else if i == 36 {} else if i == 37 {} else if i == 38 {} else if i == 39 {} else if i == 40 {} else if i == 41 {} else if i == 42 {} else if i == 43 {} else if i == 44 {} else if i == 45 {} else if i == 46 {} else if i == 47 {} else if i == 48 {} else if i == 49 {} else if i == 50 {}
    }
    lemma_increasing_from_adjacent(a);
    assert forall|i: int| 0 <= i < 52 implies is_seed_symbol(#[trigger] a[i]) by {
        if i == 0 {} else if i == 1 {} else if i == 2 {} else if i == 3 {} else if i == 4 {} else if i == 5 {} else if i == 6 {} else if i == 7 {} else if i == 8 {} else if i == 9 {} else if i == 10 {} else if i == 11 {} else if i == 12 {} else if i == 13 {} else if i == 14 {} else if i == 15 {} else if i == 16 {} else if i == 17 {} else if i == 18 {} else if i == 19 {} else if i == 20 {} else if i == 21 {} else if i == 22 {} else if i == 23 {} else if i == 24 {} else if i == 25 {} else if i == 26 {} else if i == 27 {} else if i == 28 {} else if i == 29 {} else if i == 30 {} else if i == 31 {} else if i == 32 {} else if i == 33 {} else if i == 34 {} else if i == 35 {} else if i == 36 {} else if i == 37 {} else if i == 38 {} else if i == 39 {} else if i == 40 {} else if i == 41 {} else if i == 42 {} else if i == 43 {} else if i == 44 {} else if i == 45 {} else if i == 46 {} else if i == 47 {} else if i == 48 {} else if i == 49 {} else if i == 50 {} else if i == 51 {}
    }
}

/// Each symbol of a drawn seed is the alphabet symbol that the generator's
/// output, taken modulo 52, selects: the third state from `state` picks the
/// first symbol, the fourth the second, and so on.
pub proof fn lemma_seed_symbols(state: u64, i: int)
    requires
        0 <= i < 8,
    ensures
        seed_string(state).len() == 8,
        seed_string(state)[i] == seed_alphabet()[((lcg_iter(state, (i + 2) as nat) >> 33u64) as u32
            as int) % 52],
{
}

/// The seed string drawn from generator state `state`: the first output is
/// discarded, the next eight each pick a symbol by their value modulo 52.
pub open spec fn seed_string(state: u64) -> Seq<char> {
    Seq::new(8, |i: int| seed_alphabet()[lcg_output(lcg_iter(state, (i + 2) as nat)) as int % 52])
}

/// What `<str as Hash>::hash` appends to the writes recorded by a
/// `DefaultHasher` whose writes so far are `prior`, for a string `s`.
pub uninterp spec fn str_hash_writes(prior: Seq<Seq<u8>>, s: Seq<char>) -> Seq<Seq<u8>>;

/// The hash of a seed string under std's `DefaultHasher`.
pub open spec fn seed_hash(seed: Seq<char>) -> u64 {
    DefaultHasher::spec_finish(str_hash_writes(Seq::empty(), seed))
}

/// Feeds `s` to `hasher` through `<str as Hash>::hash`. Trusted: the
/// contract only names the writes that std's `Hash` impl for `str` makes.
#[verifier::external_body]
fn hash_str_into(s: &str, hasher: &mut DefaultHasher)
    ensures
        final(hasher)@ == str_hash_writes(old(hasher)@, s@),
{
    s.hash(hasher)
}

/// Appends one character through `String::push`. Trusted: std documents
/// that `push` appends the given char to the end of the string.
#[verifier::external_body]
pub(crate) fn push_char(s: &mut String, c: char)
    ensures
        final(s)@ == old(s)@.push(c),
{
    s.push(c)
}

/// Hashes a seed string with std's `DefaultHasher`.
pub fn hash_seed(seed: &str) -> (h: u64)
    ensures
        h == seed_hash(seed@),
{
    let mut hasher = DefaultHasher::new();
    hash_str_into(seed, &mut hasher);
    hasher.finish()
}

/// Draws an eight-symbol seed string from a generator started at `state`.
pub fn generate_seed(state: u64) -> (res: String)
    ensures
        res@ == seed_string(state),
        res@.len() == 8,
        forall|i: int| 0 <= i < 8 ==> seed_alphabet().contains(#[trigger] res@[i]),
{
    let chars: [char; 52] = ['0', '1', '2', '3', '4', '5', '6', '7', '8', '9', 'B', 'C', 'D', 'F', 'G', 'H', 'J', 'K', 'L', 'M', 'N', 'P', 'Q', 'R', 'S', 'T', 'V', 'W', 'X', 'Y', 'Z', 'b', 'c', 'd', 'f', 'g', 'h', 'j', 'k', 'l', 'm', 'n', 'p', 'q', 'r', 's', 't', 'v', 'w', 'x', 'y', 'z'];
    assert(chars@ =~= seed_alphabet());
    let mut rng = Lcg::new(state);
    rng.next_u32();
    assert(lcg_iter(state, 1) == lcg_step(lcg_iter(state, 0)));
    let mut res = String::new();
    let mut k: usize = 0;
    while k < 8
        invariant
            k <= 8,
            chars@ == seed_alphabet(),
            rng@ == lcg_iter(state, (k + 1) as nat),
            res@.len() == k,
            forall|i: int| 0 <= i < k ==> res@[i] == #[trigger] seed_string(state)[i],
        decreases 8 - k,
    {
        let v = rng.next_u32();
        assert(lcg_iter(state, (k + 2) as nat) == lcg_step(lcg_iter(state, (k + 1) as nat)));
        let idx: usize = (v as usize) % 52;
        push_char(&mut res, chars[idx]);
        k = k + 1;
    }
    assert(res@ =~= seed_string(state));
    proof {
        assert forall|i: int| 0 <= i < 8 implies seed_alphabet().contains(#[trigger] res@[i]) by {
            let j = lcg_output(lcg_iter(state, (i + 2) as nat)) as int % 52;
            assert(seed_alphabet()[j] == res@[i]);
        }
    }
    res
}

} // verus!
