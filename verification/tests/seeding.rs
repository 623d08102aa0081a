use std::hash::Hash;
use std::hash::Hasher;
use anytimeuniverse::palette::world_seed_hash;
use anytimeuniverse::palette::Palette;
use anytimeuniverse::palette::Xorshift64;
use anytimeuniverse::palette::FNV_OFFSET;
use anytimeuniverse::seed::generate_seed;
use anytimeuniverse::seed::hash_seed;
use anytimeuniverse::seed::Lcg;

#[test]
fn lcg_first_outputs_from_zero() {
    let mut rng = Lcg::new(0);
    assert_eq!(rng.next_u32(), 167951807);
    assert_eq!(rng.next_u32(), 218396424);
}

#[test]
fn lcg_wraps_instead_of_overflowing() {
    let mut rng = Lcg::new(u64::MAX);
    let expected = (u64::MAX.wrapping_mul(6364136223846793005).wrapping_add(1442695040888963407) >> 33) as u32;
    assert_eq!(rng.next_u32(), expected);
}

#[test]
fn generate_seed_known_values() {
    assert_eq!(generate_seed(0), "DnS1vSMX");
    assert_eq!(generate_seed(42), "6pvZJT6Q");
    assert_eq!(generate_seed(12345678901234567890), "BHFCj12K");
}

#[test]
fn generate_seed_uses_only_the_alphabet() {
    let alphabet = "0123456789BCDFGHJKLMNPQRSTVWXYZbcdfghjklmnpqrstvwxyz";
    for state in [0u64, 1, 7, 99, u64::MAX] {
        let s = generate_seed(state);
        assert_eq!(s.chars().count(), 8);
        assert!(s.chars().all(|c| alphabet.contains(c)));
    }
}

#[test]
fn hash_seed_matches_default_hasher() {
    for seed in ["abc", "hello", "", "DnS1vSMX"] {
        let mut h = std::collections::hash_map::DefaultHasher::new();
        seed.hash(&mut h);
        assert_eq!(hash_seed(seed), h.finish());
    }
}

#[test]
fn hash_seed_siphash_values() {
    assert_eq!(hash_seed("abc"), 17224545590736200989);
    assert_eq!(hash_seed("hello"), 16156531084128653017);
    assert_eq!(hash_seed(""), 3476900567878811119);
}

#[test]
fn reroll_is_deterministic() {
    let a = generate_seed(hash_seed("DnS1vSMX"));
    let b = generate_seed(hash_seed("DnS1vSMX"));
    assert_eq!(a, b);
    assert_ne!(a, "DnS1vSMX");
}

#[test]
fn fnv_of_known_inputs() {
    assert_eq!(world_seed_hash(""), FNV_OFFSET);
    assert_eq!(world_seed_hash("a"), 12638187200555641996);
    assert_eq!(world_seed_hash("abc"), 16654208175385433931);
}

#[test]
fn xorshift_known_steps() {
    let mut rng = Xorshift64(1);
    assert_eq!(rng.next(), 1082269761);
    assert_eq!(rng.next(), 1152992998833853505);
    assert_eq!(rng.0, 1152992998833853505);
}

#[test]
fn xorshift_from_odd_seed_never_zero() {
    let mut rng = Xorshift64(world_seed_hash("DnS1vSMX") | 1);
    for _ in 0..1000 {
        assert_ne!(rng.next(), 0);
    }
}

#[test]
fn palette_variants_compare() {
    assert_eq!(Palette::Wide, Palette::Wide);
    assert_ne!(Palette::Wide, Palette::Espresso);
}
