use std::hash::Hasher;

use siphasher::sip128::{Hasher128, SipHasher24};

use girk::rand64::{gen_rand128, gen_rand64, gen_rand64_seed, Rand64};

/// The generator written directly against siphasher, with a cached keyed hasher.
struct Reference {
    hasher: SipHasher24,
    state: siphasher::sip128::Hash128,
}

impl Reference {
    fn new(domain: &str, seed: u128) -> Self {
        let mut hasher = SipHasher24::new_with_key(&seed.to_le_bytes());
        hasher.write(domain.as_bytes());
        let state = hasher.finish128();
        Reference { hasher, state }
    }

    fn next(&mut self) -> u64 {
        let mut h = self.hasher;
        h.write(&self.state.as_bytes());
        self.state = h.finish128();
        self.state.h2
    }

    fn inject(&mut self, extra: u128) {
        let mut h = self.hasher;
        h.write(&self.state.as_bytes());
        h.write(&extra.to_le_bytes());
        self.state = h.finish128();
    }
}

#[test]
fn rand64_matches_keyed_siphash_stream() {
    let mut rng = Rand64::new("girk test", 0x0123_4567_89ab_cdef_0011_2233_4455_6677);
    let mut reference = Reference::new("girk test", 0x0123_4567_89ab_cdef_0011_2233_4455_6677);
    for _ in 0..5 {
        assert_eq!(rng.next(), reference.next());
    }
    rng.inject(99);
    reference.inject(99);
    for _ in 0..3 {
        assert_eq!(rng.next(), reference.next());
    }
}

#[test]
fn rand64_is_deterministic_from_seed() {
    let mut a = Rand64::new("domain", 42);
    let mut b = Rand64::new("domain", 42);
    let xs: Vec<u64> = (0..8).map(|_| a.next()).collect();
    let ys: Vec<u64> = (0..8).map(|_| b.next()).collect();
    assert_eq!(xs, ys);
}

#[test]
fn rand64_depends_on_seed_and_domain() {
    let mut a = Rand64::new("domain", 42);
    let mut b = Rand64::new("domain", 43);
    let mut c = Rand64::new("other", 42);
    let x = a.next();
    assert_ne!(x, b.next());
    assert_ne!(x, c.next());
}

#[test]
fn rand64_injection_changes_the_stream() {
    let mut a = Rand64::new("domain", 7);
    let mut b = Rand64::new("domain", 7);
    b.inject(1);
    assert_ne!(a.next(), b.next());
}

#[test]
fn os_random_values_vary() {
    let seeds: Vec<u128> = (0..4).map(|_| gen_rand64_seed()).collect();
    assert!(seeds.iter().any(|s| *s != seeds[0]));
    let xs: Vec<u64> = (0..4).map(|_| gen_rand64()).collect();
    assert!(xs.iter().any(|x| *x != xs[0]));
    let ys: Vec<u128> = (0..4).map(|_| gen_rand128()).collect();
    assert!(ys.iter().any(|y| *y != ys[0]));
}
