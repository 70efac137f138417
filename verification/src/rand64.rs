use vstd::prelude::*;
use vstd::string::StringSliceAdditionalSpecFns;
use std::hash::Hasher;
use siphasher::sip128::Hasher128;
use rand::RngCore;
use crate::ticks::le_value;

verus! {

/// What SipHash-2-4 with 128-bit output gives for message `msg` under the key whose little-endian bytes
/// are those of `key`: the two 64-bit halves `(h1, h2)` of `siphasher::sip128::Hash128`.
pub uninterp spec fn sip24_hash128(key: u128, msg: Seq<u8>) -> (u64, u64);

/// Calls `siphasher::sip128::SipHasher24::new_with_key(&key.to_le_bytes())`, writes `msg` and takes
/// `finish128`. SipHash is a keyed function of the key and the bytes written (writes are streamed, so
/// only their concatenation matters), which is what `sip24_hash128` names.
#[verifier::external_body]
fn sip24_128(key: u128, msg: &[u8]) -> (r: (u64, u64))
    ensures
        r == sip24_hash128(key, msg@),
{
    let mut hasher = siphasher::sip128::SipHasher24::new_with_key(&key.to_le_bytes());
    hasher.write(msg);
    let out = hasher.finish128();
    (out.h1, out.h2)
}

/// Little-endian bytes of a 64-bit number.
pub open spec fn le_bytes_u64(x: u64) -> Seq<u8> {
    Seq::new(8, |i: int| ((x >> (8 * i) as u64) & 0xff) as u8)
}

/// Little-endian bytes of a 128-bit number.
pub open spec fn le_bytes_u128(x: u128) -> Seq<u8> {
    Seq::new(16, |i: int| ((x >> (8 * i) as u128) & 0xff) as u8)
}

/// The 16 bytes of a 128-bit hash state `(h1, h2)`: `h1` then `h2`, each little-endian.
pub open spec fn state_bytes(state: (u64, u64)) -> Seq<u8> {
    le_bytes_u64(state.0) + le_bytes_u64(state.1)
}

/// The abstract generator: key (seed), domain separator bytes and 128-bit state.
pub struct Rand64View {
    pub seed: u128,
    pub domain: Seq<u8>,
    pub state: (u64, u64),
}

/// A fresh generator: its state is the hash of the domain separator.
pub open spec fn rand_init(domain: Seq<u8>, seed: u128) -> Rand64View {
    Rand64View { seed, domain, state: sip24_hash128(seed, domain) }
}

/// One step: `[new prefix || new value] = H(domain || [old prefix || old value])`.
pub open spec fn rand_step(v: Rand64View) -> Rand64View {
    Rand64View { state: sip24_hash128(v.seed, v.domain + state_bytes(v.state)), ..v }
}

/// Entropy injection: the state becomes `H(domain || state || extra)`.
pub open spec fn rand_inject(v: Rand64View, extra: u128) -> Rand64View {
    Rand64View { state: sip24_hash128(v.seed, v.domain + state_bytes(v.state) + le_bytes_u128(extra)), ..v }
}

/// Runs a history of calls on a generator: `None` stands for `next`, `Some(e)` for `inject(e)`. Gives the
/// generator afterwards and the numbers that the `next` calls returned, in order.
pub open spec fn rand_run(v: Rand64View, calls: Seq<Option<u128>>) -> (Rand64View, Seq<u64>)
    decreases calls.len(),
{
    if calls.len() == 0 {
        (v, Seq::empty())
    } else {
        let (before, outputs) = rand_run(v, calls.drop_last());
        match calls.last() {
            None => {
                let after = rand_step(before);
                (after, outputs.push(after.state.1))
            },
            Some(extra) => (rand_inject(before, extra), outputs),
        }
    }
}

/// Deterministic from seed: two generators made with the same domain separator and seed that receive the
/// same history of `next` and `inject` calls return the same numbers, and end in the same state.
pub proof fn lemma_rand64_deterministic(a: Rand64View, b: Rand64View, domain: Seq<u8>, seed: u128, calls: Seq<Option<u128>>)
    requires
        a == rand_init(domain, seed),
        b == rand_init(domain, seed),
    ensures
        rand_run(a, calls) == rand_run(b, calls),
{
}

/// Random 64-bit number generator (cryptographically secure, deterministic from seed).
pub struct Rand64 {
    seed: u128,
    domain: Vec<u8>,
    state: (u64, u64),
}

impl View for Rand64 {
    type V = Rand64View;

    closed spec fn view(&self) -> Rand64View {
        Rand64View { seed: self.seed, domain: self.domain@, state: self.state }
    }
}

/// Appends the little-endian bytes of `x` to `out`.
fn push_le_u64(out: &mut Vec<u8>, x: u64)
    ensures
        final(out)@ == old(out)@ + le_bytes_u64(x),
{
    let ghost start = out@;
    let mut i: u64 = 0;
    while i < 8
        invariant
            i <= 8,
            out@ == start + le_bytes_u64(x).take(i as int),
        decreases 8 - i,
    {
        let b = ((x >> (8 * i)) & 0xff) as u8;
        out.push(b);
        i = i + 1;
        proof {
            assert(le_bytes_u64(x).take(i as int) =~= le_bytes_u64(x).take(i - 1).push(b));
        }
    }
    proof {
        assert(le_bytes_u64(x).take(8) =~= le_bytes_u64(x));
    }
}

/// Appends the little-endian bytes of `x` to `out`.
fn push_le_u128(out: &mut Vec<u8>, x: u128)
    ensures
        final(out)@ == old(out)@ + le_bytes_u128(x),
{
    let ghost start = out@;
    let mut i: u128 = 0;
    while i < 16
        invariant
            i <= 16,
            out@ == start + le_bytes_u128(x).take(i as int),
        decreases 16 - i,
    {
        let b = ((x >> (8 * i)) & 0xff) as u8;
        out.push(b);
        i = i + 1;
        proof {
            assert(le_bytes_u128(x).take(i as int) =~= le_bytes_u128(x).take(i - 1).push(b));
        }
    }
    proof {
        assert(le_bytes_u128(x).take(16) =~= le_bytes_u128(x));
    }
}

impl Rand64 {
    /// New generator. Domain separator and seed are required.
    pub fn new(domain_sep: &str, seed: u128) -> (r: Rand64)
        ensures
            r@ == rand_init(domain_sep.spec_bytes(), seed),
    {
        let domain = vstd::slice::slice_to_vec(domain_sep.as_bytes());
        let state = sip24_128(seed, domain.as_slice());
        Rand64 { seed, domain, state }
    }

    /// The message hashed for the next state: the domain separator followed by the state bytes.
    fn state_message(&self) -> (r: Vec<u8>)
        ensures
            r@ == self@.domain + state_bytes(self@.state),
    {
        let mut msg = vstd::slice::slice_to_vec(self.domain.as_slice());
        push_le_u64(&mut msg, self.state.0);
        push_le_u64(&mut msg, self.state.1);
        proof {
            assert(msg@ =~= self@.domain + state_bytes(self@.state));
        }
        msg
    }

    /// Get the next random number: advance the state, then return its second half.
    pub fn next(&mut self) -> (r: u64)
        ensures
            final(self)@ == rand_step(old(self)@),
            r == final(self)@.state.1,
    {
        let msg = self.state_message();
        self.state = sip24_128(self.seed, msg.as_slice());
        self.state.1
    }

    /// Inject additional entropy.
    pub fn inject(&mut self, extra_entropy: u128)
        ensures
            final(self)@ == rand_inject(old(self)@, extra_entropy),
    {
        let mut msg = self.state_message();
        push_le_u128(&mut msg, extra_entropy);
        self.state = sip24_128(self.seed, msg.as_slice());
    }
}

/// Calls `rand::RngCore::fill_bytes` on `rand::rngs::OsRng`, filling `buf` with random bytes from the
/// operating system. Only the length is claimed to stay; the bytes are random.
#[verifier::external_body]
fn fill_os_random(buf: &mut Vec<u8>)
    ensures
        final(buf)@.len() == old(buf)@.len(),
{
    rand::rngs::OsRng.fill_bytes(buf.as_mut_slice());
}

/// `n` random bytes from the operating system.
fn os_random_bytes(n: usize) -> (r: Vec<u8>)
    ensures
        r@.len() == n,
{
    let mut buf: Vec<u8> = Vec::new();
    let mut i: usize = 0;
    while i < n
        invariant
            i <= n,
            buf@.len() == i,
        decreases n - i,
    {
        buf.push(0u8);
        i = i + 1;
    }
    fill_os_random(&mut buf);
    buf
}

/// The little-endian value of some bytes is below `256` to the power of their count.
proof fn lemma_le_value_bound(bytes: Seq<u8>)
    ensures
        le_value(bytes) < vstd::arithmetic::power::pow(256, bytes.len()),
    decreases bytes.len(),
{
    reveal(vstd::arithmetic::power::pow);
    if bytes.len() > 0 {
        let rest = bytes.drop_first();
        lemma_le_value_bound(rest);
        let p = vstd::arithmetic::power::pow(256, rest.len());
        let v = le_value(rest);
        let b = bytes[0] as int;
        assert(vstd::arithmetic::power::pow(256, bytes.len()) == 256 * p);
        assert(b + 256 * v < 256 * p) by (nonlinear_arith)
            requires
                0 <= b < 256,
                0 <= v < p,
        ;
    }
}

/// Reads up to 16 bytes as a little-endian number.
fn read_le(bytes: &Vec<u8>) -> (r: u128)
    requires
        bytes@.len() <= 16,
    ensures
        r == le_value(bytes@),
{
    let mut value: u128 = 0;
    let mut i: usize = bytes.len();
    while i > 0
        invariant
            i <= bytes@.len() <= 16,
            value == le_value(bytes@.skip(i as int)),
        decreases i,
    {
        i = i - 1;
        let ghost rest = bytes@.skip(i + 1);
        proof {
            assert(bytes@.skip(i as int).drop_first() =~= rest);
            lemma_le_value_bound(rest);
            vstd::arithmetic::power::lemma_pow_increases(256, rest.len(), 15);
            reveal_with_fuel(vstd::arithmetic::power::pow, 16);
            assert(vstd::arithmetic::power::pow(256, 15) == 0x1_0000_0000_0000_0000_0000_0000_0000_00);
            assert(value * 256 + 255 <= u128::MAX) by (nonlinear_arith)
                requires
                    value < 0x1_0000_0000_0000_0000_0000_0000_0000_00,
            ;
        }
        value = value * 256 + bytes[i] as u128;
    }
    proof {
        assert(bytes@.skip(0) =~= bytes@);
    }
    value
}

/// Generate a random seed for [`Rand64`] from 16 bytes of operating-system randomness.
pub fn gen_rand64_seed() -> (r: u128) {
    read_le(&os_random_bytes(16))
}

/// Generate a random 64-bit integer from 8 bytes of operating-system randomness.
pub fn gen_rand64() -> (r: u64) {
    let v = read_le(&os_random_bytes(8));
    (v & 0xffff_ffff_ffff_ffff) as u64
}

/// Generate a random 128-bit integer from 16 bytes of operating-system randomness.
pub fn gen_rand128() -> (r: u128) {
    read_le(&os_random_bytes(16))
}

} // verus!
