//! Trusted wrappers around the outside big-integer and Paillier backends.
//!
//! Each wrapper makes exactly one outside call and converts between the
//! crate's byte-level [`Bn`] representation and the backend's big integers.
//! Every contract states what the backend's source and documentation show
//! of the call, over [`nat_of`] values.

use vstd::prelude::*;
use vstd::arithmetic::div_mod::{
    lemma_fundamental_div_mod, lemma_mod_twice, lemma_mul_mod_noop_general, lemma_small_mod,
};
use vstd::arithmetic::mul::lemma_mul_nonnegative;
use vstd::arithmetic::power::{
    lemma1_pow, lemma_pow_adds, lemma_pow_mod_noop, lemma_pow_multiplies, lemma_pow_positive, pow,
};

use crate::bn::{canonical, nat_of, Bn};

use curv::arithmetic::{Converter, Modulo, Samplable};
use curv::arithmetic::Integer;
use kzen_paillier::{Decrypt, KeyGeneration};

verus! {

/// Euclid's greatest common divisor.
pub open spec fn gcd(a: nat, b: nat) -> nat
    decreases b,
{
    if b == 0 {
        a
    } else {
        gcd(b, a % b)
    }
}

/// Primality, stated directly: no proper divisor.
pub open spec fn is_prime(n: nat) -> bool {
    n > 1 && forall|d: nat| 1 < d < n ==> #[trigger] (n % d) != 0
}

/// The gcd of zero and a positive number is that number.
pub proof fn lemma_gcd_zero_left(b: nat)
    requires
        b > 0,
    ensures
        gcd(0, b) == b,
{
    assert(0nat % b == 0) by {
        lemma_small_mod(0, b);
    };
    assert(gcd(0, b) == gcd(b, 0));
}

/// Powers of a nonnegative base are nonnegative.
pub proof fn lemma_pow_nonneg(b: int, e: nat)
    requires
        b >= 0,
    ensures
        pow(b, e) >= 0,
    decreases e,
{
    reveal(pow);
    if e != 0 {
        lemma_pow_nonneg(b, (e - 1) as nat);
        lemma_mul_nonnegative(b, pow(b, (e - 1) as nat));
    }
}

/// When `t^phi = 1 mod n`, exponents of `t` may be reduced modulo `phi`
/// without changing the result modulo `n`.
pub proof fn lemma_pow_mod_exp_reduce(t: int, x: nat, phi: nat, n: int)
    requires
        n > 1,
        phi >= 1,
        t >= 0,
        pow(t, phi) % n == 1,
    ensures
        pow(t, (x % phi) as nat) % n == pow(t, x) % n,
{
    let q: nat = x / phi;
    let r: nat = x % phi;
    assert(x == phi * q + r) by {
        lemma_fundamental_div_mod(x as int, phi as int);
    };
    lemma_pow_adds(t, (phi * q) as nat, r);
    assert(pow(t, x) == pow(t, (phi * q) as nat) * pow(t, r));
    lemma_pow_multiplies(t, phi, q);
    assert(pow(t, (phi * q) as nat) == pow(pow(t, phi), q));
    lemma_pow_mod_noop(pow(t, phi), q, n);
    assert(pow(pow(t, phi) % n, q) % n == pow(pow(t, phi), q) % n);
    lemma1_pow(q);
    assert(pow(pow(t, phi) % n, q) == 1);
    lemma_small_mod(1, n as nat);
    assert(pow(pow(t, phi), q) % n == 1);
    lemma_mul_mod_noop_general(pow(t, (phi * q) as nat), pow(t, r), n);
    assert(pow(t, x) % n == ((pow(t, (phi * q) as nat) % n) * (pow(t, r) % n)) % n);
    assert(pow(t, x) % n == (1 * (pow(t, r) % n)) % n);
    assert(1 * (pow(t, r) % n) == pow(t, r) % n);
    lemma_mod_twice(pow(t, r), n);
    assert(pow(t, x) % n == pow(t, r) % n);
}

/// A product of two factors at least `2^k` is at least `2^(2k)`.
pub proof fn lemma_modulus_lower_bound(p: nat, q: nat, n: nat, k: nat)
    requires
        n == p * q,
        p as int >= pow(2, k),
        q as int >= pow(2, k),
    ensures
        n as int >= pow(2, (2 * k) as nat),
{
    lemma_pow_positive(2, k);
    lemma_pow_adds(2, k, k);
    assert(pow(2, (2 * k) as nat) == pow(2, k) * pow(2, k));
    assert(p * q >= pow(2, k) * pow(2, k)) by (nonlinear_arith)
        requires
            p as int >= pow(2, k),
            q as int >= pow(2, k),
            pow(2, k) > 0,
    ;
}

/// The gcd of one and any number is one.
pub proof fn lemma_gcd_one_left(b: nat)
    ensures
        gcd(1, b) == 1,
{
    if b == 0 {
    } else if b == 1 {
        assert(1nat % b == 0);
        assert(gcd(1, b) == gcd(1, 0));
    } else {
        assert(1nat % b == 1) by {
            vstd::arithmetic::div_mod::lemma_small_mod(1, b);
        };
        assert(gcd(1, b) == gcd(b, 1));
        assert(b % 1nat == 0);
        assert(gcd(b, 1) == gcd(1, 0));
    }
}

/// What Paillier decryption under the prime pair `(p, q)` returns for a
/// ciphertext `c`: a deterministic function of its arguments alone.
pub uninterp spec fn paillier_dec(p: Seq<u8>, q: Seq<u8>, c: Seq<u8>) -> Seq<u8>;

/// Relies on curv's `BigInt` subtraction: exact difference of the operands.
#[verifier::external_body]
pub(crate) fn bn_sub(a: &Bn, b: &Bn) -> (r: Bn)
    requires
        nat_of(b@) <= nat_of(a@),
    ensures
        nat_of(r@) == nat_of(a@) - nat_of(b@),
        canonical(r@),
{
    let x = curv::BigInt::from_bytes(&a.bytes);
    let y = curv::BigInt::from_bytes(&b.bytes);
    Bn { bytes: (&x - &y).to_bytes() }
}

/// Relies on curv's `BigInt` multiplication: exact product of the operands.
#[verifier::external_body]
pub(crate) fn bn_mul(a: &Bn, b: &Bn) -> (r: Bn)
    ensures
        nat_of(r@) == nat_of(a@) * nat_of(b@),
        canonical(r@),
{
    let x = curv::BigInt::from_bytes(&a.bytes);
    let y = curv::BigInt::from_bytes(&b.bytes);
    Bn { bytes: (&x * &y).to_bytes() }
}

/// Relies on curv's `BigInt::mod_pow`: `base^exponent mod m`, reduced into
/// `[0, m)`.
#[verifier::external_body]
pub(crate) fn bn_mod_pow(base: &Bn, exponent: &Bn, m: &Bn) -> (r: Bn)
    requires
        nat_of(m@) > 0,
    ensures
        nat_of(r@) as int == pow(nat_of(base@) as int, nat_of(exponent@)) % (nat_of(m@) as int),
        nat_of(r@) < nat_of(m@),
        canonical(r@),
{
    let b = curv::BigInt::from_bytes(&base.bytes);
    let e = curv::BigInt::from_bytes(&exponent.bytes);
    let q = curv::BigInt::from_bytes(&m.bytes);
    Bn { bytes: curv::BigInt::mod_pow(&b, &e, &q).to_bytes() }
}

/// Relies on curv's `BigInt::mod_add`: `(a + b) mod m`, reduced into `[0, m)`.
#[verifier::external_body]
pub(crate) fn bn_mod_add(a: &Bn, b: &Bn, m: &Bn) -> (r: Bn)
    requires
        nat_of(m@) > 0,
    ensures
        nat_of(r@) == (nat_of(a@) + nat_of(b@)) % nat_of(m@),
        nat_of(r@) < nat_of(m@),
        canonical(r@),
{
    let x = curv::BigInt::from_bytes(&a.bytes);
    let y = curv::BigInt::from_bytes(&b.bytes);
    let q = curv::BigInt::from_bytes(&m.bytes);
    Bn { bytes: curv::BigInt::mod_add(&x, &y, &q).to_bytes() }
}

/// Relies on curv's `BigInt::mod_mul`: `(a * b) mod m`, reduced into `[0, m)`.
#[verifier::external_body]
pub(crate) fn bn_mod_mul(a: &Bn, b: &Bn, m: &Bn) -> (r: Bn)
    requires
        nat_of(m@) > 0,
    ensures
        nat_of(r@) == (nat_of(a@) * nat_of(b@)) % nat_of(m@),
        nat_of(r@) < nat_of(m@),
        canonical(r@),
{
    let x = curv::BigInt::from_bytes(&a.bytes);
    let y = curv::BigInt::from_bytes(&b.bytes);
    let q = curv::BigInt::from_bytes(&m.bytes);
    Bn { bytes: curv::BigInt::mod_mul(&x, &y, &q).to_bytes() }
}

/// Relies on curv's `BigInt::mod_inv`: a modular inverse in `[0, m)` exactly
/// when the operands are coprime.
#[verifier::external_body]
pub(crate) fn bn_mod_inv(a: &Bn, m: &Bn) -> (r: Option<Bn>)
    requires
        nat_of(m@) > 0,
    ensures
        r is Some <==> gcd(nat_of(a@), nat_of(m@)) == 1,
        r is Some ==> (nat_of(a@) * nat_of(r->Some_0@)) % nat_of(m@) == 1nat % nat_of(m@),
        r is Some ==> nat_of(r->Some_0@) < nat_of(m@) && canonical(r->Some_0@),
{
    let x = curv::BigInt::from_bytes(&a.bytes);
    let q = curv::BigInt::from_bytes(&m.bytes);
    curv::BigInt::mod_inv(&x, &q).map(|i| Bn { bytes: i.to_bytes() })
}

/// Relies on curv's `BigInt::sample_below`: a random number in `[0, m)`.
/// Nothing links two calls: every outcome below the bound is possible.
#[verifier::external_body]
pub(crate) fn bn_sample_below(m: &Bn) -> (r: Bn)
    requires
        nat_of(m@) > 0,
    ensures
        nat_of(r@) < nat_of(m@),
        canonical(r@),
{
    let q = curv::BigInt::from_bytes(&m.bytes);
    Bn { bytes: curv::BigInt::sample_below(&q).to_bytes() }
}

/// Relies on curv's `BigInt::gcd`: the greatest common divisor.
#[verifier::external_body]
pub(crate) fn bn_gcd(a: &Bn, b: &Bn) -> (r: Bn)
    ensures
        nat_of(r@) == gcd(nat_of(a@), nat_of(b@)),
        canonical(r@),
{
    let x = curv::BigInt::from_bytes(&a.bytes);
    let y = curv::BigInt::from_bytes(&b.bytes);
    Bn { bytes: Integer::gcd(&x, &y).to_bytes() }
}

/// Relies on Paillier's `keypair_with_modulus_size`: two fresh primes `p`,
/// `q` of half the requested bit length, and the modulus `n = p * q`.
/// The sampler sets each candidate's top bit, so every outcome is at
/// least `2^(bit_length / 2 - 1)`.  The primes are random; nothing links
/// two calls.
#[verifier::external_body]
pub(crate) fn paillier_keypair(bit_length: usize) -> (r: (Bn, Bn, Bn))
    requires
        16 <= bit_length,
    ensures
        nat_of(r.0@) == nat_of(r.1@) * nat_of(r.2@),
        nat_of(r.1@) as int >= pow(2, (bit_length / 2 - 1) as nat),
        nat_of(r.2@) as int >= pow(2, (bit_length / 2 - 1) as nat),
        1 < nat_of(r.1@),
        1 < nat_of(r.2@),
        canonical(r.0@),
        canonical(r.1@),
        canonical(r.2@),
{
    let (ek, dk) = kzen_paillier::Paillier::keypair_with_modulus_size(bit_length).keys();
    (
        Bn { bytes: ek.n.to_bytes() },
        Bn { bytes: dk.p.to_bytes() },
        Bn { bytes: dk.q.to_bytes() },
    )
}

/// Relies on Paillier's `decrypt`: the plaintext of `c` under the prime
/// pair `(p, q)`, a deterministic function named [`paillier_dec`].  The
/// scheme's internal inversions succeed exactly because `p` and `q` are
/// distinct primes.
#[verifier::external_body]
pub(crate) fn bn_paillier_decrypt(p: &Bn, q: &Bn, c: &Bn) -> (r: Bn)
    requires
        is_prime(nat_of(p@)),
        is_prime(nat_of(q@)),
        nat_of(p@) != nat_of(q@),
    ensures
        r@ == paillier_dec(p@, q@, c@),
        canonical(r@),
{
    let dk = kzen_paillier::DecryptionKey {
        p: curv::BigInt::from_bytes(&p.bytes),
        q: curv::BigInt::from_bytes(&q.bytes),
    };
    let ct = kzen_paillier::RawCiphertext(std::borrow::Cow::Owned(curv::BigInt::from_bytes(&c.bytes)));
    let m: kzen_paillier::RawPlaintext<'_> = kzen_paillier::Paillier::decrypt(&dk, ct);
    Bn { bytes: m.0.into_owned().to_bytes() }
}

/// Checks whether a freshly sampled prime pair is usable by the imported
/// proof schemes: the factors are coprime, and the modulus is coprime to
/// its totient.
pub(crate) fn paillier_factors_usable(p: &Bn, q: &Bn, n: &Bn) -> (r: bool)
    requires
        1 < nat_of(p@),
        1 < nat_of(q@),
        nat_of(n@) == nat_of(p@) * nat_of(q@),
    ensures
        r <==> gcd(nat_of(p@), nat_of(q@)) == 1 && gcd(
            nat_of(p@) * nat_of(q@),
            ((nat_of(p@) - 1) * (nat_of(q@) - 1)) as nat,
        ) == 1,
{
    let one = crate::bn::bn_small(1);
    let g1 = bn_gcd(p, q);
    if !g1.eq_bn(&one) {
        proof {
            if gcd(nat_of(p@), nat_of(q@)) == 1 {
                crate::bn::lemma_canonical_injective(g1@, one@);
            }
        }
        return false;
    }
    let p1 = bn_sub(p, &one);
    let q1 = bn_sub(q, &one);
    let phi = bn_mul(&p1, &q1);
    let g2 = bn_gcd(n, &phi);
    let r = g2.eq_bn(&one);
    proof {
        if !r && gcd(nat_of(n@), nat_of(phi@)) == 1 {
            crate::bn::lemma_canonical_injective(g2@, one@);
        }
    }
    r
}

} // verus!
