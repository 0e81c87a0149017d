//! The Pedersen-parameter generator.
//!
//! Produces an auxiliary RSA-like modulus with two generators, together
//! with one composite discrete-log proof for each orientation of the
//! statement: `h2 = h1^x mod N~` and, dually, `h1 = h2^{x'} mod N~`.  Both
//! proofs share the one freshly generated modulus.

use vstd::prelude::*;
use vstd::arithmetic::div_mod::{lemma_mod_bound, lemma_small_mod};
use vstd::arithmetic::power::{
    lemma_pow1, lemma_pow_mod_noop, lemma_pow_multiplies, lemma_pow_strictly_increases, pow,
};

use crate::arith::{bn_mod_inv, bn_mod_pow, bn_mul, bn_sample_below, bn_sub, lemma_gcd_zero_left,
    lemma_modulus_lower_bound, lemma_pow_mod_exp_reduce, lemma_pow_nonneg, paillier_keypair};
use crate::bn::{bn_small, canonical, nat_of, Bn};
use crate::zk::{composite_dlog_prove, CompositeDLogProof, DLogStatement};

verus! {

/// The full shape of a generated parameter set `(N~, h1, h2, x, x')`:
/// for some factors `p0, q0 > 1` of the modulus with totient
/// `phi0 = (p0 - 1) * (q0 - 1)`, the pre-negation exponent `x0` and its
/// modular inverse `inv0` both lie in `[1, phi0)` with
/// `x0 * inv0 = 1 mod phi0`; the second generator is
/// `h2 = h1^{x0} mod N~`; the returned exponents are the negations
/// `phi0 - x0` and `phi0 - inv0`; and — whenever the first generator is a
/// unit of the group — the dual relation holds as well:
/// `h1 = h2^{inv0} mod N~`, i.e. `h1` is `h2` raised to `phi0` minus the
/// returned inverse exponent.
pub open spec fn pedersen_exponents(
    n_v: Seq<u8>,
    h1_v: Seq<u8>,
    h2_v: Seq<u8>,
    neg_x_v: Seq<u8>,
    neg_xinv_v: Seq<u8>,
    p0: nat,
    q0: nat,
    x0: nat,
    inv0: nat,
) -> bool {
    let phi0 = ((p0 - 1) * (q0 - 1)) as nat;
    let n_i = nat_of(n_v) as int;
    1 < p0 && 1 < q0 && nat_of(n_v) == p0 * q0 && phi0 > 1 && 1 <= x0 && x0 < phi0 && 1 <= inv0
        && inv0 < phi0 && (x0 * inv0) % phi0 == 1nat % phi0 && nat_of(neg_x_v) == phi0 - x0
        && nat_of(neg_xinv_v) == phi0 - inv0 && nat_of(h2_v) as int == pow(
        nat_of(h1_v) as int,
        x0,
    ) % n_i && (pow(nat_of(h1_v) as int, phi0) % n_i == 1 ==> nat_of(h1_v) as int == pow(
        nat_of(h2_v) as int,
        inv0,
    ) % n_i)
}

/// One generator is a power of the other modulo the statement modulus.
pub open spec fn generator_relation(n_v: Seq<u8>, g_v: Seq<u8>, ni_v: Seq<u8>, x0: nat) -> bool {
    nat_of(ni_v) as int == pow(nat_of(g_v) as int, x0) % (nat_of(n_v) as int)
}

/// With an inverse exponent pair modulo the group's order and a unit
/// first generator, the dual power relation holds: `h1 = h2^{inv0} mod n`.
proof fn lemma_dual_generator(h1: nat, h2: nat, n: nat, phi: nat, x0: nat, inv0: nat)
    requires
        n > 1,
        phi > 1,
        h1 < n,
        h2 as int == pow(h1 as int, x0) % (n as int),
        (x0 * inv0) % phi == 1nat % phi,
        pow(h1 as int, phi) % (n as int) == 1,
    ensures
        h1 as int == pow(h2 as int, inv0) % (n as int),
{
    lemma_pow_nonneg(h1 as int, x0);
    lemma_mod_bound(pow(h1 as int, x0), n as int);
    lemma_pow_mod_noop(pow(h1 as int, x0), inv0, n as int);
    assert(pow(h2 as int, inv0) % (n as int) == pow(pow(h1 as int, x0), inv0) % (n as int));
    lemma_pow_multiplies(h1 as int, x0, inv0);
    assert(pow(pow(h1 as int, x0), inv0) == pow(h1 as int, (x0 * inv0) as nat));
    lemma_pow_mod_exp_reduce(h1 as int, (x0 * inv0) as nat, phi, n as int);
    lemma_small_mod(1, phi);
    assert(((x0 * inv0) as nat % phi) == 1);
    lemma_pow1(h1 as int);
    lemma_small_mod(h1, n);
    assert(pow(h1 as int, 1nat) % (n as int) == h1 as int);
}

/// How many times the exponent sampler retries before settling on the
/// always-invertible exponent one.  A non-invertible sample is already
/// rare; this bound is never reached in practice and only keeps the
/// sampler total.
pub const INVERTIBLE_SAMPLE_ATTEMPTS: usize = 128;

/// Generates fresh auxiliary parameters: a modulus `N~` of at least the
/// requested size, a uniformly sampled `h1` below it, an exponent with a
/// modular inverse modulo `phi(N~)`, and `h2 = h1^x mod N~`.  Returns
/// `(N~, h1, h2, phi - x, phi - x^{-1})`: the negated exponents match the
/// dual statement orientation used by the composite proofs
/// ([`pedersen_exponents`]).
#[verifier::loop_isolation(false)]
pub fn generate_h1_h2_n_tilde(modulus_bit_length: usize) -> (r: (Bn, Bn, Bn, Bn, Bn))
    requires
        16 <= modulus_bit_length,
    ensures
        nat_of(r.0@) > 1,
        nat_of(r.0@) as int >= pow(2, (2 * (modulus_bit_length / 2 - 1)) as nat),
        nat_of(r.1@) < nat_of(r.0@),
        nat_of(r.2@) < nat_of(r.0@),
        exists|p0: nat, q0: nat, x0: nat, inv0: nat|
            #[trigger] pedersen_exponents(r.0@, r.1@, r.2@, r.3@, r.4@, p0, q0, x0, inv0),
        canonical(r.0@),
        canonical(r.1@),
        canonical(r.2@),
        canonical(r.3@),
        canonical(r.4@),
{
    let (n_tilde, p, q) = paillier_keypair(modulus_bit_length);
    let one = bn_small(1);
    let p1 = bn_sub(&p, &one);
    let q1 = bn_sub(&q, &one);
    let phi = bn_mul(&p1, &q1);
    proof {
        lemma_modulus_lower_bound(
            nat_of(p@),
            nat_of(q@),
            nat_of(n_tilde@),
            (modulus_bit_length / 2 - 1) as nat,
        );
        lemma_pow1(2);
        lemma_pow_strictly_increases(2, 1, (modulus_bit_length / 2 - 1) as nat);
        assert(nat_of(p@) >= 3 && nat_of(q@) >= 3);
        assert(nat_of(phi@) > 1) by (nonlinear_arith)
            requires
                nat_of(phi@) == nat_of(p1@) * nat_of(q1@),
                nat_of(p1@) >= 2,
                nat_of(q1@) >= 2,
        ;
        assert(nat_of(n_tilde@) > 1) by (nonlinear_arith)
            requires
                nat_of(n_tilde@) == nat_of(p@) * nat_of(q@),
                nat_of(p@) > 1,
                nat_of(q@) > 1,
        ;
    }
    let h1 = bn_sample_below(&n_tilde);
    let mut xhi = bn_sample_below(&phi);
    let mut xhi_inv_opt = bn_mod_inv(&xhi, &phi);
    proof {
        if xhi_inv_opt is Some && nat_of(xhi@) == 0 {
            lemma_gcd_zero_left(nat_of(phi@));
            assert(false);
        }
    }
    let mut attempts: usize = 0;
    while xhi_inv_opt.is_none() && attempts < INVERTIBLE_SAMPLE_ATTEMPTS
        invariant
            nat_of(xhi@) < nat_of(phi@),
            canonical(xhi@),
            xhi_inv_opt is Some ==> {
                &&& 1 <= nat_of(xhi@)
                &&& nat_of(xhi_inv_opt->Some_0@) < nat_of(phi@)
                &&& canonical(xhi_inv_opt->Some_0@)
                &&& (nat_of(xhi@) * nat_of(xhi_inv_opt->Some_0@)) % nat_of(phi@) == 1nat
                    % nat_of(phi@)
            },
        decreases INVERTIBLE_SAMPLE_ATTEMPTS - attempts,
    {
        xhi = bn_sample_below(&phi);
        xhi_inv_opt = bn_mod_inv(&xhi, &phi);
        proof {
            if xhi_inv_opt is Some && nat_of(xhi@) == 0 {
                lemma_gcd_zero_left(nat_of(phi@));
                assert(false);
            }
        }
        attempts += 1;
    }
    let xhi_inv = match xhi_inv_opt {
        Some(inv) => inv,
        None => {
            // Statistically unreachable: settle on the exponent one, whose
            // inverse modulo anything is itself.
            xhi = bn_small(1);
            let inv = bn_mod_inv(&xhi, &phi);
            proof {
                crate::arith::lemma_gcd_one_left(nat_of(phi@));
            }
            inv.unwrap()
        },
    };
    proof {
        lemma_small_mod(1, nat_of(phi@));
        if nat_of(xhi_inv@) == 0 {
            assert((nat_of(xhi@) * nat_of(xhi_inv@)) == 0);
            assert(0nat % nat_of(phi@) == 0) by {
                lemma_small_mod(0, nat_of(phi@));
            };
            assert(false);
        }
    }
    let h2 = bn_mod_pow(&h1, &xhi, &n_tilde);
    let neg_x = bn_sub(&phi, &xhi);
    let neg_x_inv = bn_sub(&phi, &xhi_inv);
    let result = (n_tilde, h1, h2, neg_x, neg_x_inv);
    proof {
        if pow(nat_of(result.1@) as int, nat_of(phi@)) % (nat_of(result.0@) as int) == 1 {
            lemma_dual_generator(
                nat_of(result.1@),
                nat_of(result.2@),
                nat_of(result.0@),
                nat_of(phi@),
                nat_of(xhi@),
                nat_of(xhi_inv@),
            );
        }
        assert(pedersen_exponents(
            result.0@,
            result.1@,
            result.2@,
            result.3@,
            result.4@,
            nat_of(p@),
            nat_of(q@),
            nat_of(xhi@),
            nat_of(xhi_inv@),
        ));
    }
    result
}

/// Generates the statement `h2 = h1^x mod N~` together with composite
/// discrete-log proofs for it and for its dual (`g` and `ni` swapped),
/// both over the same freshly generated modulus: the returned generators
/// come from one parameter set, so `ni` is a power of `g` modulo `n`
/// ([`generator_relation`]).
pub fn generate_dlog_statement_proofs(modulus_bit_length: usize) -> (r: (
    DLogStatement,
    CompositeDLogProof,
    CompositeDLogProof,
))
    requires
        16 <= modulus_bit_length,
    ensures
        nat_of(r.0.n@) > 1,
        nat_of(r.0.n@) as int >= pow(2, (2 * (modulus_bit_length / 2 - 1)) as nat),
        nat_of(r.0.g@) < nat_of(r.0.n@),
        nat_of(r.0.ni@) < nat_of(r.0.n@),
        exists|x0: nat| #[trigger] generator_relation(r.0.n@, r.0.g@, r.0.ni@, x0),
        canonical(r.0.n@),
        canonical(r.0.g@),
        canonical(r.0.ni@),
        canonical(r.1.x@),
        canonical(r.1.y@),
        canonical(r.2.x@),
        canonical(r.2.y@),
        nat_of(r.1.x@) < nat_of(r.0.n@),
        nat_of(r.2.x@) < nat_of(r.0.n@),
{
    let (n_tilde, h1, h2, xhi, xhi_inv) = generate_h1_h2_n_tilde(modulus_bit_length);
    let dlog_statement_base_h1 = DLogStatement {
        n: n_tilde.clone_bn(),
        g: h1.clone_bn(),
        ni: h2.clone_bn(),
    };
    proof {
        let (p0, q0, x0, inv0): (nat, nat, nat, nat) = choose|
            p0: nat,
            q0: nat,
            x0: nat,
            inv0: nat,
        | pedersen_exponents(n_tilde@, h1@, h2@, xhi@, xhi_inv@, p0, q0, x0, inv0);
        assert(generator_relation(
            dlog_statement_base_h1.n@,
            dlog_statement_base_h1.g@,
            dlog_statement_base_h1.ni@,
            x0,
        ));
    }
    let dlog_statement_base_h2 = DLogStatement { n: n_tilde, g: h2, ni: h1 };
    let composite_dlog_proof_base_h1 = composite_dlog_prove(&dlog_statement_base_h1, &xhi);
    let composite_dlog_proof_base_h2 = composite_dlog_prove(&dlog_statement_base_h2, &xhi_inv);
    (dlog_statement_base_h1, composite_dlog_proof_base_h1, composite_dlog_proof_base_h2)
}

} // verus!
