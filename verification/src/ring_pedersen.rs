//! The Ring-Pedersen zero-knowledge subprotocol.
//!
//! A Sigma protocol, made non-interactive by a Fiat-Shamir hash, proving
//! knowledge of an exponent `lambda` with `S = T^lambda mod N` over a
//! hidden-order group.  Each of the `m` rounds carries a one-bit challenge,
//! so a cheating prover survives with probability `2^-m`.
//!
//! Completeness is proved here: a proof produced by [`RingPedersenProof::prove`]
//! satisfies every verification equation — and is therefore accepted by
//! [`RingPedersenProof::verify`] — whenever the witness matches the
//! statement and the statement's base is a unit of the group
//! ([`rp_euler`]; honest generation gives this by Euler's theorem, which
//! the trusted generators do not promise).

use vstd::prelude::*;
use vstd::arithmetic::div_mod::{
    lemma_fundamental_div_mod, lemma_mod_bound, lemma_mod_twice, lemma_mul_mod_noop_general,
    lemma_small_mod,
};
use vstd::arithmetic::mul::lemma_mul_nonnegative;
use vstd::arithmetic::power::{
    lemma1_pow, lemma_pow1, lemma_pow_adds, lemma_pow_mod_noop, lemma_pow_multiplies, pow,
};

use crate::arith::{bn_mod_add, bn_mod_mul, bn_mod_pow, bn_mul, bn_sample_below, bn_sub,
    lemma_modulus_lower_bound, lemma_pow_mod_exp_reduce, lemma_pow_nonneg, paillier_keypair};
use crate::bn::{bn_small, canonical, lemma_canonical_injective, nat_of, Bn};

use crate::hashing::{append_bytes, bit_at, bit_of, concat_all, lemma_concat_push, sha256_bytes,
    sha256_of};
use crate::FsDkrError;
use crate::FsDkrResult;

verus! {

/// The public statement: a modulus `N` and two group elements `S`, `T`
/// with `S = T^lambda mod N` for the hidden `lambda`.
pub struct RingPedersenStatement {
    pub s: Bn,
    pub t: Bn,
    pub n: Bn,
}

/// The private witness: the factorization of `N` and the exponent.
pub struct RingPedersenWitness {
    pub p: Bn,
    pub q: Bn,
    pub lambda: Bn,
}

/// One commitment/response pair per round, plus the transmitted challenge
/// bits derived from all commitments.
pub struct RingPedersenProof {
    pub a: Vec<Bn>,
    pub z: Vec<Bn>,
    pub e_bits: Vec<bool>,
}

/// A usable statement: the modulus exceeds one.
pub open spec fn rp_wf_statement(st: RingPedersenStatement) -> bool {
    nat_of(st.n@) > 1
}

/// A usable witness: both factors exceed one.
pub open spec fn rp_wf_witness(w: RingPedersenWitness) -> bool {
    1 < nat_of(w.p@) && 1 < nat_of(w.q@)
}

/// Euler's totient of the witness modulus, `(p - 1) * (q - 1)`.
pub open spec fn rp_phi(w: RingPedersenWitness) -> nat {
    ((nat_of(w.p@) - 1) * (nat_of(w.q@) - 1)) as nat
}

/// The witness matches the statement: same modulus, and `S = T^lambda mod N`.
pub open spec fn rp_consistent(st: RingPedersenStatement, w: RingPedersenWitness) -> bool {
    nat_of(st.n@) == nat_of(w.p@) * nat_of(w.q@) && nat_of(st.s@) as int == pow(
        nat_of(st.t@) as int,
        nat_of(w.lambda@),
    ) % (nat_of(st.n@) as int)
}

/// The statement's base is a unit of the hidden-order group:
/// `T^phi = 1 mod N`.  Honest generation gives this by Euler's theorem.
pub open spec fn rp_euler(st: RingPedersenStatement, w: RingPedersenWitness) -> bool {
    pow(nat_of(st.t@) as int, rp_phi(w)) % (nat_of(st.n@) as int) == 1
}

/// One verification equation: `T^z = A * S^e mod N`.
pub open spec fn rp_round_ok(
    st: RingPedersenStatement,
    a_k: Seq<u8>,
    z_k: Seq<u8>,
    e_k: bool,
) -> bool {
    let n_v = nat_of(st.n@) as int;
    let exp: nat = if e_k {
        1
    } else {
        0
    };
    pow(nat_of(st.t@) as int, nat_of(z_k)) % n_v == (nat_of(a_k) * (pow(
        nat_of(st.s@) as int,
        exp,
    ) % n_v)) % n_v
}

/// The byte views of a sequence of big integers.
pub open spec fn bn_views(v: Seq<Bn>) -> Seq<Seq<u8>> {
    v.map_values(|b: Bn| b@)
}

/// The challenge bits are drawn from the hash of all commitments.
pub open spec fn rp_challenge(commitments: Seq<Seq<u8>>) -> Seq<u8> {
    sha256_of(concat_all(commitments))
}

/// An `m`-round proof that satisfies every verification equation.
pub open spec fn rp_verifies(p: RingPedersenProof, st: RingPedersenStatement, m: nat) -> bool {
    p.a@.len() == m && p.z@.len() == m && p.e_bits@.len() == m && forall|k: int|
        0 <= k < m ==> rp_round_ok(st, p.a@[k]@, p.z@[k]@, p.e_bits@[k])
}

/// Completeness of one Sigma-protocol round: with a matching witness and a
/// unit base, the honest response `z = a + e * lambda mod phi` satisfies
/// the round's verification equation `T^z = A * S^e mod N`, where
/// `A = T^a mod N`.
pub proof fn lemma_round_completeness(
    t_v: nat,
    s_v: nat,
    n_v: nat,
    phi: nat,
    lam: nat,
    a: nat,
    e: bool,
)
    requires
        n_v > 1,
        phi >= 1,
        s_v as int == pow(t_v as int, lam) % (n_v as int),
        pow(t_v as int, phi) % (n_v as int) == 1,
    ensures
        pow(t_v as int, (a + (if e {
            lam
        } else {
            0nat
        })) % phi) % (n_v as int) == ((pow(t_v as int, a) % (n_v as int)) * (pow(
            s_v as int,
            (if e {
                1nat
            } else {
                0nat
            }),
        ) % (n_v as int))) % (n_v as int),
{
    let t = t_v as int;
    let n = n_v as int;
    let s = s_v as int;
    let big_a = pow(t, a) % n;
    lemma_pow_nonneg(t, a);
    lemma_mod_bound(pow(t, a), n);
    if e {
        let x: nat = a + lam;
        lemma_pow_mod_exp_reduce(t, x, phi, n);
        lemma_pow_adds(t, a, lam);
        assert(pow(t, x) == pow(t, a) * pow(t, lam));
        lemma_mul_mod_noop_general(pow(t, a), pow(t, lam), n);
        assert(pow(t, x) % n == (big_a * (pow(t, lam) % n)) % n);
        assert(pow(t, lam) % n == s);
        lemma_pow1(s);
        assert(pow(s, 1nat) == s);
        lemma_pow_nonneg(t, lam);
        lemma_mod_bound(pow(t, lam), n);
        lemma_small_mod(s_v, n_v);
        assert(pow(s, 1nat) % n == s);
        assert(pow(t, x % phi) % n == (big_a * s) % n);
    } else {
        let x: nat = a + 0;
        lemma_pow_mod_exp_reduce(t, x, phi, n);
        assert(pow(s, 0nat) == 1) by {
            vstd::arithmetic::power::lemma_pow0(s);
        };
        lemma_small_mod(1, n_v);
        assert(pow(s, 0nat) % n == 1);
        lemma_small_mod((big_a) as nat, n_v);
        assert((big_a * 1) % n == big_a);
        assert(pow(t, x % phi) % n == big_a);
    }
}

impl RingPedersenStatement {
    /// Decides well-formedness of a statement received off the wire.
    pub fn is_wf(&self) -> (r: bool)
        ensures
            r == rp_wf_statement(*self),
    {
        self.n.exceeds_one()
    }

    /// Samples fresh Ring-Pedersen parameters: a Paillier-style modulus
    /// `N = p * q`, a quadratic residue `T = r^2 mod N`, a uniformly
    /// sampled exponent `lambda` below `phi(N)`, and `S = T^lambda mod N`.
    pub fn generate(modulus_bit_length: usize) -> (r: (RingPedersenStatement, RingPedersenWitness))
        requires
            16 <= modulus_bit_length,
        ensures
            rp_wf_statement(r.0),
            rp_wf_witness(r.1),
            rp_consistent(r.0, r.1),
            rp_phi(r.1) >= 1,
            nat_of(r.1.lambda@) < rp_phi(r.1),
            nat_of(r.0.t@) < nat_of(r.0.n@),
            nat_of(r.0.s@) < nat_of(r.0.n@),
            nat_of(r.0.n@) as int >= pow(2, (2 * (modulus_bit_length / 2 - 1)) as nat),
            exists|r0: nat|
                nat_of(r.0.t@) as int == #[trigger] pow(r0 as int, 2) % (nat_of(r.0.n@) as int),
            canonical(r.0.s@),
            canonical(r.0.t@),
            canonical(r.0.n@),
    {
        let (n, p, q) = paillier_keypair(modulus_bit_length);
        let one = bn_small(1);
        let p1 = bn_sub(&p, &one);
        let q1 = bn_sub(&q, &one);
        let phi = bn_mul(&p1, &q1);
        proof {
            lemma_modulus_lower_bound(
                nat_of(p@),
                nat_of(q@),
                nat_of(n@),
                (modulus_bit_length / 2 - 1) as nat,
            );
            assert(nat_of(phi@) >= 1) by (nonlinear_arith)
                requires
                    nat_of(phi@) == nat_of(p1@) * nat_of(q1@),
                    nat_of(p1@) >= 1,
                    nat_of(q1@) >= 1,
            ;
            assert(nat_of(n@) > 1) by (nonlinear_arith)
                requires
                    nat_of(n@) == nat_of(p@) * nat_of(q@),
                    nat_of(p@) > 1,
                    nat_of(q@) > 1,
            ;
        }
        let base = bn_sample_below(&n);
        let lambda = bn_sample_below(&phi);
        let two = bn_small(2);
        let t = bn_mod_pow(&base, &two, &n);
        let s = bn_mod_pow(&t, &lambda, &n);
        let result = (
            RingPedersenStatement { s, t, n },
            RingPedersenWitness { p, q, lambda },
        );
        proof {
            assert(nat_of(result.0.t@) as int == pow(nat_of(base@) as int, 2) % (nat_of(
                result.0.n@,
            ) as int));
        }
        result
    }
}

impl RingPedersenProof {
    /// Produces an `m`-round proof: per round a uniformly sampled mask
    /// `a_k` below `phi` and the commitment `A_k = T^{a_k} mod N`; the
    /// challenge bits are the bits of the hash of all commitments; the
    /// responses are `Z_k = a_k + e_k * lambda mod phi`.  Whenever the
    /// witness matches the statement and the base is a unit
    /// ([`rp_euler`]), the result satisfies every verification equation.
    pub fn prove(
        witness: &RingPedersenWitness,
        statement: &RingPedersenStatement,
        m: usize,
    ) -> (r: RingPedersenProof)
        requires
            rp_wf_witness(*witness),
            rp_wf_statement(*statement),
            m <= 256,
        ensures
            r.a@.len() == m,
            r.z@.len() == m,
            r.e_bits@.len() == m,
            forall|k: int|
                0 <= k < m ==> r.e_bits@[k] == bit_of(rp_challenge(bn_views(r.a@)), k),
            forall|k: int| 0 <= k < m ==> nat_of(#[trigger] r.a@[k]@) < nat_of(statement.n@),
            forall|k: int| 0 <= k < m ==> nat_of(#[trigger] r.z@[k]@) < rp_phi(*witness),
            (rp_consistent(*statement, *witness) && rp_euler(*statement, *witness))
                ==> rp_verifies(r, *statement, m as nat),
    {
        let one = bn_small(1);
        let p1 = bn_sub(&witness.p, &one);
        let q1 = bn_sub(&witness.q, &one);
        let phi = bn_mul(&p1, &q1);
        proof {
            assert(nat_of(phi@) >= 1) by (nonlinear_arith)
                requires
                    nat_of(phi@) == nat_of(p1@) * nat_of(q1@),
                    nat_of(p1@) >= 1,
                    nat_of(q1@) >= 1,
            ;
            assert(nat_of(phi@) == rp_phi(*witness));
        }
        let mut masks: Vec<Bn> = Vec::new();
        let mut commitments: Vec<Bn> = Vec::new();
        let mut transcript: Vec<u8> = Vec::new();
        let mut k: usize = 0;
        while k < m
            invariant
                k <= m,
                masks@.len() == k,
                commitments@.len() == k,
                nat_of(phi@) == rp_phi(*witness),
                nat_of(phi@) >= 1,
                rp_wf_statement(*statement),
                forall|j: int| 0 <= j < k ==> nat_of(#[trigger] masks@[j]@) < rp_phi(*witness),
                forall|j: int|
                    0 <= j < k ==> nat_of(#[trigger] commitments@[j]@) as int == pow(
                        nat_of(statement.t@) as int,
                        nat_of(masks@[j]@),
                    ) % (nat_of(statement.n@) as int),
                forall|j: int| 0 <= j < k ==> canonical(#[trigger] commitments@[j]@),
                forall|j: int|
                    0 <= j < k ==> nat_of(#[trigger] commitments@[j]@) < nat_of(statement.n@),
                transcript@ == concat_all(bn_views(commitments@)),
            decreases m - k,
        {
            let a_k = bn_sample_below(&phi);
            let cap_a = bn_mod_pow(&statement.t, &a_k, &statement.n);
            append_bytes(&mut transcript, &cap_a.bytes);
            proof {
                lemma_concat_push(bn_views(commitments@), cap_a@);
                assert(bn_views(commitments@.push(cap_a)) =~= bn_views(commitments@).push(
                    cap_a@,
                ));
            }
            masks.push(a_k);
            commitments.push(cap_a);
            k += 1;
        }
        let digest = sha256_bytes(&transcript);
        let mut e_bits: Vec<bool> = Vec::new();
        let mut responses: Vec<Bn> = Vec::new();
        let mut i: usize = 0;
        while i < m
            invariant
                i <= m,
                m <= 256,
                e_bits@.len() == i,
                responses@.len() == i,
                masks@.len() == m,
                commitments@.len() == m,
                digest@.len() == 32,
                digest@ == rp_challenge(bn_views(commitments@)),
                nat_of(phi@) == rp_phi(*witness),
                nat_of(phi@) >= 1,
                rp_wf_statement(*statement),
                forall|j: int| 0 <= j < m ==> nat_of(#[trigger] masks@[j]@) < rp_phi(*witness),
                forall|j: int|
                    0 <= j < m ==> nat_of(#[trigger] commitments@[j]@) as int == pow(
                        nat_of(statement.t@) as int,
                        nat_of(masks@[j]@),
                    ) % (nat_of(statement.n@) as int),
                forall|j: int|
                    0 <= j < m ==> nat_of(#[trigger] commitments@[j]@) < nat_of(statement.n@),
                forall|j: int|
                    0 <= j < i ==> nat_of(#[trigger] responses@[j]@) < rp_phi(*witness),
                forall|j: int| 0 <= j < i ==> e_bits@[j] == bit_of(digest@, j),
                forall|j: int|
                    0 <= j < i ==> nat_of(#[trigger] responses@[j]@) == (nat_of(masks@[j]@) + (
                    if e_bits@[j] {
                        nat_of(witness.lambda@)
                    } else {
                        0nat
                    })) % rp_phi(*witness),
            decreases m - i,
        {
            let e_i = bit_at(&digest, i);
            let z_i = if e_i {
                bn_mod_add(&masks[i], &witness.lambda, &phi)
            } else {
                let zero = bn_small(0);
                bn_mod_add(&masks[i], &zero, &phi)
            };
            e_bits.push(e_i);
            responses.push(z_i);
            i += 1;
        }
        let r = RingPedersenProof { a: commitments, z: responses, e_bits };
        proof {
            if rp_consistent(*statement, *witness) && rp_euler(*statement, *witness) {
                assert forall|k2: int| 0 <= k2 < m implies rp_round_ok(
                    *statement,
                    r.a@[k2]@,
                    r.z@[k2]@,
                    r.e_bits@[k2],
                ) by {
                    lemma_round_completeness(
                        nat_of(statement.t@),
                        nat_of(statement.s@),
                        nat_of(statement.n@),
                        rp_phi(*witness),
                        nat_of(witness.lambda@),
                        nat_of(masks@[k2]@),
                        r.e_bits@[k2],
                    );
                }
            }
        }
        r
    }

    /// Checks every round's equation `T^{Z_k} = A_k * S^{e_k} mod N`
    /// against the transmitted challenge bits, rejecting on the first
    /// failing round.  Accepts exactly the proofs whose shape matches `m`
    /// rounds and whose every round equation holds.
    pub fn verify(
        proof: &RingPedersenProof,
        statement: &RingPedersenStatement,
        m: usize,
    ) -> (r: FsDkrResult<()>)
        requires
            rp_wf_statement(*statement),
        ensures
            r is Ok <==> rp_verifies(*proof, *statement, m as nat),
            r is Err ==> r->Err_0 == FsDkrError::RingPedersenProofError,
    {
        if proof.a.len() != m || proof.z.len() != m || proof.e_bits.len() != m {
            return Err(FsDkrError::RingPedersenProofError);
        }
        let mut k: usize = 0;
        while k < m
            invariant
                k <= m,
                proof.a@.len() == m,
                proof.z@.len() == m,
                proof.e_bits@.len() == m,
                rp_wf_statement(*statement),
                forall|j: int|
                    0 <= j < k ==> rp_round_ok(
                        *statement,
                        proof.a@[j]@,
                        proof.z@[j]@,
                        proof.e_bits@[j],
                    ),
            decreases m - k,
        {
            let lhs = bn_mod_pow(&statement.t, &proof.z[k], &statement.n);
            let e_bn = if proof.e_bits[k] {
                bn_small(1)
            } else {
                bn_small(0)
            };
            let s_e = bn_mod_pow(&statement.s, &e_bn, &statement.n);
            let rhs = bn_mod_mul(&proof.a[k], &s_e, &statement.n);
            if !lhs.eq_bn(&rhs) {
                proof {
                    if rp_round_ok(*statement, proof.a@[k as int]@, proof.z@[k as int]@,
                        proof.e_bits@[k as int]) {
                        lemma_canonical_injective(lhs@, rhs@);
                    }
                }
                return Err(FsDkrError::RingPedersenProofError);
            }
            k += 1;
        }
        Ok(())
    }
}

} // verus!
