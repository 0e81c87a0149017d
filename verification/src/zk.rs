//! Composite discrete-log statements and imported proof schemes.
//!
//! The composite discrete-log proof and the Paillier correct-key proof are
//! outside primitives: this crate only produces them and carries them in
//! messages, so their wrappers state no more than the shape of what comes
//! back.

use vstd::prelude::*;

use crate::arith::gcd;
use crate::bn::{canonical, nat_of, Bn};

verus! {

/// A composite discrete-log statement: modulus `n` and the claim that
/// `g`'s discrete log of `ni` is known.
pub struct DLogStatement {
    pub n: Bn,
    pub g: Bn,
    pub ni: Bn,
}

/// An imported composite discrete-log proof, carried opaquely.
pub struct CompositeDLogProof {
    pub x: Bn,
    pub y: Bn,
}

/// An imported Paillier correct-key proof, carried opaquely.
pub struct NiCorrectKeyProof {
    pub sigma_vec: Vec<Bn>,
}

impl DLogStatement {
    /// A fresh copy with the same parameters.
    pub fn clone_statement(&self) -> (r: DLogStatement)
        ensures
            r.n@ == self.n@,
            r.g@ == self.g@,
            r.ni@ == self.ni@,
    {
        DLogStatement { n: self.n.clone_bn(), g: self.g.clone_bn(), ni: self.ni.clone_bn() }
    }
}

impl CompositeDLogProof {
    /// A fresh copy of the proof.
    pub fn clone_proof(&self) -> (r: CompositeDLogProof)
        ensures
            r.x@ == self.x@,
            r.y@ == self.y@,
    {
        CompositeDLogProof { x: self.x.clone_bn(), y: self.y.clone_bn() }
    }
}

/// Relies on zk_paillier's `CompositeDLogProof::prove`: a proof for the
/// statement under the given exponent.  The scheme samples a random mask,
/// so nothing links two calls; what holds of every outcome is stated:
/// the commitment is reduced modulo the statement modulus.
#[verifier::external_body]
pub(crate) fn composite_dlog_prove(st: &DLogStatement, secret: &Bn) -> (r: CompositeDLogProof)
    requires
        nat_of(st.n@) > 0,
    ensures
        canonical(r.x@),
        canonical(r.y@),
        nat_of(r.x@) < nat_of(st.n@),
{
    let statement = zk_paillier::zkproofs::DLogStatement {
        N: curv::arithmetic::Converter::from_bytes(&st.n.bytes),
        g: curv::arithmetic::Converter::from_bytes(&st.g.bytes),
        ni: curv::arithmetic::Converter::from_bytes(&st.ni.bytes),
    };
    let s = curv::arithmetic::Converter::from_bytes(&secret.bytes);
    let p = zk_paillier::zkproofs::CompositeDLogProof::prove(&statement, &s);
    CompositeDLogProof {
        x: Bn { bytes: curv::arithmetic::Converter::to_bytes(&p.x) },
        y: Bn { bytes: curv::arithmetic::Converter::to_bytes(&p.y) },
    }
}

/// Relies on zk_paillier's `NiCorrectKeyProof::proof` with the default
/// salt: a correctness proof for the Paillier key `(p, q)`.  The scheme's
/// root extraction inverts `p` modulo `q` and `p * q` modulo
/// `(p - 1) * (q - 1)`, so those pairs must be coprime.
#[verifier::external_body]
pub(crate) fn ni_correct_key_proof(p: &Bn, q: &Bn) -> (r: NiCorrectKeyProof)
    requires
        1 < nat_of(p@),
        1 < nat_of(q@),
        gcd(nat_of(p@), nat_of(q@)) == 1,
        gcd(nat_of(p@) * nat_of(q@), ((nat_of(p@) - 1) * (nat_of(q@) - 1)) as nat) == 1,
    ensures
        r.sigma_vec@.len() == 11,
        forall|i: int| 0 <= i < r.sigma_vec@.len() ==> canonical(#[trigger] r.sigma_vec@[i]@),
{
    let dk = kzen_paillier::DecryptionKey {
        p: curv::arithmetic::Converter::from_bytes(&p.bytes),
        q: curv::arithmetic::Converter::from_bytes(&q.bytes),
    };
    let pf = zk_paillier::zkproofs::NiCorrectKeyProof::proof(&dk, None);
    let sigma_vec = pf.sigma_vec.iter().map(
        |b| Bn { bytes: curv::arithmetic::Converter::to_bytes(b) },
    ).collect();
    NiCorrectKeyProof { sigma_vec }
}

} // verus!
