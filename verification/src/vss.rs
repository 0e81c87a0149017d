//! The Feldman verifiable-secret-sharing commitment carried in a local key.

use vstd::prelude::*;

use crate::curve::{gen_mul_enc, vss_commitments, CurvePoint, CurveScalar};

verus! {

/// A Feldman VSS commitment: the scheme's parameters and one committed
/// point per polynomial coefficient.
pub struct VssScheme {
    pub threshold: u16,
    pub share_count: u16,
    pub commitments: Vec<CurvePoint>,
}

/// Commits to a fresh degree-`threshold` sharing of `secret` over `n`
/// parties; the degree-0 commitment is the secret's public point.
pub fn vss_share(t: u16, n: u16, secret: &CurveScalar) -> (r: VssScheme)
    requires
        t < n,
    ensures
        r.threshold == t,
        r.share_count == n,
        r.commitments@.len() == t + 1,
        r.commitments@[0]@ == gen_mul_enc(secret@),
{
    VssScheme { threshold: t, share_count: n, commitments: vss_commitments(t, n, secret) }
}

} // verus!
