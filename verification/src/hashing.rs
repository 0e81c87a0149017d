//! The Fiat-Shamir hash and challenge-bit expansion.
//!
//! The hash itself is an outside primitive behind a trusted wrapper, named
//! by the uninterpreted spec function [`sha256_of`].  Expanding the digest
//! into challenge bits is the crate's own verified code.

use vstd::prelude::*;

use sha2::{Digest, Sha256};

verus! {

/// The SHA-256 digest of a byte string: a deterministic function of the
/// input alone.
pub uninterp spec fn sha256_of(input: Seq<u8>) -> Seq<u8>;

/// Relies on sha2's `Sha256`: a 32-byte digest of the input, named
/// [`sha256_of`].
#[verifier::external_body]
pub(crate) fn sha256_bytes(input: &Vec<u8>) -> (r: Vec<u8>)
    ensures
        r@ == sha256_of(input@),
        r@.len() == 32,
{
    Sha256::digest(input.as_slice()).to_vec()
}

/// All parts joined in order.
pub open spec fn concat_all(parts: Seq<Seq<u8>>) -> Seq<u8>
    decreases parts.len(),
{
    if parts.len() == 0 {
        Seq::empty()
    } else {
        concat_all(parts.drop_last()) + parts.last()
    }
}

/// Appending one part extends the joined whole by exactly that part.
pub proof fn lemma_concat_push(parts: Seq<Seq<u8>>, x: Seq<u8>)
    ensures
        concat_all(parts.push(x)) == concat_all(parts) + x,
{
    assert(parts.push(x).drop_last() =~= parts);
    assert(parts.push(x).last() == x);
}

/// Bit `k` of a byte string, least-significant bit first within each byte.
pub open spec fn bit_of(s: Seq<u8>, k: int) -> bool
    recommends
        0 <= k < 8 * s.len(),
{
    (s[k / 8] >> ((k % 8) as u8)) & 1 == 1
}

/// Extracts bit `k` of a byte string.
pub fn bit_at(s: &Vec<u8>, k: usize) -> (r: bool)
    requires
        k / 8 < s@.len(),
    ensures
        r == bit_of(s@, k as int),
{
    let byte: u8 = s[k / 8];
    let sh: u8 = (k % 8) as u8;
    proof {
        assert(k as int / 8 == (k / 8) as int);
        assert(k as int % 8 == (k % 8) as int);
    }
    ((byte >> sh) & 1) == 1
}

/// Appends all of `part` to `buf`.
pub fn append_bytes(buf: &mut Vec<u8>, part: &Vec<u8>)
    ensures
        final(buf)@ == old(buf)@ + part@,
{
    let mut i: usize = 0;
    while i < part.len()
        invariant
            i <= part@.len(),
            buf@ =~= old(buf)@ + part@.subrange(0, i as int),
        decreases part@.len() - i,
    {
        buf.push(part[i]);
        i += 1;
    }
    proof {
        assert(buf@ =~= old(buf)@ + part@);
    }
}

} // verus!
