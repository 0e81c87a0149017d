//! Elliptic-curve points and scalars as their canonical byte encodings.
//!
//! The protocol only moves curve values around, adds and scales them, and
//! compares them; so a point is carried as its serialized form and every
//! curve operation is a trusted wrapper around the outside curve library.
//! The operations are deterministic functions of the encodings, named by
//! uninterpreted spec functions ([`point_add_enc`], [`point_mul_enc`],
//! [`gen_mul_enc`], [`scalar_of`]).

use vstd::prelude::*;

use crate::bn::{bytes_eq, clone_bytes, Bn};

use curv::elliptic::curves::{Point, Scalar, Secp256k1};

verus! {

/// Whether the curve library accepts these bytes as a point encoding.
pub uninterp spec fn point_decode_ok(s: Seq<u8>) -> bool;

/// The compressed re-encoding of a decodable point encoding.  Decoding
/// accepts both the compressed and the uncompressed form of a point;
/// normalizing to the compressed form makes encoding equality point
/// equality everywhere in the crate.
pub uninterp spec fn point_norm(s: Seq<u8>) -> Seq<u8>;

/// The compressed encoding of the sum of the points encoded by `a` and `b`.
pub uninterp spec fn point_add_enc(a: Seq<u8>, b: Seq<u8>) -> Seq<u8>;

/// The compressed encoding of the point encoded by `p` scaled by the scalar
/// encoded by `s`.
pub uninterp spec fn point_mul_enc(p: Seq<u8>, s: Seq<u8>) -> Seq<u8>;

/// The compressed encoding of the curve generator scaled by the scalar
/// encoded by `s`.
pub uninterp spec fn gen_mul_enc(s: Seq<u8>) -> Seq<u8>;

/// The 32-byte encoding of the field scalar obtained by reducing the
/// big-endian number `v` modulo the group order.
pub uninterp spec fn scalar_of(v: Seq<u8>) -> Seq<u8>;

/// Whether the curve library accepts these bytes as a scalar encoding.
pub uninterp spec fn scalar_decode_ok(s: Seq<u8>) -> bool;

/// An elliptic-curve point, held as a valid point encoding.
pub struct CurvePoint {
    bytes: Vec<u8>,
}

/// An elliptic-curve scalar, held as its 32-byte encoding.
pub struct CurveScalar {
    bytes: Vec<u8>,
}

impl View for CurvePoint {
    type V = Seq<u8>;

    closed spec fn view(&self) -> Seq<u8> {
        self.bytes@
    }
}

impl View for CurveScalar {
    type V = Seq<u8>;

    closed spec fn view(&self) -> Seq<u8> {
        self.bytes@
    }
}

/// Relies on curv's `Point::from_bytes` and compressed serialization:
/// accepts exactly the valid point encodings (compressed or
/// uncompressed), and holds the decoded point in its canonical
/// compressed form, named [`point_norm`].
#[verifier::external_body]
fn pt_decode(bytes: Vec<u8>) -> (r: Option<CurvePoint>)
    ensures
        r is Some <==> point_decode_ok(bytes@),
        r is Some ==> r->Some_0@ == point_norm(bytes@),
        r is Some ==> point_decode_ok(point_norm(bytes@)),
{
    match Point::<Secp256k1>::from_bytes(&bytes) {
        Ok(p) => Some(CurvePoint { bytes: p.to_bytes(true).to_vec() }),
        Err(_) => None,
    }
}

/// Relies on curv's point addition and compressed serialization: the sum of
/// the two decoded points, re-encoded; a deterministic function of the two
/// encodings, named [`point_add_enc`].
#[verifier::external_body]
pub(crate) fn pt_add(a: &CurvePoint, b: &CurvePoint) -> (r: CurvePoint)
    ensures
        r@ == point_add_enc(a@, b@),
        point_decode_ok(r@),
{
    let x = Point::<Secp256k1>::from_bytes(&a.bytes).unwrap();
    let y = Point::<Secp256k1>::from_bytes(&b.bytes).unwrap();
    CurvePoint { bytes: (&x + &y).to_bytes(true).to_vec() }
}

/// Relies on curv's scalar multiplication and compressed serialization: the
/// decoded point scaled by the decoded scalar, re-encoded; named
/// [`point_mul_enc`].
#[verifier::external_body]
pub(crate) fn pt_mul(p: &CurvePoint, s: &CurveScalar) -> (r: CurvePoint)
    ensures
        r@ == point_mul_enc(p@, s@),
        point_decode_ok(r@),
{
    let x = Point::<Secp256k1>::from_bytes(&p.bytes).unwrap();
    let k = Scalar::<Secp256k1>::from_bytes(&s.bytes).unwrap();
    CurvePoint { bytes: (&x * &k).to_bytes(true).to_vec() }
}

/// Relies on curv's generator multiplication and compressed serialization;
/// named [`gen_mul_enc`].
#[verifier::external_body]
pub(crate) fn pt_gen_mul(s: &CurveScalar) -> (r: CurvePoint)
    ensures
        r@ == gen_mul_enc(s@),
        point_decode_ok(r@),
{
    let k = Scalar::<Secp256k1>::from_bytes(&s.bytes).unwrap();
    let g = Point::<Secp256k1>::generator();
    CurvePoint { bytes: (g * &k).to_bytes(true).to_vec() }
}

/// Relies on curv's `Scalar::from_bigint` and scalar serialization: the
/// number reduced modulo the group order, encoded in 32 bytes; named
/// [`scalar_of`].
#[verifier::external_body]
pub(crate) fn sc_from_bn(v: &Bn) -> (r: CurveScalar)
    ensures
        r@ == scalar_of(v@),
        scalar_decode_ok(r@),
{
    let n = curv::arithmetic::Converter::from_bytes(&v.bytes);
    let k = Scalar::<Secp256k1>::from_bigint(&n);
    CurveScalar { bytes: k.to_bytes().to_vec() }
}

/// Relies on curv's Feldman `VerifiableSS::share` (with SHA-256): a fresh
/// degree-`t` polynomial with the given constant term, committed
/// coefficient by coefficient, giving `t + 1` commitments.  The sampled
/// coefficients are random, but the polynomial stores its constant term
/// first, so the first commitment is always the generator times the
/// secret.  Panics inside the library are excluded by `t < n`.
#[verifier::external_body]
pub(crate) fn vss_commitments(t: u16, n: u16, secret: &CurveScalar) -> (r: Vec<CurvePoint>)
    requires
        t < n,
    ensures
        r@.len() == t + 1,
        r@[0]@ == gen_mul_enc(secret@),
{
    let sk = Scalar::<Secp256k1>::from_bytes(&secret.bytes).unwrap();
    let (scheme, _) = curv::cryptographic_primitives::secret_sharing::feldman_vss::VerifiableSS::<
        Secp256k1,
        sha2::Sha256,
    >::share(t, n, &sk);
    scheme.commitments.iter().map(
        |c| CurvePoint { bytes: c.to_bytes(true).to_vec() },
    ).collect()
}

impl CurvePoint {
    #[verifier::type_invariant]
    spec fn type_inv(self) -> bool {
        point_decode_ok(self.bytes@)
    }

    /// Accepts exactly the byte strings that encode a point, and holds
    /// the point in its canonical compressed form: two encodings of one
    /// point normalize alike, so encoding equality is point equality
    /// (in particular at the public-key agreement gate).
    pub fn try_from_bytes(bytes: Vec<u8>) -> (r: Option<CurvePoint>)
        ensures
            r is Some <==> point_decode_ok(bytes@),
            r is Some ==> r->Some_0@ == point_norm(bytes@),
    {
        pt_decode(bytes)
    }

    /// The generator scaled by `s`.
    pub fn from_scalar(s: &CurveScalar) -> (r: CurvePoint)
        ensures
            r@ == gen_mul_enc(s@),
    {
        pt_gen_mul(s)
    }

    /// The bytes of this point's encoding.
    pub fn to_vec(&self) -> (r: Vec<u8>)
        ensures
            r@ == self@,
    {
        clone_bytes(&self.bytes)
    }

    /// A fresh copy of this point.
    pub fn clone_point(&self) -> (r: CurvePoint)
        ensures
            r@ == self@,
    {
        proof {
            use_type_invariant(self);
        }
        CurvePoint { bytes: clone_bytes(&self.bytes) }
    }

    /// Encoding equality; encodings are canonical, so this is point equality.
    pub fn eq_point(&self, other: &CurvePoint) -> (r: bool)
        ensures
            r == (self@ == other@),
    {
        bytes_eq(&self.bytes, &other.bytes)
    }
}

impl CurveScalar {
    #[verifier::type_invariant]
    spec fn type_inv(self) -> bool {
        scalar_decode_ok(self.bytes@)
    }

    /// The scalar denoted by a big-endian number, reduced modulo the group
    /// order.
    pub fn from_bn(v: &Bn) -> (r: CurveScalar)
        ensures
            r@ == scalar_of(v@),
    {
        sc_from_bn(v)
    }

    /// The bytes of this scalar's encoding.
    pub fn to_vec(&self) -> (r: Vec<u8>)
        ensures
            r@ == self@,
    {
        clone_bytes(&self.bytes)
    }

    /// A fresh copy of this scalar.
    pub fn clone_scalar(&self) -> (r: CurveScalar)
        ensures
            r@ == self@,
    {
        proof {
            use_type_invariant(self);
        }
        CurveScalar { bytes: clone_bytes(&self.bytes) }
    }

    /// Encoding equality; encodings are canonical, so this is scalar equality.
    pub fn eq_scalar(&self, other: &CurveScalar) -> (r: bool)
        ensures
            r == (self@ == other@),
    {
        bytes_eq(&self.bytes, &other.bytes)
    }
}

} // verus!
