//! Unsigned big integers as big-endian byte strings.
//!
//! The protocol's moduli, exponents and ciphertexts are far larger than any
//! machine integer, so they are carried as byte vectors whose mathematical
//! value is given by the spec function [`nat_of`].  The outside bignum
//! backend always emits the minimal big-endian form ([`canonical`]: a single
//! zero byte for zero, otherwise no leading zero byte), which makes byte
//! equality coincide with value equality
//! ([`lemma_canonical_injective`]).

use vstd::prelude::*;
use vstd::arithmetic::div_mod::lemma_fundamental_div_mod_converse;

verus! {

/// An unsigned big integer, big-endian bytes.
pub struct Bn {
    pub bytes: Vec<u8>,
}

impl View for Bn {
    type V = Seq<u8>;

    open spec fn view(&self) -> Seq<u8> {
        self.bytes@
    }
}

/// The natural number denoted by a big-endian byte string.
pub open spec fn nat_of(s: Seq<u8>) -> nat
    decreases s.len(),
{
    if s.len() == 0 {
        0
    } else {
        (nat_of(s.drop_last()) * 256 + s.last()) as nat
    }
}

/// Minimal big-endian form, as the bignum backend emits it: at least one
/// byte, and no leading zero byte unless the value is the single byte zero.
pub open spec fn canonical(s: Seq<u8>) -> bool {
    s.len() > 0 && (s.len() == 1 || s[0] != 0)
}

/// With two or more bytes and a nonzero leading byte, the value is at
/// least 256.
pub proof fn lemma_nat_of_ge_256(s: Seq<u8>)
    requires
        s.len() >= 2,
        s[0] != 0,
    ensures
        nat_of(s) >= 256,
{
    lemma_nat_of_pos(s.drop_last());
}

/// A byte string with a nonzero leading byte denotes a positive number.
pub proof fn lemma_nat_of_pos(s: Seq<u8>)
    requires
        s.len() > 0,
        s[0] != 0,
    ensures
        nat_of(s) >= 1,
    decreases s.len(),
{
    if s.len() == 1 {
        assert(s.drop_last().len() == 0);
        assert(nat_of(s.drop_last()) == 0);
    } else {
        lemma_nat_of_pos(s.drop_last());
    }
}

/// Canonical byte strings denote their values uniquely: byte equality is
/// value equality.
pub proof fn lemma_canonical_injective(a: Seq<u8>, b: Seq<u8>)
    requires
        canonical(a),
        canonical(b),
        nat_of(a) == nat_of(b),
    ensures
        a == b,
    decreases a.len(),
{
    if a.len() == 1 && b.len() == 1 {
        assert(a.drop_last().len() == 0);
        assert(nat_of(a.drop_last()) == 0);
        assert(b.drop_last().len() == 0);
        assert(nat_of(b.drop_last()) == 0);
        assert(nat_of(a) == a[0]);
        assert(nat_of(b) == b[0]);
        assert(a =~= b);
    } else if a.len() == 1 {
        assert(a.drop_last().len() == 0);
        assert(nat_of(a.drop_last()) == 0);
        assert(nat_of(a) == a[0]);
        lemma_nat_of_ge_256(b);
        assert(false);
    } else if b.len() == 1 {
        assert(b.drop_last().len() == 0);
        assert(nat_of(b.drop_last()) == 0);
        assert(nat_of(b) == b[0]);
        lemma_nat_of_ge_256(a);
        assert(false);
    } else {
        lemma_fundamental_div_mod_converse(
            nat_of(a) as int,
            256,
            nat_of(a.drop_last()) as int,
            a.last() as int,
        );
        lemma_fundamental_div_mod_converse(
            nat_of(b) as int,
            256,
            nat_of(b.drop_last()) as int,
            b.last() as int,
        );
        assert(a.last() == b.last());
        assert(nat_of(a.drop_last()) == nat_of(b.drop_last()));
        lemma_canonical_injective(a.drop_last(), b.drop_last());
        assert(a.len() == b.len());
        assert forall|i: int| 0 <= i < a.len() implies a[i] == b[i] by {
            if i < a.len() - 1 {
                assert(a[i] == a.drop_last()[i]);
                assert(b[i] == b.drop_last()[i]);
            } else {
                assert(a[i] == a.last());
                assert(b[i] == b.last());
            }
        }
        assert(a =~= b);
    }
}

/// A byte string with any nonzero byte denotes a positive number.
pub proof fn lemma_nat_of_nonzero(s: Seq<u8>, i: int)
    requires
        0 <= i < s.len(),
        s[i] != 0,
    ensures
        nat_of(s) >= 1,
    decreases s.len(),
{
    if i == s.len() - 1 {
        assert(s.last() != 0);
    } else {
        lemma_nat_of_nonzero(s.drop_last(), i);
    }
}

/// A nonzero byte anywhere before the last position pushes the value to
/// at least 256.
pub proof fn lemma_nat_of_high_byte(s: Seq<u8>, i: int)
    requires
        0 <= i < s.len() - 1,
        s[i] != 0,
    ensures
        nat_of(s) >= 256,
{
    lemma_nat_of_nonzero(s.drop_last(), i);
}

/// With every byte before the last equal to zero, the value is the last
/// byte alone.
pub proof fn lemma_nat_of_zero_prefix(s: Seq<u8>)
    requires
        s.len() > 0,
        forall|i: int| 0 <= i < s.len() - 1 ==> s[i] == 0,
    ensures
        nat_of(s) == s.last(),
    decreases s.len(),
{
    if s.len() == 1 {
        assert(s.drop_last().len() == 0);
        assert(nat_of(s.drop_last()) == 0);
    } else {
        lemma_nat_of_zero_prefix(s.drop_last());
        assert(s.drop_last().last() == s[s.len() - 2]);
        assert(nat_of(s.drop_last()) == 0);
    }
}

/// Byte-for-byte equality of two byte vectors.
pub fn bytes_eq(a: &Vec<u8>, b: &Vec<u8>) -> (r: bool)
    ensures
        r == (a@ == b@),
{
    if a.len() != b.len() {
        assert(a@.len() != b@.len());
        return false;
    }
    let mut i: usize = 0;
    while i < a.len()
        invariant
            i <= a@.len(),
            a@.len() == b@.len(),
            forall|j: int| 0 <= j < i ==> a@[j] == b@[j],
        decreases a@.len() - i,
    {
        if a[i] != b[i] {
            assert(a@[i as int] != b@[i as int]);
            return false;
        }
        i += 1;
    }
    proof {
        assert(a@ =~= b@);
    }
    true
}

/// A fresh copy of a byte vector.
pub fn clone_bytes(a: &Vec<u8>) -> (r: Vec<u8>)
    ensures
        r@ == a@,
{
    let mut out: Vec<u8> = Vec::new();
    let mut i: usize = 0;
    while i < a.len()
        invariant
            i <= a@.len(),
            out@ =~= a@.subrange(0, i as int),
        decreases a@.len() - i,
    {
        out.push(a[i]);
        i += 1;
    }
    proof {
        assert(out@ =~= a@);
    }
    out
}

impl Bn {
    /// Wraps big-endian bytes as a big integer.
    pub fn new(bytes: Vec<u8>) -> (r: Bn)
        ensures
            r@ == bytes@,
    {
        Bn { bytes }
    }

    /// A fresh copy with the same bytes.
    pub fn clone_bn(&self) -> (r: Bn)
        ensures
            r@ == self@,
    {
        Bn { bytes: clone_bytes(&self.bytes) }
    }

    /// The bytes of this big integer.
    pub fn to_vec(&self) -> (r: Vec<u8>)
        ensures
            r@ == self@,
    {
        clone_bytes(&self.bytes)
    }

    /// Byte equality; on canonical values this is value equality.
    pub fn eq_bn(&self, other: &Bn) -> (r: bool)
        ensures
            r == (self@ == other@),
    {
        bytes_eq(&self.bytes, &other.bytes)
    }

    /// Decides whether the denoted value exceeds one, for any byte string.
    pub fn exceeds_one(&self) -> (r: bool)
        ensures
            r == (nat_of(self@) > 1),
    {
        let len = self.bytes.len();
        if len == 0 {
            return false;
        }
        let mut i: usize = 0;
        while i + 1 < len
            invariant
                i < len,
                len == self@.len(),
                forall|j: int| 0 <= j < i ==> self@[j] == 0,
            decreases len - i,
        {
            if self.bytes[i] != 0 {
                proof {
                    lemma_nat_of_high_byte(self@, i as int);
                }
                return true;
            }
            i += 1;
        }
        proof {
            lemma_nat_of_zero_prefix(self@);
        }
        self.bytes[len - 1] >= 2
    }
}

/// A one-byte big integer, in canonical form.
pub fn bn_small(b: u8) -> (r: Bn)
    ensures
        nat_of(r@) == b,
        canonical(r@),
{
    let mut v: Vec<u8> = Vec::new();
    v.push(b);
    proof {
        assert(v@.drop_last().len() == 0);
        assert(nat_of(v@.drop_last()) == 0);
        assert(v@.last() == b);
    }
    Bn { bytes: v }
}

/// The big integer zero, in canonical form.
pub fn bn_zero() -> (r: Bn)
    ensures
        nat_of(r@) == 0,
        canonical(r@),
{
    let mut v: Vec<u8> = Vec::new();
    v.push(0u8);
    proof {
        assert(v@.drop_last().len() == 0);
        assert(nat_of(v@.drop_last()) == 0);
        assert(v@.last() == 0);
    }
    Bn { bytes: v }
}

/// The big integer one, in canonical form.
pub fn bn_one() -> (r: Bn)
    ensures
        nat_of(r@) == 1,
        canonical(r@),
{
    let mut v: Vec<u8> = Vec::new();
    v.push(1u8);
    proof {
        assert(v@.drop_last().len() == 0);
        assert(nat_of(v@.drop_last()) == 0);
        assert(v@.last() == 1);
    }
    Bn { bytes: v }
}

} // verus!
