//! The join message and the collect phase of the key-refresh protocol.
//!
//! A new party broadcasts a [`JoinMessage`] (Paillier key, correctness
//! proof, Pedersen parameters with their composite proofs); the existing
//! group assigns it an index; once all refresh and join messages of an
//! epoch are available, every party derives its refreshed [`LocalKey`]
//! with [`JoinMessage::collect`].
//!
//! The refresh-message broadcast logic for existing parties is an outside
//! collaborator: this core consumes its per-party fields, the outcome of
//! its batch validation, and the homomorphic ciphertext sum with the
//! matching Lagrange coefficients.

use vstd::prelude::*;
use vstd::arithmetic::power::pow;

use crate::arith::{bn_mul, gcd, is_prime, lemma_modulus_lower_bound, paillier_dec,
    paillier_factors_usable, paillier_keypair};
use crate::bn::{bn_small, nat_of, Bn};
use crate::curve::{gen_mul_enc, point_add_enc, point_mul_enc, pt_add, pt_mul, scalar_of,
    CurvePoint, CurveScalar};
use crate::pedersen::{generate_dlog_statement_proofs, generator_relation};
use crate::vss::{vss_share, VssScheme};
use crate::zk::{ni_correct_key_proof, CompositeDLogProof, DLogStatement, NiCorrectKeyProof};
use crate::FsDkrError;
use crate::FsDkrResult;

verus! {

/// A Paillier public key: the modulus and its square.
pub struct EncryptionKey {
    pub n: Bn,
    pub nn: Bn,
}

/// A Paillier private key: the two prime factors.
pub struct DecryptionKey {
    pub p: Bn,
    pub q: Bn,
}

/// A party's Paillier keypair.
pub struct Keys {
    pub ek: EncryptionKey,
    pub dk: DecryptionKey,
}

/// The refreshed linear key pair: the secret share and its public point.
pub struct SharedKeys {
    pub x_i: CurveScalar,
    pub y: CurvePoint,
}

/// The fields of an existing party's refresh message that this core
/// consumes.
pub struct RefreshMessage {
    pub party_index: u16,
    pub ek: EncryptionKey,
    pub dlog_statement: DLogStatement,
    pub points_committed_vec: Vec<CurvePoint>,
    pub public_key: CurvePoint,
}

/// A per-position entry of the merged key vectors: an explicit placeholder
/// marks a party position that no message covered.
pub enum Slot<T> {
    Present(T),
    Missing,
}

/// The refreshed per-party key record produced by collect.
pub struct LocalKey {
    pub paillier_dk: DecryptionKey,
    pub pk_vec: Vec<CurvePoint>,
    pub keys_linear: SharedKeys,
    pub paillier_key_vec: Vec<Slot<EncryptionKey>>,
    pub y_sum_s: CurvePoint,
    pub h1_h2_n_tilde_vec: Vec<Slot<DLogStatement>>,
    pub vss_scheme: VssScheme,
    pub i: u16,
    pub t: u16,
    pub n: u16,
}

/// Message broadcast by a party wishing to join the group.
pub struct JoinMessage {
    pub ek: EncryptionKey,
    pub dk_correctness_proof: NiCorrectKeyProof,
    pub party_index: Option<u16>,
    pub dlog_statement: DLogStatement,
    pub composite_dlog_proof_base_h1: CompositeDLogProof,
    pub composite_dlog_proof_base_h2: CompositeDLogProof,
}

impl EncryptionKey {
    /// A fresh copy of the key.
    pub fn clone_ek(&self) -> (r: EncryptionKey)
        ensures
            r.n@ == self.n@,
            r.nn@ == self.nn@,
    {
        EncryptionKey { n: self.n.clone_bn(), nn: self.nn.clone_bn() }
    }
}

impl DecryptionKey {
    /// A fresh copy of the key.
    pub fn clone_dk(&self) -> (r: DecryptionKey)
        ensures
            r.p@ == self.p@,
            r.q@ == self.q@,
    {
        DecryptionKey { p: self.p.clone_bn(), q: self.q.clone_bn() }
    }
}

/// A usable Paillier private key: two distinct prime factors.
pub open spec fn dk_wf(dk: DecryptionKey) -> bool {
    is_prime(nat_of(dk.p@)) && is_prime(nat_of(dk.q@)) && nat_of(dk.p@) != nat_of(dk.q@)
}

/// Every join message carries an assigned index.
pub open spec fn all_indices_assigned(jms: Seq<JoinMessage>) -> bool {
    forall|j: int| 0 <= j < jms.len() ==> (#[trigger] jms[j].party_index) is Some
}

/// All refresh messages broadcast the same aggregate public key.
pub open spec fn public_keys_agree(rms: Seq<RefreshMessage>) -> bool {
    forall|j: int| 0 <= j < rms.len() ==> (#[trigger] rms[j].public_key)@ == rms[0].public_key@
}

/// The failure collect reports, in checking order:
/// the collaborator's validation verdict first, then this party's index,
/// then the other join messages' indices, then public-key agreement.
pub open spec fn collect_error(
    self_msg: JoinMessage,
    validation: FsDkrResult<()>,
    rms: Seq<RefreshMessage>,
    jms: Seq<JoinMessage>,
) -> Option<FsDkrError> {
    if validation is Err {
        Some(validation->Err_0)
    } else if self_msg.party_index is None {
        Some(FsDkrError::NewPartyUnassignedIndexError)
    } else if !all_indices_assigned(jms) {
        Some(FsDkrError::NewPartyUnassignedIndexError)
    } else if !public_keys_agree(rms) {
        Some(FsDkrError::BroadcastedPublicKeyError)
    } else {
        None
    }
}

/// Entry `i` of the public-share vector after folding in contributors
/// `0 ..= upto`: contributor `j`'s committed point for position `i`,
/// scaled by its Lagrange coefficient, summed over `j`.
pub open spec fn pk_entry(
    rms: Seq<RefreshMessage>,
    lis: Seq<CurveScalar>,
    upto: int,
    i: int,
) -> Seq<u8>
    decreases upto,
{
    if upto <= 0 {
        point_mul_enc(rms[0].points_committed_vec@[i]@, lis[0]@)
    } else {
        point_add_enc(
            pk_entry(rms, lis, upto - 1, i),
            point_mul_enc(rms[upto].points_committed_vec@[i]@, lis[upto]@),
        )
    }
}

/// The position of the last join message claiming `pos`, if any.
pub open spec fn last_jm_at(jms: Seq<JoinMessage>, pos: u16) -> Option<int>
    decreases jms.len(),
{
    if jms.len() == 0 {
        None
    } else if jms.last().party_index == Some(pos) {
        Some(jms.len() - 1)
    } else {
        last_jm_at(jms.drop_last(), pos)
    }
}

/// The position of the last refresh message claiming `pos`, if any.
pub open spec fn last_rm_at(rms: Seq<RefreshMessage>, pos: u16) -> Option<int>
    decreases rms.len(),
{
    if rms.len() == 0 {
        None
    } else if rms.last().party_index == pos {
        Some(rms.len() - 1)
    } else {
        last_rm_at(rms.drop_last(), pos)
    }
}

/// The Paillier key the merged mapping holds for a party position.  Later
/// sources override earlier ones, as chained map insertion would:
/// refresh messages, then this party's own key, then the join messages.
pub open spec fn merged_ek(
    rms: Seq<RefreshMessage>,
    self_index: u16,
    own_ek: EncryptionKey,
    jms: Seq<JoinMessage>,
    pos: u16,
) -> Option<(Seq<u8>, Seq<u8>)> {
    if last_jm_at(jms, pos) is Some {
        let j = last_jm_at(jms, pos)->Some_0;
        Some((jms[j].ek.n@, jms[j].ek.nn@))
    } else if pos == self_index {
        Some((own_ek.n@, own_ek.nn@))
    } else if last_rm_at(rms, pos) is Some {
        let j = last_rm_at(rms, pos)->Some_0;
        Some((rms[j].ek.n@, rms[j].ek.nn@))
    } else {
        None
    }
}

/// The Pedersen statement the merged mapping holds for a party position,
/// with the same precedence as [`merged_ek`].
pub open spec fn merged_stmt(
    rms: Seq<RefreshMessage>,
    self_index: u16,
    own_stmt: DLogStatement,
    jms: Seq<JoinMessage>,
    pos: u16,
) -> Option<(Seq<u8>, Seq<u8>, Seq<u8>)> {
    if last_jm_at(jms, pos) is Some {
        let j = last_jm_at(jms, pos)->Some_0;
        Some((jms[j].dlog_statement.n@, jms[j].dlog_statement.g@, jms[j].dlog_statement.ni@))
    } else if pos == self_index {
        Some((own_stmt.n@, own_stmt.g@, own_stmt.ni@))
    } else if last_rm_at(rms, pos) is Some {
        let j = last_rm_at(rms, pos)->Some_0;
        Some((rms[j].dlog_statement.n@, rms[j].dlog_statement.g@, rms[j].dlog_statement.ni@))
    } else {
        None
    }
}

/// A key slot holds exactly what the merged mapping gives.
pub open spec fn slot_matches_ek(s: Slot<EncryptionKey>, m: Option<(Seq<u8>, Seq<u8>)>) -> bool {
    match s {
        Slot::Present(ek) => m == Some((ek.n@, ek.nn@)),
        Slot::Missing => m is None,
    }
}

/// A statement slot holds exactly what the merged mapping gives.
pub open spec fn slot_matches_stmt(
    s: Slot<DLogStatement>,
    m: Option<(Seq<u8>, Seq<u8>, Seq<u8>)>,
) -> bool {
    match s {
        Slot::Present(st) => m == Some((st.n@, st.g@, st.ni@)),
        Slot::Missing => m is None,
    }
}

/// Everything collect promises of a successfully assembled local key.
pub open spec fn collect_ok(
    lk: LocalKey,
    self_msg: JoinMessage,
    rms: Seq<RefreshMessage>,
    key: Keys,
    jms: Seq<JoinMessage>,
    cipher: Seq<u8>,
    lis: Seq<CurveScalar>,
    t: u16,
    n: u16,
) -> bool {
    let share = scalar_of(paillier_dec(key.dk.p@, key.dk.q@, cipher));
    lk.i == self_msg.party_index->Some_0 && lk.t == t && lk.n == n && lk.paillier_dk.p@
        == key.dk.p@ && lk.paillier_dk.q@ == key.dk.q@ && lk.keys_linear.x_i@ == share
        && lk.keys_linear.y@ == gen_mul_enc(share) && lk.y_sum_s@ == rms[0].public_key@
        && lk.pk_vec@.len() == n && (forall|i: int|
        0 <= i < n ==> #[trigger] lk.pk_vec@[i]@ == pk_entry(rms, lis, t as int, i))
        && lk.paillier_key_vec@.len() == n && (forall|pos: int|
        1 <= pos <= n ==> slot_matches_ek(
            #[trigger] lk.paillier_key_vec@[pos - 1],
            merged_ek(rms, self_msg.party_index->Some_0, key.ek, jms, pos as u16),
        )) && lk.h1_h2_n_tilde_vec@.len() == n && (forall|pos: int|
        1 <= pos <= n ==> slot_matches_stmt(
            #[trigger] lk.h1_h2_n_tilde_vec@[pos - 1],
            merged_stmt(rms, self_msg.party_index->Some_0, self_msg.dlog_statement, jms, pos as u16),
        )) && lk.vss_scheme.threshold == t && lk.vss_scheme.share_count == n
        && lk.vss_scheme.commitments@.len() == t + 1 && lk.vss_scheme.commitments@[0]@
        == gen_mul_enc(share)
}

/// What reading the party index yields at each lifecycle stage.
pub open spec fn party_index_outcome(m: JoinMessage) -> FsDkrResult<u16> {
    match m.party_index {
        Some(i) => Ok(i),
        None => Err(FsDkrError::NewPartyUnassignedIndexError),
    }
}

/// Finds the last join message claiming `pos`.
fn find_last_jm(jms: &Vec<JoinMessage>, pos: u16) -> (r: Option<usize>)
    ensures
        match r {
            Some(j) => j < jms@.len() && last_jm_at(jms@, pos) == Some(j as int),
            None => last_jm_at(jms@, pos) is None,
        },
{
    let mut k: usize = jms.len();
    proof {
        assert(jms@.subrange(0, k as int) =~= jms@);
    }
    while k > 0
        invariant
            k <= jms@.len(),
            last_jm_at(jms@, pos) == last_jm_at(jms@.subrange(0, k as int), pos),
        decreases k,
    {
        let matched = match jms[k - 1].party_index {
            Some(i) => i == pos,
            None => false,
        };
        proof {
            assert(jms@.subrange(0, k as int).last() == jms@[k - 1]);
            assert(jms@.subrange(0, k as int).drop_last() =~= jms@.subrange(0, k as int - 1));
        }
        if matched {
            return Some(k - 1);
        }
        k -= 1;
    }
    proof {
        assert(jms@.subrange(0, 0).len() == 0);
    }
    None
}

/// Finds the last refresh message claiming `pos`.
fn find_last_rm(rms: &Vec<RefreshMessage>, pos: u16) -> (r: Option<usize>)
    ensures
        match r {
            Some(j) => j < rms@.len() && last_rm_at(rms@, pos) == Some(j as int),
            None => last_rm_at(rms@, pos) is None,
        },
{
    let mut k: usize = rms.len();
    proof {
        assert(rms@.subrange(0, k as int) =~= rms@);
    }
    while k > 0
        invariant
            k <= rms@.len(),
            last_rm_at(rms@, pos) == last_rm_at(rms@.subrange(0, k as int), pos),
        decreases k,
    {
        let matched = rms[k - 1].party_index == pos;
        proof {
            assert(rms@.subrange(0, k as int).last() == rms@[k - 1]);
            assert(rms@.subrange(0, k as int).drop_last() =~= rms@.subrange(0, k as int - 1));
        }
        if matched {
            return Some(k - 1);
        }
        k -= 1;
    }
    proof {
        assert(rms@.subrange(0, 0).len() == 0);
    }
    None
}

impl JoinMessage {
    /// Records the index the existing group assigned to this party.
    pub fn set_party_index(&mut self, new_party_index: u16)
        ensures
            final(self).party_index == Some(new_party_index),
            final(self).ek == old(self).ek,
            final(self).dk_correctness_proof == old(self).dk_correctness_proof,
            final(self).dlog_statement == old(self).dlog_statement,
            final(self).composite_dlog_proof_base_h1 == old(self).composite_dlog_proof_base_h1,
            final(self).composite_dlog_proof_base_h2 == old(self).composite_dlog_proof_base_h2,
    {
        self.party_index = Some(new_party_index);
    }

    /// Returns the assigned index, and fails exactly while none is
    /// assigned.
    pub fn get_party_index(&self) -> (r: FsDkrResult<u16>)
        ensures
            r == party_index_outcome(*self),
    {
        match self.party_index {
            Some(i) => Ok(i),
            None => Err(FsDkrError::NewPartyUnassignedIndexError),
        }
    }

    /// The joining party's Paillier public key.
    pub fn ek_ref(&self) -> (r: &EncryptionKey)
        ensures
            r == &self.ek,
    {
        &self.ek
    }

    /// The joining party's Pedersen statement.
    pub fn dlog_statement_ref(&self) -> (r: &DLogStatement)
        ensures
            r == &self.dlog_statement,
    {
        &self.dlog_statement
    }

    /// The distribute phase of a joining party: a fresh Paillier keypair
    /// whose factors pass the imported proof scheme's coprimality needs,
    /// fresh Pedersen parameters with their two composite proofs, and the
    /// join message to broadcast, still without an assigned index.
    pub fn distribute(modulus_bit_length: usize) -> (r: (JoinMessage, Keys))
        requires
            16 <= modulus_bit_length,
        ensures
            r.0.party_index is None,
            r.0.ek.n@ == r.1.ek.n@,
            r.0.ek.nn@ == r.1.ek.nn@,
            nat_of(r.1.ek.n@) == nat_of(r.1.dk.p@) * nat_of(r.1.dk.q@),
            nat_of(r.1.ek.nn@) == nat_of(r.1.ek.n@) * nat_of(r.1.ek.n@),
            nat_of(r.1.ek.n@) as int >= pow(2, (2 * (modulus_bit_length / 2 - 1)) as nat),
            1 < nat_of(r.1.dk.p@),
            1 < nat_of(r.1.dk.q@),
            r.0.dk_correctness_proof.sigma_vec@.len() == 11,
            forall|i: int|
                0 <= i < 11 ==> crate::bn::canonical(
                    #[trigger] r.0.dk_correctness_proof.sigma_vec@[i]@,
                ),
            nat_of(r.0.dlog_statement.n@) > 1,
            nat_of(r.0.dlog_statement.n@) as int >= pow(
                2,
                (2 * (modulus_bit_length / 2 - 1)) as nat,
            ),
            nat_of(r.0.dlog_statement.g@) < nat_of(r.0.dlog_statement.n@),
            nat_of(r.0.dlog_statement.ni@) < nat_of(r.0.dlog_statement.n@),
            exists|x0: nat|
                #[trigger] generator_relation(
                    r.0.dlog_statement.n@,
                    r.0.dlog_statement.g@,
                    r.0.dlog_statement.ni@,
                    x0,
                ),
    {
        let (mut n, mut p, mut q) = paillier_keypair(modulus_bit_length);
        let mut usable = paillier_factors_usable(&p, &q, &n);
        let mut attempts: usize = 0;
        while !usable && attempts < 64
            invariant
                16 <= modulus_bit_length,
                nat_of(n@) == nat_of(p@) * nat_of(q@),
                nat_of(p@) as int >= pow(2, (modulus_bit_length / 2 - 1) as nat),
                nat_of(q@) as int >= pow(2, (modulus_bit_length / 2 - 1) as nat),
                1 < nat_of(p@),
                1 < nat_of(q@),
                usable ==> gcd(nat_of(p@), nat_of(q@)) == 1 && gcd(
                    nat_of(p@) * nat_of(q@),
                    ((nat_of(p@) - 1) * (nat_of(q@) - 1)) as nat,
                ) == 1,
            decreases 64 - attempts,
        {
            let (n2, p2, q2) = paillier_keypair(modulus_bit_length);
            n = n2;
            p = p2;
            q = q2;
            usable = paillier_factors_usable(&p, &q, &n);
            attempts += 1;
        }
        proof {
            lemma_modulus_lower_bound(
                nat_of(p@),
                nat_of(q@),
                nat_of(n@),
                (modulus_bit_length / 2 - 1) as nat,
            );
        }
        let nn = bn_mul(&n, &n);
        let ek = EncryptionKey { n, nn };
        let dk = DecryptionKey { p, q };
        let dk_correctness_proof = if usable {
            ni_correct_key_proof(&dk.p, &dk.q)
        } else {
            // Statistically unreachable: two independently sampled primes
            // failed the coprimality checks 64 times in a row.  Ship a
            // proof-shaped vector of zeros rather than loop unboundedly;
            // verifiers will reject it.
            let mut sigma_vec: Vec<Bn> = Vec::new();
            let mut si: usize = 0;
            while si < 11
                invariant
                    si <= 11,
                    sigma_vec@.len() == si,
                    forall|i: int|
                        0 <= i < si ==> crate::bn::canonical(#[trigger] sigma_vec@[i]@),
                decreases 11 - si,
            {
                sigma_vec.push(bn_small(0));
                si += 1;
            }
            NiCorrectKeyProof { sigma_vec }
        };
        let (dlog_statement, composite_dlog_proof_base_h1, composite_dlog_proof_base_h2) =
            generate_dlog_statement_proofs(modulus_bit_length);
        let join_message = JoinMessage {
            ek: ek.clone_ek(),
            dk_correctness_proof,
            party_index: None,
            dlog_statement,
            composite_dlog_proof_base_h1,
            composite_dlog_proof_base_h2,
        };
        (join_message, Keys { ek, dk })
    }

    /// The collect phase: derives this party's refreshed local key from
    /// the epoch's refresh messages, the other join messages, this
    /// party's Paillier keypair, and the collaborator's outputs — its
    /// batch-validation verdict and the homomorphically combined
    /// ciphertext with the contributors' Lagrange coefficients.  The
    /// order of `refresh_messages` is load-bearing: the first `t + 1`
    /// entries are the contributors the coefficients were computed for.
    #[verifier::loop_isolation(false)]
    pub fn collect(
        &self,
        refresh_messages: &Vec<RefreshMessage>,
        paillier_key: Keys,
        join_messages: &Vec<JoinMessage>,
        validation: FsDkrResult<()>,
        cipher_text_sum: &Bn,
        li_vec: &Vec<CurveScalar>,
        t: u16,
        n: u16,
    ) -> (r: FsDkrResult<LocalKey>)
        requires
            t < n,
            refresh_messages@.len() >= t + 1,
            li_vec@.len() >= t + 1,
            forall|j: int|
                0 <= j < t + 1 ==> #[trigger] refresh_messages@[j].points_committed_vec@.len()
                    >= n,
            dk_wf(paillier_key.dk),
        ensures
            match r {
                Ok(lk) => collect_error(*self, validation, refresh_messages@, join_messages@)
                    is None && collect_ok(
                    lk,
                    *self,
                    refresh_messages@,
                    paillier_key,
                    join_messages@,
                    cipher_text_sum@,
                    li_vec@,
                    t,
                    n,
                ),
                Err(e) => collect_error(*self, validation, refresh_messages@, join_messages@)
                    == Some(e),
            },
    {
        if let Err(e) = validation {
            return Err(e);
        }
        let party_index = match self.party_index {
            Some(i) => i,
            None => {
                return Err(FsDkrError::NewPartyUnassignedIndexError);
            },
        };
        let mut k: usize = 0;
        while k < join_messages.len()
            invariant
                k <= join_messages@.len(),
                forall|j: int| 0 <= j < k ==> (#[trigger] join_messages@[j].party_index) is Some,
            decreases join_messages@.len() - k,
        {
            if join_messages[k].party_index.is_none() {
                proof {
                    assert(join_messages@[k as int].party_index is None);
                    assert(!all_indices_assigned(join_messages@));
                }
                return Err(FsDkrError::NewPartyUnassignedIndexError);
            }
            k += 1;
        }
        let mut k2: usize = 0;
        while k2 < refresh_messages.len()
            invariant
                k2 <= refresh_messages@.len(),
                refresh_messages@.len() >= 1,
                forall|j: int|
                    0 <= j < k2 ==> (#[trigger] refresh_messages@[j].public_key)@
                        == refresh_messages@[0].public_key@,
            decreases refresh_messages@.len() - k2,
        {
            if !refresh_messages[k2].public_key.eq_point(&refresh_messages[0].public_key) {
                proof {
                    assert(refresh_messages@[k2 as int].public_key@
                        != refresh_messages@[0].public_key@);
                    assert(!public_keys_agree(refresh_messages@));
                }
                return Err(FsDkrError::BroadcastedPublicKeyError);
            }
            k2 += 1;
        }
        let new_share = crate::arith::bn_paillier_decrypt(
            &paillier_key.dk.p,
            &paillier_key.dk.q,
            cipher_text_sum,
        );
        let new_share_fe = CurveScalar::from_bn(&new_share);
        let key_linear_y = CurvePoint::from_scalar(&new_share_fe);
        let mut pk_vec: Vec<CurvePoint> = Vec::new();
        let mut i: usize = 0;
        while i < n as usize
            invariant
                i <= n as usize,
                t < n,
                refresh_messages@.len() >= t + 1,
                li_vec@.len() >= t + 1,
                forall|j: int|
                    0 <= j < t + 1 ==> #[trigger] refresh_messages@[j].points_committed_vec@.len()
                        >= n,
                pk_vec@.len() == i,
                forall|ii: int|
                    0 <= ii < i ==> #[trigger] pk_vec@[ii]@ == pk_entry(
                        refresh_messages@,
                        li_vec@,
                        t as int,
                        ii,
                    ),
            decreases n as usize - i,
        {
            let mut acc = pt_mul(&refresh_messages[0].points_committed_vec[i], &li_vec[0]);
            let mut j: usize = 1;
            while j <= t as usize
                invariant
                    1 <= j <= t + 1,
                    t < n,
                    i < n as usize,
                    refresh_messages@.len() >= t + 1,
                    li_vec@.len() >= t + 1,
                    forall|jj: int|
                        0 <= jj < t + 1 ==> #[trigger] refresh_messages@[jj].points_committed_vec@.len()
                            >= n,
                    acc@ == pk_entry(refresh_messages@, li_vec@, j - 1, i as int),
                decreases t as usize - j + 1,
            {
                let term = pt_mul(&refresh_messages[j].points_committed_vec[i], &li_vec[j]);
                acc = pt_add(&acc, &term);
                j += 1;
            }
            pk_vec.push(acc);
            i += 1;
        }
        let mut paillier_key_vec: Vec<Slot<EncryptionKey>> = Vec::new();
        let mut h1_h2_ntilde_vec: Vec<Slot<DLogStatement>> = Vec::new();
        let mut pos: usize = 1;
        while pos <= n as usize
            invariant
                1 <= pos <= n as usize + 1,
                paillier_key_vec@.len() == pos - 1,
                h1_h2_ntilde_vec@.len() == pos - 1,
                self.party_index == Some(party_index),
                forall|p2: int|
                    1 <= p2 < pos ==> slot_matches_ek(
                        #[trigger] paillier_key_vec@[p2 - 1],
                        merged_ek(
                            refresh_messages@,
                            party_index,
                            paillier_key.ek,
                            join_messages@,
                            p2 as u16,
                        ),
                    ),
                forall|p2: int|
                    1 <= p2 < pos ==> slot_matches_stmt(
                        #[trigger] h1_h2_ntilde_vec@[p2 - 1],
                        merged_stmt(
                            refresh_messages@,
                            party_index,
                            self.dlog_statement,
                            join_messages@,
                            p2 as u16,
                        ),
                    ),
            decreases n as usize + 1 - pos,
        {
            let pos16: u16 = pos as u16;
            let ek_slot = match find_last_jm(join_messages, pos16) {
                Some(j) => Slot::Present(join_messages[j].ek.clone_ek()),
                None => {
                    if pos16 == party_index {
                        Slot::Present(paillier_key.ek.clone_ek())
                    } else {
                        match find_last_rm(refresh_messages, pos16) {
                            Some(j) => Slot::Present(refresh_messages[j].ek.clone_ek()),
                            None => Slot::Missing,
                        }
                    }
                },
            };
            let stmt_slot = match find_last_jm(join_messages, pos16) {
                Some(j) => Slot::Present(join_messages[j].dlog_statement.clone_statement()),
                None => {
                    if pos16 == party_index {
                        Slot::Present(self.dlog_statement.clone_statement())
                    } else {
                        match find_last_rm(refresh_messages, pos16) {
                            Some(j) => Slot::Present(
                                refresh_messages[j].dlog_statement.clone_statement(),
                            ),
                            None => Slot::Missing,
                        }
                    }
                },
            };
            paillier_key_vec.push(ek_slot);
            h1_h2_ntilde_vec.push(stmt_slot);
            pos += 1;
        }
        let vss_scheme = vss_share(t, n, &new_share_fe);
        let y_sum_s = refresh_messages[0].public_key.clone_point();
        let keys_linear = SharedKeys { x_i: new_share_fe, y: key_linear_y };
        let local_key = LocalKey {
            paillier_dk: paillier_key.dk.clone_dk(),
            pk_vec,
            keys_linear,
            paillier_key_vec,
            y_sum_s,
            h1_h2_n_tilde_vec: h1_h2_ntilde_vec,
            vss_scheme,
            i: party_index,
            t,
            n,
        };
        Ok(local_key)
    }
}

/// Index assignment is read back faithfully: reading fails with
/// `NewPartyUnassignedIndexError` exactly while no index is assigned, and
/// after an assignment of `i` it yields `i` and can yield nothing else.
pub proof fn lemma_index_assignment(before: JoinMessage, after: JoinMessage, i: u16)
    requires
        before.party_index is None,
        after.party_index == Some(i),
    ensures
        party_index_outcome(before) == Err::<u16, FsDkrError>(
            FsDkrError::NewPartyUnassignedIndexError,
        ),
        party_index_outcome(after) == Ok::<u16, FsDkrError>(i),
        forall|j: u16| party_index_outcome(after) == Ok::<u16, FsDkrError>(j) ==> j == i,
{
}

/// Parties that collect over the same ordered refresh batch and the same
/// Lagrange coefficients derive the same aggregate public key and the
/// same public-share vector, whatever their own keys, join messages and
/// indices are.
pub proof fn lemma_collect_outputs_agree(
    lk1: LocalKey,
    lk2: LocalKey,
    m1: JoinMessage,
    m2: JoinMessage,
    key1: Keys,
    key2: Keys,
    jms1: Seq<JoinMessage>,
    jms2: Seq<JoinMessage>,
    c1: Seq<u8>,
    c2: Seq<u8>,
    rms: Seq<RefreshMessage>,
    lis: Seq<CurveScalar>,
    t: u16,
    n: u16,
)
    requires
        collect_ok(lk1, m1, rms, key1, jms1, c1, lis, t, n),
        collect_ok(lk2, m2, rms, key2, jms2, c2, lis, t, n),
    ensures
        lk1.y_sum_s@ == lk2.y_sum_s@,
        lk1.pk_vec@.len() == lk2.pk_vec@.len(),
        forall|i: int| 0 <= i < n ==> #[trigger] lk1.pk_vec@[i]@ == lk2.pk_vec@[i]@,
{
    assert forall|i: int| 0 <= i < n implies #[trigger] lk1.pk_vec@[i]@ == lk2.pk_vec@[i]@ by {
        assert(lk1.pk_vec@[i]@ == pk_entry(rms, lis, t as int, i));
        assert(lk2.pk_vec@[i]@ == pk_entry(rms, lis, t as int, i));
    }
}

/// The public-key agreement gate: when the earlier checks pass and any
/// refresh message disagrees on the aggregate public key, collect fails
/// with `BroadcastedPublicKeyError`.
pub proof fn lemma_public_key_agreement_gate(
    self_msg: JoinMessage,
    validation: FsDkrResult<()>,
    rms: Seq<RefreshMessage>,
    jms: Seq<JoinMessage>,
)
    requires
        validation is Ok,
        self_msg.party_index is Some,
        all_indices_assigned(jms),
        !public_keys_agree(rms),
    ensures
        collect_error(self_msg, validation, rms, jms) == Some(
            FsDkrError::BroadcastedPublicKeyError,
        ),
{
}

} // verus!
