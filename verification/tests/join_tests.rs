use curv::arithmetic::Converter;
use curv::elliptic::curves::{Point, Scalar, Secp256k1};
use curv::BigInt;
use kzen_paillier::{Encrypt, MinimalEncryptionKey, Paillier, RawPlaintext};

use fs_dkr::add_party_message::{
    EncryptionKey, JoinMessage, Keys, RefreshMessage, Slot,
};
use fs_dkr::bn::Bn;
use fs_dkr::curve::{CurvePoint, CurveScalar};
use fs_dkr::zk::DLogStatement;
use fs_dkr::FsDkrError;

fn small_bn(k: u64) -> Bn {
    Bn::new(BigInt::from(k).to_bytes())
}

fn scalar_bn(k: u64) -> CurveScalar {
    CurveScalar::from_bn(&small_bn(k))
}

fn point_of(k: u64) -> CurvePoint {
    CurvePoint::from_scalar(&scalar_bn(k))
}

fn curv_point(k: u64) -> Point<Secp256k1> {
    Point::generator() * Scalar::from_bigint(&BigInt::from(k))
}

fn point_bytes(p: &Point<Secp256k1>) -> Vec<u8> {
    p.to_bytes(true).to_vec()
}

fn dummy_statement(seed: u64) -> DLogStatement {
    DLogStatement { n: small_bn(101 + seed), g: small_bn(2 + seed), ni: small_bn(3 + seed) }
}

fn dummy_ek(seed: u64) -> EncryptionKey {
    EncryptionKey { n: small_bn(35 + seed), nn: small_bn((35 + seed) * (35 + seed)) }
}

fn refresh_message(
    index: u16,
    points: Vec<CurvePoint>,
    public_key: CurvePoint,
) -> RefreshMessage {
    RefreshMessage {
        party_index: index,
        ek: dummy_ek(index as u64),
        dlog_statement: dummy_statement(index as u64),
        points_committed_vec: points,
        public_key,
    }
}

fn encrypt_under(keys: &Keys, plaintext: u64) -> Bn {
    let n_big = BigInt::from_bytes(&keys.ek.n.to_vec());
    let pek = kzen_paillier::EncryptionKey::from(MinimalEncryptionKey { n: n_big });
    let c = Paillier::encrypt(&pek, RawPlaintext::from(BigInt::from(plaintext)));
    Bn::new(c.0.into_owned().to_bytes())
}

#[test]
fn index_unassigned_then_assigned() {
    let (mut join_message, _keys) = JoinMessage::distribute(128);
    assert_eq!(
        join_message.get_party_index(),
        Err(FsDkrError::NewPartyUnassignedIndexError)
    );
    join_message.set_party_index(4);
    assert_eq!(join_message.get_party_index(), Ok(4));
}

#[test]
fn validation_failure_propagates() {
    let (mut join_message, keys) = JoinMessage::distribute(128);
    join_message.set_party_index(1);
    let rms = vec![refresh_message(1, vec![point_of(7)], point_of(9))];
    let r = join_message.collect(
        &rms,
        keys,
        &Vec::new(),
        Err(FsDkrError::ValidationError),
        &small_bn(5),
        &vec![scalar_bn(1)],
        0,
        1,
    );
    assert_eq!(r.err(), Some(FsDkrError::ValidationError));
}

#[test]
fn collect_rejects_unassigned_self() {
    let (join_message, keys) = JoinMessage::distribute(128);
    let rms = vec![refresh_message(1, vec![point_of(7)], point_of(9))];
    let r = join_message.collect(
        &rms,
        keys,
        &Vec::new(),
        Ok(()),
        &small_bn(5),
        &vec![scalar_bn(1)],
        0,
        1,
    );
    assert_eq!(r.err(), Some(FsDkrError::NewPartyUnassignedIndexError));
}

#[test]
fn collect_rejects_unassigned_other_join_message() {
    let (mut join_message, keys) = JoinMessage::distribute(128);
    join_message.set_party_index(1);
    let (other, _other_keys) = JoinMessage::distribute(128);
    let rms = vec![refresh_message(1, vec![point_of(7)], point_of(9))];
    let r = join_message.collect(
        &rms,
        keys,
        &vec![other],
        Ok(()),
        &small_bn(5),
        &vec![scalar_bn(1)],
        0,
        1,
    );
    assert_eq!(r.err(), Some(FsDkrError::NewPartyUnassignedIndexError));
}

#[test]
fn public_key_disagreement_aborts() {
    let (mut join_message, keys) = JoinMessage::distribute(128);
    join_message.set_party_index(3);
    let rms = vec![
        refresh_message(1, vec![point_of(7), point_of(8)], point_of(1)),
        refresh_message(2, vec![point_of(9), point_of(10)], point_of(2)),
    ];
    let r = join_message.collect(
        &rms,
        keys,
        &Vec::new(),
        Ok(()),
        &small_bn(5),
        &vec![scalar_bn(1), scalar_bn(2)],
        1,
        3,
    );
    assert_eq!(r.err(), Some(FsDkrError::BroadcastedPublicKeyError));
}

#[test]
fn collect_assembles_local_key_for_joining_party() {
    // t = 1, n updated to 4: three honest refresh messages and this
    // party's join message assigned index 4.
    let (mut join_message, keys) = JoinMessage::distribute(128);
    join_message.set_party_index(4);
    let expected_ek_n = keys.ek.n.to_vec();

    let group_key = point_of(999);
    let mut rms: Vec<RefreshMessage> = Vec::new();
    for j in 0..3u64 {
        let mut points: Vec<CurvePoint> = Vec::new();
        for i in 0..4u64 {
            points.push(point_of(10 * (j + 1) + i));
        }
        rms.push(refresh_message((j + 1) as u16, points, group_key.clone_point()));
    }
    let li = vec![scalar_bn(3), scalar_bn(5)];
    let cipher = encrypt_under(&keys, 42);

    let lk = join_message
        .collect(&rms, keys, &Vec::new(), Ok(()), &cipher, &li, 1, 4)
        .unwrap();

    assert_eq!(lk.i, 4);
    assert_eq!(lk.t, 1);
    assert_eq!(lk.n, 4);
    assert_eq!(lk.pk_vec.len(), 4);
    assert_eq!(lk.paillier_key_vec.len(), 4);
    assert_eq!(lk.h1_h2_n_tilde_vec.len(), 4);
    assert_eq!(lk.vss_scheme.commitments.len(), 2);
    // The fresh VSS commitment's degree-0 point is the share's public point.
    assert_eq!(
        lk.vss_scheme.commitments[0].to_vec(),
        lk.keys_linear.y.to_vec()
    );
    assert_eq!(lk.y_sum_s.to_vec(), point_bytes(&curv_point(999)));

    // The refreshed share is the decrypted sum reduced to a scalar, and
    // its public point is the share times the generator.
    let expected_share = Scalar::<Secp256k1>::from_bigint(&BigInt::from(42u64));
    assert_eq!(lk.keys_linear.x_i.to_vec(), expected_share.to_bytes().to_vec());
    assert_eq!(lk.keys_linear.y.to_vec(), point_bytes(&curv_point(42)));

    // Each public share sums the first t + 1 contributors' committed
    // points, weighted by their Lagrange coefficients.
    for i in 0..4u64 {
        let expected = curv_point(10 + i) * Scalar::<Secp256k1>::from_bigint(&BigInt::from(3u64))
            + curv_point(20 + i) * Scalar::<Secp256k1>::from_bigint(&BigInt::from(5u64));
        assert_eq!(lk.pk_vec[i as usize].to_vec(), point_bytes(&expected));
    }

    // Positions 1..3 come from the refresh messages, position 4 from this
    // party's join message.
    for pos in 1..4u16 {
        match &lk.paillier_key_vec[(pos - 1) as usize] {
            Slot::Present(ek) => {
                assert_eq!(ek.n.to_vec(), small_bn(35 + pos as u64).to_vec());
            },
            Slot::Missing => panic!("position {} should be present", pos),
        }
    }
    match &lk.paillier_key_vec[3] {
        Slot::Present(ek) => assert_eq!(ek.n.to_vec(), expected_ek_n),
        Slot::Missing => panic!("position 4 should be present"),
    }
    match &lk.h1_h2_n_tilde_vec[3] {
        Slot::Present(st) => {
            assert_eq!(st.n.to_vec(), join_message.dlog_statement_ref().n.to_vec());
            assert_eq!(st.g.to_vec(), join_message.dlog_statement_ref().g.to_vec());
        },
        Slot::Missing => panic!("position 4 should be present"),
    }
}

#[test]
fn missing_position_yields_placeholder() {
    let (mut join_message, keys) = JoinMessage::distribute(128);
    join_message.set_party_index(1);
    let rms = vec![refresh_message(2, vec![point_of(7), point_of(8), point_of(9)], point_of(5))];
    let lk = join_message
        .collect(
            &rms,
            keys,
            &Vec::new(),
            Ok(()),
            &small_bn(5),
            &vec![scalar_bn(1)],
            0,
            3,
        )
        .unwrap();
    assert!(matches!(lk.paillier_key_vec[0], Slot::Present(_)));
    assert!(matches!(lk.paillier_key_vec[1], Slot::Present(_)));
    assert!(matches!(lk.paillier_key_vec[2], Slot::Missing));
    assert!(matches!(lk.h1_h2_n_tilde_vec[2], Slot::Missing));
}

#[test]
fn single_party_share_matches_public_vector() {
    // Degenerate honest epoch (t = 0, n = 1): the reconstructed share's
    // public point must equal the only public-share entry.
    let (mut join_message, keys) = JoinMessage::distribute(128);
    join_message.set_party_index(1);
    let committed = point_of(7);
    let rms = vec![refresh_message(1, vec![committed], point_of(7))];
    let cipher = encrypt_under(&keys, 7);
    let lk = join_message
        .collect(&rms, keys, &Vec::new(), Ok(()), &cipher, &vec![scalar_bn(1)], 0, 1)
        .unwrap();
    assert_eq!(lk.keys_linear.y.to_vec(), lk.pk_vec[0].to_vec());
    assert_eq!(lk.keys_linear.y.to_vec(), point_bytes(&curv_point(7)));
}

#[test]
fn distributed_proofs_verify_with_imported_schemes() {
    let (join_message, keys) = JoinMessage::distribute(256);

    // The Paillier correct-key proof checks out against the broadcast key.
    let n_big = BigInt::from_bytes(&keys.ek.n.to_vec());
    let pek = kzen_paillier::EncryptionKey::from(MinimalEncryptionKey { n: n_big });
    let correct_key = zk_paillier::zkproofs::NiCorrectKeyProof {
        sigma_vec: join_message
            .dk_correctness_proof
            .sigma_vec
            .iter()
            .map(|b| BigInt::from_bytes(&b.to_vec()))
            .collect(),
    };
    assert!(correct_key.verify(&pek, zk_paillier::zkproofs::SALT_STRING).is_ok());

    // Both composite discrete-log proofs check out: one for the statement
    // as broadcast, one for its dual with the generators swapped.
    let st = join_message.dlog_statement_ref();
    let statement_h1 = zk_paillier::zkproofs::DLogStatement {
        N: BigInt::from_bytes(&st.n.to_vec()),
        g: BigInt::from_bytes(&st.g.to_vec()),
        ni: BigInt::from_bytes(&st.ni.to_vec()),
    };
    let statement_h2 = zk_paillier::zkproofs::DLogStatement {
        N: BigInt::from_bytes(&st.n.to_vec()),
        g: BigInt::from_bytes(&st.ni.to_vec()),
        ni: BigInt::from_bytes(&st.g.to_vec()),
    };
    let proof_h1 = zk_paillier::zkproofs::CompositeDLogProof {
        x: BigInt::from_bytes(&join_message.composite_dlog_proof_base_h1.x.to_vec()),
        y: BigInt::from_bytes(&join_message.composite_dlog_proof_base_h1.y.to_vec()),
    };
    let proof_h2 = zk_paillier::zkproofs::CompositeDLogProof {
        x: BigInt::from_bytes(&join_message.composite_dlog_proof_base_h2.x.to_vec()),
        y: BigInt::from_bytes(&join_message.composite_dlog_proof_base_h2.y.to_vec()),
    };
    assert!(proof_h1.verify(&statement_h1).is_ok());
    assert!(proof_h2.verify(&statement_h2).is_ok());
}

#[test]
fn point_encodings_normalize_to_compressed() {
    // An uncompressed encoding is accepted and held in compressed form,
    // so both encodings of one point compare equal inside the library.
    let p = curv_point(5);
    let uncompressed = p.to_bytes(false).to_vec();
    let cp = CurvePoint::try_from_bytes(uncompressed).unwrap();
    assert_eq!(cp.to_vec(), point_bytes(&p));
    let garbage = vec![7u8; 10];
    assert!(CurvePoint::try_from_bytes(garbage).is_none());
}
