use curv::arithmetic::{Converter, Modulo};
use curv::BigInt;
use sha2::{Digest, Sha256};

use fs_dkr::bn::Bn;
use fs_dkr::ring_pedersen::{RingPedersenProof, RingPedersenStatement};
use fs_dkr::FsDkrError;

#[test]
fn prove_verify_succeeds() {
    let (statement, witness) = RingPedersenStatement::generate(128);
    let proof = RingPedersenProof::prove(&witness, &statement, 16);
    assert!(RingPedersenProof::verify(&proof, &statement, 16).is_ok());
}

#[test]
fn prove_verify_succeeds_full_rounds() {
    let (statement, witness) = RingPedersenStatement::generate(128);
    let proof = RingPedersenProof::prove(&witness, &statement, 256);
    assert_eq!(proof.a.len(), 256);
    assert_eq!(proof.z.len(), 256);
    assert_eq!(proof.e_bits.len(), 256);
    assert!(RingPedersenProof::verify(&proof, &statement, 256).is_ok());
}

#[test]
fn prove_verify_many_trials() {
    for _ in 0..5 {
        let (statement, witness) = RingPedersenStatement::generate(64);
        let proof = RingPedersenProof::prove(&witness, &statement, 32);
        assert!(RingPedersenProof::verify(&proof, &statement, 32).is_ok());
    }
}

#[test]
fn tampered_response_is_rejected() {
    let (statement, witness) = RingPedersenStatement::generate(128);
    let mut proof = RingPedersenProof::prove(&witness, &statement, 16);
    let z0 = BigInt::from_bytes(&proof.z[0].to_vec()) + BigInt::from(1);
    proof.z[0] = Bn::new(z0.to_bytes());
    let verdict = RingPedersenProof::verify(&proof, &statement, 16);
    assert_eq!(verdict, Err(FsDkrError::RingPedersenProofError));
}

#[test]
fn wrong_round_count_is_rejected() {
    let (statement, witness) = RingPedersenStatement::generate(128);
    let proof = RingPedersenProof::prove(&witness, &statement, 16);
    let verdict = RingPedersenProof::verify(&proof, &statement, 17);
    assert_eq!(verdict, Err(FsDkrError::RingPedersenProofError));
}

#[test]
fn proofs_are_randomized_but_both_verify() {
    let (statement, witness) = RingPedersenStatement::generate(128);
    let proof1 = RingPedersenProof::prove(&witness, &statement, 16);
    let proof2 = RingPedersenProof::prove(&witness, &statement, 16);
    assert_ne!(proof1.a[0].to_vec(), proof2.a[0].to_vec());
    assert!(RingPedersenProof::verify(&proof1, &statement, 16).is_ok());
    assert!(RingPedersenProof::verify(&proof2, &statement, 16).is_ok());
}

#[test]
fn challenge_bits_follow_commitment_hash() {
    let (statement, witness) = RingPedersenStatement::generate(128);
    let proof = RingPedersenProof::prove(&witness, &statement, 16);
    let mut transcript: Vec<u8> = Vec::new();
    for a in proof.a.iter() {
        transcript.extend_from_slice(&a.to_vec());
    }
    let digest = Sha256::digest(&transcript);
    for k in 0..16usize {
        let expected = (digest[k / 8] >> (k % 8)) & 1 == 1;
        assert_eq!(proof.e_bits[k], expected);
    }
}

#[test]
fn generated_statement_matches_witness() {
    let (statement, witness) = RingPedersenStatement::generate(128);
    let n = BigInt::from_bytes(&statement.n.to_vec());
    let t = BigInt::from_bytes(&statement.t.to_vec());
    let s = BigInt::from_bytes(&statement.s.to_vec());
    let p = BigInt::from_bytes(&witness.p.to_vec());
    let q = BigInt::from_bytes(&witness.q.to_vec());
    let lambda = BigInt::from_bytes(&witness.lambda.to_vec());
    // The modulus is the witness's factorization and S = T^lambda mod N.
    assert_eq!(&p * &q, n);
    assert_eq!(BigInt::mod_pow(&t, &lambda, &n), s);
    // The base is a unit: T^phi = 1 mod N, the property completeness
    // relies on.
    let phi = (&p - BigInt::from(1)) * (&q - BigInt::from(1));
    assert_eq!(BigInt::mod_pow(&t, &phi, &n), BigInt::from(1));
}

#[test]
fn statement_well_formedness_is_decidable() {
    let (statement, _witness) = RingPedersenStatement::generate(128);
    assert!(statement.is_wf());
    let degenerate = RingPedersenStatement {
        s: Bn::new(vec![1]),
        t: Bn::new(vec![1]),
        n: Bn::new(vec![1]),
    };
    assert!(!degenerate.is_wf());
}
