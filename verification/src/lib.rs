//! Core of a dynamic key-refresh protocol for threshold ECDSA.
//!
//! An existing group of key-share holders periodically re-randomizes its
//! secret shares while the aggregate public key stays fixed, and new parties
//! may join the group.  This crate holds the protocol logic: the join
//! message and its collect routine, the auxiliary Pedersen-parameter
//! generator, and the Ring-Pedersen zero-knowledge subprotocol.  Big-number,
//! elliptic-curve and Paillier primitives are supplied by outside libraries
//! behind small trusted wrappers; everything else is verified.

use vstd::prelude::*;

pub mod add_party_message;
pub mod arith;
pub mod bn;
pub mod curve;
pub mod hashing;
pub mod pedersen;
pub mod ring_pedersen;
pub mod vss;
pub mod zk;

verus! {

/// Default bit length of freshly generated Paillier/Pedersen moduli.
pub const PAILLIER_KEY_SIZE: usize = 2048;

/// Default number of Ring-Pedersen proof rounds (soundness-error exponent).
pub const M_SECURITY: usize = 256;

/// Failure kinds surfaced by the protocol; none is recovered internally.
#[derive(Clone, Copy, Debug, PartialEq, Eq, Structural)]
pub enum FsDkrError {
    /// A join message's index was read before it was assigned.
    NewPartyUnassignedIndexError,
    /// Refresh messages disagree on the group's aggregate public key.
    BroadcastedPublicKeyError,
    /// The refresh-message batch failed the collaborator's validation.
    ValidationError,
    /// A Ring-Pedersen proof was rejected.
    RingPedersenProofError,
}

pub type FsDkrResult<T> = Result<T, FsDkrError>;

} // verus!
