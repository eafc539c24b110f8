//! A multi-party trusted-setup ceremony for Groth16 parameters over
//! BLS12-381: sequential commit-and-verify rounds for the common
//! parameters (alpha, beta and the powers of tau) and the uncommon
//! parameters (gamma, delta and the inverse-scaled query vectors), the
//! group-domain evaluation of a constraint system's QAP matrices against
//! the committed powers, and the fixed-width serialization of target-group
//! elements.
//!
//! Every ledger and contribution is modelled by the exponents its curve
//! points commit to, and every step of the protocol carries a contract
//! over those exponents: what a contributor round computes, exactly when a
//! verification round accepts, and what the ledger holds after any
//! sequence of accepted rounds.

use vstd::prelude::*;

pub mod curve;
pub mod modarith;
pub mod mpc;
pub mod gt_bytes;
pub mod assembly;
pub mod generator_val;

verus! {

/// The failure modes of parameter generation and of ceremony rounds.
#[derive(Clone, Copy, Debug, PartialEq, Eq, Structural)]
pub enum Error {
    /// A constraint referred to a variable that was never allocated.
    MissingWitnessShape,
    /// A contribution failed its pairing checks; the ledger is unchanged.
    RejectedContribution,
    /// A contributed scalar has no modular inverse.
    DegenerateScalar,
    /// The ledger's tau vector is too short for the constraint system.
    InsufficientTauDegree,
}

} // verus!
