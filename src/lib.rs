//! BLS aggregate signatures over the BLS12-381 pairing groups.
//!
//! Public keys are points of G1, signatures and message hashes points of G2.
//! Every point of the prime-order groups G1, G2 and GT is modelled by its
//! discrete logarithm with respect to the fixed generator of its group (for
//! GT, the pairing of the two generators): a ghost value in `[0, r)` that is
//! never computed. Scalars are modelled by their integer value. The contracts
//! and the laws of the scheme are stated and proved over that model; the curve
//! arithmetic itself is ark's.
pub mod error;
pub mod field;
pub mod group;
pub mod hash;
pub mod sig;
pub mod codec;
pub mod laws;
