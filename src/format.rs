//! The encodings a proof file can be written in.
use vstd::prelude::*;

verus! {

/// Proof file format.
#[derive(Clone, Copy, Debug, PartialEq, Eq, Structural)]
pub enum ProofFormat {
    /// The readable, self-describing text encoding of the whole proof.
    Json,
    /// The proof's field elements in the compact byte format.
    CairoSerde,
}

} // verus!
