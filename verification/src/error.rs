//! The terminal rejection reasons a candidate block can be refused for.
use vstd::prelude::*;

verus! {

/// Why a candidate block was rejected. Every variant is a terminal,
/// non-retryable verdict on the specific block; no state is changed when
/// one is reported.
#[derive(Clone, Copy, PartialEq, Eq, Structural, Debug)]
pub enum BtcError {
    /// Structural failure: linkage to the previous block, proof-of-work,
    /// timestamp order, or a missing transaction list.
    InvalidBlock,
    /// The header's Merkle root does not match the transaction list.
    InvalidMerkleRoot,
    /// A balance, shape or unspent-output reference failure.
    InvalidTransaction,
    /// A spend not authorized by the referenced output's key.
    InvalidSignature,
}

} // verus!
