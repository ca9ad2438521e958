//! Failure modes of transaction construction, signing and finalization.

use vstd::prelude::*;

verus! {

/// Everything that can go wrong while building, signing or finalizing a
/// transaction. All variants are recoverable: a failed finalization leaves
/// the record unchanged, and the caller may add signatures and retry.
#[derive(Clone, Copy, Debug, PartialEq, Eq, Structural)]
pub enum TxError {
    /// A signature was given for an input index past the input count.
    InputIndexOutOfBounds,
    /// The per-input records and the skeleton inputs diverge in number.
    InputCountMismatch,
    /// An input has no recorded previous output to satisfy.
    MissingPreviousOutput,
    /// A pay-to-witness-script-hash input has no recorded witness script.
    MissingWitnessScript,
    /// The recorded witness script is not a well-formed policy encoding.
    UnparsableWitnessScript,
    /// The previous output is neither P2WPKH nor P2WSH.
    UnsupportedPreviousOutputType,
    /// No known public key hashes to the hash in a P2WPKH script.
    UnknownKeyForHash,
    /// The key owning a P2WPKH output has no usable signature.
    MissingSignatureForKey,
    /// No branch of the policy is satisfiable with the signatures at hand.
    PolicySatisfactionFailed,
    /// The transaction could not be serialized.
    SerializationFailure,
    /// An untyped construction was attempted with mismatched output kinds.
    PrevoutOrOutputKindMismatch,
}

} // verus!
