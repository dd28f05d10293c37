use vstd::prelude::*;

verus! {

/// Why a challenge operation failed. Every fatal path of the construction
/// and signing core surfaces as one of these; broadcast rejection is not an
/// error (it is a meaningful outcome consumed by the state machine).
#[derive(Clone, Copy, Debug, PartialEq, Eq, Structural)]
pub enum CtfError {
    /// The 32 secret-key bytes were rejected by the curve library.
    InvalidSecretKey,
    /// Deriving a taproot commitment from a derived public key failed;
    /// ruled out by the derivation contracts, kept as a defensive surface.
    KeyDerivationFailed,
    /// The tweak bytes are not a valid scalar for the curve.
    InvalidTweak,
    /// The previous-output list does not have one entry per input.
    PrevoutCountMismatch,
    /// The input index does not refer to an input of the transaction.
    InputIndexOutOfRange,
    /// The signature-digest computation was rejected.
    SighashFailed,
    /// Producing the schnorr signature failed; ruled out by the signing
    /// contracts (the effective key is always valid), kept as a
    /// defensive surface.
    SigningFailed,
    /// A freshly produced signature did not verify against its own key;
    /// ruled out by the signing contracts, kept as the run-time defense
    /// against silent corruption.
    SignatureSelfCheckFailed,
    /// An input's witness does not have the shape signing produces.
    MalformedWitness,
    /// No unspent outputs were available to fund the challenge transaction.
    NoSpendableOutputs,
    /// Summing the selected input amounts overflowed.
    ValueOverflow,
    /// The estimated fee meets or exceeds the total input value.
    InsufficientFunds,
}

impl CtfError {
    /// A short human-readable description of the failure.
    pub fn describe(&self) -> (r: &'static str) {
        match self {
            CtfError::InvalidSecretKey => "the secret key bytes are not a valid key",
            CtfError::KeyDerivationFailed => "deriving the taproot keys failed",
            CtfError::InvalidTweak => "the tweak is not a valid curve scalar",
            CtfError::PrevoutCountMismatch => "one previous output per input is required",
            CtfError::InputIndexOutOfRange => "the input index is out of range",
            CtfError::SighashFailed => "computing the signature digest failed",
            CtfError::SigningFailed => "producing the schnorr signature failed",
            CtfError::SignatureSelfCheckFailed => "a produced signature failed its self-check",
            CtfError::MalformedWitness => "the input's witness is not a single signature element",
            CtfError::NoSpendableOutputs => "no spendable outputs were found",
            CtfError::ValueOverflow => "the input amounts overflow",
            CtfError::InsufficientFunds => "the fee exceeds the funded amount",
        }
    }
}

} // verus!
