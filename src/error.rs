use vstd::prelude::*;

verus! {

/// The ways in which building, balancing or witnessing a transaction fails.
#[derive(Clone, Copy, Debug, PartialEq, Eq, Structural)]
pub enum TxError {
    /// The builder already carries a certificate.
    CertificateAlreadySet,
    /// A sum of values, or the fee, does not fit in 64 bits.
    ValueOverflow,
    /// The inputs do not cover the outputs plus the fee.
    InsufficientFunds,
    /// A witness was given for an input index that does not exist.
    WitnessIndexOutOfRange,
    /// A witness does not match the kind of the input at its index.
    WitnessKindMismatch,
    /// At least one input has no witness yet.
    MissingWitness,
    /// A hexadecimal identifier is malformed.
    InvalidHex,
    /// An address of a kind other than account was given where an account is needed.
    NotAnAccountAddress,
    /// A key was given with the wrong number of bytes.
    InvalidKeyLength,
    /// A byte encoding is malformed or truncated.
    MalformedEncoding,
    /// A readable address is malformed or of an unknown network.
    InvalidAddress,
    /// A readable secret key is malformed or of an unknown kind.
    InvalidSecretKey,
}

} // verus!
