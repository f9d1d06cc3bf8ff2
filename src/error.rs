use vstd::prelude::*;

verus! {

/// Every way in which an operation on the ledger can fail.
#[derive(Debug, Clone, Copy, PartialEq, Eq, Structural)]
pub enum Error {
    /// The descriptor text could not be parsed or compiled.
    Policy,
    /// The descriptor is not a taproot descriptor.
    OnlyTaproot,
    /// No spending path of the policy can be satisfied with the active secrets.
    CouldNotSatisfy,
    /// No inbound address is staged.
    MissingAddress,
    /// No coin at the given index.
    MissingUtxo,
    /// No input at the given index, or a gap among the input indices.
    MissingInput,
    /// No output at the given index, or a gap among the output indices.
    MissingOutput,
    /// The value is not a block height.
    InvalidHeight,
    /// No secret is known for the public key.
    UnknownKey,
    /// No preimage is known for the hash image.
    UnknownImage,
    /// The bytes are not a valid secret key.
    InvalidSecret,
    /// The inputs do not cover the fixed outputs and the fee.
    NotEnoughFunds,
    /// The remaining funds do not fit in a 64-bit value.
    ValueOverflow,
    /// A second output with value zero.
    OneZeroOutput,
    /// The coin is already bound to another input.
    DoubleSpend,
}

impl Error {
    /// A short human-readable description of the error.
    pub fn message(&self) -> &'static str {
        match self {
            Error::Policy => "Malformed or uncompilable descriptor",
            Error::OnlyTaproot => "Only taproot descriptors are supported",
            Error::CouldNotSatisfy => "Could not satisfy the spending policy",
            Error::MissingAddress => "Inbound address is missing",
            Error::MissingUtxo => "No UTXO at index",
            Error::MissingInput => "Input is missing",
            Error::MissingOutput => "Output is missing",
            Error::InvalidHeight => "Invalid block height",
            Error::UnknownKey => "Unknown public key",
            Error::UnknownImage => "Unknown hash image",
            Error::InvalidSecret => "Invalid secret key",
            Error::NotEnoughFunds => "Not enough funds to fund remaining output",
            Error::ValueOverflow => "Remaining funds exceed the largest output value",
            Error::OneZeroOutput => "At most one output can have zero value",
            Error::DoubleSpend => "Same UTXO can be used at most once as input",
        }
    }
}

} // verus!
