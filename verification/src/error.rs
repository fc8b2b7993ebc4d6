use vstd::prelude::*;

verus! {

/// Why a byte string failed to decode as an instruction or a stored record.
#[derive(Clone, Copy, Debug, PartialEq, Eq, Structural)]
pub enum DecodeError {
    /// The discriminant byte selects no known variant.
    UnknownVariant,
    /// The buffer ends before a declared length or a fixed-width field is complete.
    Truncated,
    /// Bytes remain after a complete instruction was read.
    Malformed,
}

/// Every way an invocation can fail. Each variant maps to a stable numeric
/// code (see [`GreetingError::code`]) so callers can branch on the kind of
/// failure rather than on message text.
#[derive(Clone, Copy, Debug, PartialEq, Eq, Structural)]
pub enum GreetingError {
    /// The instruction bytes did not decode.
    InvalidInstructionData,
    /// The account list is shorter than the instruction requires.
    NotEnoughAccounts,
    /// An account that must have signed the invocation did not.
    MissingRequiredSignature,
    /// An account that must be writable is not.
    AccountNotWritable,
    /// The supplied record account does not sit at the derived address.
    InvalidAccountAddress,
    /// The record account already holds data.
    AccountAlreadyInitialized,
    /// The record account holds no data yet.
    AccountNotInitialized,
    /// The record account holds bytes that do not decode as a record.
    InvalidAccountData,
    /// The signer is not the record's authority.
    Unauthorized,
    /// A text field exceeds its fixed maximum length.
    FieldTooLong,
}

impl GreetingError {
    /// The stable numeric code of this error.
    pub open spec fn spec_code(self) -> u32 {
        match self {
            GreetingError::InvalidInstructionData => 0,
            GreetingError::NotEnoughAccounts => 1,
            GreetingError::MissingRequiredSignature => 2,
            GreetingError::AccountNotWritable => 3,
            GreetingError::InvalidAccountAddress => 4,
            GreetingError::AccountAlreadyInitialized => 5,
            GreetingError::AccountNotInitialized => 6,
            GreetingError::InvalidAccountData => 7,
            GreetingError::Unauthorized => 8,
            GreetingError::FieldTooLong => 9,
        }
    }

    /// Returns the stable numeric code of this error.
    pub fn code(&self) -> (r: u32)
        ensures
            r == self.spec_code(),
    {
        match self {
            GreetingError::InvalidInstructionData => 0,
            GreetingError::NotEnoughAccounts => 1,
            GreetingError::MissingRequiredSignature => 2,
            GreetingError::AccountNotWritable => 3,
            GreetingError::InvalidAccountAddress => 4,
            GreetingError::AccountAlreadyInitialized => 5,
            GreetingError::AccountNotInitialized => 6,
            GreetingError::InvalidAccountData => 7,
            GreetingError::Unauthorized => 8,
            GreetingError::FieldTooLong => 9,
        }
    }
}

} // verus!
