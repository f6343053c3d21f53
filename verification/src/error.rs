//! Error surface of the record store.
//!
//! Every operation returns an error-as-value; the first failing gate aborts
//! the whole call before any mutation.

use vstd::prelude::*;

verus! {

/// Errors raised by the record store's own validation logic.
///
/// The host surfaces these as a numeric code; [`AccountDemoError::code`]
/// gives the code of each variant.
#[derive(Clone, Copy, Debug, PartialEq, Eq, Structural)]
pub enum AccountDemoError {
    /// A mutation was attempted before the record was created.
    NotInitialized,
    /// The record already exists where a fresh one was demanded.
    AlreadyInitialized,
    /// The slot's bytes do not decode to a record.
    DataTypeMismatch,
    /// The signer is not the identity that created the record.
    NotOwner,
    /// The instruction envelope does not parse.
    InvalidInstructionData,
    /// `name` is longer than the fixed maximum.
    NameTooLong,
    /// `message` is longer than the fixed maximum.
    MessageTooLong,
}

impl AccountDemoError {
    /// Numeric code of each variant, as surfaced to the host.
    pub open spec fn spec_code(self) -> u32 {
        match self {
            AccountDemoError::NotInitialized => 0,
            AccountDemoError::AlreadyInitialized => 1,
            AccountDemoError::DataTypeMismatch => 2,
            AccountDemoError::NotOwner => 3,
            AccountDemoError::InvalidInstructionData => 4,
            AccountDemoError::NameTooLong => 5,
            AccountDemoError::MessageTooLong => 6,
        }
    }

    /// Numeric code of each variant, as surfaced to the host.
    #[verifier::when_used_as_spec(spec_code)]
    pub fn code(self) -> (c: u32)
        ensures
            c == self.spec_code(),
    {
        match self {
            AccountDemoError::NotInitialized => 0,
            AccountDemoError::AlreadyInitialized => 1,
            AccountDemoError::DataTypeMismatch => 2,
            AccountDemoError::NotOwner => 3,
            AccountDemoError::InvalidInstructionData => 4,
            AccountDemoError::NameTooLong => 5,
            AccountDemoError::MessageTooLong => 6,
        }
    }
}

/// Full error surface of the lifecycle controller: the store's own codes
/// plus the host-level failure classes the controller can report.
#[derive(Clone, Copy, Debug, PartialEq, Eq, Structural)]
pub enum ProcessError {
    /// One of the store's own errors ([`AccountDemoError`]).
    Custom(AccountDemoError),
    /// The slot is controlled by a different program.
    IncorrectProgramId,
    /// The claimed owner did not sign the call.
    MissingRequiredSignature,
    /// The supplied slot address is not the derived one.
    InvalidArgument,
    /// The record no longer fits the slot's fixed capacity.
    AccountDataTooSmall,
}

impl From<AccountDemoError> for ProcessError {
    fn from(e: AccountDemoError) -> (r: ProcessError) {
        ProcessError::Custom(e)
    }
}

impl vstd::std_specs::convert::FromSpecImpl<AccountDemoError> for ProcessError {
    open spec fn obeys_from_spec() -> bool {
        true
    }

    open spec fn from_spec(e: AccountDemoError) -> ProcessError {
        ProcessError::Custom(e)
    }
}

} // verus!
