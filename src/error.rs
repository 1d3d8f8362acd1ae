use vstd::prelude::*;

verus! {

/// Every way an invocation can fail.
///
/// The first six are this program's own conditions and carry a custom code;
/// the rest pass through as the host's built-in errors of the same name.
#[derive(Debug, Clone, Copy, PartialEq, Eq, Structural)]
pub enum LockError {
    InvalidInstruction,
    NotRentExempt,
    /// A balance credit that would not fit in `u64`.
    AmountOverflow,
    EarlyUnlock,
    NotInitialized,
    IncorrectClaim,
    IncorrectProgramId,
    MissingRequiredSignature,
    AccountAlreadyInitialized,
    InsufficientFunds,
    InvalidAccountData,
}

impl LockError {
    pub open spec fn spec_custom_code(self) -> Option<u32> {
        match self {
            LockError::InvalidInstruction => Some(0u32),
            LockError::NotRentExempt => Some(1u32),
            LockError::AmountOverflow => Some(2u32),
            LockError::EarlyUnlock => Some(3u32),
            LockError::NotInitialized => Some(4u32),
            LockError::IncorrectClaim => Some(5u32),
            _ => None,
        }
    }

    /// The stable custom code of this program's own errors; `None` for the
    /// conditions that pass through as the host's built-in errors.
    pub fn custom_code(&self) -> (r: Option<u32>)
        ensures
            r == self.spec_custom_code(),
    {
        match self {
            LockError::InvalidInstruction => Some(0),
            LockError::NotRentExempt => Some(1),
            LockError::AmountOverflow => Some(2),
            LockError::EarlyUnlock => Some(3),
            LockError::NotInitialized => Some(4),
            LockError::IncorrectClaim => Some(5),
            _ => None,
        }
    }
}

/// Distinct custom errors never share a code.
pub proof fn lemma_custom_codes_distinct(a: LockError, b: LockError)
    requires
        a.spec_custom_code().is_some(),
        a.spec_custom_code() == b.spec_custom_code(),
    ensures
        a == b,
{
}

} // verus!
