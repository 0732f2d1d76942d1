use vstd::prelude::*;

verus! {

/// The ways in which an operation of the registry can fail.
///
/// Every failure is final for the operation that raised it: the operation
/// leaves the registry and the blacklist exactly as it found them.
#[derive(Clone, Copy, Debug, PartialEq, Eq, Structural, Hash)]
pub enum AccessRegistryError {
    /// The registry record exists already.
    AlreadyInitialized,
    /// The caller of an owner-only operation is not the owner.
    Unauthorized,
    /// A batch is empty or longer than the batch limit.
    InvalidBatchSize,
    /// The sanctions oracle could not be asked, or did not answer.
    OracleFailure,
    /// The owner or the pool factory owner was named for the blacklist.
    CannotBlacklistSpecialAddress,
    /// The address has a blacklist entry already.
    AlreadyBlacklisted,
    /// The address has no blacklist entry.
    NotBlacklisted,
    /// The nominee is the null address or a special address.
    InvalidPendingOwner,
    /// The caller is not the nominated owner.
    NotPendingOwner,
    /// No ownership transfer is in flight.
    NoPendingTransfer,
    /// The oracle address is not acceptable.
    InvalidOracleAddress,
    /// The pool factory owner is the null address.
    InvalidPoolFactoryAddress,
    /// Two lists that go together differ in length.
    ArrayLengthMismatch,
}

/// Why a question to the sanctions oracle brought no answer.
#[derive(Clone, Copy, Debug, PartialEq, Eq, Structural, Hash)]
pub enum OracleFailure {
    /// No answer came within the time allowed.
    Timeout,
    /// An answer came that could not be read.
    Malformed,
    /// The oracle could not be reached.
    Unreachable,
}

impl AccessRegistryError {
    /// The text that goes with the error.
    pub open spec fn spec_message(&self) -> Seq<char> {
        match self {
            AccessRegistryError::AlreadyInitialized => "Registry already initialized"@,
            AccessRegistryError::Unauthorized => "Unauthorized: caller is not the owner"@,
            AccessRegistryError::InvalidBatchSize => "Batch size must be between 1 and 15"@,
            AccessRegistryError::OracleFailure => "Chainalysis oracle call failed"@,
            AccessRegistryError::CannotBlacklistSpecialAddress => "Cannot blacklist registry owner or pool factory owner"@,
            AccessRegistryError::AlreadyBlacklisted => "Address is already blacklisted"@,
            AccessRegistryError::NotBlacklisted => "Address is not blacklisted"@,
            AccessRegistryError::InvalidPendingOwner => "Invalid pending owner address"@,
            AccessRegistryError::NotPendingOwner => "Not the pending owner"@,
            AccessRegistryError::NoPendingTransfer => "No pending owner transfer"@,
            AccessRegistryError::InvalidOracleAddress => "Invalid oracle program address"@,
            AccessRegistryError::InvalidPoolFactoryAddress => "Invalid pool factory address"@,
            AccessRegistryError::ArrayLengthMismatch => "Array length mismatch"@,
        }
    }

    /// The text that goes with the error, for a reader; a program tells
    /// the errors apart by the variant.
    pub fn message(&self) -> (text: &'static str)
        ensures
            text@ == self.spec_message(),
    {
        match self {
            AccessRegistryError::AlreadyInitialized => "Registry already initialized",
            AccessRegistryError::Unauthorized => "Unauthorized: caller is not the owner",
            AccessRegistryError::InvalidBatchSize => "Batch size must be between 1 and 15",
            AccessRegistryError::OracleFailure => "Chainalysis oracle call failed",
            AccessRegistryError::CannotBlacklistSpecialAddress => "Cannot blacklist registry owner or pool factory owner",
            AccessRegistryError::AlreadyBlacklisted => "Address is already blacklisted",
            AccessRegistryError::NotBlacklisted => "Address is not blacklisted",
            AccessRegistryError::InvalidPendingOwner => "Invalid pending owner address",
            AccessRegistryError::NotPendingOwner => "Not the pending owner",
            AccessRegistryError::NoPendingTransfer => "No pending owner transfer",
            AccessRegistryError::InvalidOracleAddress => "Invalid oracle program address",
            AccessRegistryError::InvalidPoolFactoryAddress => "Invalid pool factory address",
            AccessRegistryError::ArrayLengthMismatch => "Array length mismatch",
        }
    }
}

} // verus!
