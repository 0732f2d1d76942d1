use vstd::prelude::*;
use crate::error::{AccessRegistryError, OracleFailure};

verus! {

/// What the oracle alone says: its answer where it gave one, and a failure
/// of the whole question where it gave none.
pub open spec fn outcome(reply: Result<bool, OracleFailure>) -> Result<bool, AccessRegistryError> {
    match reply {
        Ok(sanctioned) => Ok(sanctioned),
        Err(_) => Err(AccessRegistryError::OracleFailure),
    }
}

/// Whether the oracle holds the address that `reply` is about to be
/// sanctioned. Nothing of the registry is looked at.
pub fn handler(reply: &Result<bool, OracleFailure>) -> (result: Result<bool, AccessRegistryError>)
    ensures
        result == outcome(*reply),
{
    match reply {
        Ok(sanctioned) => Ok(*sanctioned),
        Err(_) => Err(AccessRegistryError::OracleFailure),
    }
}

} // verus!
