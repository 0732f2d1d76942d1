use vstd::prelude::*;

verus! {

/// The number of decimals that a mint of the starter program has.
pub const MINT_DECIMALS: u8 = 9;

/// A counter that goes up by one at a time.
#[derive(Clone, Copy, Debug, PartialEq, Eq, Structural)]
pub struct Counter {
    pub count: u64,
}

/// The ways in which an operation of the starter program can fail.
#[derive(Clone, Copy, Debug, PartialEq, Eq, Structural)]
pub enum ErrorCode {
    /// A mint was asked for with another number of decimals than nine.
    InvalidDecimals,
}

/// Raises the counter by one. A counter at the largest value cannot be
/// raised.
pub fn increment(counter: &mut Counter)
    requires
        old(counter).count < u64::MAX,
    ensures
        final(counter).count == old(counter).count + 1,
{
    counter.count += 1;
}

/// Accepts the parameters of a new mint: the number of decimals must be
/// nine.
pub fn create_mint(decimals: u8) -> (result: Result<(), ErrorCode>)
    ensures
        result == (if decimals == MINT_DECIMALS {
            Ok::<(), ErrorCode>(())
        } else {
            Err::<(), ErrorCode>(ErrorCode::InvalidDecimals)
        }),
{
    if decimals == MINT_DECIMALS {
        Ok(())
    } else {
        Err(ErrorCode::InvalidDecimals)
    }
}

} // verus!
