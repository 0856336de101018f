use vstd::prelude::*;
use crate::errors::ErrorCode;

verus! {

/// Claiming an award: the instruction accepts its accounts and changes nothing.
pub fn process() -> (r: Result<(), ErrorCode>)
    ensures
        r is Ok,
{
    Ok(())
}

} // verus!
