use crate::error::ContractError;
use vstd::prelude::*;

verus! {

/// A counter with the identity allowed to reset it.
#[derive(Clone, Debug, PartialEq, Eq)]
pub struct CounterState {
    pub count: i32,
    pub owner: String,
}

/// The counter's value, as a query answers it.
#[derive(Clone, Copy, Debug, PartialEq, Eq, Structural)]
pub struct GetCountResponse {
    pub count: i32,
}

/// Adds one to the count and makes `owner` the owner.
pub fn increment(state: &mut CounterState, owner: String) -> (r: Result<(), ContractError>)
    requires
        old(state).count < i32::MAX,
    ensures
        r == Ok::<(), ContractError>(()),
        final(state).count == old(state).count + 1,
        final(state).owner == owner,
{
    state.count = state.count + 1;
    state.owner = owner;
    Ok(())
}

/// Sets the count to `count` when `sender` is the owner; otherwise fails
/// with `Unauthorized` and leaves the state as it was.
pub fn reset(state: &mut CounterState, sender: &String, count: i32) -> (r: Result<(), ContractError>)
    ensures
        sender@ == old(state).owner@ ==> r == Ok::<(), ContractError>(())
            && final(state).count == count && final(state).owner == old(state).owner,
        sender@ != old(state).owner@ ==> r == Err::<(), ContractError>(ContractError::Unauthorized)
            && *final(state) == *old(state),
{
    if *sender != state.owner {
        return Err(ContractError::Unauthorized);
    }
    state.count = count;
    Ok(())
}

} // verus!
