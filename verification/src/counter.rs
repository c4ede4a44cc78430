//! The verified core of the companion counter contract: a single owned
//! count, incremented and decremented with exact bounds. The surrounding
//! runtime owns storage and message decoding; it hands plain values in and
//! takes the new state back.

use vstd::prelude::*;

verus! {

/// The instantiation request: the starting count.
#[derive(Clone, Copy, Debug, PartialEq, Eq, Structural)]
pub struct InstantiateMsg {
    pub count: u128,
}

/// The reply to a count query.
#[derive(Clone, Copy, Debug, PartialEq, Eq, Structural)]
pub struct CountResponse {
    pub count: u128,
}

/// The counter's whole state: the count and who instantiated it.
#[derive(Clone, Debug)]
pub struct State {
    pub count: u128,
    pub owner: String,
}

/// The two mutating requests.
#[derive(Clone, Copy, Debug, PartialEq, Eq, Structural)]
pub enum ExecuteMsg {
    Increment { amount: u128 },
    Decrement { amount: u128 },
}

/// The one read-only request.
#[derive(Clone, Copy, Debug, PartialEq, Eq, Structural)]
pub enum QueryMsg {
    GetCount {},
}

/// The state a fresh instance starts in: the requested count, owned by the
/// sender that instantiated it.
pub fn instantiate(sender: String, msg: InstantiateMsg) -> (s: State)
    ensures
        s.count == msg.count,
        s.owner == sender,
{
    State { count: msg.count, owner: sender }
}

/// Raise the count by `amount`. The sum must fit: the counter has no
/// overflow behaviour, so the bound is a precondition on the caller.
pub fn try_increment(state: &mut State, amount: u128)
    requires
        old(state).count + amount <= u128::MAX,
    ensures
        final(state).count == old(state).count + amount,
        final(state).owner == old(state).owner,
{
    state.count = state.count + amount;
}

/// Lower the count by `amount`, which must not exceed the current count.
pub fn try_decrement(state: &mut State, amount: u128)
    requires
        amount <= old(state).count,
    ensures
        final(state).count == old(state).count - amount,
        final(state).owner == old(state).owner,
{
    state.count = state.count - amount;
}

/// Route one mutating request to its handler.
pub fn execute(state: &mut State, msg: ExecuteMsg)
    requires
        match msg {
            ExecuteMsg::Increment { amount } => old(state).count + amount <= u128::MAX,
            ExecuteMsg::Decrement { amount } => amount <= old(state).count,
        },
    ensures
        match msg {
            ExecuteMsg::Increment { amount } => final(state).count == old(state).count + amount,
            ExecuteMsg::Decrement { amount } => final(state).count == old(state).count - amount,
        },
        final(state).owner == old(state).owner,
{
    match msg {
        ExecuteMsg::Increment { amount } => try_increment(state, amount),
        ExecuteMsg::Decrement { amount } => try_decrement(state, amount),
    }
}

/// The current count.
pub fn query_count(state: &State) -> (r: CountResponse)
    ensures
        r.count == state.count,
{
    CountResponse { count: state.count }
}

/// Answer one read-only request.
pub fn query(state: &State, msg: QueryMsg) -> (r: CountResponse)
    ensures
        r.count == state.count,
{
    match msg {
        QueryMsg::GetCount {  } => query_count(state),
    }
}

} // verus!
