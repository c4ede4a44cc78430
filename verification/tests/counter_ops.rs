//! Exercises of the counter contract core.

use amm_core::counter::{
    execute, instantiate, query, query_count, try_decrement, try_increment, CountResponse,
    ExecuteMsg, InstantiateMsg, QueryMsg,
};

#[test]
fn instantiate_sets_count_and_owner() {
    let state = instantiate(String::from("alice"), InstantiateMsg { count: 17 });
    assert_eq!(state.count, 17);
    assert_eq!(state.owner, "alice");
}

#[test]
fn increment_and_decrement() {
    let mut state = instantiate(String::from("alice"), InstantiateMsg { count: 10 });
    try_increment(&mut state, 5);
    assert_eq!(state.count, 15);
    try_decrement(&mut state, 7);
    assert_eq!(state.count, 8);
}

#[test]
fn execute_routes_messages() {
    let mut state = instantiate(String::from("bob"), InstantiateMsg { count: 0 });
    execute(&mut state, ExecuteMsg::Increment { amount: 3 });
    execute(&mut state, ExecuteMsg::Increment { amount: 4 });
    execute(&mut state, ExecuteMsg::Decrement { amount: 2 });
    assert_eq!(state.count, 5);
    assert_eq!(state.owner, "bob");
}

#[test]
fn query_returns_count() {
    let state = instantiate(String::from("carol"), InstantiateMsg { count: 42 });
    assert_eq!(query_count(&state), CountResponse { count: 42 });
    assert_eq!(query(&state, QueryMsg::GetCount {}), CountResponse { count: 42 });
}
