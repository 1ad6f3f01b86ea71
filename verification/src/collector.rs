//! A till of fees that pays out to whoever brings its price.
//!
//! The price of a collection falls with the number of collections made. It
//! is worked out where the till is run and handed in here.

use vstd::prelude::*;
use vstd::string::StringExecFns;
use crate::error::ContractError;

verus! {

/// What the till is set up with.
#[derive(Debug)]
pub struct InstantiateMsg {
    /// Who runs the till.
    pub admin: String,
}

/// The till.
#[derive(Debug)]
pub struct State {
    /// Who runs the till.
    pub admin: String,
    /// How many collections were made.
    pub total_collections: u64,
    /// The fees that lie in the till.
    pub fees_collected: u128,
}

/// The till and the price of the next collection.
#[derive(Debug)]
pub struct StateResponse {
    pub admin: String,
    pub current_collection_cost: u128,
    pub total_collections: u64,
    pub fees_collected: u128,
}

/// An amount of a native denomination.
#[derive(Debug)]
pub struct Coin {
    pub denom: String,
    pub amount: u128,
}

/// The amount of the first coin of the denomination `denom`, or zero where
/// there is none.
pub open spec fn sent_value(funds: Seq<Coin>, denom: Seq<char>) -> u128
    decreases funds.len(),
{
    if funds.len() == 0 {
        0
    } else if funds[0].denom@ == denom {
        funds[0].amount
    } else {
        sent_value(funds.skip(1), denom)
    }
}

/// What came with a request in the till's denomination, `token`.
pub fn tokens_sent(funds: &Vec<Coin>) -> (r: u128)
    ensures
        r == sent_value(funds@, "token"@),
{
    let denom = String::from_str("token");
    let mut i: usize = 0;
    assert(funds@.skip(0) =~= funds@);
    while i < funds.len()
        invariant
            i <= funds.len(),
            denom@ == "token"@,
            sent_value(funds@, "token"@) == sent_value(funds@.skip(i as int), "token"@),
        decreases funds.len() - i,
    {
        if funds[i].denom == denom {
            return funds[i].amount;
        }
        proof {
            assert(funds@.skip(i as int).skip(1) =~= funds@.skip(i + 1));
        }
        i += 1;
    }
    0
}

/// The till as it is set up: empty, with no collection made.
pub fn instantiate(msg: InstantiateMsg) -> (r: State)
    ensures
        r.admin == msg.admin,
        r.total_collections == 0,
        r.fees_collected == 0,
{
    State { admin: msg.admin, total_collections: 0, fees_collected: 0 }
}

/// Pays the till out to a collector who sent `sent_tokens` where a
/// collection costs `required_tokens`, and returns what is paid out. A
/// collector who sent too little is refused, and so is a collection past
/// the last that can be counted.
pub fn execute_collect_fees(state: &mut State, sent_tokens: u128, required_tokens: u128) -> (r:
    Result<u128, ContractError>)
    ensures
        final(state).admin == old(state).admin,
        sent_tokens < required_tokens ==> (r matches Err(
            ContractError::InsufficientTokens { required, sent },
        ) && required == required_tokens && sent == sent_tokens) && *final(state) == *old(state),
        sent_tokens >= required_tokens && old(state).total_collections == u64::MAX ==> (
        r matches Err(ContractError::Overflow)) && *final(state) == *old(state),
        sent_tokens >= required_tokens && old(state).total_collections < u64::MAX ==> r == Ok::<
            u128,
            ContractError,
        >(old(state).fees_collected) && final(state).total_collections == old(state).total_collections + 1 && final(state).fees_collected == 0,
{
    if sent_tokens < required_tokens {
        return Err(ContractError::InsufficientTokens { required: required_tokens, sent: sent_tokens });
    }
    if state.total_collections == u64::MAX {
        return Err(ContractError::Overflow);
    }
    let paid = state.fees_collected;
    state.total_collections = state.total_collections + 1;
    state.fees_collected = 0;
    Ok(paid)
}

/// Puts `sent_amount` into the till, unless the till cannot hold it.
pub fn execute_add_fees(state: &mut State, sent_amount: u128) -> (r: Result<(), ContractError>)
    ensures
        final(state).admin == old(state).admin,
        final(state).total_collections == old(state).total_collections,
        old(state).fees_collected + sent_amount <= u128::MAX ==> r is Ok && final(state).fees_collected == old(state).fees_collected + sent_amount,
        old(state).fees_collected + sent_amount > u128::MAX ==> (r matches Err(
            ContractError::Overflow,
        )) && final(state).fees_collected == old(state).fees_collected,
{
    match state.fees_collected.checked_add(sent_amount) {
        Some(sum) => {
            state.fees_collected = sum;
            Ok(())
        },
        None => Err(ContractError::Overflow),
    }
}

/// The till and the price of the next collection, `current_cost`.
pub fn query_state(state: &State, current_cost: u128) -> (r: StateResponse)
    ensures
        r.admin == state.admin,
        r.current_collection_cost == current_cost,
        r.total_collections == state.total_collections,
        r.fees_collected == state.fees_collected,
{
    StateResponse {
        admin: state.admin.clone(),
        current_collection_cost: current_cost,
        total_collections: state.total_collections,
        fees_collected: state.fees_collected,
    }
}

} // verus!
