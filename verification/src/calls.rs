//! The two read-only queries of a simulation, a pool's reserves and a
//! token balance: which call to make, and what its outcome means.

use crate::abi::{be_value, be_word, push_word, word_at, WORD};
use crate::amm::{v2_amount_out, v2_amount_out_spec};
use crate::types::{
    Address, BlockInfo, ExecutionOutcome, Fault, SimulationError, Stage, TxEnv, TxEnvView,
    UniswapV2Pool, CALL_GAS_LIMIT,
};
use crate::uint::U256;
use vstd::prelude::*;

verus! {

/// The call data of `getReserves()`.
pub open spec fn get_reserves_call_data() -> Seq<u8> {
    seq![0x09u8, 0x02u8, 0xf1u8, 0xacu8]
}

/// The call data of `balanceOf(owner)`.
pub open spec fn balance_of_call_data(owner: Address) -> Seq<u8> {
    seq![0x70u8, 0xa0u8, 0x82u8, 0x31u8] + be_word(owner@)
}

/// A call with the standard gas limit and nothing optional set.
pub fn plain_call(
    caller: Address,
    transact_to: Address,
    data: Vec<u8>,
    value: U256,
    gas_price: U256,
) -> (env: TxEnv)
    ensures
        env@ == TxEnvView::plain_call(caller, transact_to, data@, value, gas_price),
{
    let env = TxEnv {
        caller,
        gas_limit: CALL_GAS_LIMIT,
        gas_price,
        gas_priority_fee: None,
        transact_to,
        value,
        data,
        chain_id: None,
        nonce: None,
        access_list: Vec::new(),
    };
    proof {
        assert(env@.access_list =~= Seq::empty());
    }
    env
}

/// The query for a pool's reserves, made in `caller`'s name at the block's
/// base fee. It is meant to be run without committing.
pub fn reserves_query(pool: &UniswapV2Pool, caller: Address, block: &BlockInfo) -> (env: TxEnv)
    ensures
        env@ == TxEnvView::plain_call(
            caller,
            pool.address,
            get_reserves_call_data(),
            U256 { w0: 0, w1: 0, w2: 0, w3: 0 },
            block.base_fee_per_gas,
        ),
{
    let mut data: Vec<u8> = Vec::new();
    data.push(0x09);
    data.push(0x02);
    data.push(0xf1);
    data.push(0xac);
    proof {
        assert(data@ =~= get_reserves_call_data());
    }
    plain_call(caller, pool.address, data, U256::zero(), block.base_fee_per_gas)
}

/// The query for `owner`'s balance of `token`, made in `caller`'s name at
/// the block's base fee. It is meant to be run without committing.
pub fn balance_query(token: Address, owner: Address, caller: Address, block: &BlockInfo) -> (env:
    TxEnv)
    ensures
        env@ == TxEnvView::plain_call(
            caller,
            token,
            balance_of_call_data(owner),
            U256 { w0: 0, w1: 0, w2: 0, w3: 0 },
            block.base_fee_per_gas,
        ),
{
    let mut data: Vec<u8> = Vec::new();
    data.push(0x70);
    data.push(0xa0);
    data.push(0x82);
    data.push(0x31);
    push_word(&mut data, &owner.to_word());
    proof {
        assert(data@ =~= balance_of_call_data(owner));
    }
    plain_call(caller, token, data, U256::zero(), block.base_fee_per_gas)
}

/// What a query that did not succeed, or returned too little, amounts to.
pub open spec fn query_failure(stage: Stage, outcome: ExecutionOutcome, words: nat) -> Option<
    SimulationError,
> {
    match outcome {
        ExecutionOutcome::Success { output, .. } => if output@.len() < words * WORD {
            Some(SimulationError::SimulatorFault { stage, fault: Fault::ShortReturnData })
        } else {
            None
        },
        ExecutionOutcome::Revert { output, .. } => Some(
            SimulationError::ExecutionReverted { stage, output },
        ),
        ExecutionOutcome::Halt { reason, .. } => Some(
            SimulationError::ExecutionHalted { stage, reason },
        ),
    }
}

/// The return data of a query that succeeded with at least `words` words.
pub fn query_output(stage: Stage, outcome: ExecutionOutcome, words: usize) -> (r: Result<
    Vec<u8>,
    SimulationError,
>)
    ensures
        match r {
            Ok(output) => {
                &&& query_failure(stage, outcome, words as nat) is None
                &&& outcome matches ExecutionOutcome::Success { output: o, .. } && o == output
            },
            Err(e) => query_failure(stage, outcome, words as nat) == Some(e),
        },
{
    match outcome {
        ExecutionOutcome::Success { output, .. } => {
            if output.len() / WORD < words {
                Err(SimulationError::SimulatorFault { stage, fault: Fault::ShortReturnData })
            } else {
                Ok(output)
            }
        },
        ExecutionOutcome::Revert { output, .. } => Err(
            SimulationError::ExecutionReverted { stage, output },
        ),
        ExecutionOutcome::Halt { reason, .. } => Err(
            SimulationError::ExecutionHalted { stage, reason },
        ),
    }
}

/// The balance that the outcome of a `balanceOf` query reports: the first
/// word of the return data. A revert, a halt or return data of fewer than
/// 32 bytes is an error of the balance query.
pub fn get_erc20_balance(outcome: ExecutionOutcome) -> (r: Result<U256, SimulationError>)
    ensures
        match r {
            Ok(balance) => {
                &&& query_failure(Stage::BalanceQuery, outcome, 1) is None
                &&& outcome matches ExecutionOutcome::Success { output, .. } && balance@
                    == be_value(output@.subrange(0, WORD as int))
            },
            Err(e) => query_failure(Stage::BalanceQuery, outcome, 1) == Some(e),
        },
{
    let output = query_output(Stage::BalanceQuery, outcome, 1)?;
    match word_at(&output, 0) {
        Some(balance) => Ok(balance),
        None => Err(
            SimulationError::SimulatorFault {
                stage: Stage::BalanceQuery,
                fault: Fault::ShortReturnData,
            },
        ),
    }
}

/// Whether the token that a swap pays in is the one whose reserve the pool
/// reports first, the one with the smaller address. The frontrun pays in
/// the base token, the backrun the other token of the pool.
pub open spec fn pays_in_first(pool: UniswapV2Pool, base_token: Address, is_frontrun: bool) -> bool {
    let other_token = if pool.token_a != base_token {
        pool.token_a
    } else {
        pool.token_b
    };
    if is_frontrun {
        base_token@ < other_token@
    } else {
        other_token@ < base_token@
    }
}

/// The reserves on the side that is paid in and on the side that is paid
/// out, from the two reserves in the order in which the pool reports them.
pub open spec fn ordered_reserves(
    pool: UniswapV2Pool,
    base_token: Address,
    is_frontrun: bool,
    reserves_0: U256,
    reserves_1: U256,
) -> (U256, U256) {
    if pays_in_first(pool, base_token, is_frontrun) {
        (reserves_0, reserves_1)
    } else {
        (reserves_1, reserves_0)
    }
}

pub fn order_reserves(
    pool: &UniswapV2Pool,
    base_token: Address,
    is_frontrun: bool,
    reserves_0: U256,
    reserves_1: U256,
) -> (r: (U256, U256))
    ensures
        r == ordered_reserves(*pool, base_token, is_frontrun, reserves_0, reserves_1),
{
    let other_token = if pool.token_a != base_token {
        pool.token_a
    } else {
        pool.token_b
    };
    let (token_in, token_out) = if is_frontrun {
        (base_token, other_token)
    } else {
        (other_token, base_token)
    };
    if token_in.lt(&token_out) {
        (reserves_0, reserves_1)
    } else {
        (reserves_1, reserves_0)
    }
}

/// What a swap of `amount_in` pays out, for reserves as the pool returned
/// them: the first two words of the return data.
pub open spec fn amount_out_for(
    amount_in: nat,
    pool: UniswapV2Pool,
    base_token: Address,
    is_frontrun: bool,
    output: Seq<u8>,
) -> nat {
    let reserves_0 = be_value(output.subrange(0, WORD as int));
    let reserves_1 = be_value(output.subrange(WORD as int, 2 * WORD));
    if pays_in_first(pool, base_token, is_frontrun) {
        v2_amount_out_spec(amount_in, reserves_0, reserves_1)
    } else {
        v2_amount_out_spec(amount_in, reserves_1, reserves_0)
    }
}

/// What the target pool pays out for `amount_in`, given the outcome of the
/// query for its reserves. A revert, a halt or return data of fewer than
/// three words is an error of the reserve query.
pub fn v2_get_amount_out(
    amount_in: U256,
    target_pool: &UniswapV2Pool,
    is_frontrun: bool,
    base_token: Address,
    outcome: ExecutionOutcome,
) -> (r: Result<U256, SimulationError>)
    ensures
        match r {
            Ok(amount_out) => {
                &&& query_failure(Stage::ReserveQuery, outcome, 3) is None
                &&& outcome matches ExecutionOutcome::Success { output, .. } && amount_out@
                    == amount_out_for(amount_in@, *target_pool, base_token, is_frontrun, output@)
            },
            Err(e) => query_failure(Stage::ReserveQuery, outcome, 3) == Some(e),
        },
{
    let output = query_output(Stage::ReserveQuery, outcome, 3)?;
    let reserves_0 = match word_at(&output, 0) {
        Some(word) => word,
        None => {
            return Err(
                SimulationError::SimulatorFault {
                    stage: Stage::ReserveQuery,
                    fault: Fault::ShortReturnData,
                },
            );
        },
    };
    let reserves_1 = match word_at(&output, 1) {
        Some(word) => word,
        None => {
            return Err(
                SimulationError::SimulatorFault {
                    stage: Stage::ReserveQuery,
                    fault: Fault::ShortReturnData,
                },
            );
        },
    };
    let (reserve_in, reserve_out) = order_reserves(
        target_pool,
        base_token,
        is_frontrun,
        reserves_0,
        reserves_1,
    );
    Ok(v2_amount_out(&amount_in, &reserve_in, &reserve_out))
}

} // verus!
