use ethers::abi::{encode, Token};
use ethers::types::{H160, U256 as Outside};
use sandwich_core::abi::push_word;
use sandwich_core::amm::v2_amount_out;
use sandwich_core::calls::{
    balance_query, get_erc20_balance, order_reserves, plain_call, query_output, reserves_query,
    v2_get_amount_out,
};
use sandwich_core::types::{
    Address, BlockInfo, ExecutionOutcome, Fault, SimulationError, Stage, UniswapV2Pool,
    CALL_GAS_LIMIT,
};
use sandwich_core::uint::U256;

fn address(n: u64) -> Address {
    Address { hi: 0, mid: 0, lo: n }
}

fn block() -> BlockInfo {
    BlockInfo { number: 17, timestamp: U256::from_u64(1_700_000_000), base_fee_per_gas: U256::from_u64(10_000_000_000) }
}

fn words(values: &[u64]) -> Vec<u8> {
    let mut bytes = Vec::new();
    for v in values {
        push_word(&mut bytes, &U256::from_u64(*v));
    }
    bytes
}

fn success(output: Vec<u8>) -> ExecutionOutcome {
    ExecutionOutcome::Success { gas_used: 21_000, output }
}

#[test]
fn plain_calls_set_nothing_optional() {
    let env = plain_call(address(1), address(2), vec![9, 8], U256::from_u64(3), U256::from_u64(4));
    assert_eq!(env.caller, address(1));
    assert_eq!(env.transact_to, address(2));
    assert_eq!(env.data, vec![9, 8]);
    assert_eq!(env.value, U256::from_u64(3));
    assert_eq!(env.gas_price, U256::from_u64(4));
    assert_eq!(env.gas_limit, 700_000);
    assert_eq!(CALL_GAS_LIMIT, 700_000);
    assert_eq!(env.gas_priority_fee, None);
    assert_eq!(env.chain_id, None);
    assert_eq!(env.nonce, None);
    assert!(env.access_list.is_empty());
}

#[test]
fn the_reserve_query_calls_get_reserves_on_the_pool() {
    let pool = UniswapV2Pool { address: address(0xb00), token_a: address(1), token_b: address(2) };
    let env = reserves_query(&pool, address(0xdad), &block());
    assert_eq!(env.caller, address(0xdad));
    assert_eq!(env.transact_to, address(0xb00));
    assert_eq!(env.data, vec![0x09, 0x02, 0xf1, 0xac]);
    assert_eq!(env.data, ethers::utils::id("getReserves()").to_vec());
    assert_eq!(env.value, U256::zero());
    assert_eq!(env.gas_price, U256::from_u64(10_000_000_000));
    assert_eq!(env.gas_limit, 700_000);
    assert_eq!(env.nonce, None);
}

#[test]
fn the_balance_query_calls_balance_of_with_the_owner() {
    let owner = Address { hi: 0xdeca_fc0f, mid: 0xfee1_5bad_0000_0000, lo: 0x1234 };
    let env = balance_query(address(0x70c), owner, address(0xdad), &block());
    assert_eq!(env.caller, address(0xdad));
    assert_eq!(env.transact_to, address(0x70c));
    assert_eq!(env.value, U256::zero());
    assert_eq!(env.gas_price, U256::from_u64(10_000_000_000));

    let mut owner_bytes = [0u8; 20];
    owner_bytes[..4].copy_from_slice(&owner.hi.to_be_bytes());
    owner_bytes[4..12].copy_from_slice(&owner.mid.to_be_bytes());
    owner_bytes[12..].copy_from_slice(&owner.lo.to_be_bytes());
    let mut want = ethers::utils::id("balanceOf(address)").to_vec();
    want.extend(encode(&[Token::Address(H160::from(owner_bytes))]));
    assert_eq!(env.data, want);
    assert_eq!(&env.data[..4], &[0x70, 0xa0, 0x82, 0x31]);
}

#[test]
fn addresses_are_ordered_as_their_bytes_are() {
    let small = Address { hi: 1, mid: u64::MAX, lo: u64::MAX };
    let large = Address { hi: 2, mid: 0, lo: 0 };
    assert!(small.lt(&large));
    assert!(!large.lt(&small));
    assert!(!small.lt(&small));
    assert!(Address { hi: 1, mid: 1, lo: 9 }.lt(&Address { hi: 1, mid: 2, lo: 0 }));
    assert!(Address { hi: 1, mid: 1, lo: 8 }.lt(&Address { hi: 1, mid: 1, lo: 9 }));
    assert_eq!(Address::zero(), Address { hi: 0, mid: 0, lo: 0 });
    assert_eq!(large.to_word(), U256 { w0: 0, w1: 0, w2: 2, w3: 0 });
}

#[test]
fn a_balance_is_the_first_word_returned() {
    assert_eq!(get_erc20_balance(success(words(&[1234]))), Ok(U256::from_u64(1234)));
    assert_eq!(get_erc20_balance(success(words(&[5, 6]))), Ok(U256::from_u64(5)));
    let top = encode(&[Token::Uint(Outside::MAX)]);
    assert_eq!(get_erc20_balance(success(top)), Ok(U256::max_value()));
}

#[test]
fn a_balance_query_that_fails_is_an_error_of_the_balance_query() {
    assert_eq!(
        get_erc20_balance(success(vec![0u8; 31])),
        Err(SimulationError::SimulatorFault { stage: Stage::BalanceQuery, fault: Fault::ShortReturnData })
    );
    assert_eq!(
        get_erc20_balance(success(Vec::new())),
        Err(SimulationError::SimulatorFault { stage: Stage::BalanceQuery, fault: Fault::ShortReturnData })
    );
    assert_eq!(
        get_erc20_balance(ExecutionOutcome::Revert { gas_used: 1, output: vec![0xde, 0xad] }),
        Err(SimulationError::ExecutionReverted { stage: Stage::BalanceQuery, output: vec![0xde, 0xad] })
    );
    assert_eq!(
        get_erc20_balance(ExecutionOutcome::Halt { gas_used: 1, reason: "OutOfGas".to_string() }),
        Err(SimulationError::ExecutionHalted { stage: Stage::BalanceQuery, reason: "OutOfGas".to_string() })
    );
}

#[test]
fn query_output_hands_the_return_data_on() {
    assert_eq!(query_output(Stage::Frontrun, success(words(&[1, 2])), 2), Ok(words(&[1, 2])));
    assert_eq!(query_output(Stage::Frontrun, success(vec![7]), 0), Ok(vec![7]));
    assert_eq!(
        query_output(Stage::Frontrun, success(words(&[1])), 2),
        Err(SimulationError::SimulatorFault { stage: Stage::Frontrun, fault: Fault::ShortReturnData })
    );
}

#[test]
fn reserves_follow_the_order_of_the_token_addresses() {
    let weth = address(0xc02a);
    let lower_token = address(0x1000);
    let higher_token = address(0xf000);
    let (r0, r1) = (U256::from_u64(10), U256::from_u64(20));

    // The other token has the smaller address: it is the first reserve.
    let pool = UniswapV2Pool { address: address(1), token_a: lower_token, token_b: weth };
    assert_eq!(order_reserves(&pool, weth, true, r0, r1), (r1, r0));
    assert_eq!(order_reserves(&pool, weth, false, r0, r1), (r0, r1));

    // The base token has the smaller address.
    let pool = UniswapV2Pool { address: address(1), token_a: weth, token_b: higher_token };
    assert_eq!(order_reserves(&pool, weth, true, r0, r1), (r0, r1));
    assert_eq!(order_reserves(&pool, weth, false, r0, r1), (r1, r0));

    // The listing order of the pool's tokens does not matter.
    let pool = UniswapV2Pool { address: address(1), token_a: higher_token, token_b: weth };
    assert_eq!(order_reserves(&pool, weth, true, r0, r1), (r0, r1));
}

#[test]
fn the_amount_out_is_worked_out_from_the_returned_reserves() {
    let weth = address(0xc02a);
    let token = address(0xf000);
    let pool = UniswapV2Pool { address: address(1), token_a: token, token_b: weth };
    // weth < token: reserves are (weth, token), followed by a timestamp.
    let output = words(&[1_000_000, 2_000_000_000, 1_700_000_000]);
    let amount = U256::from_u64(5_000);
    let out = v2_get_amount_out(amount, &pool, true, weth, success(output.clone()));
    let want = v2_amount_out(&amount, &U256::from_u64(1_000_000), &U256::from_u64(2_000_000_000));
    assert_eq!(out, Ok(want));
    // 997 * 5000 * 2e9 / (1000 * 1e6 + 997 * 5000) = 9_920_546
    assert_eq!(out, Ok(U256::from_u64(9_920_546)));

    let back = v2_get_amount_out(amount, &pool, false, weth, success(output));
    // 997 * 5000 * 1e6 / (1000 * 2e9 + 997 * 5000) = 2
    assert_eq!(back, Ok(U256::from_u64(2)));
}

#[test]
fn a_reserve_query_that_fails_is_an_error_of_the_reserve_query() {
    let weth = address(0xc02a);
    let pool = UniswapV2Pool { address: address(1), token_a: address(0xf000), token_b: weth };
    let amount = U256::from_u64(5);
    assert_eq!(
        v2_get_amount_out(amount, &pool, true, weth, success(words(&[1, 2]))),
        Err(SimulationError::SimulatorFault { stage: Stage::ReserveQuery, fault: Fault::ShortReturnData })
    );
    assert_eq!(
        v2_get_amount_out(amount, &pool, true, weth, ExecutionOutcome::Revert { gas_used: 3, output: vec![1] }),
        Err(SimulationError::ExecutionReverted { stage: Stage::ReserveQuery, output: vec![1] })
    );
    assert_eq!(
        v2_get_amount_out(amount, &pool, true, weth, ExecutionOutcome::Halt { gas_used: 3, reason: "x".to_string() }),
        Err(SimulationError::ExecutionHalted { stage: Stage::ReserveQuery, reason: "x".to_string() })
    );
}
