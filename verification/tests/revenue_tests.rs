use ethers::abi::{encode, Token};
use ethers::types::{H160, U256 as Outside};
use sandwich_core::abi::push_word;
use sandwich_core::protocol::{meat_tx_env, Request, Response};
use sandwich_core::fork::{
    inject_huff_sandwich, inject_lil_router_code, RouterSetup, StateInjection,
    BALANCE_MAPPING_SLOT,
};
use sandwich_core::revenue::{
    evaluate_sandwich_revenue, RevenuePhase, RevenueSession, RevenueStep,
};
use sandwich_core::types::{
    Address, BlockInfo, ExecutionOutcome, Fault, Meat, Pool, RawIngredients, SimulationError,
    Stage, TxEnv, UniswapV2Pool, UniswapV3Pool,
};
use sandwich_core::uint::U256;

const WETH: Address = Address { hi: 0xc02a_aa39, mid: 0xb223_fe8d_0a0e_5c4f, lo: 0x27ea_d908_3c75_6cc2 };
const TOKEN: Address = Address { hi: 0xdac1_7f95, mid: 0x8d2e_e523_a220_6206, lo: 0x994_597c_13d8_31ec };
const POOL: Address = Address { hi: 1, mid: 2, lo: 3 };
const ROUTER: Address = Address { hi: 0xdeca_fc0f, mid: 0xfee1_5bad_0000_0000, lo: 0 };
const CONTROLLER: Address = Address { hi: 0xc0ff_eeba, mid: 0xbe5d_496b_2dde_509f, lo: 0x9fa1_89c2_5cf2_9671 };

fn ether(n: u64) -> U256 {
    U256::from_u64(n).checked_mul(&U256::from_u128(1_000_000_000_000_000_000)).unwrap()
}

fn setup() -> RouterSetup {
    RouterSetup { router: ROUTER, controller: CONTROLLER, base_token: WETH, funded_amount: ether(200) }
}

fn block() -> BlockInfo {
    BlockInfo { number: 100, timestamp: U256::from_u64(1_700_000_000), base_fee_per_gas: U256::from_u64(10_000_000_000) }
}

fn meat(n: u64) -> Meat {
    Meat {
        hash: U256::from_u64(n),
        from: Address { hi: 0, mid: 0, lo: 0x1000 + n },
        to: Some(Address { hi: 0, mid: 0, lo: 0x7a25 }),
        input: vec![0x38, 0xed, n as u8],
        value: U256::zero(),
        gas: 300_000,
        gas_price: Some(U256::from_u64(30_000_000_000)),
        max_fee_per_gas: None,
        max_priority_fee_per_gas: None,
        chain_id: Some(1),
        transaction_type: Some(0),
    }
}

fn v2_ingredients(meats: Vec<Meat>) -> RawIngredients {
    let pool = Pool::UniswapV2(UniswapV2Pool { address: POOL, token_a: WETH, token_b: TOKEN });
    RawIngredients::new(pool, meats, WETH).unwrap()
}

fn v3_ingredients(meats: Vec<Meat>) -> RawIngredients {
    let pool = Pool::UniswapV3(UniswapV3Pool { address: POOL, token_a: WETH, token_b: TOKEN, fee: 500 });
    RawIngredients::new(pool, meats, WETH).unwrap()
}

fn words(values: &[U256]) -> Vec<u8> {
    let mut bytes = Vec::new();
    for v in values {
        push_word(&mut bytes, v);
    }
    bytes
}

fn success(output: Vec<u8>) -> Response {
    Response::Outcome(ExecutionOutcome::Success { gas_used: 100_000, output })
}

fn payload(data: Vec<u8>) -> Response {
    Response::Payload { data, value: U256::from_u64(1) }
}

fn router_call(data: Vec<u8>) -> TxEnv {
    TxEnv {
        caller: CONTROLLER,
        gas_limit: 700_000,
        gas_price: U256::from_u64(10_000_000_000),
        gas_priority_fee: None,
        transact_to: ROUTER,
        value: U256::zero(),
        data,
        chain_id: None,
        nonce: None,
        access_list: Vec::new(),
    }
}

fn go_on(step: RevenueStep) -> RevenueSession {
    match step {
        RevenueStep::Next(session) => session,
        RevenueStep::Done(result) => panic!("ended early: {:?}", result),
    }
}

fn finish(step: RevenueStep) -> Result<U256, SimulationError> {
    match step {
        RevenueStep::Done(result) => result,
        RevenueStep::Next(session) => panic!("still waiting in {:?}", session.phase()),
    }
}

#[test]
fn the_fork_is_prepared_with_router_controller_and_balance() {
    let code = vec![0x60, 0x80, 0x60, 0x40];
    let injections = inject_lil_router_code(&setup(), code.clone());
    assert_eq!(injections.len(), 3);
    assert_eq!(
        injections[0],
        StateInjection::Account { address: ROUTER, balance: U256::zero(), nonce: 0, code }
    );
    assert_eq!(
        injections[1],
        StateInjection::Account { address: CONTROLLER, balance: ether(200), nonce: 0, code: Vec::new() }
    );
    // keccak256(router as a word || 3 as a word)
    let mut router = [0u8; 20];
    router[..4].copy_from_slice(&ROUTER.hi.to_be_bytes());
    router[4..12].copy_from_slice(&ROUTER.mid.to_be_bytes());
    router[12..].copy_from_slice(&ROUTER.lo.to_be_bytes());
    let key = encode(&[Token::Address(H160::from(router)), Token::Uint(Outside::from(3u64))]);
    let slot = Outside::from_big_endian(&ethers::utils::keccak256(key));
    let slot = U256 { w0: slot.0[0], w1: slot.0[1], w2: slot.0[2], w3: slot.0[3] };
    assert_eq!(injections[2], StateInjection::Storage { address: WETH, slot, value: ether(200) });
    assert_eq!(BALANCE_MAPPING_SLOT, 3);
}

#[test]
fn the_fork_is_prepared_with_the_sandwich_contract() {
    let code = vec![0x5f, 0x35];
    let sandwich = Address { hi: 0, mid: 0, lo: 0x5a4d };
    let searcher = Address { hi: 0, mid: 0, lo: 0x5ea };
    let injections = inject_huff_sandwich(sandwich, searcher, WETH, ether(123), ether(200), code.clone());
    assert_eq!(injections.len(), 3);
    assert_eq!(
        injections[0],
        StateInjection::Account { address: sandwich, balance: U256::zero(), nonce: 0, code }
    );
    assert_eq!(
        injections[1],
        StateInjection::Account { address: searcher, balance: ether(200), nonce: 0, code: Vec::new() }
    );
    let key = encode(&[Token::Address(H160::from_low_u64_be(0x5a4d)), Token::Uint(Outside::from(3u64))]);
    let slot = Outside::from_big_endian(&ethers::utils::keccak256(key));
    let slot = U256 { w0: slot.0[0], w1: slot.0[1], w2: slot.0[2], w3: slot.0[3] };
    assert_eq!(injections[2], StateInjection::Storage { address: WETH, slot, value: ether(123) });
}

#[test]
fn errors_carry_a_tag_and_their_stage() {
    let e = SimulationError::ExecutionReverted { stage: Stage::Backrun, output: Vec::new() };
    assert_eq!(e.tag(), "REVERT");
    assert_eq!(e.stage(), Stage::Backrun);
    assert_eq!(e.stage().name(), "backrun");
    let e = SimulationError::ExecutionHalted { stage: Stage::Frontrun, reason: String::new() };
    assert_eq!((e.tag(), e.stage().name()), ("HALT", "frontrun"));
    let e = SimulationError::NotSafu { stage: Stage::Meat, opcodes: vec![1] };
    assert_eq!((e.tag(), e.stage().name()), ("NOT SAFU", "meat"));
    let e = SimulationError::SimulatorFault { stage: Stage::ReserveQuery, fault: Fault::ShortReturnData };
    assert_eq!((e.tag(), e.stage().name()), ("EVM ERROR", "reserve query"));
    assert_eq!(Stage::BalanceQuery.name(), "balance query");
}

#[test]
fn revenue_is_what_the_router_gained() {
    let session = evaluate_sandwich_revenue(ether(5), block(), v2_ingredients(vec![meat(1), meat(2)]), setup()).unwrap();
    assert_eq!(session.phase(), RevenuePhase::FrontrunData);
    assert_eq!(session.request(), Request::RouterCallData { amount: ether(5), is_frontrun: true });

    let session = go_on(session.resume(payload(vec![0xf1])));
    assert_eq!(session.phase(), RevenuePhase::FrontrunRun);
    assert_eq!(session.request(), Request::Execute(router_call(vec![0xf1])));

    // The router returns what the swap paid out and what it holds afterwards.
    let session = go_on(session.resume(success(words(&[U256::from_u64(9_000), U256::from_u64(9_500)]))));
    assert_eq!(session.phase(), RevenuePhase::Meats);
    assert_eq!(session.request(), Request::Execute(meat_tx_env(&meat(1))));
    let session = go_on(session.resume(success(Vec::new())));
    assert_eq!(session.request(), Request::Execute(meat_tx_env(&meat(2))));
    let session = go_on(session.resume(success(Vec::new())));

    // The backrun pays in all that the router holds.
    assert_eq!(session.phase(), RevenuePhase::BackrunData);
    assert_eq!(session.request(), Request::RouterCallData { amount: U256::from_u64(9_500), is_frontrun: false });
    let session = go_on(session.resume(payload(vec![0xb2])));
    assert_eq!(session.phase(), RevenuePhase::BackrunRun);
    assert_eq!(session.request(), Request::Execute(router_call(vec![0xb2])));

    let held = ether(200).checked_add(&U256::from_u64(777)).unwrap();
    let result = finish(session.resume(success(words(&[ether(5), held]))));
    assert_eq!(result, Ok(U256::from_u64(777)));
}

#[test]
fn revenue_is_zero_where_the_router_lost() {
    let session = evaluate_sandwich_revenue(ether(5), block(), v2_ingredients(Vec::new()), setup()).unwrap();
    let session = go_on(session.resume(payload(vec![1])));
    let session = go_on(session.resume(success(words(&[U256::one(), U256::one()]))));
    // Without victims the backrun follows at once.
    assert_eq!(session.phase(), RevenuePhase::BackrunData);
    let session = go_on(session.resume(payload(vec![2])));
    let held = ether(200).checked_sub(&U256::one()).unwrap();
    assert_eq!(finish(session.resume(success(words(&[U256::zero(), held])))), Ok(U256::zero()));
}

#[test]
fn victims_that_fail_are_passed_over() {
    let meats = vec![meat(1), meat(2), meat(3)];
    let session = evaluate_sandwich_revenue(ether(5), block(), v2_ingredients(meats), setup()).unwrap();
    let session = go_on(session.resume(payload(vec![1])));
    let session = go_on(session.resume(success(words(&[U256::one(), U256::from_u64(50)]))));
    let session = go_on(session.resume(Response::Outcome(ExecutionOutcome::Revert { gas_used: 1, output: vec![1] })));
    assert_eq!(session.request(), Request::Execute(meat_tx_env(&meat(2))));
    let session = go_on(session.resume(Response::Fault("nonce too low".to_string())));
    assert_eq!(session.request(), Request::Execute(meat_tx_env(&meat(3))));
    let session = go_on(session.resume(Response::Outcome(ExecutionOutcome::Halt { gas_used: 1, reason: "OutOfGas".to_string() })));
    assert_eq!(session.phase(), RevenuePhase::BackrunData);
    assert_eq!(session.request(), Request::RouterCallData { amount: U256::from_u64(50), is_frontrun: false });
}

#[test]
fn a_router_call_that_fails_ends_the_simulation() {
    let session = evaluate_sandwich_revenue(ether(5), block(), v2_ingredients(Vec::new()), setup()).unwrap();
    let session = go_on(session.resume(payload(vec![1])));
    let result = finish(session.resume(Response::Outcome(ExecutionOutcome::Revert { gas_used: 1, output: vec![9] })));
    assert_eq!(result, Err(SimulationError::ExecutionReverted { stage: Stage::Frontrun, output: vec![9] }));

    let session = evaluate_sandwich_revenue(ether(5), block(), v2_ingredients(Vec::new()), setup()).unwrap();
    let session = go_on(session.resume(payload(vec![1])));
    let result = finish(session.resume(success(words(&[U256::one()]))));
    assert_eq!(result, Err(SimulationError::SimulatorFault { stage: Stage::Frontrun, fault: Fault::ShortReturnData }));

    let session = evaluate_sandwich_revenue(ether(5), block(), v2_ingredients(Vec::new()), setup()).unwrap();
    let session = go_on(session.resume(payload(vec![1])));
    let session = go_on(session.resume(success(words(&[U256::one(), U256::one()]))));
    let session = go_on(session.resume(payload(vec![2])));
    let result = finish(session.resume(Response::Outcome(ExecutionOutcome::Halt { gas_used: 1, reason: "StackOverflow".to_string() })));
    assert_eq!(result, Err(SimulationError::ExecutionHalted { stage: Stage::Backrun, reason: "StackOverflow".to_string() }));

    let session = evaluate_sandwich_revenue(ether(5), block(), v2_ingredients(Vec::new()), setup()).unwrap();
    let result = finish(session.resume(Response::Fault("no code".to_string())));
    assert_eq!(
        result,
        Err(SimulationError::SimulatorFault { stage: Stage::Frontrun, fault: Fault::Backend("no code".to_string()) })
    );

    let session = evaluate_sandwich_revenue(ether(5), block(), v2_ingredients(Vec::new()), setup()).unwrap();
    let result = finish(session.resume(success(Vec::new())));
    assert_eq!(
        result,
        Err(SimulationError::SimulatorFault { stage: Stage::Frontrun, fault: Fault::UnexpectedResponse })
    );
}

#[test]
fn v3_takes_amounts_in_128_bits() {
    let too_large = U256 { w0: 0, w1: 0, w2: 1, w3: 0 };
    let result = evaluate_sandwich_revenue(too_large, block(), v3_ingredients(Vec::new()), setup());
    assert_eq!(
        result.err(),
        Some(SimulationError::SimulatorFault { stage: Stage::Frontrun, fault: Fault::AmountTooLarge })
    );
    assert!(evaluate_sandwich_revenue(too_large, block(), v2_ingredients(Vec::new()), setup()).is_ok());

    let session = evaluate_sandwich_revenue(ether(1), block(), v3_ingredients(Vec::new()), setup()).unwrap();
    let session = go_on(session.resume(payload(vec![1])));
    let result = finish(session.resume(success(words(&[U256::one(), too_large]))));
    assert_eq!(
        result,
        Err(SimulationError::SimulatorFault { stage: Stage::Backrun, fault: Fault::AmountTooLarge })
    );

    let session = evaluate_sandwich_revenue(ether(1), block(), v3_ingredients(Vec::new()), setup()).unwrap();
    let session = go_on(session.resume(payload(vec![1])));
    let session = go_on(session.resume(success(words(&[U256::one(), U256::from_u128(u128::MAX)]))));
    assert_eq!(session.request(), Request::RouterCallData { amount: U256::from_u128(u128::MAX), is_frontrun: false });
}
