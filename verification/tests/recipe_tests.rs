use sandwich_core::abi::push_word;
use sandwich_core::amm::v2_amount_out;
use sandwich_core::calls::{balance_query, reserves_query};
use sandwich_core::protocol::{keep_meats, meat_tx_env, Request, Response};
use sandwich_core::recipe::{create_recipe, RecipePhase, RecipeSession, RecipeStep};
use sandwich_core::types::{
    AccessListItem, Address, BlockInfo, ExecutionOutcome, Fault, IsSandwichSafu, Meat, Pool,
    RawIngredients, SandwichRecipe, SimulationError, Stage, TxEnv, UniswapV2Pool, UniswapV3Pool,
};
use sandwich_core::uint::U256;

const WETH: Address = Address { hi: 0xc02a_aa39, mid: 0xb223_fe8d_0a0e_5c4f, lo: 0x27ea_d908_3c75_6cc2 };
const TOKEN: Address = Address { hi: 0xdac1_7f95, mid: 0x8d2e_e523_a220_6206, lo: 0x994_597c_13d8_31ec };
const POOL: Address = Address { hi: 1, mid: 2, lo: 3 };
const SEARCHER: Address = Address { hi: 0, mid: 0, lo: 0x5ea };
const SANDWICH: Address = Address { hi: 0, mid: 0, lo: 0x5a4d };
const SUGAR_DADDY: Address = Address { hi: 0, mid: 0, lo: 0xdad };

fn block() -> BlockInfo {
    BlockInfo { number: 100, timestamp: U256::from_u64(1_700_000_000), base_fee_per_gas: U256::from_u64(10_000_000_000) }
}

fn ether(n: u64) -> U256 {
    U256::from_u64(n).checked_mul(&U256::from_u128(1_000_000_000_000_000_000)).unwrap()
}

fn meat(n: u64) -> Meat {
    Meat {
        hash: U256::from_u64(n),
        from: Address { hi: 0, mid: 0, lo: 0x1000 + n },
        to: Some(Address { hi: 0, mid: 0, lo: 0x7a25 }),
        input: vec![0x38, 0xed, n as u8],
        value: U256::from_u64(n),
        gas: 300_000 + n,
        gas_price: Some(U256::from_u64(30_000_000_000)),
        max_fee_per_gas: Some(U256::from_u64(40_000_000_000)),
        max_priority_fee_per_gas: Some(U256::from_u64(2_000_000_000)),
        chain_id: Some(1),
        transaction_type: Some(2),
    }
}

fn v2_ingredients(meats: Vec<Meat>) -> RawIngredients {
    let pool = Pool::UniswapV2(UniswapV2Pool { address: POOL, token_a: WETH, token_b: TOKEN });
    RawIngredients::new(pool, meats, WETH).unwrap()
}

fn v3_ingredients(meats: Vec<Meat>) -> RawIngredients {
    let pool = Pool::UniswapV3(UniswapV3Pool { address: POOL, token_a: TOKEN, token_b: WETH, fee: 3000 });
    RawIngredients::new(pool, meats, WETH).unwrap()
}

fn words(values: &[U256]) -> Vec<u8> {
    let mut bytes = Vec::new();
    for v in values {
        push_word(&mut bytes, v);
    }
    bytes
}

fn success(gas_used: u64, output: Vec<u8>) -> ExecutionOutcome {
    ExecutionOutcome::Success { gas_used, output }
}

fn access_list(n: u64) -> Vec<AccessListItem> {
    vec![AccessListItem { address: POOL, storage_keys: vec![U256::from_u64(n), U256::from_u64(n + 1)] }]
}

fn start(ingredients: RawIngredients, optimal_in: U256, start_balance: U256) -> RecipeSession {
    create_recipe(ingredients, block(), optimal_in, start_balance, SEARCHER, SANDWICH, SUGAR_DADDY).unwrap()
}

fn go_on(step: RecipeStep) -> RecipeSession {
    match step {
        RecipeStep::Next(session) => session,
        RecipeStep::Done(result) => panic!("ended early: {:?}", result),
    }
}

fn finish(step: RecipeStep) -> Result<SandwichRecipe, SimulationError> {
    match step {
        RecipeStep::Done(result) => result,
        RecipeStep::Next(session) => panic!("still waiting in {:?}", session.phase()),
    }
}

fn sandwich_call(data: Vec<u8>, value: U256, list: Vec<AccessListItem>) -> TxEnv {
    TxEnv {
        caller: SEARCHER,
        gas_limit: 700_000,
        gas_price: U256::from_u64(10_000_000_000),
        gas_priority_fee: None,
        transact_to: SANDWICH,
        value,
        data,
        chain_id: None,
        nonce: None,
        access_list: list,
    }
}

/// Reserves of the pool as `getReserves()` returns them: WETH first, as it
/// has the smaller address.
fn reserves() -> Vec<u8> {
    words(&[ether(1000), ether(2_000_000), U256::from_u64(1_700_000_000)])
}

/// Drives a session over a constant-product pool up to the point where the
/// victims are run, and returns it with the frontrun transaction.
fn through_v2_frontrun(meats: Vec<Meat>, optimal_in: U256, start_balance: U256) -> (RecipeSession, TxEnv) {
    let pool = UniswapV2Pool { address: POOL, token_a: WETH, token_b: TOKEN };
    let session = start(v2_ingredients(meats), optimal_in, start_balance);
    assert_eq!(session.phase(), RecipePhase::FrontrunReserves);
    assert_eq!(session.request(), Request::Call(reserves_query(&pool, SUGAR_DADDY, &block())));

    let session = go_on(session.resume(Response::Outcome(success(30_000, reserves()))));
    assert_eq!(session.phase(), RecipePhase::FrontrunPayload);
    // The contract takes WETH in units of 100000 wei.
    let frontrun_in = optimal_in.div_rem(&U256::from_u64(100_000)).0.checked_mul(&U256::from_u64(100_000)).unwrap();
    let frontrun_out = v2_amount_out(&frontrun_in, &ether(1000), &ether(2_000_000));
    assert_eq!(session.request(), Request::FrontrunPayload { amount_in: frontrun_in, amount_out: frontrun_out });

    let session = go_on(session.resume(Response::Payload { data: vec![0xf0, 0x01], value: U256::from_u64(77) }));
    assert_eq!(session.phase(), RecipePhase::FrontrunTrace);
    assert_eq!(session.request(), Request::TraceAccessList(sandwich_call(vec![0xf0, 0x01], U256::from_u64(77), Vec::new())));

    let session = go_on(session.resume(Response::AccessList(access_list(5))));
    assert_eq!(session.phase(), RecipePhase::FrontrunRun);
    let frontrun = sandwich_call(vec![0xf0, 0x01], U256::from_u64(77), access_list(5));
    assert_eq!(session.request(), Request::ExecuteAudited(frontrun.clone()));

    let session = go_on(session.resume(Response::Audited(success(111_000, Vec::new()), IsSandwichSafu::Safu)));
    (session, frontrun)
}

#[test]
fn ingredients_need_the_base_token_in_the_pool() {
    let pool = Pool::UniswapV2(UniswapV2Pool { address: POOL, token_a: WETH, token_b: TOKEN });
    let made = RawIngredients::new(pool, vec![meat(1)], WETH).unwrap();
    assert_eq!(made.get_start_end_token(), WETH);
    assert_eq!(made.get_intermediary_token(), TOKEN);
    assert_eq!(made.get_target_pool(), pool);
    assert_eq!(made.get_meats_ref(), &vec![meat(1)]);
    let made = RawIngredients::new(pool, Vec::new(), TOKEN).unwrap();
    assert_eq!(made.get_intermediary_token(), WETH);
    assert_eq!(RawIngredients::new(pool, Vec::new(), SEARCHER), None);
    assert_eq!(pool.address(), POOL);
    assert_eq!(pool.token_a(), WETH);
    assert_eq!(pool.token_b(), TOKEN);
}

#[test]
fn victims_keep_caller_value_and_call_data() {
    let m = meat(3);
    let env = meat_tx_env(&m);
    assert_eq!(env.caller, m.from);
    assert_eq!(env.transact_to, m.to.unwrap());
    assert_eq!(env.data, m.input);
    assert_eq!(env.value, m.value);
    assert_eq!(env.gas_limit, m.gas);
    assert_eq!(env.chain_id, Some(1));
    assert_eq!(env.nonce, None);
    assert!(env.access_list.is_empty());
}

#[test]
fn victims_pay_for_gas_by_their_type() {
    // Type 2: the fee cap, with the priority fee.
    let env = meat_tx_env(&meat(1));
    assert_eq!(env.gas_price, U256::from_u64(40_000_000_000));
    assert_eq!(env.gas_priority_fee, Some(U256::from_u64(2_000_000_000)));
    // Type 0 and no type: the gas price alone.
    for kind in [Some(0), None] {
        let env = meat_tx_env(&Meat { transaction_type: kind, ..meat(1) });
        assert_eq!(env.gas_price, U256::from_u64(30_000_000_000));
        assert_eq!(env.gas_priority_fee, None);
    }
    // What is not stated counts as zero.
    let env = meat_tx_env(&Meat { transaction_type: Some(0), gas_price: None, ..meat(1) });
    assert_eq!(env.gas_price, U256::zero());
    let env = meat_tx_env(&Meat { max_fee_per_gas: None, max_priority_fee_per_gas: None, ..meat(1) });
    assert_eq!(env.gas_price, U256::zero());
    assert_eq!(env.gas_priority_fee, None);
    // A transaction without a target calls the zero address.
    let env = meat_tx_env(&Meat { to: None, ..meat(1) });
    assert_eq!(env.transact_to, Address::zero());
}

#[test]
fn kept_victims_are_those_flagged_in_order() {
    let meats = vec![meat(1), meat(2), meat(3), meat(4)];
    assert_eq!(keep_meats(&meats, &vec![true, false, true, true]), vec![meat(1), meat(3), meat(4)]);
    assert_eq!(keep_meats(&meats, &vec![false, false, false, false]), Vec::<Meat>::new());
    assert_eq!(keep_meats(&meats, &vec![true, true, true, true]), meats);
    assert_eq!(keep_meats(&Vec::new(), &Vec::new()), Vec::<Meat>::new());
}

#[test]
fn reverting_meat() {
    let start_balance = ether(200);
    let optimal_in = ether(10).checked_add(&U256::from_u64(12_345)).unwrap();
    let (session, frontrun) = through_v2_frontrun(vec![meat(1), meat(2)], optimal_in, start_balance);

    assert_eq!(session.phase(), RecipePhase::Meats);
    assert_eq!(session.request(), Request::Execute(meat_tx_env(&meat(1))));
    let session = go_on(session.resume(Response::Outcome(success(90_000, Vec::new()))));
    assert_eq!(session.phase(), RecipePhase::Meats);
    assert_eq!(session.request(), Request::Execute(meat_tx_env(&meat(2))));
    let session = go_on(session.resume(Response::Outcome(ExecutionOutcome::Revert { gas_used: 50_000, output: vec![1] })));

    assert_eq!(session.phase(), RecipePhase::BackrunBalance);
    assert_eq!(session.request(), Request::Call(balance_query(TOKEN, SANDWICH, SUGAR_DADDY, &block())));
    let held = U256::from_u64(0x12_3456_7890);
    let session = go_on(session.resume(Response::Outcome(success(25_000, words(&[held])))));

    // One unit of the mantissa is left behind as dust.
    let backrun_in = U256::from_u64(0x12_3456_7700);
    let pool = UniswapV2Pool { address: POOL, token_a: WETH, token_b: TOKEN };
    assert_eq!(session.phase(), RecipePhase::BackrunReserves);
    assert_eq!(session.request(), Request::Call(reserves_query(&pool, SUGAR_DADDY, &block())));
    let after = words(&[ether(1060), ether(1_900_000), U256::from_u64(1_700_000_012)]);
    let session = go_on(session.resume(Response::Outcome(success(30_000, after))));

    // The backrun pays in tokens and takes out WETH.
    let backrun_out = v2_amount_out(&backrun_in, &ether(1_900_000), &ether(1060));
    assert_eq!(session.phase(), RecipePhase::BackrunPayload);
    assert_eq!(session.request(), Request::BackrunPayload { amount_in: backrun_in, amount_out: backrun_out });
    let session = go_on(session.resume(Response::Payload { data: vec![0xba, 0xc4], value: U256::from_u64(5) }));

    assert_eq!(session.phase(), RecipePhase::BackrunTrace);
    assert_eq!(session.request(), Request::TraceAccessList(sandwich_call(vec![0xba, 0xc4], U256::from_u64(5), Vec::new())));
    let session = go_on(session.resume(Response::AccessList(access_list(9))));

    let backrun = sandwich_call(vec![0xba, 0xc4], U256::from_u64(5), access_list(9));
    assert_eq!(session.phase(), RecipePhase::BackrunRun);
    assert_eq!(session.request(), Request::ExecuteAudited(backrun.clone()));
    let session = go_on(session.resume(Response::Audited(success(99_000, Vec::new()), IsSandwichSafu::Safu)));

    assert_eq!(session.phase(), RecipePhase::FinalBalance);
    assert_eq!(session.request(), Request::Call(balance_query(WETH, SANDWICH, SUGAR_DADDY, &block())));
    let post = start_balance.checked_add(&U256::from_u64(4_321)).unwrap();
    let recipe = finish(session.resume(Response::Outcome(success(25_000, words(&[post]))))).unwrap();

    assert_eq!(recipe.filtered_meats.len(), 1);
    assert_eq!(recipe.filtered_meats, vec![meat(1)]);
    assert_eq!(recipe.revenue, U256::from_u64(4_321));
    assert_eq!(recipe.frontrun_tx_env, frontrun);
    assert_eq!(recipe.frontrun_gas_used, 111_000);
    assert_eq!(recipe.backrun_tx_env, backrun);
    assert_eq!(recipe.backrun_gas_used, 99_000);
    assert_eq!(recipe.block, block());
}

#[test]
fn revenue_is_zero_where_the_contract_lost() {
    let start_balance = ether(200);
    let (session, _) = through_v2_frontrun(Vec::new(), ether(10), start_balance);
    // Without victims the backrun follows the frontrun at once.
    assert_eq!(session.phase(), RecipePhase::BackrunBalance);
    let session = go_on(session.resume(Response::Outcome(success(1, words(&[ether(19_000)])))));
    let session = go_on(session.resume(Response::Outcome(success(1, reserves()))));
    let session = go_on(session.resume(Response::Payload { data: vec![1], value: U256::zero() }));
    let session = go_on(session.resume(Response::AccessList(Vec::new())));
    let session = go_on(session.resume(Response::Audited(success(80_000, Vec::new()), IsSandwichSafu::Safu)));
    let post = start_balance.checked_sub(&U256::from_u64(1)).unwrap();
    let recipe = finish(session.resume(Response::Outcome(success(1, words(&[post]))))).unwrap();
    assert_eq!(recipe.revenue, U256::zero());
    assert!(recipe.filtered_meats.is_empty());
    assert_eq!(recipe.backrun_gas_used, 80_000);
}

#[test]
fn salmonella_token() {
    let pool = UniswapV2Pool { address: POOL, token_a: WETH, token_b: TOKEN };
    let session = start(v2_ingredients(vec![meat(1)]), ether(1), ether(200));
    assert_eq!(session.request(), Request::Call(reserves_query(&pool, SUGAR_DADDY, &block())));
    let session = go_on(session.resume(Response::Outcome(success(1, reserves()))));
    let session = go_on(session.resume(Response::Payload { data: vec![1], value: U256::zero() }));
    let session = go_on(session.resume(Response::AccessList(Vec::new())));
    // The token's transfer runs ORIGIN (0x32) in a frame of the contract.
    let result = finish(session.resume(Response::Audited(success(80_000, Vec::new()), IsSandwichSafu::NotSafu(vec![0x32]))));
    assert_eq!(result, Err(SimulationError::NotSafu { stage: Stage::Frontrun, opcodes: vec![0x32] }));
}

#[test]
fn a_suspicious_backrun_is_refused_too() {
    let (session, _) = through_v2_frontrun(Vec::new(), ether(1), ether(200));
    let session = go_on(session.resume(Response::Outcome(success(1, words(&[ether(1)])))));
    let session = go_on(session.resume(Response::Outcome(success(1, reserves()))));
    let session = go_on(session.resume(Response::Payload { data: vec![1], value: U256::zero() }));
    let session = go_on(session.resume(Response::AccessList(Vec::new())));
    let result = finish(session.resume(Response::Audited(success(1, Vec::new()), IsSandwichSafu::NotSafu(vec![0x3a, 0x41]))));
    assert_eq!(result, Err(SimulationError::NotSafu { stage: Stage::Backrun, opcodes: vec![0x3a, 0x41] }));
    assert_eq!(result.unwrap_err().stage(), Stage::Backrun);
}

#[test]
fn a_frontrun_that_reverts_or_halts_ends_the_simulation() {
    for (outcome, want) in [
        (
            ExecutionOutcome::Revert { gas_used: 5, output: vec![0xbe, 0xef] },
            SimulationError::ExecutionReverted { stage: Stage::Frontrun, output: vec![0xbe, 0xef] },
        ),
        (
            ExecutionOutcome::Halt { gas_used: 5, reason: "OutOfGas".to_string() },
            SimulationError::ExecutionHalted { stage: Stage::Frontrun, reason: "OutOfGas".to_string() },
        ),
    ] {
        let session = start(v2_ingredients(vec![meat(1)]), ether(1), ether(200));
        let session = go_on(session.resume(Response::Outcome(success(1, reserves()))));
        let session = go_on(session.resume(Response::Payload { data: vec![1], value: U256::zero() }));
        let session = go_on(session.resume(Response::AccessList(Vec::new())));
        // A revert counts before the audit does.
        let result = finish(session.resume(Response::Audited(outcome, IsSandwichSafu::NotSafu(vec![0x32]))));
        assert_eq!(result, Err(want));
    }
}

#[test]
fn a_fault_of_the_simulator_ends_the_simulation_at_its_stage() {
    let session = start(v2_ingredients(vec![meat(1)]), ether(1), ether(200));
    let result = finish(session.resume(Response::Fault("rpc down".to_string())));
    assert_eq!(
        result,
        Err(SimulationError::SimulatorFault { stage: Stage::ReserveQuery, fault: Fault::Backend("rpc down".to_string()) })
    );

    let (session, _) = through_v2_frontrun(vec![meat(1)], ether(1), ether(200));
    let result = finish(session.resume(Response::Fault("bad tx".to_string())));
    assert_eq!(
        result,
        Err(SimulationError::SimulatorFault { stage: Stage::Meat, fault: Fault::Backend("bad tx".to_string()) })
    );
}

#[test]
fn an_answer_of_the_wrong_kind_ends_the_simulation() {
    let session = start(v2_ingredients(vec![meat(1)]), ether(1), ether(200));
    let result = finish(session.resume(Response::AccessList(Vec::new())));
    assert_eq!(
        result,
        Err(SimulationError::SimulatorFault { stage: Stage::ReserveQuery, fault: Fault::UnexpectedResponse })
    );
    let (session, _) = through_v2_frontrun(vec![meat(1)], ether(1), ether(200));
    let result = finish(session.resume(Response::Payload { data: Vec::new(), value: U256::zero() }));
    assert_eq!(
        result,
        Err(SimulationError::SimulatorFault { stage: Stage::Meat, fault: Fault::UnexpectedResponse })
    );
}

#[test]
fn a_failed_query_ends_the_simulation() {
    let session = start(v2_ingredients(Vec::new()), ether(1), ether(200));
    let result = finish(session.resume(Response::Outcome(success(1, vec![0u8; 95]))));
    assert_eq!(
        result,
        Err(SimulationError::SimulatorFault { stage: Stage::ReserveQuery, fault: Fault::ShortReturnData })
    );
    let (session, _) = through_v2_frontrun(Vec::new(), ether(1), ether(200));
    let result = finish(session.resume(Response::Outcome(ExecutionOutcome::Revert { gas_used: 1, output: vec![4] })));
    assert_eq!(result, Err(SimulationError::ExecutionReverted { stage: Stage::BalanceQuery, output: vec![4] }));
}

#[test]
fn v3_opportunity() {
    let start_balance = ether(200);
    let session = start(v3_ingredients(vec![meat(1)]), ether(7), start_balance);
    // No reserves are asked for: the payload comes first, for an amount out of zero.
    assert_eq!(session.phase(), RecipePhase::FrontrunPayload);
    assert_eq!(session.request(), Request::FrontrunPayload { amount_in: ether(7), amount_out: U256::zero() });
    let session = go_on(session.resume(Response::Payload { data: vec![0x03], value: U256::from_u64(70) }));
    let session = go_on(session.resume(Response::AccessList(access_list(1))));
    assert_eq!(session.request(), Request::ExecuteAudited(sandwich_call(vec![0x03], U256::from_u64(70), access_list(1))));
    let session = go_on(session.resume(Response::Audited(success(120_000, Vec::new()), IsSandwichSafu::Safu)));

    assert_eq!(session.request(), Request::Execute(meat_tx_env(&meat(1))));
    let session = go_on(session.resume(Response::Outcome(success(1, Vec::new()))));

    assert_eq!(session.request(), Request::Call(balance_query(TOKEN, SANDWICH, SUGAR_DADDY, &block())));
    let session = go_on(session.resume(Response::Outcome(success(1, words(&[U256::from_u64(0x12_3456_7890)])))));

    // No dust is kept and no reserves are asked for.
    assert_eq!(session.phase(), RecipePhase::BackrunPayload);
    assert_eq!(
        session.request(),
        Request::BackrunPayload { amount_in: U256::from_u64(0x12_3456_7800), amount_out: U256::zero() }
    );
    // Whatever value comes with the payload, the backrun sends none.
    let session = go_on(session.resume(Response::Payload { data: vec![0x04], value: U256::from_u64(999) }));
    assert_eq!(session.request(), Request::TraceAccessList(sandwich_call(vec![0x04], U256::zero(), Vec::new())));
    let session = go_on(session.resume(Response::AccessList(Vec::new())));
    let session = go_on(session.resume(Response::Audited(success(130_000, Vec::new()), IsSandwichSafu::Safu)));
    let post = start_balance.checked_add(&ether(1)).unwrap();
    let recipe = finish(session.resume(Response::Outcome(success(1, words(&[post]))))).unwrap();
    assert_eq!(recipe.revenue, ether(1));
    assert_eq!(recipe.filtered_meats, vec![meat(1)]);
    assert_eq!(recipe.frontrun_gas_used, 120_000);
    assert_eq!(recipe.backrun_gas_used, 130_000);
    assert_eq!(recipe.backrun_tx_env.value, U256::zero());
}

#[test]
fn v3_backrun_builds_with_nothing_to_sell() {
    let session = start(v3_ingredients(Vec::new()), ether(1), ether(200));
    let session = go_on(session.resume(Response::Payload { data: vec![1], value: U256::zero() }));
    let session = go_on(session.resume(Response::AccessList(Vec::new())));
    let session = go_on(session.resume(Response::Audited(success(1, Vec::new()), IsSandwichSafu::Safu)));
    assert_eq!(session.phase(), RecipePhase::BackrunBalance);
    let session = go_on(session.resume(Response::Outcome(success(1, words(&[U256::zero()])))));
    assert_eq!(session.request(), Request::BackrunPayload { amount_in: U256::zero(), amount_out: U256::zero() });
}

#[test]
fn v3_takes_the_frontrun_input_in_128_bits() {
    // What the contract takes of this is still 2^128 or more.
    let too_large = U256 { w0: 100_000, w1: 0, w2: 1, w3: 0 };
    let result = create_recipe(v3_ingredients(Vec::new()), block(), too_large, ether(200), SEARCHER, SANDWICH, SUGAR_DADDY);
    assert_eq!(
        result.err(),
        Some(SimulationError::SimulatorFault { stage: Stage::Frontrun, fault: Fault::AmountTooLarge })
    );
    assert!(create_recipe(v2_ingredients(Vec::new()), block(), too_large, ether(200), SEARCHER, SANDWICH, SUGAR_DADDY).is_ok());
    // 2^128 itself is taken as a little less, which fits.
    for fits in [U256::from_u128(u128::MAX), U256 { w0: 0, w1: 0, w2: 1, w3: 0 }] {
        assert!(create_recipe(v3_ingredients(Vec::new()), block(), fits, ether(200), SEARCHER, SANDWICH, SUGAR_DADDY).is_ok());
    }
}

#[test]
fn the_frontrun_input_is_what_the_contract_will_take() {
    let session = start(v3_ingredients(Vec::new()), U256::from_u64(1_234_567), ether(200));
    assert_eq!(
        session.request(),
        Request::FrontrunPayload { amount_in: U256::from_u64(1_200_000), amount_out: U256::zero() }
    );
}
