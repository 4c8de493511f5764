//! Building the recipe of a sandwich at a chosen frontrun input.
//!
//! The sandwich is simulated on a fork with the production contract:
//! frontrun, victims in their order, backrun. Each of the bot's two
//! transactions is run twice, first under the access-list tracer without
//! committing, then with the list attached, committed and audited; only
//! the gas of the second run counts. Victims that do not succeed are left
//! out of the recipe, and nothing else is made of their failure.
//!
//! A [`RecipeSession`] holds where the simulation stands. It says what to
//! run next and takes the answer; the simulator stays with the caller.

use crate::abi::{be_value, WORD};
use crate::calls::{
    amount_out_for, balance_of_call_data, balance_query, get_erc20_balance, get_reserves_call_data,
    plain_call, query_failure, reserves_query, v2_get_amount_out,
};
use crate::codec::{
    five_byte_round_trip, weth_decode_spec, weth_encode_spec, FiveByteMetaData, WethEncoder,
};
use crate::protocol::{copy_tx_env, keep_meats, kept, meat_env, meat_tx_env, Request, Response};
use crate::types::{
    access_list_views, meat_views, Address, BlockInfo, ExecutionOutcome, Fault, IsSandwichSafu,
    MeatView, Pool, RawIngredients, SandwichRecipe, SimulationError, Stage, TxEnv, TxEnvView,
    UniswapV2Pool,
};
use crate::uint::U256;
use vstd::prelude::*;

verus! {

/// What a recipe session is waiting for.
#[derive(Clone, Copy, Debug, PartialEq, Eq, Structural)]
pub enum RecipePhase {
    /// The pool's reserves, to work out what the frontrun buys.
    FrontrunReserves,
    /// Call data and value of the frontrun.
    FrontrunPayload,
    /// The access list of the frontrun.
    FrontrunTrace,
    /// The audited, committed run of the frontrun.
    FrontrunRun,
    /// The committed run of the next victim.
    Meats,
    /// What the contract holds of the intermediary token.
    BackrunBalance,
    /// The pool's reserves, to work out what the backrun buys.
    BackrunReserves,
    /// Call data and value of the backrun.
    BackrunPayload,
    /// The access list of the backrun.
    BackrunTrace,
    /// The audited, committed run of the backrun.
    BackrunRun,
    /// What the contract holds of the base token at the end.
    FinalBalance,
}

impl RecipePhase {
    /// The stage that an error in this phase is reported under.
    pub open spec fn spec_stage(self) -> Stage {
        match self {
            RecipePhase::FrontrunReserves => Stage::ReserveQuery,
            RecipePhase::FrontrunPayload => Stage::Frontrun,
            RecipePhase::FrontrunTrace => Stage::Frontrun,
            RecipePhase::FrontrunRun => Stage::Frontrun,
            RecipePhase::Meats => Stage::Meat,
            RecipePhase::BackrunBalance => Stage::BalanceQuery,
            RecipePhase::BackrunReserves => Stage::ReserveQuery,
            RecipePhase::BackrunPayload => Stage::Backrun,
            RecipePhase::BackrunTrace => Stage::Backrun,
            RecipePhase::BackrunRun => Stage::Backrun,
            RecipePhase::FinalBalance => Stage::BalanceQuery,
        }
    }

    /// The place of this phase in the course of a simulation.
    pub open spec fn rank(self) -> nat {
        match self {
            RecipePhase::FrontrunReserves => 0,
            RecipePhase::FrontrunPayload => 1,
            RecipePhase::FrontrunTrace => 2,
            RecipePhase::FrontrunRun => 3,
            RecipePhase::Meats => 4,
            RecipePhase::BackrunBalance => 5,
            RecipePhase::BackrunReserves => 6,
            RecipePhase::BackrunPayload => 7,
            RecipePhase::BackrunTrace => 8,
            RecipePhase::BackrunRun => 9,
            RecipePhase::FinalBalance => 10,
        }
    }

    pub fn stage(&self) -> (s: Stage)
        ensures
            s == self.spec_stage(),
    {
        match self {
            RecipePhase::FrontrunReserves => Stage::ReserveQuery,
            RecipePhase::FrontrunPayload => Stage::Frontrun,
            RecipePhase::FrontrunTrace => Stage::Frontrun,
            RecipePhase::FrontrunRun => Stage::Frontrun,
            RecipePhase::Meats => Stage::Meat,
            RecipePhase::BackrunBalance => Stage::BalanceQuery,
            RecipePhase::BackrunReserves => Stage::ReserveQuery,
            RecipePhase::BackrunPayload => Stage::Backrun,
            RecipePhase::BackrunTrace => Stage::Backrun,
            RecipePhase::BackrunRun => Stage::Backrun,
            RecipePhase::FinalBalance => Stage::BalanceQuery,
        }
    }
}

/// Where a recipe simulation stands, as a list of values.
pub struct RecipeModel {
    pub phase: RecipePhase,
    pub pool: Pool,
    pub meats: Seq<MeatView>,
    pub start_end_token: Address,
    pub intermediary_token: Address,
    pub block: BlockInfo,
    pub start_balance: nat,
    pub searcher: Address,
    pub sandwich: Address,
    pub query_caller: Address,
    /// What the frontrun pays in, and what it is worked out to buy.
    pub frontrun_in: nat,
    pub frontrun_out: nat,
    pub frontrun_env: TxEnvView,
    pub frontrun_gas: u64,
    /// For each victim run so far, whether it succeeded.
    pub flags: Seq<bool>,
    /// What the backrun pays in, and what it is worked out to buy.
    pub backrun_in: nat,
    pub backrun_out: nat,
    pub backrun_env: TxEnvView,
    pub backrun_gas: u64,
    pub revenue: nat,
}

/// What an answer leads to.
pub enum RecipeNext {
    /// The simulation goes on from this state.
    Continue(RecipeModel),
    /// The simulation ends without a recipe.
    Failed(SimulationError),
    /// The simulation is complete; the recipe is read off this state.
    Finished(RecipeModel),
}

impl RecipeModel {
    /// The state at the start: the frontrun input is what the contract
    /// will really take of `optimal_in`, and a constant-product pool is
    /// first asked for its reserves.
    pub open spec fn start(
        ingredients: RawIngredients,
        block: BlockInfo,
        optimal_in: nat,
        start_balance: nat,
        searcher: Address,
        sandwich: Address,
        query_caller: Address,
    ) -> RecipeModel {
        let zero = U256 { w0: 0, w1: 0, w2: 0, w3: 0 };
        let blank = TxEnvView::plain_call(
            searcher,
            sandwich,
            Seq::empty(),
            zero,
            block.base_fee_per_gas,
        );
        RecipeModel {
            phase: if ingredients.target_pool is UniswapV2 {
                RecipePhase::FrontrunReserves
            } else {
                RecipePhase::FrontrunPayload
            },
            pool: ingredients.target_pool,
            meats: meat_views(ingredients.meats@),
            start_end_token: ingredients.start_end_token,
            intermediary_token: ingredients.intermediary_token,
            block,
            start_balance,
            searcher,
            sandwich,
            query_caller,
            frontrun_in: weth_decode_spec(weth_encode_spec(optimal_in)),
            frontrun_out: 0,
            frontrun_env: blank,
            frontrun_gas: 0,
            flags: Seq::empty(),
            backrun_in: 0,
            backrun_out: 0,
            backrun_env: blank,
            backrun_gas: 0,
            revenue: 0,
        }
    }

    /// Whether the state can come up in a simulation. The victims run so
    /// far fit the phase: none before the frontrun is through, all of them
    /// from the backrun on. And reserves are only ever awaited of a
    /// constant-product pool.
    pub open spec fn wf(self) -> bool {
        &&& match self.phase {
            RecipePhase::FrontrunReserves
            | RecipePhase::FrontrunPayload
            | RecipePhase::FrontrunTrace
            | RecipePhase::FrontrunRun => self.flags.len() == 0,
            RecipePhase::Meats => self.flags.len() < self.meats.len(),
            _ => self.flags.len() == self.meats.len(),
        }
        &&& (self.phase == RecipePhase::FrontrunReserves || self.phase
            == RecipePhase::BackrunReserves) ==> self.pool is UniswapV2
    }

    /// How many answers the simulation still needs at most.
    pub open spec fn remaining(self) -> nat {
        (11 - self.phase.rank() + self.meats.len() - self.flags.len()) as nat
    }

    /// The pool's address and tokens. They are only asked for where the
    /// pool is a constant-product pool.
    pub open spec fn v2_pool(self) -> UniswapV2Pool {
        match self.pool {
            Pool::UniswapV2(p) => p,
            Pool::UniswapV3(p) => UniswapV2Pool {
                address: p.address,
                token_a: p.token_a,
                token_b: p.token_b,
            },
        }
    }

    /// The query for the pool's reserves.
    pub open spec fn reserves_call(self) -> TxEnvView {
        TxEnvView::plain_call(
            self.query_caller,
            self.v2_pool().address,
            get_reserves_call_data(),
            U256 { w0: 0, w1: 0, w2: 0, w3: 0 },
            self.block.base_fee_per_gas,
        )
    }

    /// The query for the contract's balance of `token`.
    pub open spec fn balance_call(self, token: Address) -> TxEnvView {
        TxEnvView::plain_call(
            self.query_caller,
            token,
            balance_of_call_data(self.sandwich),
            U256 { w0: 0, w1: 0, w2: 0, w3: 0 },
            self.block.base_fee_per_gas,
        )
    }

    /// Whether `request` is what the simulation needs done in this state.
    pub open spec fn expects(self, request: Request) -> bool {
        match self.phase {
            RecipePhase::FrontrunReserves | RecipePhase::BackrunReserves => match request {
                Request::Call(env) => env@ == self.reserves_call(),
                _ => false,
            },
            RecipePhase::FrontrunPayload => match request {
                Request::FrontrunPayload { amount_in, amount_out } => amount_in@ == self.frontrun_in
                    && amount_out@ == self.frontrun_out,
                _ => false,
            },
            RecipePhase::FrontrunTrace => match request {
                Request::TraceAccessList(env) => env@ == self.frontrun_env,
                _ => false,
            },
            RecipePhase::FrontrunRun => match request {
                Request::ExecuteAudited(env) => env@ == self.frontrun_env,
                _ => false,
            },
            RecipePhase::Meats => match request {
                Request::Execute(env) => self.flags.len() < self.meats.len() && env@ == meat_env(
                    self.meats[self.flags.len() as int],
                ),
                _ => false,
            },
            RecipePhase::BackrunBalance => match request {
                Request::Call(env) => env@ == self.balance_call(self.intermediary_token),
                _ => false,
            },
            RecipePhase::BackrunPayload => match request {
                Request::BackrunPayload { amount_in, amount_out } => amount_in@ == self.backrun_in
                    && amount_out@ == self.backrun_out,
                _ => false,
            },
            RecipePhase::BackrunTrace => match request {
                Request::TraceAccessList(env) => env@ == self.backrun_env,
                _ => false,
            },
            RecipePhase::BackrunRun => match request {
                Request::ExecuteAudited(env) => env@ == self.backrun_env,
                _ => false,
            },
            RecipePhase::FinalBalance => match request {
                Request::Call(env) => env@ == self.balance_call(self.start_end_token),
                _ => false,
            },
        }
    }

    /// The failure for an answer of the wrong kind.
    pub open spec fn unexpected(self) -> RecipeNext {
        RecipeNext::Failed(
            SimulationError::SimulatorFault {
                stage: self.phase.spec_stage(),
                fault: Fault::UnexpectedResponse,
            },
        )
    }

    /// The phase after the frontrun: the first victim, or the backrun where
    /// there is no victim.
    pub open spec fn phase_after_frontrun(self) -> RecipePhase {
        if self.meats.len() == 0 {
            RecipePhase::BackrunBalance
        } else {
            RecipePhase::Meats
        }
    }

    /// After the reserves came back: the amount that the pending swap buys
    /// is worked out from them.
    pub open spec fn after_reserves(self, outcome: ExecutionOutcome) -> RecipeNext {
        let is_frontrun = self.phase == RecipePhase::FrontrunReserves;
        match query_failure(Stage::ReserveQuery, outcome, 3) {
            Some(e) => RecipeNext::Failed(e),
            None => {
                let output = match outcome {
                    ExecutionOutcome::Success { output, .. } => output@,
                    _ => Seq::empty(),
                };
                let amount_in = if is_frontrun {
                    self.frontrun_in
                } else {
                    self.backrun_in
                };
                let amount_out = amount_out_for(
                    amount_in,
                    self.v2_pool(),
                    self.start_end_token,
                    is_frontrun,
                    output,
                );
                if is_frontrun {
                    RecipeNext::Continue(
                        RecipeModel {
                            phase: RecipePhase::FrontrunPayload,
                            frontrun_out: amount_out,
                            ..self
                        },
                    )
                } else {
                    RecipeNext::Continue(
                        RecipeModel {
                            phase: RecipePhase::BackrunPayload,
                            backrun_out: amount_out,
                            ..self
                        },
                    )
                }
            },
        }
    }

    /// After call data and value came back: the transaction of the bot is
    /// set up, from the searcher to the contract at the block's base fee.
    /// The backrun on a concentrated-liquidity pool sends no value.
    pub open spec fn after_payload(self, data: Seq<u8>, value: U256) -> RecipeNext {
        if self.phase == RecipePhase::FrontrunPayload {
            RecipeNext::Continue(
                RecipeModel {
                    phase: RecipePhase::FrontrunTrace,
                    frontrun_env: TxEnvView::plain_call(
                        self.searcher,
                        self.sandwich,
                        data,
                        value,
                        self.block.base_fee_per_gas,
                    ),
                    ..self
                },
            )
        } else {
            RecipeNext::Continue(
                RecipeModel {
                    phase: RecipePhase::BackrunTrace,
                    backrun_env: TxEnvView::plain_call(
                        self.searcher,
                        self.sandwich,
                        data,
                        if self.pool is UniswapV2 {
                            value
                        } else {
                            U256 { w0: 0, w1: 0, w2: 0, w3: 0 }
                        },
                        self.block.base_fee_per_gas,
                    ),
                    ..self
                },
            )
        }
    }

    /// After the access list came back: it is attached to the transaction.
    pub open spec fn after_trace(self, list: Seq<crate::types::AccessListItemView>) -> RecipeNext {
        if self.phase == RecipePhase::FrontrunTrace {
            RecipeNext::Continue(
                RecipeModel {
                    phase: RecipePhase::FrontrunRun,
                    frontrun_env: self.frontrun_env.with_access_list(list),
                    ..self
                },
            )
        } else {
            RecipeNext::Continue(
                RecipeModel {
                    phase: RecipePhase::BackrunRun,
                    backrun_env: self.backrun_env.with_access_list(list),
                    ..self
                },
            )
        }
    }

    /// After one of the bot's transactions ran: a revert, a halt or a
    /// suspicious opcode ends the simulation; otherwise its gas is noted.
    pub open spec fn after_run(self, outcome: ExecutionOutcome, verdict: IsSandwichSafu) -> RecipeNext {
        let stage = self.phase.spec_stage();
        match outcome {
            ExecutionOutcome::Revert { output, .. } => RecipeNext::Failed(
                SimulationError::ExecutionReverted { stage, output },
            ),
            ExecutionOutcome::Halt { reason, .. } => RecipeNext::Failed(
                SimulationError::ExecutionHalted { stage, reason },
            ),
            ExecutionOutcome::Success { gas_used, .. } => match verdict {
                IsSandwichSafu::NotSafu(opcodes) => RecipeNext::Failed(
                    SimulationError::NotSafu { stage, opcodes },
                ),
                IsSandwichSafu::Safu => if self.phase == RecipePhase::FrontrunRun {
                    RecipeNext::Continue(
                        RecipeModel {
                            phase: self.phase_after_frontrun(),
                            frontrun_gas: gas_used,
                            ..self
                        },
                    )
                } else {
                    RecipeNext::Continue(
                        RecipeModel {
                            phase: RecipePhase::FinalBalance,
                            backrun_gas: gas_used,
                            ..self
                        },
                    )
                },
            },
        }
    }

    /// After a victim ran: whether it succeeded is noted, and nothing else.
    pub open spec fn after_meat(self, outcome: ExecutionOutcome) -> RecipeNext {
        let flags = self.flags.push(outcome is Success);
        RecipeNext::Continue(
            RecipeModel {
                phase: if flags.len() >= self.meats.len() {
                    RecipePhase::BackrunBalance
                } else {
                    RecipePhase::Meats
                },
                flags,
                ..self
            },
        )
    }

    /// After the contract's balance of the intermediary token came back:
    /// the backrun pays in what the five-byte encoding keeps of it, on a
    /// constant-product pool one unit of the mantissa less.
    pub open spec fn after_backrun_balance(self, outcome: ExecutionOutcome) -> RecipeNext {
        match query_failure(Stage::BalanceQuery, outcome, 1) {
            Some(e) => RecipeNext::Failed(e),
            None => {
                let output = match outcome {
                    ExecutionOutcome::Success { output, .. } => output@,
                    _ => Seq::empty(),
                };
                let raw = be_value(output.subrange(0, WORD as int));
                if self.pool is UniswapV2 {
                    RecipeNext::Continue(
                        RecipeModel {
                            phase: RecipePhase::BackrunReserves,
                            backrun_in: five_byte_round_trip(raw, 1, 1),
                            ..self
                        },
                    )
                } else {
                    RecipeNext::Continue(
                        RecipeModel {
                            phase: RecipePhase::BackrunPayload,
                            backrun_in: five_byte_round_trip(raw, 1, 0),
                            ..self
                        },
                    )
                }
            },
        }
    }

    /// After the contract's final balance of the base token came back: the
    /// revenue is what it gained over its starting balance, and zero where
    /// it lost.
    pub open spec fn after_final_balance(self, outcome: ExecutionOutcome) -> RecipeNext {
        match query_failure(Stage::BalanceQuery, outcome, 1) {
            Some(e) => RecipeNext::Failed(e),
            None => {
                let output = match outcome {
                    ExecutionOutcome::Success { output, .. } => output@,
                    _ => Seq::empty(),
                };
                let post = be_value(output.subrange(0, WORD as int));
                RecipeNext::Finished(
                    RecipeModel {
                        revenue: if post >= self.start_balance {
                            (post - self.start_balance) as nat
                        } else {
                            0
                        },
                        ..self
                    },
                )
            },
        }
    }

    /// What the answer to the pending request leads to. A fault of the
    /// simulator ends the simulation in every phase, and so does an answer
    /// of a kind that the phase does not wait for.
    pub open spec fn next(self, response: Response) -> RecipeNext {
        match response {
            Response::Fault(message) => RecipeNext::Failed(
                SimulationError::SimulatorFault {
                    stage: self.phase.spec_stage(),
                    fault: Fault::Backend(message),
                },
            ),
            Response::Outcome(outcome) => match self.phase {
                RecipePhase::FrontrunReserves | RecipePhase::BackrunReserves => self.after_reserves(
                    outcome,
                ),
                RecipePhase::Meats => self.after_meat(outcome),
                RecipePhase::BackrunBalance => self.after_backrun_balance(outcome),
                RecipePhase::FinalBalance => self.after_final_balance(outcome),
                _ => self.unexpected(),
            },
            Response::Payload { data, value } => match self.phase {
                RecipePhase::FrontrunPayload | RecipePhase::BackrunPayload => self.after_payload(
                    data@,
                    value,
                ),
                _ => self.unexpected(),
            },
            Response::AccessList(list) => match self.phase {
                RecipePhase::FrontrunTrace | RecipePhase::BackrunTrace => self.after_trace(
                    access_list_views(list@),
                ),
                _ => self.unexpected(),
            },
            Response::Audited(outcome, verdict) => match self.phase {
                RecipePhase::FrontrunRun | RecipePhase::BackrunRun => self.after_run(
                    outcome,
                    verdict,
                ),
                _ => self.unexpected(),
            },
        }
    }

    /// Whether `recipe` is the recipe of this, finished, simulation: the
    /// two transactions as they were run, with the gas of their audited
    /// runs, the victims that succeeded, the revenue and the block.
    pub open spec fn yields(self, recipe: SandwichRecipe) -> bool {
        &&& recipe.frontrun_tx_env@ == self.frontrun_env
        &&& recipe.frontrun_gas_used == self.frontrun_gas
        &&& meat_views(recipe.filtered_meats@) == kept(self.meats, self.flags)
        &&& recipe.backrun_tx_env@ == self.backrun_env
        &&& recipe.backrun_gas_used == self.backrun_gas
        &&& recipe.revenue@ == self.revenue
        &&& recipe.block == self.block
    }
}


/// A recipe simulation in progress.
pub struct RecipeSession {
    phase: RecipePhase,
    ingredients: RawIngredients,
    block: BlockInfo,
    start_balance: U256,
    searcher: Address,
    sandwich: Address,
    query_caller: Address,
    frontrun_in: U256,
    frontrun_out: U256,
    frontrun_env: TxEnv,
    frontrun_gas: u64,
    flags: Vec<bool>,
    backrun_in: U256,
    backrun_out: U256,
    backrun_env: TxEnv,
    backrun_gas: u64,
}

/// What resuming a session leads to: the session to go on with, or the
/// end of the simulation.
pub enum RecipeStep {
    Next(RecipeSession),
    Done(Result<SandwichRecipe, SimulationError>),
}

impl View for RecipeSession {
    type V = RecipeModel;

    closed spec fn view(&self) -> RecipeModel {
        RecipeModel {
            phase: self.phase,
            pool: self.ingredients.target_pool,
            meats: meat_views(self.ingredients.meats@),
            start_end_token: self.ingredients.start_end_token,
            intermediary_token: self.ingredients.intermediary_token,
            block: self.block,
            start_balance: self.start_balance@,
            searcher: self.searcher,
            sandwich: self.sandwich,
            query_caller: self.query_caller,
            frontrun_in: self.frontrun_in@,
            frontrun_out: self.frontrun_out@,
            frontrun_env: self.frontrun_env@,
            frontrun_gas: self.frontrun_gas,
            flags: self.flags@,
            backrun_in: self.backrun_in@,
            backrun_out: self.backrun_out@,
            backrun_env: self.backrun_env@,
            backrun_gas: self.backrun_gas,
            revenue: 0,
        }
    }
}

/// Starts the simulation of a sandwich on the ingredients' pool that pays
/// in `optimal_in`, in the block `next_block`. The searcher sends the
/// bot's transactions to the contract at `sandwich_address`, which held
/// `sandwich_start_bal` of the base token before; queries are made in the
/// name of `query_caller`.
///
/// A concentrated-liquidity pool takes the frontrun input in 128 bits: a
/// larger one is refused here.
pub fn create_recipe(
    ingredients: RawIngredients,
    next_block: BlockInfo,
    optimal_in: U256,
    sandwich_start_bal: U256,
    searcher: Address,
    sandwich_address: Address,
    query_caller: Address,
) -> (r: Result<RecipeSession, SimulationError>)
    ensures
        match r {
            Ok(session) => {
                &&& session@ == RecipeModel::start(
                    ingredients,
                    next_block,
                    optimal_in@,
                    sandwich_start_bal@,
                    searcher,
                    sandwich_address,
                    query_caller,
                )
                &&& (ingredients.target_pool is UniswapV2 || session@.frontrun_in <= u128::MAX)
                &&& session@.wf()
            },
            Err(e) => {
                &&& ingredients.target_pool is UniswapV3
                &&& weth_decode_spec(weth_encode_spec(optimal_in@)) > u128::MAX
                &&& e == SimulationError::SimulatorFault {
                    stage: Stage::Frontrun,
                    fault: Fault::AmountTooLarge,
                }
            },
        },
{
    let frontrun_in = WethEncoder::round_trip(&optimal_in);
    let phase = match ingredients.target_pool {
        Pool::UniswapV2(_) => RecipePhase::FrontrunReserves,
        Pool::UniswapV3(_) => {
            if frontrun_in.to_u128().is_none() {
                return Err(
                    SimulationError::SimulatorFault {
                        stage: Stage::Frontrun,
                        fault: Fault::AmountTooLarge,
                    },
                );
            }
            RecipePhase::FrontrunPayload
        },
    };
    let frontrun_env = plain_call(
        searcher,
        sandwich_address,
        Vec::new(),
        U256::zero(),
        next_block.base_fee_per_gas,
    );
    let backrun_env = plain_call(
        searcher,
        sandwich_address,
        Vec::new(),
        U256::zero(),
        next_block.base_fee_per_gas,
    );
    let session = RecipeSession {
        phase,
        ingredients,
        block: next_block,
        start_balance: sandwich_start_bal,
        searcher,
        sandwich: sandwich_address,
        query_caller,
        frontrun_in,
        frontrun_out: U256::zero(),
        frontrun_env,
        frontrun_gas: 0,
        flags: Vec::new(),
        backrun_in: U256::zero(),
        backrun_out: U256::zero(),
        backrun_env,
        backrun_gas: 0,
    };
    proof {
        assert(session@.flags =~= Seq::empty());
        assert(session@.frontrun_env.data =~= Seq::empty());
        assert(session@.backrun_env.data =~= Seq::empty());
    }
    Ok(session)
}

impl RecipeSession {
    /// Victims are run one after the other, and the backrun only after all
    /// of them.
    #[verifier::type_invariant]
    spec fn inv(self) -> bool {
        &&& self.flags@.len() <= self.ingredients.meats@.len()
        &&& self.phase == RecipePhase::Meats ==> self.flags@.len() < self.ingredients.meats@.len()
        &&& match self.phase {
            RecipePhase::FrontrunReserves
            | RecipePhase::FrontrunPayload
            | RecipePhase::FrontrunTrace
            | RecipePhase::FrontrunRun => self.flags@.len() == 0,
            RecipePhase::Meats => true,
            _ => self.flags@.len() == self.ingredients.meats@.len(),
        }
        &&& (self.phase == RecipePhase::FrontrunReserves || self.phase
            == RecipePhase::BackrunReserves) ==> self.ingredients.target_pool is UniswapV2
    }

    /// What the simulation is waiting for.
    pub fn phase(&self) -> (phase: RecipePhase)
        ensures
            phase == self@.phase,
    {
        self.phase
    }

    /// The pool's address and tokens.
    fn v2_pool(&self) -> (pool: UniswapV2Pool)
        ensures
            pool == self@.v2_pool(),
    {
        match self.ingredients.target_pool {
            Pool::UniswapV2(p) => p,
            Pool::UniswapV3(p) => UniswapV2Pool {
                address: p.address,
                token_a: p.token_a,
                token_b: p.token_b,
            },
        }
    }

    /// What the simulator is to do next.
    pub fn request(&self) -> (request: Request)
        ensures
            self@.expects(request),
    {
        proof {
            use_type_invariant(self);
        }
        match self.phase {
            RecipePhase::FrontrunReserves | RecipePhase::BackrunReserves => Request::Call(
                reserves_query(&self.v2_pool(), self.query_caller, &self.block),
            ),
            RecipePhase::FrontrunPayload => Request::FrontrunPayload {
                amount_in: self.frontrun_in,
                amount_out: self.frontrun_out,
            },
            RecipePhase::FrontrunTrace => Request::TraceAccessList(copy_tx_env(&self.frontrun_env)),
            RecipePhase::FrontrunRun => Request::ExecuteAudited(copy_tx_env(&self.frontrun_env)),
            RecipePhase::Meats => Request::Execute(
                meat_tx_env(&self.ingredients.meats[self.flags.len()]),
            ),
            RecipePhase::BackrunBalance => Request::Call(
                balance_query(
                    self.ingredients.intermediary_token,
                    self.sandwich,
                    self.query_caller,
                    &self.block,
                ),
            ),
            RecipePhase::BackrunPayload => Request::BackrunPayload {
                amount_in: self.backrun_in,
                amount_out: self.backrun_out,
            },
            RecipePhase::BackrunTrace => Request::TraceAccessList(copy_tx_env(&self.backrun_env)),
            RecipePhase::BackrunRun => Request::ExecuteAudited(copy_tx_env(&self.backrun_env)),
            RecipePhase::FinalBalance => Request::Call(
                balance_query(
                    self.ingredients.start_end_token,
                    self.sandwich,
                    self.query_caller,
                    &self.block,
                ),
            ),
        }
    }

    /// The end of the simulation on an answer of the wrong kind.
    fn refuse(self) -> (step: RecipeStep)
        ensures
            step matches RecipeStep::Done(Err(e)) && self@.unexpected() == RecipeNext::Failed(e),
    {
        RecipeStep::Done(
            Err(
                SimulationError::SimulatorFault {
                    stage: self.phase.stage(),
                    fault: Fault::UnexpectedResponse,
                },
            ),
        )
    }

    /// Takes the answer to the pending request and goes on, or ends the
    /// simulation with the recipe or with the reason why there is none.
    pub fn resume(self, response: Response) -> (step: RecipeStep)
        ensures
            match self@.next(response) {
                RecipeNext::Continue(m) => step matches RecipeStep::Next(s) && s@ == m,
                RecipeNext::Failed(e) => step matches RecipeStep::Done(Err(x)) && x == e,
                RecipeNext::Finished(m) => step matches RecipeStep::Done(Ok(recipe)) && m.yields(
                    recipe,
                ),
            },
            self@.wf(),
    {
        proof {
            use_type_invariant(&self);
        }
        match response {
            Response::Fault(message) => RecipeStep::Done(
                Err(
                    SimulationError::SimulatorFault {
                        stage: self.phase.stage(),
                        fault: Fault::Backend(message),
                    },
                ),
            ),
            Response::Outcome(outcome) => match self.phase {
                RecipePhase::FrontrunReserves | RecipePhase::BackrunReserves => self.take_reserves(
                    outcome,
                ),
                RecipePhase::Meats => self.take_meat(outcome),
                RecipePhase::BackrunBalance => self.take_backrun_balance(outcome),
                RecipePhase::FinalBalance => self.take_final_balance(outcome),
                _ => self.refuse(),
            },
            Response::Payload { data, value } => match self.phase {
                RecipePhase::FrontrunPayload | RecipePhase::BackrunPayload => self.take_payload(
                    data,
                    value,
                ),
                _ => self.refuse(),
            },
            Response::AccessList(list) => match self.phase {
                RecipePhase::FrontrunTrace | RecipePhase::BackrunTrace => self.take_trace(list),
                _ => self.refuse(),
            },
            Response::Audited(outcome, verdict) => match self.phase {
                RecipePhase::FrontrunRun | RecipePhase::BackrunRun => self.take_run(
                    outcome,
                    verdict,
                ),
                _ => self.refuse(),
            },
        }
    }

    fn take_reserves(self, outcome: ExecutionOutcome) -> (step: RecipeStep)
        requires
            self@.phase == RecipePhase::FrontrunReserves || self@.phase
                == RecipePhase::BackrunReserves,
        ensures
            match self@.after_reserves(outcome) {
                RecipeNext::Continue(m) => step matches RecipeStep::Next(s) && s@ == m,
                RecipeNext::Failed(e) => step matches RecipeStep::Done(Err(x)) && x == e,
                RecipeNext::Finished(m) => false,
            },
    {
        proof {
            use_type_invariant(&self);
        }
        let is_frontrun = self.phase == RecipePhase::FrontrunReserves;
        let amount_in = if is_frontrun {
            self.frontrun_in
        } else {
            self.backrun_in
        };
        let pool = self.v2_pool();
        match v2_get_amount_out(
            amount_in,
            &pool,
            is_frontrun,
            self.ingredients.start_end_token,
            outcome,
        ) {
            Err(e) => RecipeStep::Done(Err(e)),
            Ok(amount_out) => {
                if is_frontrun {
                    RecipeStep::Next(
                        RecipeSession {
                            phase: RecipePhase::FrontrunPayload,
                            frontrun_out: amount_out,
                            ..self
                        },
                    )
                } else {
                    RecipeStep::Next(
                        RecipeSession {
                            phase: RecipePhase::BackrunPayload,
                            backrun_out: amount_out,
                            ..self
                        },
                    )
                }
            },
        }
    }

    fn take_payload(self, data: Vec<u8>, value: U256) -> (step: RecipeStep)
        requires
            self@.phase == RecipePhase::FrontrunPayload || self@.phase
                == RecipePhase::BackrunPayload,
        ensures
            match self@.after_payload(data@, value) {
                RecipeNext::Continue(m) => step matches RecipeStep::Next(s) && s@ == m,
                _ => false,
            },
    {
        proof {
            use_type_invariant(&self);
        }
        if self.phase == RecipePhase::FrontrunPayload {
            let env = plain_call(
                self.searcher,
                self.sandwich,
                data,
                value,
                self.block.base_fee_per_gas,
            );
            RecipeStep::Next(
                RecipeSession { phase: RecipePhase::FrontrunTrace, frontrun_env: env, ..self },
            )
        } else {
            let sent = match self.ingredients.target_pool {
                Pool::UniswapV2(_) => value,
                Pool::UniswapV3(_) => U256::zero(),
            };
            let env = plain_call(
                self.searcher,
                self.sandwich,
                data,
                sent,
                self.block.base_fee_per_gas,
            );
            RecipeStep::Next(
                RecipeSession { phase: RecipePhase::BackrunTrace, backrun_env: env, ..self },
            )
        }
    }

    fn take_trace(self, list: Vec<crate::types::AccessListItem>) -> (step: RecipeStep)
        requires
            self@.phase == RecipePhase::FrontrunTrace || self@.phase == RecipePhase::BackrunTrace,
        ensures
            match self@.after_trace(access_list_views(list@)) {
                RecipeNext::Continue(m) => step matches RecipeStep::Next(s) && s@ == m,
                _ => false,
            },
    {
        proof {
            use_type_invariant(&self);
        }
        if self.phase == RecipePhase::FrontrunTrace {
            let env = attach_access_list(&self.frontrun_env, list);
            RecipeStep::Next(
                RecipeSession { phase: RecipePhase::FrontrunRun, frontrun_env: env, ..self },
            )
        } else {
            let env = attach_access_list(&self.backrun_env, list);
            RecipeStep::Next(
                RecipeSession { phase: RecipePhase::BackrunRun, backrun_env: env, ..self },
            )
        }
    }

    fn take_run(self, outcome: ExecutionOutcome, verdict: IsSandwichSafu) -> (step: RecipeStep)
        requires
            self@.phase == RecipePhase::FrontrunRun || self@.phase == RecipePhase::BackrunRun,
        ensures
            match self@.after_run(outcome, verdict) {
                RecipeNext::Continue(m) => step matches RecipeStep::Next(s) && s@ == m,
                RecipeNext::Failed(e) => step matches RecipeStep::Done(Err(x)) && x == e,
                RecipeNext::Finished(m) => false,
            },
    {
        proof {
            use_type_invariant(&self);
        }
        let stage = self.phase.stage();
        match outcome {
            ExecutionOutcome::Revert { output, .. } => RecipeStep::Done(
                Err(SimulationError::ExecutionReverted { stage, output }),
            ),
            ExecutionOutcome::Halt { reason, .. } => RecipeStep::Done(
                Err(SimulationError::ExecutionHalted { stage, reason }),
            ),
            ExecutionOutcome::Success { gas_used, .. } => match verdict {
                IsSandwichSafu::NotSafu(opcodes) => RecipeStep::Done(
                    Err(SimulationError::NotSafu { stage, opcodes }),
                ),
                IsSandwichSafu::Safu => {
                    if self.phase == RecipePhase::FrontrunRun {
                        let phase = if self.ingredients.meats.len() == 0 {
                            RecipePhase::BackrunBalance
                        } else {
                            RecipePhase::Meats
                        };
                        RecipeStep::Next(RecipeSession { phase, frontrun_gas: gas_used, ..self })
                    } else {
                        RecipeStep::Next(
                            RecipeSession {
                                phase: RecipePhase::FinalBalance,
                                backrun_gas: gas_used,
                                ..self
                            },
                        )
                    }
                },
            },
        }
    }

    fn take_meat(self, outcome: ExecutionOutcome) -> (step: RecipeStep)
        requires
            self@.phase == RecipePhase::Meats,
        ensures
            match self@.after_meat(outcome) {
                RecipeNext::Continue(m) => step matches RecipeStep::Next(s) && s@ == m,
                _ => false,
            },
    {
        proof {
            use_type_invariant(&self);
        }
        let mut flags = self.flags;
        flags.push(outcome.is_success());
        let phase = if flags.len() >= self.ingredients.meats.len() {
            RecipePhase::BackrunBalance
        } else {
            RecipePhase::Meats
        };
        RecipeStep::Next(
            RecipeSession {
                phase,
                ingredients: self.ingredients,
                block: self.block,
                start_balance: self.start_balance,
                searcher: self.searcher,
                sandwich: self.sandwich,
                query_caller: self.query_caller,
                frontrun_in: self.frontrun_in,
                frontrun_out: self.frontrun_out,
                frontrun_env: self.frontrun_env,
                frontrun_gas: self.frontrun_gas,
                flags,
                backrun_in: self.backrun_in,
                backrun_out: self.backrun_out,
                backrun_env: self.backrun_env,
                backrun_gas: self.backrun_gas,
            },
        )
    }

    fn take_backrun_balance(self, outcome: ExecutionOutcome) -> (step: RecipeStep)
        requires
            self@.phase == RecipePhase::BackrunBalance,
        ensures
            match self@.after_backrun_balance(outcome) {
                RecipeNext::Continue(m) => step matches RecipeStep::Next(s) && s@ == m,
                RecipeNext::Failed(e) => step matches RecipeStep::Done(Err(x)) && x == e,
                RecipeNext::Finished(m) => false,
            },
    {
        proof {
            use_type_invariant(&self);
        }
        match get_erc20_balance(outcome) {
            Err(e) => RecipeStep::Done(Err(e)),
            Ok(raw) => match self.ingredients.target_pool {
                Pool::UniswapV2(_) => RecipeStep::Next(
                    RecipeSession {
                        phase: RecipePhase::BackrunReserves,
                        backrun_in: FiveByteMetaData::round_trip(&raw, 1, true),
                        ..self
                    },
                ),
                Pool::UniswapV3(_) => RecipeStep::Next(
                    RecipeSession {
                        phase: RecipePhase::BackrunPayload,
                        backrun_in: FiveByteMetaData::round_trip(&raw, 1, false),
                        ..self
                    },
                ),
            },
        }
    }

    fn take_final_balance(self, outcome: ExecutionOutcome) -> (step: RecipeStep)
        requires
            self@.phase == RecipePhase::FinalBalance,
        ensures
            match self@.after_final_balance(outcome) {
                RecipeNext::Finished(m) => step matches RecipeStep::Done(Ok(recipe)) && m.yields(
                    recipe,
                ),
                RecipeNext::Failed(e) => step matches RecipeStep::Done(Err(x)) && x == e,
                RecipeNext::Continue(m) => false,
            },
    {
        proof {
            use_type_invariant(&self);
        }
        match get_erc20_balance(outcome) {
            Err(e) => RecipeStep::Done(Err(e)),
            Ok(post) => {
                let revenue = post.saturating_sub(&self.start_balance);
                let filtered_meats = keep_meats(&self.ingredients.meats, &self.flags);
                RecipeStep::Done(
                    Ok(
                        SandwichRecipe {
                            frontrun_tx_env: self.frontrun_env,
                            frontrun_gas_used: self.frontrun_gas,
                            filtered_meats,
                            backrun_tx_env: self.backrun_env,
                            backrun_gas_used: self.backrun_gas,
                            revenue,
                            block: self.block,
                        },
                    ),
                )
            },
        }
    }
}

/// The transaction with `list` as its access list.
fn attach_access_list(env: &TxEnv, list: Vec<crate::types::AccessListItem>) -> (with: TxEnv)
    ensures
        with@ == env@.with_access_list(access_list_views(list@)),
{
    TxEnv {
        caller: env.caller,
        gas_limit: env.gas_limit,
        gas_price: env.gas_price,
        gas_priority_fee: env.gas_priority_fee,
        transact_to: env.transact_to,
        value: env.value,
        data: crate::types::copy_bytes(&env.data),
        chain_id: env.chain_id,
        nonce: env.nonce,
        access_list: list,
    }
}


/// A simulation runs in sequence: every answer moves it on to a later
/// phase, except that each victim in turn takes one answer of its own. The
/// victims are run in the order given, none twice and none skipped, and
/// what is simulated stays what it was. So a simulation ends after at most
/// eleven answers and one more for each victim.
pub proof fn lemma_recipe_in_sequence(m: RecipeModel, response: Response)
    requires
        m.wf(),
    ensures
        match m.next(response) {
            RecipeNext::Continue(n) => {
                &&& n.wf()
                &&& n.remaining() < m.remaining()
                &&& n.phase.rank() >= m.phase.rank()
                &&& n.meats == m.meats
                &&& n.pool == m.pool
                &&& n.block == m.block
                &&& n.frontrun_in == m.frontrun_in
                &&& if m.phase == RecipePhase::Meats {
                    n.flags == m.flags.push(response matches Response::Outcome(o) && o is Success)
                } else {
                    n.flags == m.flags && n.phase.rank() > m.phase.rank()
                }
            },
            RecipeNext::Failed(_) => true,
            RecipeNext::Finished(n) => {
                &&& m.phase == RecipePhase::FinalBalance
                &&& n.flags == m.flags
                &&& n.flags.len() == n.meats.len()
            },
        },
{
}

/// Without victims the backrun follows the frontrun at once.
pub proof fn lemma_no_meats_back_to_back(m: RecipeModel, outcome: ExecutionOutcome)
    requires
        m.phase == RecipePhase::FrontrunRun,
        m.meats.len() == 0,
        outcome is Success,
    ensures
        m.next(Response::Audited(outcome, IsSandwichSafu::Safu)) matches RecipeNext::Continue(n)
            && n.phase == RecipePhase::BackrunBalance,
{
}

/// On a concentrated-liquidity pool no reserves are asked for, and the
/// payloads are built for an amount out of zero.
pub proof fn lemma_v3_needs_no_reserves(m: RecipeModel, response: Response)
    requires
        m.wf(),
        m.pool is UniswapV3,
        m.frontrun_out == 0,
        m.backrun_out == 0,
    ensures
        m.phase != RecipePhase::FrontrunReserves,
        m.phase != RecipePhase::BackrunReserves,
        match m.next(response) {
            RecipeNext::Continue(n) => {
                &&& n.wf()
                &&& n.pool is UniswapV3
                &&& n.frontrun_out == 0
                &&& n.backrun_out == 0
            },
            _ => true,
        },
{
}

/// The revenue of a recipe is what the contract gained, and nothing where
/// it lost: it is never more than the contract's final balance.
pub proof fn lemma_revenue_saturates(m: RecipeModel, outcome: ExecutionOutcome)
    requires
        m.phase == RecipePhase::FinalBalance,
    ensures
        match m.next(Response::Outcome(outcome)) {
            RecipeNext::Finished(n) => {
                &&& outcome matches ExecutionOutcome::Success { output, .. }
                &&& n.revenue + m.start_balance == vstd::math::max(
                    be_value(output@.subrange(0, WORD as int)) as int,
                    m.start_balance as int,
                )
            },
            RecipeNext::Failed(_) => query_failure(Stage::BalanceQuery, outcome, 1) is Some,
            RecipeNext::Continue(_) => false,
        },
{
}

} // verus!
