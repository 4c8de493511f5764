//! The revenue of a sandwich at one frontrun input, as the search needs it.
//!
//! The sandwich is simulated on a fresh fork through a small helper router,
//! which does a whole swap in one call and reports what came out and what
//! it holds afterwards. Speed counts here, not fidelity: victims that fail
//! are passed over in silence, and nothing is audited.
//!
//! A [`RevenueSession`] says what to run next and takes the answer, like a
//! recipe session does.

use crate::abi::{be_value, word_at, WORD};
use crate::calls::{plain_call, query_failure, query_output};
use crate::fork::RouterSetup;
use crate::protocol::{copy_tx_env, meat_env, meat_tx_env, Request, Response};
use crate::types::{
    meat_views, BlockInfo, ExecutionOutcome, Fault, MeatView, Pool, RawIngredients,
    SimulationError, Stage, TxEnv, TxEnvView,
};
use crate::uint::U256;
use vstd::prelude::*;

verus! {

/// What a revenue session is waiting for.
#[derive(Clone, Copy, Debug, PartialEq, Eq, Structural)]
pub enum RevenuePhase {
    /// The router call data of the frontrun.
    FrontrunData,
    /// The committed run of the frontrun.
    FrontrunRun,
    /// The committed run of the next victim.
    Meats,
    /// The router call data of the backrun.
    BackrunData,
    /// The committed run of the backrun.
    BackrunRun,
}

impl RevenuePhase {
    /// The stage that an error in this phase is reported under.
    pub open spec fn spec_stage(self) -> Stage {
        match self {
            RevenuePhase::FrontrunData => Stage::Frontrun,
            RevenuePhase::FrontrunRun => Stage::Frontrun,
            RevenuePhase::Meats => Stage::Meat,
            RevenuePhase::BackrunData => Stage::Backrun,
            RevenuePhase::BackrunRun => Stage::Backrun,
        }
    }

    /// The place of this phase in the course of a simulation.
    pub open spec fn rank(self) -> nat {
        match self {
            RevenuePhase::FrontrunData => 0,
            RevenuePhase::FrontrunRun => 1,
            RevenuePhase::Meats => 2,
            RevenuePhase::BackrunData => 3,
            RevenuePhase::BackrunRun => 4,
        }
    }

    pub fn stage(&self) -> (s: Stage)
        ensures
            s == self.spec_stage(),
    {
        match self {
            RevenuePhase::FrontrunData => Stage::Frontrun,
            RevenuePhase::FrontrunRun => Stage::Frontrun,
            RevenuePhase::Meats => Stage::Meat,
            RevenuePhase::BackrunData => Stage::Backrun,
            RevenuePhase::BackrunRun => Stage::Backrun,
        }
    }
}

/// Where a revenue simulation stands, as a list of values.
pub struct RevenueModel {
    pub phase: RevenuePhase,
    pub pool: Pool,
    pub meats: Seq<MeatView>,
    pub block: BlockInfo,
    pub setup: RouterSetup,
    pub frontrun_in: nat,
    /// How many victims have been run.
    pub meats_run: nat,
    pub backrun_in: nat,
    /// The router call that is set up, where one is.
    pub router_call: TxEnvView,
}

/// What an answer leads to.
pub enum RevenueNext {
    /// The simulation goes on from this state.
    Continue(RevenueModel),
    /// The simulation ends without a figure.
    Failed(SimulationError),
    /// The simulation is complete, with this revenue.
    Finished(nat),
}

impl RevenueModel {
    /// A call of the router by its controller, at the block's base fee.
    pub open spec fn call_of(self, data: Seq<u8>) -> TxEnvView {
        TxEnvView::plain_call(
            self.setup.controller,
            self.setup.router,
            data,
            U256 { w0: 0, w1: 0, w2: 0, w3: 0 },
            self.block.base_fee_per_gas,
        )
    }

    /// The state at the start.
    pub open spec fn start(
        frontrun_in: nat,
        block: BlockInfo,
        ingredients: RawIngredients,
        setup: RouterSetup,
    ) -> RevenueModel {
        RevenueModel {
            phase: RevenuePhase::FrontrunData,
            pool: ingredients.target_pool,
            meats: meat_views(ingredients.meats@),
            block,
            setup,
            frontrun_in,
            meats_run: 0,
            backrun_in: 0,
            router_call: TxEnvView::plain_call(
                setup.controller,
                setup.router,
                Seq::empty(),
                U256 { w0: 0, w1: 0, w2: 0, w3: 0 },
                block.base_fee_per_gas,
            ),
        }
    }

    /// Whether the victims run so far fit the phase: none before the
    /// frontrun is through, all of them from the backrun on.
    pub open spec fn wf(self) -> bool {
        match self.phase {
            RevenuePhase::FrontrunData | RevenuePhase::FrontrunRun => self.meats_run == 0,
            RevenuePhase::Meats => self.meats_run < self.meats.len(),
            _ => self.meats_run == self.meats.len(),
        }
    }

    /// How many answers the simulation still needs at most.
    pub open spec fn remaining(self) -> nat {
        (5 - self.phase.rank() + self.meats.len() - self.meats_run) as nat
    }

    /// Whether `request` is what the simulation needs done in this state.
    pub open spec fn expects(self, request: Request) -> bool {
        match self.phase {
            RevenuePhase::FrontrunData => match request {
                Request::RouterCallData { amount, is_frontrun } => amount@ == self.frontrun_in
                    && is_frontrun,
                _ => false,
            },
            RevenuePhase::BackrunData => match request {
                Request::RouterCallData { amount, is_frontrun } => amount@ == self.backrun_in
                    && !is_frontrun,
                _ => false,
            },
            RevenuePhase::FrontrunRun | RevenuePhase::BackrunRun => match request {
                Request::Execute(env) => env@ == self.router_call,
                _ => false,
            },
            RevenuePhase::Meats => match request {
                Request::Execute(env) => self.meats_run < self.meats.len() && env@ == meat_env(
                    self.meats[self.meats_run as int],
                ),
                _ => false,
            },
        }
    }

    /// The failure for an answer of the wrong kind.
    pub open spec fn unexpected(self) -> RevenueNext {
        RevenueNext::Failed(
            SimulationError::SimulatorFault {
                stage: self.phase.spec_stage(),
                fault: Fault::UnexpectedResponse,
            },
        )
    }

    /// The failure for a backend fault.
    pub open spec fn faulted(self, message: String) -> RevenueNext {
        RevenueNext::Failed(
            SimulationError::SimulatorFault {
                stage: self.phase.spec_stage(),
                fault: Fault::Backend(message),
            },
        )
    }

    /// After router call data came back: the call is set up.
    pub open spec fn after_data(self, data: Seq<u8>) -> RevenueNext {
        RevenueNext::Continue(
            RevenueModel {
                phase: if self.phase == RevenuePhase::FrontrunData {
                    RevenuePhase::FrontrunRun
                } else {
                    RevenuePhase::BackrunRun
                },
                router_call: self.call_of(data),
                ..self
            },
        )
    }

    /// After the frontrun ran: the second word of what the router returned
    /// is what it now holds of the intermediary token, and that is what the
    /// backrun pays in. A concentrated-liquidity pool takes it in 128 bits.
    pub open spec fn after_frontrun(self, outcome: ExecutionOutcome) -> RevenueNext {
        match query_failure(Stage::Frontrun, outcome, 2) {
            Some(e) => RevenueNext::Failed(e),
            None => {
                let output = match outcome {
                    ExecutionOutcome::Success { output, .. } => output@,
                    _ => Seq::empty(),
                };
                let held = be_value(output.subrange(WORD as int, 2 * WORD));
                if self.pool is UniswapV3 && held > u128::MAX {
                    RevenueNext::Failed(
                        SimulationError::SimulatorFault {
                            stage: Stage::Backrun,
                            fault: Fault::AmountTooLarge,
                        },
                    )
                } else {
                    RevenueNext::Continue(
                        RevenueModel {
                            phase: if self.meats.len() == 0 {
                                RevenuePhase::BackrunData
                            } else {
                                RevenuePhase::Meats
                            },
                            backrun_in: held,
                            ..self
                        },
                    )
                }
            },
        }
    }

    /// After a victim was run, however that went.
    pub open spec fn after_meat(self) -> RevenueNext {
        RevenueNext::Continue(
            RevenueModel {
                phase: if self.meats_run + 1 >= self.meats.len() {
                    RevenuePhase::BackrunData
                } else {
                    RevenuePhase::Meats
                },
                meats_run: self.meats_run + 1,
                ..self
            },
        )
    }

    /// After the backrun ran: the second word of what the router returned
    /// is what it now holds of the base token. The revenue is what it
    /// gained over what it was funded with, and zero where it lost.
    pub open spec fn after_backrun(self, outcome: ExecutionOutcome) -> RevenueNext {
        match query_failure(Stage::Backrun, outcome, 2) {
            Some(e) => RevenueNext::Failed(e),
            None => {
                let output = match outcome {
                    ExecutionOutcome::Success { output, .. } => output@,
                    _ => Seq::empty(),
                };
                let held = be_value(output.subrange(WORD as int, 2 * WORD));
                RevenueNext::Finished(
                    if held >= self.setup.funded_amount@ {
                        (held - self.setup.funded_amount@) as nat
                    } else {
                        0
                    },
                )
            },
        }
    }

    /// What the answer to the pending request leads to. While victims are
    /// run, an outcome of any kind and a fault of the simulator alike are
    /// passed over; in every other phase a fault ends the simulation.
    pub open spec fn next(self, response: Response) -> RevenueNext {
        match response {
            Response::Fault(message) => if self.phase == RevenuePhase::Meats {
                self.after_meat()
            } else {
                self.faulted(message)
            },
            Response::Outcome(outcome) => match self.phase {
                RevenuePhase::FrontrunRun => self.after_frontrun(outcome),
                RevenuePhase::Meats => self.after_meat(),
                RevenuePhase::BackrunRun => self.after_backrun(outcome),
                _ => self.unexpected(),
            },
            Response::Payload { data, value } => match self.phase {
                RevenuePhase::FrontrunData | RevenuePhase::BackrunData => self.after_data(data@),
                _ => self.unexpected(),
            },
            _ => self.unexpected(),
        }
    }
}

/// A revenue simulation in progress.
pub struct RevenueSession {
    phase: RevenuePhase,
    ingredients: RawIngredients,
    block: BlockInfo,
    setup: RouterSetup,
    frontrun_in: U256,
    meats_run: usize,
    backrun_in: U256,
    router_call: TxEnv,
}

/// What resuming a session leads to: the session to go on with, or the
/// end of the simulation.
pub enum RevenueStep {
    Next(RevenueSession),
    Done(Result<U256, SimulationError>),
}

impl View for RevenueSession {
    type V = RevenueModel;

    closed spec fn view(&self) -> RevenueModel {
        RevenueModel {
            phase: self.phase,
            pool: self.ingredients.target_pool,
            meats: meat_views(self.ingredients.meats@),
            block: self.block,
            setup: self.setup,
            frontrun_in: self.frontrun_in@,
            meats_run: self.meats_run as nat,
            backrun_in: self.backrun_in@,
            router_call: self.router_call@,
        }
    }
}

/// Starts the simulation of a sandwich on the ingredients' pool that pays
/// in `frontrun_in`, in the block `next_block`, on a fork prepared as
/// `inject_lil_router_code` says.
///
/// A concentrated-liquidity pool takes the input in 128 bits: a larger one
/// is refused here.
pub fn evaluate_sandwich_revenue(
    frontrun_in: U256,
    next_block: BlockInfo,
    ingredients: RawIngredients,
    setup: RouterSetup,
) -> (r: Result<RevenueSession, SimulationError>)
    ensures
        match r {
            Ok(session) => {
                &&& session@ == RevenueModel::start(frontrun_in@, next_block, ingredients, setup)
                &&& (ingredients.target_pool is UniswapV2 || frontrun_in@ <= u128::MAX)
                &&& session@.wf()
            },
            Err(e) => {
                &&& ingredients.target_pool is UniswapV3
                &&& frontrun_in@ > u128::MAX
                &&& e == SimulationError::SimulatorFault {
                    stage: Stage::Frontrun,
                    fault: Fault::AmountTooLarge,
                }
            },
        },
{
    match ingredients.target_pool {
        Pool::UniswapV2(_) => {},
        Pool::UniswapV3(_) => {
            if frontrun_in.to_u128().is_none() {
                return Err(
                    SimulationError::SimulatorFault {
                        stage: Stage::Frontrun,
                        fault: Fault::AmountTooLarge,
                    },
                );
            }
        },
    }
    let router_call = plain_call(
        setup.controller,
        setup.router,
        Vec::new(),
        U256::zero(),
        next_block.base_fee_per_gas,
    );
    let session = RevenueSession {
        phase: RevenuePhase::FrontrunData,
        ingredients,
        block: next_block,
        setup,
        frontrun_in,
        meats_run: 0,
        backrun_in: U256::zero(),
        router_call,
    };
    proof {
        assert(session@.router_call.data =~= Seq::empty());
    }
    Ok(session)
}

impl RevenueSession {
    /// Victims are run one after the other, and the backrun only after all
    /// of them.
    #[verifier::type_invariant]
    spec fn inv(self) -> bool {
        &&& self.meats_run <= self.ingredients.meats@.len()
        &&& match self.phase {
            RevenuePhase::FrontrunData | RevenuePhase::FrontrunRun => self.meats_run == 0,
            RevenuePhase::Meats => self.meats_run < self.ingredients.meats@.len(),
            _ => self.meats_run == self.ingredients.meats@.len(),
        }
    }

    /// What the simulation is waiting for.
    pub fn phase(&self) -> (phase: RevenuePhase)
        ensures
            phase == self@.phase,
    {
        self.phase
    }

    /// What the simulator is to do next.
    pub fn request(&self) -> (request: Request)
        ensures
            self@.expects(request),
    {
        proof {
            use_type_invariant(self);
        }
        match self.phase {
            RevenuePhase::FrontrunData => Request::RouterCallData {
                amount: self.frontrun_in,
                is_frontrun: true,
            },
            RevenuePhase::BackrunData => Request::RouterCallData {
                amount: self.backrun_in,
                is_frontrun: false,
            },
            RevenuePhase::FrontrunRun | RevenuePhase::BackrunRun => Request::Execute(
                copy_tx_env(&self.router_call),
            ),
            RevenuePhase::Meats => Request::Execute(
                meat_tx_env(&self.ingredients.meats[self.meats_run]),
            ),
        }
    }

    /// The end of the simulation on an answer of the wrong kind.
    fn refuse(self) -> (step: RevenueStep)
        ensures
            step matches RevenueStep::Done(Err(e)) && self@.unexpected() == RevenueNext::Failed(e),
    {
        RevenueStep::Done(
            Err(
                SimulationError::SimulatorFault {
                    stage: self.phase.stage(),
                    fault: Fault::UnexpectedResponse,
                },
            ),
        )
    }

    /// Takes the answer to the pending request and goes on, or ends the
    /// simulation with the revenue or with the reason why there is none.
    pub fn resume(self, response: Response) -> (step: RevenueStep)
        ensures
            match self@.next(response) {
                RevenueNext::Continue(m) => step matches RevenueStep::Next(s) && s@ == m,
                RevenueNext::Failed(e) => step matches RevenueStep::Done(Err(x)) && x == e,
                RevenueNext::Finished(revenue) => step matches RevenueStep::Done(Ok(x)) && x@
                    == revenue,
            },
            self@.wf(),
    {
        proof {
            use_type_invariant(&self);
        }
        match response {
            Response::Fault(message) => match self.phase {
                RevenuePhase::Meats => self.pass_meat(),
                _ => RevenueStep::Done(
                    Err(
                        SimulationError::SimulatorFault {
                            stage: self.phase.stage(),
                            fault: Fault::Backend(message),
                        },
                    ),
                ),
            },
            Response::Outcome(outcome) => match self.phase {
                RevenuePhase::FrontrunRun => self.take_frontrun(outcome),
                RevenuePhase::Meats => self.pass_meat(),
                RevenuePhase::BackrunRun => self.take_backrun(outcome),
                _ => self.refuse(),
            },
            Response::Payload { data, value } => match self.phase {
                RevenuePhase::FrontrunData | RevenuePhase::BackrunData => self.take_data(data),
                _ => self.refuse(),
            },
            _ => self.refuse(),
        }
    }

    fn take_data(self, data: Vec<u8>) -> (step: RevenueStep)
        requires
            self@.phase == RevenuePhase::FrontrunData || self@.phase == RevenuePhase::BackrunData,
        ensures
            match self@.after_data(data@) {
                RevenueNext::Continue(m) => step matches RevenueStep::Next(s) && s@ == m,
                _ => false,
            },
    {
        proof {
            use_type_invariant(&self);
        }
        let router_call = plain_call(
            self.setup.controller,
            self.setup.router,
            data,
            U256::zero(),
            self.block.base_fee_per_gas,
        );
        let phase = if self.phase == RevenuePhase::FrontrunData {
            RevenuePhase::FrontrunRun
        } else {
            RevenuePhase::BackrunRun
        };
        RevenueStep::Next(RevenueSession { phase, router_call, ..self })
    }

    fn take_frontrun(self, outcome: ExecutionOutcome) -> (step: RevenueStep)
        requires
            self@.phase == RevenuePhase::FrontrunRun,
        ensures
            match self@.after_frontrun(outcome) {
                RevenueNext::Continue(m) => step matches RevenueStep::Next(s) && s@ == m,
                RevenueNext::Failed(e) => step matches RevenueStep::Done(Err(x)) && x == e,
                RevenueNext::Finished(_) => false,
            },
    {
        proof {
            use_type_invariant(&self);
        }
        let held = match second_word(Stage::Frontrun, outcome) {
            Err(e) => {
                return RevenueStep::Done(Err(e));
            },
            Ok(held) => held,
        };
        match self.ingredients.target_pool {
            Pool::UniswapV2(_) => {},
            Pool::UniswapV3(_) => {
                if held.to_u128().is_none() {
                    return RevenueStep::Done(
                        Err(
                            SimulationError::SimulatorFault {
                                stage: Stage::Backrun,
                                fault: Fault::AmountTooLarge,
                            },
                        ),
                    );
                }
            },
        }
        let phase = if self.ingredients.meats.len() == 0 {
            RevenuePhase::BackrunData
        } else {
            RevenuePhase::Meats
        };
        RevenueStep::Next(RevenueSession { phase, backrun_in: held, ..self })
    }

    fn pass_meat(self) -> (step: RevenueStep)
        requires
            self@.phase == RevenuePhase::Meats,
        ensures
            match self@.after_meat() {
                RevenueNext::Continue(m) => step matches RevenueStep::Next(s) && s@ == m,
                _ => false,
            },
    {
        proof {
            use_type_invariant(&self);
        }
        let victims = self.ingredients.meats.len();
        let meats_run = self.meats_run + 1;
        let phase = if meats_run >= victims {
            RevenuePhase::BackrunData
        } else {
            RevenuePhase::Meats
        };
        RevenueStep::Next(RevenueSession { phase, meats_run, ..self })
    }

    fn take_backrun(self, outcome: ExecutionOutcome) -> (step: RevenueStep)
        requires
            self@.phase == RevenuePhase::BackrunRun,
        ensures
            match self@.after_backrun(outcome) {
                RevenueNext::Finished(revenue) => step matches RevenueStep::Done(Ok(x)) && x@
                    == revenue,
                RevenueNext::Failed(e) => step matches RevenueStep::Done(Err(x)) && x == e,
                RevenueNext::Continue(_) => false,
            },
    {
        match second_word(Stage::Backrun, outcome) {
            Err(e) => RevenueStep::Done(Err(e)),
            Ok(held) => RevenueStep::Done(Ok(held.saturating_sub(&self.setup.funded_amount))),
        }
    }
}

/// The second word of what a router call returned: what the router holds
/// after the swap.
fn second_word(stage: Stage, outcome: ExecutionOutcome) -> (r: Result<U256, SimulationError>)
    ensures
        match r {
            Ok(held) => {
                &&& query_failure(stage, outcome, 2) is None
                &&& outcome matches ExecutionOutcome::Success { output, .. } && held@ == be_value(
                    output@.subrange(WORD as int, 2 * WORD),
                )
            },
            Err(e) => query_failure(stage, outcome, 2) == Some(e),
        },
{
    let output = query_output(stage, outcome, 2)?;
    match word_at(&output, 1) {
        Some(held) => Ok(held),
        None => Err(SimulationError::SimulatorFault { stage, fault: Fault::ShortReturnData }),
    }
}


/// A simulation runs in sequence: every answer moves it on to a later
/// phase, except that each victim in turn takes one answer of its own. So
/// it ends after at most five answers and one more for each victim. No
/// outcome of a victim and no fault while it is run ends the simulation.
pub proof fn lemma_revenue_in_sequence(m: RevenueModel, response: Response)
    requires
        m.wf(),
    ensures
        match m.next(response) {
            RevenueNext::Continue(n) => {
                &&& n.wf()
                &&& n.remaining() < m.remaining()
                &&& n.phase.rank() >= m.phase.rank()
                &&& n.meats == m.meats
                &&& n.pool == m.pool
                &&& n.frontrun_in == m.frontrun_in
                &&& if m.phase == RevenuePhase::Meats {
                    n.meats_run == m.meats_run + 1
                } else {
                    n.meats_run == m.meats_run && n.phase.rank() > m.phase.rank()
                }
            },
            RevenueNext::Failed(_) => m.phase != RevenuePhase::Meats || !(response is Outcome
                || response is Fault),
            RevenueNext::Finished(_) => m.phase == RevenuePhase::BackrunRun,
        },
{
}

} // verus!
