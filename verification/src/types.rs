//! The plain data that the evaluator works on: accounts, pools, pending
//! transactions, transaction environments and execution outcomes.

use crate::uint::U256;
use vstd::prelude::*;

verus! {

/// A 20-byte account identifier, held as the 160-bit number its bytes spell
/// in big-endian order. Comparing the numbers compares the byte strings
/// lexicographically.
#[derive(Clone, Copy, Debug, PartialEq, Eq, Structural, Hash)]
pub struct Address {
    pub hi: u32,
    pub mid: u64,
    pub lo: u64,
}

impl View for Address {
    type V = nat;

    open spec fn view(&self) -> nat {
        (self.lo as nat) + (self.mid as nat) * 0x1_0000_0000_0000_0000nat + (self.hi as nat)
            * 0x1_0000_0000_0000_0000_0000_0000_0000_0000nat
    }
}

impl Address {
    /// The account whose bytes are all zero.
    pub fn zero() -> (a: Address)
        ensures
            a@ == 0,
    {
        Address { hi: 0, mid: 0, lo: 0 }
    }

    /// Whether this address comes before `other` in byte order.
    pub fn lt(&self, other: &Address) -> (r: bool)
        ensures
            r == (self@ < other@),
    {
        if self.hi != other.hi {
            self.hi < other.hi
        } else if self.mid != other.mid {
            self.mid < other.mid
        } else {
            self.lo < other.lo
        }
    }

    /// The address as the 256-bit word that stands for it in call data.
    pub fn to_word(&self) -> (w: U256)
        ensures
            w@ == self@,
    {
        U256 { w0: self.lo, w1: self.mid, w2: self.hi as u64, w3: 0 }
    }
}

/// Two addresses that spell the same number are the same address.
pub proof fn lemma_address_injective(a: Address, b: Address)
    ensures
        (a@ == b@) <==> (a == b),
        a@ < 0x1_0000_0000_0000_0000_0000_0000_0000_0000_0000_0000nat,
{
    if a@ == b@ {
        assert(a.hi == b.hi);
        assert(a.mid == b.mid);
    }
}

/// The block a simulation is run in.
#[derive(Clone, Copy, Debug, PartialEq, Eq, Structural)]
pub struct BlockInfo {
    pub number: u64,
    pub timestamp: U256,
    pub base_fee_per_gas: U256,
}

/// A constant-product pool. Its reserves are read from chain state when
/// they are needed and never kept here.
#[derive(Clone, Copy, Debug, PartialEq, Eq, Structural)]
pub struct UniswapV2Pool {
    pub address: Address,
    pub token_a: Address,
    pub token_b: Address,
}

/// A concentrated-liquidity pool.
#[derive(Clone, Copy, Debug, PartialEq, Eq, Structural)]
pub struct UniswapV3Pool {
    pub address: Address,
    pub token_a: Address,
    pub token_b: Address,
    pub fee: u32,
}

#[derive(Clone, Copy, Debug, PartialEq, Eq, Structural)]
pub enum Pool {
    UniswapV2(UniswapV2Pool),
    UniswapV3(UniswapV3Pool),
}

impl Pool {
    pub open spec fn spec_address(self) -> Address {
        match self {
            Pool::UniswapV2(p) => p.address,
            Pool::UniswapV3(p) => p.address,
        }
    }

    pub open spec fn spec_token_a(self) -> Address {
        match self {
            Pool::UniswapV2(p) => p.token_a,
            Pool::UniswapV3(p) => p.token_a,
        }
    }

    pub open spec fn spec_token_b(self) -> Address {
        match self {
            Pool::UniswapV2(p) => p.token_b,
            Pool::UniswapV3(p) => p.token_b,
        }
    }

    pub fn address(&self) -> (a: Address)
        ensures
            a == self.spec_address(),
    {
        match self {
            Pool::UniswapV2(p) => p.address,
            Pool::UniswapV3(p) => p.address,
        }
    }

    pub fn token_a(&self) -> (a: Address)
        ensures
            a == self.spec_token_a(),
    {
        match self {
            Pool::UniswapV2(p) => p.token_a,
            Pool::UniswapV3(p) => p.token_a,
        }
    }

    pub fn token_b(&self) -> (a: Address)
        ensures
            a == self.spec_token_b(),
    {
        match self {
            Pool::UniswapV2(p) => p.token_b,
            Pool::UniswapV3(p) => p.token_b,
        }
    }
}

/// The gas limit of every transaction and query of the bot's own.
pub const CALL_GAS_LIMIT: u64 = 700_000;

/// A bytewise copy.
pub fn copy_bytes(bytes: &Vec<u8>) -> (copy: Vec<u8>)
    ensures
        copy@ == bytes@,
{
    let mut copy: Vec<u8> = Vec::new();
    let mut i: usize = 0;
    while i < bytes.len()
        invariant
            i <= bytes.len(),
            copy@ == bytes@.subrange(0, i as int),
        decreases bytes.len() - i,
    {
        copy.push(bytes[i]);
        proof {
            assert(copy@ =~= bytes@.subrange(0, i + 1));
        }
        i = i + 1;
    }
    proof {
        assert(bytes@.subrange(0, bytes.len() as int) =~= bytes@);
    }
    copy
}

/// A victim transaction, as a list of what a simulation needs of it.
pub struct MeatView {
    pub hash: U256,
    pub from: Address,
    pub to: Option<Address>,
    pub input: Seq<u8>,
    pub value: U256,
    pub gas: u64,
    pub gas_price: Option<U256>,
    pub max_fee_per_gas: Option<U256>,
    pub max_priority_fee_per_gas: Option<U256>,
    pub chain_id: Option<u64>,
    pub transaction_type: Option<u64>,
}

/// A victim transaction: a pending transaction that will trade against the
/// target pool. Its nonce is not kept, simulations do not check it.
#[derive(Clone, Debug, PartialEq, Eq)]
pub struct Meat {
    pub hash: U256,
    pub from: Address,
    pub to: Option<Address>,
    pub input: Vec<u8>,
    pub value: U256,
    pub gas: u64,
    pub gas_price: Option<U256>,
    pub max_fee_per_gas: Option<U256>,
    pub max_priority_fee_per_gas: Option<U256>,
    pub chain_id: Option<u64>,
    pub transaction_type: Option<u64>,
}

impl View for Meat {
    type V = MeatView;

    open spec fn view(&self) -> MeatView {
        MeatView {
            hash: self.hash,
            from: self.from,
            to: self.to,
            input: self.input@,
            value: self.value,
            gas: self.gas,
            gas_price: self.gas_price,
            max_fee_per_gas: self.max_fee_per_gas,
            max_priority_fee_per_gas: self.max_priority_fee_per_gas,
            chain_id: self.chain_id,
            transaction_type: self.transaction_type,
        }
    }
}

impl Meat {
    /// A copy with the same contents.
    pub fn duplicate(&self) -> (copy: Meat)
        ensures
            copy@ == self@,
    {
        Meat {
            hash: self.hash,
            from: self.from,
            to: self.to,
            input: copy_bytes(&self.input),
            value: self.value,
            gas: self.gas,
            gas_price: self.gas_price,
            max_fee_per_gas: self.max_fee_per_gas,
            max_priority_fee_per_gas: self.max_priority_fee_per_gas,
            chain_id: self.chain_id,
            transaction_type: self.transaction_type,
        }
    }
}

/// What each of a sequence of victim transactions holds.
pub open spec fn meat_views(meats: Seq<Meat>) -> Seq<MeatView> {
    Seq::new(meats.len(), |i: int| meats[i]@)
}

/// What the evaluator is asked to sandwich.
#[derive(Clone, Debug, PartialEq, Eq)]
pub struct RawIngredients {
    pub target_pool: Pool,
    pub meats: Vec<Meat>,
    pub start_end_token: Address,
    pub intermediary_token: Address,
}

impl RawIngredients {
    /// Whether the two tokens are the two sides of the target pool.
    pub open spec fn wf(self) -> bool {
        ||| (self.start_end_token == self.target_pool.spec_token_a() && self.intermediary_token
            == self.target_pool.spec_token_b())
        ||| (self.start_end_token == self.target_pool.spec_token_b() && self.intermediary_token
            == self.target_pool.spec_token_a())
    }

    /// The ingredients of a sandwich on `target_pool` that starts and ends
    /// in `start_end_token`; the intermediary token is the other side of the
    /// pool. `None` where the pool does not trade `start_end_token`.
    pub fn new(target_pool: Pool, meats: Vec<Meat>, start_end_token: Address) -> (r: Option<
        RawIngredients,
    >)
        ensures
            match r {
                Some(i) => {
                    &&& i.wf()
                    &&& i.target_pool == target_pool
                    &&& i.meats == meats
                    &&& i.start_end_token == start_end_token
                    &&& i.intermediary_token == if start_end_token == target_pool.spec_token_a() {
                        target_pool.spec_token_b()
                    } else {
                        target_pool.spec_token_a()
                    }
                },
                None => start_end_token != target_pool.spec_token_a() && start_end_token
                    != target_pool.spec_token_b(),
            },
    {
        let a = target_pool.token_a();
        let b = target_pool.token_b();
        if start_end_token == a {
            Some(RawIngredients { target_pool, meats, start_end_token, intermediary_token: b })
        } else if start_end_token == b {
            Some(RawIngredients { target_pool, meats, start_end_token, intermediary_token: a })
        } else {
            None
        }
    }

    pub fn get_target_pool(&self) -> (p: Pool)
        ensures
            p == self.target_pool,
    {
        self.target_pool
    }

    pub fn get_meats_ref(&self) -> (m: &Vec<Meat>)
        ensures
            *m == self.meats,
    {
        &self.meats
    }

    pub fn get_start_end_token(&self) -> (t: Address)
        ensures
            t == self.start_end_token,
    {
        self.start_end_token
    }

    pub fn get_intermediary_token(&self) -> (t: Address)
        ensures
            t == self.intermediary_token,
    {
        self.intermediary_token
    }
}

/// One entry of an access list, as a list of values.
pub struct AccessListItemView {
    pub address: Address,
    pub storage_keys: Seq<U256>,
}

/// One entry of an access list: an account and the storage slots touched.
#[derive(Clone, Debug, PartialEq, Eq)]
pub struct AccessListItem {
    pub address: Address,
    pub storage_keys: Vec<U256>,
}

impl View for AccessListItem {
    type V = AccessListItemView;

    open spec fn view(&self) -> AccessListItemView {
        AccessListItemView { address: self.address, storage_keys: self.storage_keys@ }
    }
}

/// What each entry of an access list holds.
pub open spec fn access_list_views(list: Seq<AccessListItem>) -> Seq<AccessListItemView> {
    Seq::new(list.len(), |i: int| list[i]@)
}

/// A transaction environment, as a list of values.
pub struct TxEnvView {
    pub caller: Address,
    pub gas_limit: u64,
    pub gas_price: U256,
    pub gas_priority_fee: Option<U256>,
    pub transact_to: Address,
    pub value: U256,
    pub data: Seq<u8>,
    pub chain_id: Option<u64>,
    pub nonce: Option<u64>,
    pub access_list: Seq<AccessListItemView>,
}

/// All that a simulated call needs to be run: who calls what, with which
/// value, data and gas terms, and which state it declares it will touch. A
/// nonce of `None` is not checked.
#[derive(Clone, Debug, PartialEq, Eq)]
pub struct TxEnv {
    pub caller: Address,
    pub gas_limit: u64,
    pub gas_price: U256,
    pub gas_priority_fee: Option<U256>,
    pub transact_to: Address,
    pub value: U256,
    pub data: Vec<u8>,
    pub chain_id: Option<u64>,
    pub nonce: Option<u64>,
    pub access_list: Vec<AccessListItem>,
}

impl View for TxEnv {
    type V = TxEnvView;

    open spec fn view(&self) -> TxEnvView {
        TxEnvView {
            caller: self.caller,
            gas_limit: self.gas_limit,
            gas_price: self.gas_price,
            gas_priority_fee: self.gas_priority_fee,
            transact_to: self.transact_to,
            value: self.value,
            data: self.data@,
            chain_id: self.chain_id,
            nonce: self.nonce,
            access_list: access_list_views(self.access_list@),
        }
    }
}

impl TxEnvView {
    /// A call with the standard gas limit, priced at `gas_price` without a
    /// priority fee, on no particular chain, without a nonce and without an
    /// access list.
    pub open spec fn plain_call(
        caller: Address,
        transact_to: Address,
        data: Seq<u8>,
        value: U256,
        gas_price: U256,
    ) -> TxEnvView {
        TxEnvView {
            caller,
            gas_limit: CALL_GAS_LIMIT,
            gas_price,
            gas_priority_fee: None,
            transact_to,
            value,
            data,
            chain_id: None,
            nonce: None,
            access_list: Seq::empty(),
        }
    }

    /// The same call with an access list attached.
    pub open spec fn with_access_list(self, access_list: Seq<AccessListItemView>) -> TxEnvView {
        TxEnvView { access_list, ..self }
    }
}

/// How a simulated transaction ended. A revert or a halt is a lawful
/// outcome, not a fault of the simulator.
#[derive(Clone, Debug, PartialEq, Eq)]
pub enum ExecutionOutcome {
    Success { gas_used: u64, output: Vec<u8> },
    Revert { gas_used: u64, output: Vec<u8> },
    Halt { gas_used: u64, reason: String },
}

impl ExecutionOutcome {
    pub open spec fn spec_gas_used(self) -> u64 {
        match self {
            ExecutionOutcome::Success { gas_used, .. } => gas_used,
            ExecutionOutcome::Revert { gas_used, .. } => gas_used,
            ExecutionOutcome::Halt { gas_used, .. } => gas_used,
        }
    }

    pub fn is_success(&self) -> (r: bool)
        ensures
            r == (self is Success),
    {
        match self {
            ExecutionOutcome::Success { .. } => true,
            _ => false,
        }
    }

    pub fn gas_used(&self) -> (g: u64)
        ensures
            g == self.spec_gas_used(),
    {
        match self {
            ExecutionOutcome::Success { gas_used, .. } => *gas_used,
            ExecutionOutcome::Revert { gas_used, .. } => *gas_used,
            ExecutionOutcome::Halt { gas_used, .. } => *gas_used,
        }
    }
}

/// The verdict of the opcode audit on one execution: clean, or the
/// suspicious opcodes that were seen.
#[derive(Clone, Debug, PartialEq, Eq)]
pub enum IsSandwichSafu {
    Safu,
    NotSafu(Vec<u8>),
}

/// The stage of a simulation at which something went wrong.
#[derive(Clone, Copy, Debug, PartialEq, Eq, Structural)]
pub enum Stage {
    Frontrun,
    Meat,
    Backrun,
    ReserveQuery,
    BalanceQuery,
}

/// What went wrong inside the simulator, as opposed to inside a transaction.
#[derive(Clone, Debug, PartialEq, Eq)]
pub enum Fault {
    /// The backend or the virtual machine reported an error of its own.
    Backend(String),
    /// A query returned fewer bytes than its result needs.
    ShortReturnData,
    /// The caller answered a request with a response of another kind.
    UnexpectedResponse,
    /// An amount does not fit the 128 bits that a call takes it in.
    AmountTooLarge,
}

/// Why an evaluation did not produce a result.
#[derive(Clone, Debug, PartialEq, Eq)]
pub enum SimulationError {
    /// The simulator itself failed, or answered what it was not asked.
    SimulatorFault { stage: Stage, fault: Fault },
    /// A transaction of the sandwich, or a query, reverted.
    ExecutionReverted { stage: Stage, output: Vec<u8> },
    /// A transaction of the sandwich, or a query, halted.
    ExecutionHalted { stage: Stage, reason: String },
    /// A transaction of the sandwich ran opcodes that the audit rejects.
    NotSafu { stage: Stage, opcodes: Vec<u8> },
}

impl Stage {
    /// The stage in words.
    pub open spec fn spec_name(self) -> Seq<char> {
        match self {
            Stage::Frontrun => "frontrun"@,
            Stage::Meat => "meat"@,
            Stage::Backrun => "backrun"@,
            Stage::ReserveQuery => "reserve query"@,
            Stage::BalanceQuery => "balance query"@,
        }
    }

    pub fn name(&self) -> (name: &'static str)
        ensures
            name@ == self.spec_name(),
    {
        match self {
            Stage::Frontrun => "frontrun",
            Stage::Meat => "meat",
            Stage::Backrun => "backrun",
            Stage::ReserveQuery => "reserve query",
            Stage::BalanceQuery => "balance query",
        }
    }
}

impl SimulationError {
    /// The kind of error as a tag for messages.
    pub open spec fn spec_tag(self) -> Seq<char> {
        match self {
            SimulationError::SimulatorFault { .. } => "EVM ERROR"@,
            SimulationError::ExecutionReverted { .. } => "REVERT"@,
            SimulationError::ExecutionHalted { .. } => "HALT"@,
            SimulationError::NotSafu { .. } => "NOT SAFU"@,
        }
    }

    pub fn tag(&self) -> (tag: &'static str)
        ensures
            tag@ == self.spec_tag(),
    {
        match self {
            SimulationError::SimulatorFault { .. } => "EVM ERROR",
            SimulationError::ExecutionReverted { .. } => "REVERT",
            SimulationError::ExecutionHalted { .. } => "HALT",
            SimulationError::NotSafu { .. } => "NOT SAFU",
        }
    }

    pub open spec fn spec_stage(self) -> Stage {
        match self {
            SimulationError::SimulatorFault { stage, .. } => stage,
            SimulationError::ExecutionReverted { stage, .. } => stage,
            SimulationError::ExecutionHalted { stage, .. } => stage,
            SimulationError::NotSafu { stage, .. } => stage,
        }
    }

    pub fn stage(&self) -> (s: Stage)
        ensures
            s == self.spec_stage(),
    {
        match self {
            SimulationError::SimulatorFault { stage, .. } => *stage,
            SimulationError::ExecutionReverted { stage, .. } => *stage,
            SimulationError::ExecutionHalted { stage, .. } => *stage,
            SimulationError::NotSafu { stage, .. } => *stage,
        }
    }
}

/// A sandwich that went through simulation: the two transactions of the
/// bot with their gas, the victims that did not revert, and what it earns.
#[derive(Clone, Debug, PartialEq, Eq)]
pub struct SandwichRecipe {
    pub frontrun_tx_env: TxEnv,
    pub frontrun_gas_used: u64,
    pub filtered_meats: Vec<Meat>,
    pub backrun_tx_env: TxEnv,
    pub backrun_gas_used: u64,
    pub revenue: U256,
    pub block: BlockInfo,
}

} // verus!
