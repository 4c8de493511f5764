//! What is put on a fresh fork before a simulation runs on it: the code
//! of a helper contract, funds for the account that calls it, and the
//! contract's balance of the base token, written straight into the token's
//! storage.

use crate::abi::{be_value, keccak256_digest, mapping_key_preimage, mapping_storage_slot};
use crate::types::Address;
use crate::uint::U256;
use vstd::prelude::*;

verus! {

/// The slot at which the base token keeps its balance mapping.
pub const BALANCE_MAPPING_SLOT: u64 = 3;

/// Where the helper router stands and what it is given to trade with.
#[derive(Clone, Copy, Debug, PartialEq, Eq, Structural)]
pub struct RouterSetup {
    /// The address that the router's code is put at.
    pub router: Address,
    /// The account that calls the router.
    pub controller: Address,
    /// The token that revenue is counted in.
    pub base_token: Address,
    /// What the router holds of the base token before the sandwich, and
    /// what the controller holds of the native currency.
    pub funded_amount: U256,
}

/// A change to make to a fresh fork before anything runs on it.
#[derive(Clone, Debug, PartialEq, Eq)]
pub enum StateInjection {
    Account { address: Address, balance: U256, nonce: u64, code: Vec<u8> },
    Storage { address: Address, slot: U256, value: U256 },
}

/// The slot of `holder`'s balance in the base token's storage.
pub open spec fn balance_slot(holder: Address) -> nat {
    be_value(keccak256_digest(mapping_key_preimage(holder@, BALANCE_MAPPING_SLOT as nat)))
}

/// What to put on a fresh fork before a revenue simulation: the router's
/// code at its address, the controller with funds to call it, and the
/// router's balance of the base token.
pub fn inject_lil_router_code(setup: &RouterSetup, router_code: Vec<u8>) -> (injections: Vec<
    StateInjection,
>)
    ensures
        injections.len() == 3,
        injections[0] == (StateInjection::Account {
            address: setup.router,
            balance: U256 { w0: 0, w1: 0, w2: 0, w3: 0 },
            nonce: 0,
            code: router_code,
        }),
        match injections[1] {
            StateInjection::Account { address, balance, nonce, code } => {
                &&& address == setup.controller
                &&& balance == setup.funded_amount
                &&& nonce == 0
                &&& code@.len() == 0
            },
            _ => false,
        },
        match injections[2] {
            StateInjection::Storage { address, slot, value } => {
                &&& address == setup.base_token
                &&& slot@ == balance_slot(setup.router)
                &&& value == setup.funded_amount
            },
            _ => false,
        },
{
    let mut injections: Vec<StateInjection> = Vec::new();
    injections.push(
        StateInjection::Account {
            address: setup.router,
            balance: U256::zero(),
            nonce: 0,
            code: router_code,
        },
    );
    injections.push(
        StateInjection::Account {
            address: setup.controller,
            balance: setup.funded_amount,
            nonce: 0,
            code: Vec::new(),
        },
    );
    let slot = mapping_storage_slot(
        &setup.router.to_word(),
        &U256::from_u64(BALANCE_MAPPING_SLOT),
    );
    injections.push(
        StateInjection::Storage {
            address: setup.base_token,
            slot,
            value: setup.funded_amount,
        },
    );
    injections
}


/// What to put on a fresh fork before a recipe simulation where the
/// sandwich contract is not deployed yet: the contract's code at its
/// address, the searcher with `searcher_funds` to call it, and the
/// contract's starting balance of the base token.
pub fn inject_huff_sandwich(
    sandwich: Address,
    searcher: Address,
    base_token: Address,
    sandwich_start_bal: U256,
    searcher_funds: U256,
    sandwich_code: Vec<u8>,
) -> (injections: Vec<StateInjection>)
    ensures
        injections.len() == 3,
        injections[0] == (StateInjection::Account {
            address: sandwich,
            balance: U256 { w0: 0, w1: 0, w2: 0, w3: 0 },
            nonce: 0,
            code: sandwich_code,
        }),
        match injections[1] {
            StateInjection::Account { address, balance, nonce, code } => {
                &&& address == searcher
                &&& balance == searcher_funds
                &&& nonce == 0
                &&& code@.len() == 0
            },
            _ => false,
        },
        match injections[2] {
            StateInjection::Storage { address, slot, value } => {
                &&& address == base_token
                &&& slot@ == balance_slot(sandwich)
                &&& value == sandwich_start_bal
            },
            _ => false,
        },
{
    let mut injections: Vec<StateInjection> = Vec::new();
    injections.push(
        StateInjection::Account {
            address: sandwich,
            balance: U256::zero(),
            nonce: 0,
            code: sandwich_code,
        },
    );
    injections.push(
        StateInjection::Account {
            address: searcher,
            balance: searcher_funds,
            nonce: 0,
            code: Vec::new(),
        },
    );
    let slot = mapping_storage_slot(&sandwich.to_word(), &U256::from_u64(BALANCE_MAPPING_SLOT));
    injections.push(StateInjection::Storage { address: base_token, slot, value: sandwich_start_bal });
    injections
}

} // verus!
