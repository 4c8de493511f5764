//! The decision core of a sandwich evaluator for constant-product and
//! concentrated-liquidity pools.
//!
//! Given a pool and the pending transactions that will trade against it,
//! the evaluator looks for the frontrun input that earns the most and
//! builds the recipe of the sandwich at that input: the two transactions of
//! the bot with their access lists and gas, the victims that go through,
//! and the revenue.
//!
//! Everything here works on plain values. Running a transaction against
//! forked chain state is the caller's job: the sessions in [`revenue`] and
//! [`recipe`] say which transaction to run next and decide on the outcome,
//! and [`search`] narrows the input range on the revenues it is given.
//!
//! - [`uint`], [`abi`]: 256-bit integers, and words in call data.
//! - [`amm`], [`codec`]: the pool's arithmetic and the contract's amount
//!   encodings.
//! - [`types`], [`protocol`]: the data of a simulation, and what passes
//!   between a session and the simulator.
//! - [`calls`], [`fork`], [`safety`]: the read-only queries, the set-up of a
//!   fork, and the opcode audit.
//! - [`search`], [`revenue`], [`recipe`]: the search, and the two
//!   simulations.
//! - [`collector`]: the handle on the mempool subscription.

pub mod abi;
pub mod amm;
pub mod calls;
pub mod codec;
pub mod collector;
pub mod fork;
pub mod protocol;
pub mod recipe;
pub mod revenue;
pub mod safety;
pub mod search;
pub mod types;
pub mod uint;
