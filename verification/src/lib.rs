//! A threshold-signature wallet core: a fixed set of two or three owners
//! collectively approves owner-set changes, threshold changes, and value
//! transfers through a single-slot proposal/voting/execution state machine.
//!
//! The crate is organised bottom-up: [`state`] holds the persisted records and
//! their invariant, [`derivation`] binds a wallet to its deterministic storage
//! address, [`instruction`] decodes the wire payload, and [`processor`] runs
//! the state transitions. [`laws`] states and proves the properties the
//! machine guarantees across calls.

pub mod derivation;
pub mod error;
pub mod instruction;
pub mod laws;
pub mod processor;
pub mod state;
