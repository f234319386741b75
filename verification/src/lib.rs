//! A supply-chain provenance registry: role-gated registration of users,
//! products and partners, an append-only event ledger per product, and the
//! status and score terms derived from that ledger.
//!
//! The registry is [`store::EntityStore`]. What it holds is the mathematical
//! state [`model::StoreState`], every operation is stated as a function on
//! that state in [`model`], and [`laws`] proves what holds of those functions
//! in every state and over any sequence of operations.
//!
//! The registry reads no clock and asks no host who is calling: every
//! operation takes the caller's identity and the time as arguments. It does
//! no arithmetic on binary64 numbers: it stores a score as its bit pattern
//! and hands out the integer terms of a derived score.

pub mod errors;
pub mod laws;
pub mod model;
pub mod order;
pub mod roles;
pub mod search;
pub mod storage;
pub mod store;
pub mod table;
pub mod types;
pub mod utils;
