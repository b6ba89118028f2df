//! Transaction bundles for a block engine: what they hold, when they may be sent, and what the
//! block engine reports back.
//!
//! - [`instruction`]: instructions as plain values, and their encoding inside another instruction
//! - [`programs`], [`dex`]: the instructions that the on-chain programs' own crates build
//! - [`message`], [`signing`]: what a transaction message says, and who signs it
//! - [`reading`]: reading messages and carried instructions from their bytes
//! - [`bundle`], [`bundle_laws`]: bundles that leave memos and tip the block engine, and what is
//!   read from them
//! - [`market`], [`market_laws`], [`trade_laws`]: bundles that open a market and buy from it, their
//!   laws, and what is read from them
//! - [`leader`], [`stake`], [`stream`]: decisions on what the block engine and the cluster report
//! - [`text`]: lists of texts, numbers in decimal, and bytes in base 58
pub mod bundle;
pub mod bundle_laws;
pub mod dex;
pub mod instruction;
pub mod leader;
pub mod market;
pub mod market_laws;
pub mod message;
pub mod programs;
pub mod reading;
pub mod signing;
pub mod stake;
pub mod stream;
pub mod text;
pub mod trade_laws;
