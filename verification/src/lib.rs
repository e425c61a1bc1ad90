//! monero_wallet_backend: the coordinator between the wallet surfaces and the wallet engine.
//!
//! It keeps the wallet registry, follows the engine's jobs, turns sync and balances into events,
//! normalises history, and takes a send from build through review to broadcast. It holds no key
//! material and keeps no password. What it decides is here; who calls the engine, reads the clock
//! and touches files hands in what came back and carries out what is returned.

pub mod backend;
pub mod gate;
pub mod json;
pub mod model;
pub mod ordered;
pub mod text;
