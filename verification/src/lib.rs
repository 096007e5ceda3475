//! Verified model of the Mainstay asset registry and maintenance lifecycle
//! contracts: every state transition of both contracts, the collateral
//! scoring rules, the timelocks and the tamper-evident maintenance hash chain.
//!
//! Hashing and XDR encoding are done by the Soroban host (`soroban_sdk`).
pub mod address;
pub mod digest;
pub mod laws;
pub mod lifecycle;
pub mod registry;
pub mod sdk;
pub mod search;
pub mod shared;
pub mod symbol;
pub mod table;
pub mod types;
