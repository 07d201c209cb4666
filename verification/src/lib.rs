//! Liquidity pools as one abstraction: fixed-point prices, swap simulation and
//! reserve synchronisation, with every computation proved against its contract.

pub mod amm;
pub mod errors;
pub mod types;
