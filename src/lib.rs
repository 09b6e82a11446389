//! Per-account payment ledger: balances, the dispute lifecycle, and the
//! re-evaluation of withdrawals that were turned down while a dispute held
//! funds. Amounts are fixed-point integers in ten-thousandths of a unit.

pub mod client;
pub mod record;
pub mod laws;
pub mod processor;
pub mod snapshot;
