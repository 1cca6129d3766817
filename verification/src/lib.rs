//! Reward accrual for staking pools: the policy formulas, the ledger of
//! aggregate staked supply they read, and the pool and participant records
//! that drive them. Every computation is integer-only and overflow-checked.

pub mod error;
pub mod history;
pub mod params;
pub mod reward;
pub mod claimer;
pub mod state;
