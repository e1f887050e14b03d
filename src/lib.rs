//! Governance-and-staking accounting engine: the state-transition rules of a
//! token-staking ledger, a voting-power registry and a proposal ledger, stated
//! over plain values and proved free of overflow.

pub mod address;
pub mod governance;
pub mod registry;
pub mod staking;
