//! Message types of the voting registry that describe its vaults.

use vstd::prelude::*;

verus! {

/// Queries that the voting registry sends to a voting vault.
pub enum VaultQueryMsg {
    /// The vault's configuration.
    Config {},
    /// Voting power of `address` at `height` (the current height when absent).
    VotingPowerAtHeight { address: String, height: Option<u64> },
    /// Total voting power at `height` (the current height when absent).
    TotalPowerAtHeight { height: Option<u64> },
    /// Contract name and version of the vault.
    Info {},
}

/// A voting vault registered with the voting registry.
pub struct VotingVault {
    pub address: String,
    pub name: String,
    pub description: String,
}

} // verus!
