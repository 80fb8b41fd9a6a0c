//! The instructions that the two programs take.

use crate::merkle_root::MerkleRoot;
use vstd::prelude::*;

verus! {

/// The instructions of the reward program.
#[derive(Debug, Clone, Copy)]
pub enum RewardInstruction {
    /// Makes the policy of a network.
    InitializeConfig { valid_voting_slots: u64, slots_before_closing_marker_accounts: u64 },
    /// Makes the record of the current epoch.
    InitializeEpochRewardMerkleRoot,
    /// Makes the ticket of an operator for the current epoch.
    InitializeEpochRewardMerkleRootTicket,
    /// Records the stakes of an operator on its ticket.
    UpdateTicketStake,
    /// Casts the vote of an operator for a root.
    SubmitTicket { root: MerkleRoot },
    /// Adds rewards to the record of an epoch.
    DepositRewards,
    /// Slashes where the conditions for it are met.
    Slash,
    /// Hands the rewards of the dropbox on to the record of the latest
    /// epoch.
    DropboxToLatest,
    /// Hands the rewards of an epoch without consensus on to the current
    /// epoch.
    DelinquentToLatest,
    /// Pays rewards out of the record of an epoch with consensus.
    DistributeCrank,
    /// Gives up the markers of payouts that are old enough.
    CloseMarkerAccounts,
}

/// The instructions of the weight table program.
#[derive(Debug, Clone, Copy, PartialEq, Eq, Structural)]
pub enum WeightTableInstruction {
    /// Makes the weight table of the current epoch.
    InitializeWeightTable { first_slot_of_ncn_epoch: Option<u64> },
    /// Writes the weight of an asset.
    UpdateWeightTable { ncn_epoch: u64, weight_numerator: u64, weight_denominator: u64 },
    /// Finalizes the weight table of an epoch.
    FinalizeWeightTable { ncn_epoch: u64 },
}

} // verus!
