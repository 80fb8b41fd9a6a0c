//! The one-byte tags that tell the kinds of stored records apart. The tag is
//! the first byte of a stored record.

use vstd::prelude::*;

verus! {

/// The tag of a stored weight table.
pub const WEIGHT_TABLE_DISCRIMINATOR: u8 = 2;

/// The tag of the stored configuration of the weight table program.
pub const CONFIG_DISCRIMINATOR: u8 = 3;

/// The tag of a stored price table.
pub const EPOCH_PRICE_TABLE_DISCRIMINATOR: u8 = 0;

/// The tag of the stored record of an epoch.
pub const EPOCH_REWARD_MERKLE_ROOT_DISCRIMINATOR: u8 = 1;

/// The tag of a stored ticket.
pub const EPOCH_REWARD_MERKLE_ROOT_TICKET_DISCRIMINATOR: u8 = 2;

/// The tag of a stored marker.
pub const EPOCH_REWARD_DISTRIBUTION_MARKER_DISCRIMINATOR: u8 = 3;

/// The tag of a stored dropbox.
pub const REWARD_DROPBOX_DISCRIMINATOR: u8 = 4;

/// The tag of a stored policy.
pub const REWARD_CONFIG_DISCRIMINATOR: u8 = 5;

/// The kinds of records of the reward program.
#[derive(Debug, Clone, Copy, PartialEq, Eq, Structural)]
pub enum Discriminators {
    EpochPriceTable,
    EpochRewardMerkleRoot,
    EpochRewardMerkleRootTicket,
    EpochRewardDistributionMarker,
    RewardDropbox,
    RewardConfig,
}

impl Discriminators {
    /// The tag of each kind.
    pub open spec fn spec_value(self) -> u8 {
        match self {
            Discriminators::EpochPriceTable => EPOCH_PRICE_TABLE_DISCRIMINATOR,
            Discriminators::EpochRewardMerkleRoot => EPOCH_REWARD_MERKLE_ROOT_DISCRIMINATOR,
            Discriminators::EpochRewardMerkleRootTicket => EPOCH_REWARD_MERKLE_ROOT_TICKET_DISCRIMINATOR,
            Discriminators::EpochRewardDistributionMarker => EPOCH_REWARD_DISTRIBUTION_MARKER_DISCRIMINATOR,
            Discriminators::RewardDropbox => REWARD_DROPBOX_DISCRIMINATOR,
            Discriminators::RewardConfig => REWARD_CONFIG_DISCRIMINATOR,
        }
    }

    /// The tag of this kind.
    #[verifier::when_used_as_spec(spec_value)]
    pub fn value(self) -> (tag: u8)
        ensures
            tag == self.spec_value(),
    {
        match self {
            Discriminators::EpochPriceTable => EPOCH_PRICE_TABLE_DISCRIMINATOR,
            Discriminators::EpochRewardMerkleRoot => EPOCH_REWARD_MERKLE_ROOT_DISCRIMINATOR,
            Discriminators::EpochRewardMerkleRootTicket => EPOCH_REWARD_MERKLE_ROOT_TICKET_DISCRIMINATOR,
            Discriminators::EpochRewardDistributionMarker => EPOCH_REWARD_DISTRIBUTION_MARKER_DISCRIMINATOR,
            Discriminators::RewardDropbox => REWARD_DROPBOX_DISCRIMINATOR,
            Discriminators::RewardConfig => REWARD_CONFIG_DISCRIMINATOR,
        }
    }
}

} // verus!
