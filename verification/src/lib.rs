//! Stake-weighted consensus over reward payout roots, with the exact
//! arithmetic, fixed-capacity tables and once-only payout rules around it.
//!
//! The operators of a network vote, epoch by epoch, for the root of a payout
//! plan. Each vote is backed by stakes, each stake counts with the weight of
//! its asset, and the root with the greatest weighted stake is the consensus
//! root of the epoch. Rewards are then paid out pair by pair, each pair of
//! asset and recipient once; an epoch without consensus hands its rewards on.
//!
//! - [`weight`] and [`gcd`]: exact fractions of 64-bit numbers.
//! - [`token_table`] and [`weight_table`]: tables of 32 slots that map
//!   assets to amounts and to weights.
//! - [`epoch_reward_merkle_root_ticket`] and [`epoch_reward_merkle_root`]:
//!   the votes, their aggregation and the choice of the consensus root.
//! - [`distribution`], [`reward_dropbox`] and
//!   [`epoch_reward_distribution_marker`]: the way from consensus to payout.
//! - [`reward_config`], [`redacted_config`] and [`epoch_reward_price_table`]:
//!   policies and prices.
//! - [`address`], [`pubkey`], [`merkle_root`] and [`discriminators`]:
//!   identifiers, derived addresses and the tags of stored records.
//! - [`restaking_helpers`], [`instruction`] and [`error`]: what the programs
//!   around the library need besides.

pub mod address;
pub mod discriminators;
pub mod distribution;
pub mod epoch_reward_distribution_marker;
pub mod epoch_reward_merkle_root;
pub mod epoch_reward_merkle_root_ticket;
pub mod epoch_reward_price_table;
pub mod error;
pub mod gcd;
pub mod instruction;
pub mod merkle_root;
pub mod pubkey;
pub mod redacted_config;
pub mod restaking_helpers;
pub mod reward_config;
pub mod reward_dropbox;
pub mod token_table;
pub mod weight;
pub mod weight_table;
