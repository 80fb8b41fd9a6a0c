//! The marker of a payout. A marker holds nothing: that it exists at its
//! address is the proof that the payout has been made.

use crate::address::{derives, find_address, key_seed, program_address, seed_bytes};
use crate::pubkey::Pubkey;
use vstd::bytes::{spec_u64_to_le_bytes, u64_to_le_bytes};
use vstd::prelude::*;
use vstd::string::*;

verus! {

/// The marker of one payout.
#[derive(Debug, Clone, Copy, PartialEq, Eq, Structural)]
pub struct EpochRewardDistributionMarker {}

impl EpochRewardDistributionMarker {
    /// The seeds of the address of the marker of the payout of one asset to
    /// one recipient from the record of one epoch.
    pub open spec fn spec_seeds(
        epoch_reward_merkle_root: Pubkey,
        mint: Pubkey,
        recipient: Pubkey,
        ncn_epoch: u64,
    ) -> Seq<Seq<u8>> {
        seq![
            "EPOCH_REWARD_DISTRIBUTION_MARKER".spec_bytes(),
            epoch_reward_merkle_root@,
            mint@,
            recipient@,
            spec_u64_to_le_bytes(ncn_epoch),
        ]
    }

    /// The seeds of the address of the marker: the namespace, the record of
    /// the epoch, the asset, the recipient and the epoch in little-endian
    /// bytes.
    pub fn seeds(
        epoch_reward_merkle_root: &Pubkey,
        mint: &Pubkey,
        recipient: &Pubkey,
        ncn_epoch: u64,
    ) -> (seeds: Vec<Vec<u8>>)
        ensures
            seed_bytes(&seeds) == Self::spec_seeds(
                *epoch_reward_merkle_root,
                *mint,
                *recipient,
                ncn_epoch,
            ),
    {
        let mut seeds: Vec<Vec<u8>> = Vec::new();
        seeds.push("EPOCH_REWARD_DISTRIBUTION_MARKER".as_bytes_vec());
        seeds.push(key_seed(epoch_reward_merkle_root));
        seeds.push(key_seed(mint));
        seeds.push(key_seed(recipient));
        seeds.push(u64_to_le_bytes(ncn_epoch));
        assert(seed_bytes(&seeds) =~= Self::spec_seeds(
            *epoch_reward_merkle_root,
            *mint,
            *recipient,
            ncn_epoch,
        ));
        seeds
    }

    /// The address of the marker, with its bump seed and the seeds it was
    /// derived from.
    pub fn find_program_address(
        program_id: &Pubkey,
        epoch_reward_merkle_root: &Pubkey,
        mint: &Pubkey,
        recipient: &Pubkey,
        ncn_epoch: u64,
    ) -> (found: (Pubkey, u8, Vec<Vec<u8>>))
        requires
            program_address(
                Self::spec_seeds(*epoch_reward_merkle_root, *mint, *recipient, ncn_epoch),
                program_id@,
            ) is Some,
        ensures
            seed_bytes(&found.2) == Self::spec_seeds(
                *epoch_reward_merkle_root,
                *mint,
                *recipient,
                ncn_epoch,
            ),
            derives(
                Self::spec_seeds(*epoch_reward_merkle_root, *mint, *recipient, ncn_epoch),
                *program_id,
                found.0,
                found.1,
            ),
    {
        let seeds = Self::seeds(epoch_reward_merkle_root, mint, recipient, ncn_epoch);
        let (pda, bump) = find_address(&seeds, program_id).unwrap();
        (pda, bump, seeds)
    }

    /// The address of the marker as
    /// [`EpochRewardDistributionMarker::find_program_address`] gives it, and
    /// `None` where the seeds derive no address.
    pub fn try_find_program_address(
        program_id: &Pubkey,
        epoch_reward_merkle_root: &Pubkey,
        mint: &Pubkey,
        recipient: &Pubkey,
        ncn_epoch: u64,
    ) -> (found: Option<(Pubkey, u8, Vec<Vec<u8>>)>)
        ensures
            found is Some <==> program_address(
                Self::spec_seeds(*epoch_reward_merkle_root, *mint, *recipient, ncn_epoch),
                program_id@,
            ) is Some,
            found matches Some(f) ==> seed_bytes(&f.2) == Self::spec_seeds(
                *epoch_reward_merkle_root,
                *mint,
                *recipient,
                ncn_epoch,
            ) && derives(
                Self::spec_seeds(*epoch_reward_merkle_root, *mint, *recipient, ncn_epoch),
                *program_id,
                f.0,
                f.1,
            ),
    {
        let seeds = Self::seeds(epoch_reward_merkle_root, mint, recipient, ncn_epoch);
        if find_address(&seeds, program_id).is_some() {
            Some(
                Self::find_program_address(
                    program_id,
                    epoch_reward_merkle_root,
                    mint,
                    recipient,
                    ncn_epoch,
                ),
            )
        } else {
            None
        }
    }
}

} // verus!
