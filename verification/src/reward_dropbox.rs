//! The dropbox of a network: where rewards wait that arrived before the
//! record of their epoch existed.

use crate::address::{derives, find_address, key_seed, program_address, seed_bytes};
use crate::epoch_reward_merkle_root::EpochRewardMerkleRoot;
use crate::error::RewardCoreError;
use crate::pubkey::Pubkey;
use crate::token_table::TokenTable;
use vstd::prelude::*;
use vstd::string::*;

verus! {

/// The rewards that wait for an epoch, by asset.
#[derive(Debug, Clone, Copy)]
pub struct RewardDropbox {
    pub rewards: TokenTable,
}

impl RewardDropbox {
    /// The seeds of the address of the dropbox of a network.
    pub open spec fn spec_seeds(ncn: Pubkey) -> Seq<Seq<u8>> {
        seq!["REWARD_DROPBOX".spec_bytes(), ncn@]
    }

    /// A dropbox without rewards.
    pub fn new() -> (dropbox: Self)
        ensures
            dropbox.rewards.is_unused(),
            dropbox.rewards.wf(),
    {
        Self { rewards: TokenTable::new() }
    }

    /// The seeds of the address of the dropbox: the namespace and the
    /// network.
    pub fn seeds(ncn: &Pubkey) -> (seeds: Vec<Vec<u8>>)
        ensures
            seed_bytes(&seeds) == Self::spec_seeds(*ncn),
    {
        let mut seeds: Vec<Vec<u8>> = Vec::new();
        seeds.push("REWARD_DROPBOX".as_bytes_vec());
        seeds.push(key_seed(ncn));
        assert(seed_bytes(&seeds) =~= Self::spec_seeds(*ncn));
        seeds
    }

    /// The address of the dropbox, with its bump seed and the seeds it was
    /// derived from.
    pub fn find_program_address(program_id: &Pubkey, ncn: &Pubkey) -> (found: (
        Pubkey,
        u8,
        Vec<Vec<u8>>,
    ))
        requires
            program_address(Self::spec_seeds(*ncn), program_id@) is Some,
        ensures
            seed_bytes(&found.2) == Self::spec_seeds(*ncn),
            derives(Self::spec_seeds(*ncn), *program_id, found.0, found.1),
    {
        let seeds = Self::seeds(ncn);
        let (pda, bump) = find_address(&seeds, program_id).unwrap();
        (pda, bump, seeds)
    }

    /// The address of the dropbox as [`RewardDropbox::find_program_address`]
    /// gives it, and `None` where the seeds derive no address.
    pub fn try_find_program_address(program_id: &Pubkey, ncn: &Pubkey) -> (found: Option<
        (Pubkey, u8, Vec<Vec<u8>>),
    >)
        ensures
            found is Some <==> program_address(Self::spec_seeds(*ncn), program_id@) is Some,
            found matches Some(f) ==> seed_bytes(&f.2) == Self::spec_seeds(*ncn) && derives(
                Self::spec_seeds(*ncn),
                *program_id,
                f.0,
                f.1,
            ),
    {
        let seeds = Self::seeds(ncn);
        if find_address(&seeds, program_id).is_some() {
            Some(Self::find_program_address(program_id, ncn))
        } else {
            None
        }
    }

    /// Hands the rewards of the dropbox on to the record of the latest
    /// epoch: every amount is added to the rewards of that epoch, and the
    /// dropbox is left without rewards. Where the amounts cannot be added,
    /// nothing changes.
    pub fn dropbox_to_latest(&mut self, latest: &mut EpochRewardMerkleRoot) -> (r: Result<
        (),
        RewardCoreError,
    >)
        requires
            old(self).rewards.wf(),
            old(latest).wf(),
        ensures
            r == old(latest).rewards.merge_outcome(&old(self).rewards),
            r is Err ==> *final(self) == *old(self) && *final(latest) == *old(latest),
            r is Ok ==> {
                &&& *final(latest) == (EpochRewardMerkleRoot {
                    rewards: final(latest).rewards,
                    ..*old(latest)
                })
                &&& final(latest).rewards.is_merge_of(&old(latest).rewards, &old(self).rewards)
                &&& final(latest).wf()
                &&& final(self).rewards.is_unused()
            },
    {
        let mut rewards = latest.rewards;
        rewards.checked_merge(&self.rewards)?;
        latest.rewards = rewards;
        self.rewards = TokenTable::new();
        Ok(())
    }
}

} // verus!
