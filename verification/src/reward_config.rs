//! The policy of one network: for how long votes are taken after an epoch
//! has started, and for how long the markers of payouts are kept.

use crate::address::{
    derives, find_address, key_seed, program_address, seed_bytes, Account, AccountError,
};
use crate::discriminators::Discriminators;
use crate::epoch_reward_merkle_root::EpochRewardMerkleRoot;
use crate::pubkey::Pubkey;
use vstd::prelude::*;
use vstd::string::*;

verus! {

/// The policy of one network.
#[derive(Debug, Clone, Copy)]
pub struct RewardConfig {
    /// The network that the policy belongs to.
    pub ncn: Pubkey,
    /// Who may change the policy.
    pub admin: Pubkey,
    /// The number of slots after the start of an epoch in which votes are
    /// taken.
    pub valid_voting_slots: u64,
    /// The number of slots after the end of voting for which the markers of
    /// payouts are kept.
    pub slots_before_closing_marker_accounts: u64,
}

impl RewardConfig {
    /// The number of bytes of a stored policy after its eight leading bytes:
    /// two identifiers with 32 bytes each and two numbers with 8 each.
    pub open spec fn spec_stored_len() -> nat {
        32 + 32 + 8 + 8
    }

    /// The seeds of the address of the policy of a network.
    pub open spec fn spec_seeds(ncn: Pubkey) -> Seq<Seq<u8>> {
        seq!["REWARD_CONFIG".spec_bytes(), ncn@]
    }

    /// The markers of the payouts of an epoch may be given up at
    /// `current_slot`: the time for which they are kept has passed since
    /// voting for the epoch ended.
    pub open spec fn spec_can_close_marker_accounts(
        &self,
        record: &EpochRewardMerkleRoot,
        current_slot: u64,
    ) -> bool {
        current_slot >= record.spec_voting_cutoff(self.valid_voting_slots)
            + self.slots_before_closing_marker_accounts
    }

    /// The outcome of loading `account` as the policy of the network `ncn`.
    pub open spec fn spec_load(
        program_id: Pubkey,
        ncn: Pubkey,
        account: Account,
        expect_writable: bool,
    ) -> Result<(), AccountError> {
        match account.spec_inspect(
            program_id,
            Discriminators::RewardConfig.spec_value(),
            expect_writable,
        ) {
            Err(e) => Err(e),
            Ok(()) => if program_address(Self::spec_seeds(ncn), program_id@) matches Some(
                (address, _),
            ) && account.key@ == address {
                Ok(())
            } else {
                Err(AccountError::InvalidAccountData)
            },
        }
    }

    /// The number of bytes that a stored policy takes.
    pub fn size() -> (bytes: u64)
        ensures
            bytes == 8 + Self::spec_stored_len(),
    {
        8 + (32 + 32 + 8 + 8)
    }

    /// The policy of a network.
    pub fn new(
        ncn: &Pubkey,
        admin: &Pubkey,
        valid_voting_slots: u64,
        slots_before_closing_marker_accounts: u64,
    ) -> (config: Self)
        ensures
            config == (RewardConfig {
                ncn: *ncn,
                admin: *admin,
                valid_voting_slots,
                slots_before_closing_marker_accounts,
            }),
    {
        Self { ncn: *ncn, admin: *admin, valid_voting_slots, slots_before_closing_marker_accounts }
    }

    /// The seeds of the address of the policy: the namespace and the
    /// network.
    pub fn seeds(ncn: &Pubkey) -> (seeds: Vec<Vec<u8>>)
        ensures
            seed_bytes(&seeds) == Self::spec_seeds(*ncn),
    {
        let mut seeds: Vec<Vec<u8>> = Vec::new();
        seeds.push("REWARD_CONFIG".as_bytes_vec());
        seeds.push(key_seed(ncn));
        assert(seed_bytes(&seeds) =~= Self::spec_seeds(*ncn));
        seeds
    }

    /// The address of the policy, with its bump seed and the seeds it was
    /// derived from.
    pub fn find_program_address(program_id: &Pubkey, ncn: &Pubkey) -> (found: (
        Pubkey,
        u8,
        Vec<Vec<u8>>,
    ))
        requires
            program_address(Self::spec_seeds(*ncn), program_id@) is Some,
        ensures
            seed_bytes(&found.2) == Self::spec_seeds(*ncn),
            derives(Self::spec_seeds(*ncn), *program_id, found.0, found.1),
    {
        let seeds = Self::seeds(ncn);
        let (pda, bump) = find_address(&seeds, program_id).unwrap();
        (pda, bump, seeds)
    }

    /// The address of the policy as [`RewardConfig::find_program_address`]
    /// gives it, and `None` where the seeds derive no address.
    pub fn try_find_program_address(program_id: &Pubkey, ncn: &Pubkey) -> (found: Option<
        (Pubkey, u8, Vec<Vec<u8>>),
    >)
        ensures
            found is Some <==> program_address(Self::spec_seeds(*ncn), program_id@) is Some,
            found matches Some(f) ==> seed_bytes(&f.2) == Self::spec_seeds(*ncn) && derives(
                Self::spec_seeds(*ncn),
                *program_id,
                f.0,
                f.1,
            ),
    {
        let seeds = Self::seeds(ncn);
        if find_address(&seeds, program_id).is_some() {
            Some(Self::find_program_address(program_id, ncn))
        } else {
            None
        }
    }

    /// Checks that `account` is the stored policy of the network `ncn`:
    /// owned by the program, not empty, writable where that is expected,
    /// tagged as a policy, and stored at the address that the network
    /// derives.
    pub fn load(program_id: &Pubkey, ncn: &Pubkey, account: &Account, expect_writable: bool) -> (r:
        Result<(), AccountError>)
        requires
            program_address(Self::spec_seeds(*ncn), program_id@) is Some,
        ensures
            r == Self::spec_load(*program_id, *ncn, *account, expect_writable),
    {
        account.inspect(program_id, Discriminators::RewardConfig.value(), expect_writable)?;
        let expected = Self::find_program_address(program_id, ncn).0;
        proof {
            Pubkey::lemma_view(account.key, expected);
        }
        if account.key != expected {
            return Err(AccountError::InvalidAccountData);
        }
        Ok(())
    }

    /// Checks the stored policy as [`RewardConfig::load`] does, and answers
    /// `None` where the network derives no address.
    pub fn try_load(
        program_id: &Pubkey,
        ncn: &Pubkey,
        account: &Account,
        expect_writable: bool,
    ) -> (r: Option<Result<(), AccountError>>)
        ensures
            r is Some <==> program_address(Self::spec_seeds(*ncn), program_id@) is Some,
            r matches Some(loaded) ==> loaded == Self::spec_load(
                *program_id,
                *ncn,
                *account,
                expect_writable,
            ),
    {
        if Self::try_find_program_address(program_id, ncn).is_some() {
            Some(Self::load(program_id, ncn, account, expect_writable))
        } else {
            None
        }
    }

    /// Tells whether the markers of the payouts of an epoch may be given up
    /// at `current_slot`: whether the time for which they are kept has
    /// passed since voting for the epoch ended.
    #[verifier::when_used_as_spec(spec_can_close_marker_accounts)]
    pub fn can_close_marker_accounts(&self, record: &EpochRewardMerkleRoot, current_slot: u64) -> (r:
        bool)
        ensures
            r == self.spec_can_close_marker_accounts(record, current_slot),
    {
        let open_until: u128 = record.ncn_epoch as u128 + self.valid_voting_slots as u128
            + self.slots_before_closing_marker_accounts as u128;
        current_slot as u128 >= open_until
    }
}

} // verus!
