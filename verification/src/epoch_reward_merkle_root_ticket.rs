//! The vote of one operator for one epoch: the root that the operator
//! stands for, and the stakes that back the vote.

use crate::address::{
    derives, find_address, key_seed, program_address, seed_bytes, AccountError,
};
use crate::merkle_root::MerkleRoot;
use crate::pubkey::Pubkey;
use crate::token_table::StakeTable;
use vstd::bytes::{spec_u64_to_le_bytes, u64_to_le_bytes};
use vstd::prelude::*;
use vstd::string::*;

verus! {

/// The ticket of an operator. Its root is all zero until the operator has
/// voted.
#[derive(Debug, Clone, Copy)]
pub struct EpochRewardMerkleRootTicket {
    /// The network that the vote is cast in.
    pub ncn: Pubkey,
    /// The operator who votes.
    pub operator: Pubkey,
    /// The slot at which the ticket was made.
    pub ncn_slot: u64,
    /// The root that the operator stands for.
    pub root: MerkleRoot,
    /// The stakes behind the vote, by asset.
    pub stake_table: StakeTable,
}

impl EpochRewardMerkleRootTicket {
    /// The operator has voted: the root is not all zero.
    pub open spec fn spec_has_voted(&self) -> bool {
        !self.root.spec_is_empty()
    }

    /// The seeds of the address of the ticket of an operator for an epoch.
    pub open spec fn spec_seeds(ncn: Pubkey, operator: Pubkey, ncn_epoch: u64) -> Seq<Seq<u8>> {
        seq![
            "EPOCH_MERKLE_ROOT_TICKET".spec_bytes(),
            ncn@,
            operator@,
            spec_u64_to_le_bytes(ncn_epoch),
        ]
    }

    /// A ticket on which no vote has been cast and no stake recorded.
    pub fn new(ncn: Pubkey, operator: Pubkey, ncn_slot: u64) -> (ticket: Self)
        ensures
            ticket.ncn == ncn,
            ticket.operator == operator,
            ticket.ncn_slot == ncn_slot,
            !ticket.spec_has_voted(),
            ticket.stake_table.is_unused(),
            ticket.stake_table.wf(),
    {
        Self {
            ncn,
            operator,
            ncn_slot,
            root: MerkleRoot::default(),
            stake_table: StakeTable::new(),
        }
    }

    /// The seeds of the address of the ticket: the namespace, the network,
    /// the operator and the epoch in little-endian bytes.
    pub fn seeds(ncn: &Pubkey, operator: &Pubkey, ncn_epoch: u64) -> (seeds: Vec<Vec<u8>>)
        ensures
            seed_bytes(&seeds) == Self::spec_seeds(*ncn, *operator, ncn_epoch),
    {
        let mut seeds: Vec<Vec<u8>> = Vec::new();
        seeds.push("EPOCH_MERKLE_ROOT_TICKET".as_bytes_vec());
        seeds.push(key_seed(ncn));
        seeds.push(key_seed(operator));
        seeds.push(u64_to_le_bytes(ncn_epoch));
        assert(seed_bytes(&seeds) =~= Self::spec_seeds(*ncn, *operator, ncn_epoch));
        seeds
    }

    /// The address of the ticket, with its bump seed and the seeds it was
    /// derived from.
    pub fn find_program_address(
        program_id: &Pubkey,
        ncn: &Pubkey,
        operator: &Pubkey,
        ncn_epoch: u64,
    ) -> (found: (Pubkey, u8, Vec<Vec<u8>>))
        requires
            program_address(Self::spec_seeds(*ncn, *operator, ncn_epoch), program_id@) is Some,
        ensures
            seed_bytes(&found.2) == Self::spec_seeds(*ncn, *operator, ncn_epoch),
            derives(Self::spec_seeds(*ncn, *operator, ncn_epoch), *program_id, found.0, found.1),
    {
        let seeds = Self::seeds(ncn, operator, ncn_epoch);
        let (pda, bump) = find_address(&seeds, program_id).unwrap();
        (pda, bump, seeds)
    }

    /// The address of the ticket as
    /// [`EpochRewardMerkleRootTicket::find_program_address`] gives it, and
    /// `None` where the seeds derive no address.
    pub fn try_find_program_address(
        program_id: &Pubkey,
        ncn: &Pubkey,
        operator: &Pubkey,
        ncn_epoch: u64,
    ) -> (found: Option<(Pubkey, u8, Vec<Vec<u8>>)>)
        ensures
            found is Some <==> program_address(
                Self::spec_seeds(*ncn, *operator, ncn_epoch),
                program_id@,
            ) is Some,
            found matches Some(f) ==> seed_bytes(&f.2) == Self::spec_seeds(
                *ncn,
                *operator,
                ncn_epoch,
            ) && derives(Self::spec_seeds(*ncn, *operator, ncn_epoch), *program_id, f.0, f.1),
    {
        let seeds = Self::seeds(ncn, operator, ncn_epoch);
        if find_address(&seeds, program_id).is_some() {
            Some(Self::find_program_address(program_id, ncn, operator, ncn_epoch))
        } else {
            None
        }
    }

    /// Checks that the ticket is the one of `operator`.
    pub fn check_operator(&self, operator: &Pubkey) -> (r: Result<(), AccountError>)
        ensures
            r == if self.operator == *operator {
                Ok::<(), AccountError>(())
            } else {
                Err::<(), AccountError>(AccountError::InvalidAccountData)
            },
    {
        if self.operator != *operator {
            return Err(AccountError::InvalidAccountData);
        }
        Ok(())
    }

    /// Tells whether the operator has voted.
    #[verifier::when_used_as_spec(spec_has_voted)]
    pub fn has_voted(&self) -> (voted: bool)
        ensures
            voted == self.spec_has_voted(),
    {
        !self.root.is_empty()
    }

    /// Casts the vote: records the root and the stakes that back it. Whether
    /// the operator has voted before is for the caller to ask.
    pub fn submit(&mut self, root: MerkleRoot, stake_table: StakeTable)
        ensures
            *final(self) == (EpochRewardMerkleRootTicket { root, stake_table, ..*old(self) }),
            final(self).spec_has_voted() == !root.spec_is_empty(),
    {
        self.root = root;
        self.stake_table = stake_table;
    }
}

} // verus!
