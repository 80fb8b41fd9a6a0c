//! The normalized prices of the assets of one epoch. Prices are staged in
//! the table until they have been verified; before that nobody may rely on
//! them.

use crate::address::{derives, find_address, key_seed, program_address, seed_bytes};
use crate::pubkey::Pubkey;
use crate::token_table::EpochPriceTable;
use vstd::bytes::{spec_u64_to_le_bytes, u64_to_le_bytes};
use vstd::prelude::*;
use vstd::string::*;

verus! {

/// The prices of one network for one epoch.
#[derive(Debug, Clone, Copy)]
pub struct EpochRewardPriceTable {
    /// The network that the prices belong to.
    pub ncn: Pubkey,
    /// Who may write prices.
    pub update_authority: Pubkey,
    /// The slot at which the table was made.
    pub ncn_slot: u64,
    /// Whether the prices have been verified.
    pub verified: bool,
    /// The prices by asset.
    pub table: EpochPriceTable,
}

impl EpochRewardPriceTable {
    /// The number of slots.
    pub const MAX_TABLE_ENTRIES: usize = 32;

    /// The seeds of the address of the price table of a network and an epoch.
    pub open spec fn spec_seeds(ncn: Pubkey, ncn_epoch: u64) -> Seq<Seq<u8>> {
        seq!["EPOCH_PRICE_TABLE".spec_bytes(), ncn@, spec_u64_to_le_bytes(ncn_epoch)]
    }

    /// The price that may be relied on for an asset: what the table finds
    /// for it once the prices have been verified, and nothing before.
    pub open spec fn spec_verified_price(&self, mint: Pubkey) -> Option<u64> {
        if self.verified {
            self.table.spec_find_value(mint)
        } else {
            None
        }
    }

    /// A table without prices that has not been verified.
    pub fn new(ncn: Pubkey, update_authority: Pubkey, ncn_slot: u64) -> (prices: Self)
        ensures
            prices.ncn == ncn,
            prices.update_authority == update_authority,
            prices.ncn_slot == ncn_slot,
            !prices.verified,
            prices.table.is_unused(),
            prices.table.wf(),
    {
        Self { ncn, update_authority, ncn_slot, verified: false, table: EpochPriceTable::new() }
    }

    /// The seeds of the address of the price table: the namespace, the
    /// network and the epoch in little-endian bytes.
    pub fn seeds(ncn: &Pubkey, ncn_epoch: u64) -> (seeds: Vec<Vec<u8>>)
        ensures
            seed_bytes(&seeds) == Self::spec_seeds(*ncn, ncn_epoch),
    {
        let mut seeds: Vec<Vec<u8>> = Vec::new();
        seeds.push("EPOCH_PRICE_TABLE".as_bytes_vec());
        seeds.push(key_seed(ncn));
        seeds.push(u64_to_le_bytes(ncn_epoch));
        assert(seed_bytes(&seeds) =~= Self::spec_seeds(*ncn, ncn_epoch));
        seeds
    }

    /// The address of the price table, with its bump seed and the seeds it
    /// was derived from.
    pub fn find_program_address(program_id: &Pubkey, ncn: &Pubkey, ncn_epoch: u64) -> (found: (
        Pubkey,
        u8,
        Vec<Vec<u8>>,
    ))
        requires
            program_address(Self::spec_seeds(*ncn, ncn_epoch), program_id@) is Some,
        ensures
            seed_bytes(&found.2) == Self::spec_seeds(*ncn, ncn_epoch),
            derives(Self::spec_seeds(*ncn, ncn_epoch), *program_id, found.0, found.1),
    {
        let seeds = Self::seeds(ncn, ncn_epoch);
        let (pda, bump) = find_address(&seeds, program_id).unwrap();
        (pda, bump, seeds)
    }

    /// The address of the price table as
    /// [`EpochRewardPriceTable::find_program_address`] gives it, and `None`
    /// where the seeds derive no address.
    pub fn try_find_program_address(program_id: &Pubkey, ncn: &Pubkey, ncn_epoch: u64) -> (found:
        Option<(Pubkey, u8, Vec<Vec<u8>>)>)
        ensures
            found is Some <==> program_address(Self::spec_seeds(*ncn, ncn_epoch), program_id@)
                is Some,
            found matches Some(f) ==> seed_bytes(&f.2) == Self::spec_seeds(*ncn, ncn_epoch)
                && derives(Self::spec_seeds(*ncn, ncn_epoch), *program_id, f.0, f.1),
    {
        let seeds = Self::seeds(ncn, ncn_epoch);
        if find_address(&seeds, program_id).is_some() {
            Some(Self::find_program_address(program_id, ncn, ncn_epoch))
        } else {
            None
        }
    }

    /// Marks the prices as verified. From then on they may be relied on.
    pub fn mark_verified(&mut self)
        ensures
            *final(self) == (EpochRewardPriceTable { verified: true, ..*old(self) }),
    {
        self.verified = true;
    }

    /// The price of an asset, once the prices have been verified. Before
    /// that the answer is `None` whatever the table holds.
    pub fn verified_price(&self, mint: &Pubkey) -> (price: Option<u64>)
        ensures
            price == self.spec_verified_price(*mint),
    {
        if !self.verified {
            return None;
        }
        self.table.find_value(mint)
    }
}

} // verus!
