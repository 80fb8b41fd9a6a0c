//! The table of voting-power weights of one epoch: 32 slots that map asset
//! identifiers to fractions, with the slot at which the table was made and
//! the slot at which it was finalized.
//!
//! A slot whose weight has no denominator is free, so such a weight is
//! never written. The table itself accepts updates at any time. Who updates
//! it has to ask first whether it is finalized.

use crate::address::{
    derives, find_address, key_seed, program_address, seed_bytes, Account, AccountError,
};
use crate::discriminators::WEIGHT_TABLE_DISCRIMINATOR;
use crate::error::WeightTableError;
use crate::pubkey::Pubkey;
use crate::weight::{Ratio, Weight};
use vstd::bytes::{spec_u64_to_le_bytes, u64_to_le_bytes};
use vstd::prelude::*;
use vstd::string::*;

verus! {

/// One slot of a [`WeightTable`].
#[derive(Debug, Clone, Copy)]
pub struct WeightEntry {
    pub mint: Pubkey,
    pub weight: Weight,
}

impl WeightEntry {
    /// The slot is free: its weight has no denominator.
    pub open spec fn spec_is_empty(&self) -> bool {
        self.weight@.den == 0
    }

    /// A free slot as a new table has it: the default identifier and a
    /// weight without numerator and denominator.
    pub open spec fn is_blank(&self) -> bool {
        self.mint.is_default() && self.weight@ == (Ratio { num: 0, den: 0 })
    }

    /// A slot with this identifier and weight.
    pub fn new(mint: Pubkey, weight: Weight) -> (entry: Self)
        ensures
            entry == (WeightEntry { mint, weight }),
    {
        Self { weight, mint }
    }

    /// Tells whether the slot is free.
    #[verifier::when_used_as_spec(spec_is_empty)]
    pub fn is_empty(&self) -> (empty: bool)
        ensures
            empty == self.spec_is_empty(),
    {
        self.weight.denominator() == 0
    }
}

impl Default for WeightEntry {
    /// A free slot.
    fn default() -> (entry: Self)
        ensures
            entry.is_blank(),
    {
        Self { mint: Pubkey::default(), weight: Weight::from_parts(0, 0) }
    }
}

/// Slot `i` is taken and carries the identifier.
pub open spec fn holds_at(slots: Seq<WeightEntry>, mint: Pubkey, i: int) -> bool {
    &&& 0 <= i < slots.len()
    &&& slots[i].mint == mint
    &&& !slots[i].spec_is_empty()
}

/// Slot `i` is the first taken slot that carries the identifier.
pub open spec fn is_first_with(slots: Seq<WeightEntry>, mint: Pubkey, i: int) -> bool {
    &&& holds_at(slots, mint, i)
    &&& forall|j: int| 0 <= j < i ==> !holds_at(slots, mint, j)
}

/// Slot `i` is the first one that carries the identifier or is free.
pub open spec fn is_first_for(slots: Seq<WeightEntry>, mint: Pubkey, i: int) -> bool {
    &&& 0 <= i < slots.len()
    &&& (slots[i].mint == mint || slots[i].spec_is_empty())
    &&& forall|j: int| 0 <= j < i ==> slots[j].mint != mint && !slots[j].spec_is_empty()
}

/// The number of slots that are taken.
pub open spec fn count_taken(slots: Seq<WeightEntry>) -> nat
    decreases slots.len(),
{
    if slots.len() == 0 {
        0
    } else {
        count_taken(slots.drop_last()) + if slots.last().spec_is_empty() {
            0nat
        } else {
            1nat
        }
    }
}

/// Whether a weight table still takes updates.
#[derive(Debug, Clone, Copy, PartialEq, Eq, Structural)]
pub enum WeightTableState {
    /// Weights may be written.
    Open,
    /// The weights stand as they are.
    Finalized,
}

/// The weights of one network for one epoch.
#[derive(Debug, Clone, Copy)]
pub struct WeightTable {
    /// The network that the table belongs to.
    pub ncn: Pubkey,
    /// The epoch for which the weights hold.
    pub ncn_epoch: u64,
    /// The slot at which the table was made.
    pub slot_created: u64,
    /// The slot at which the table was finalized, and `u64::MAX` where it
    /// was not.
    pub slot_finalized: u64,
    /// The bump seed of the address of the table.
    pub bump: u8,
    /// The slots.
    pub table: [WeightEntry; 32],
}

impl View for WeightTable {
    type V = Seq<WeightEntry>;

    open spec fn view(&self) -> Seq<WeightEntry> {
        self.table@
    }
}

impl WeightTable {
    /// The number of slots.
    pub const MAX_TABLE_ENTRIES: usize = 32;

    /// The finalization slot of a table that is not finalized.
    pub const NOT_FINALIZED: u64 = u64::MAX;

    /// The slot at which the table was made.
    pub open spec fn spec_slot_created(&self) -> u64 {
        self.slot_created
    }

    /// The slot at which the table was finalized.
    pub open spec fn spec_slot_finalized(&self) -> u64 {
        self.slot_finalized
    }

    /// The table has been finalized by a call of [`WeightTable::finalize`].
    pub open spec fn spec_finalized(&self) -> bool {
        self.spec_slot_finalized() != u64::MAX
    }

    /// The table counts as finalized at `current_slot`: it has been finalized,
    /// or `epoch_length` slots have passed since it was made.
    pub open spec fn spec_is_finalized(&self, current_slot: u64, epoch_length: u64) -> bool {
        self.spec_finalized() || current_slot >= self.spec_slot_created() + epoch_length
    }

    /// The two tables differ in their slots at most.
    pub open spec fn same_header(&self, other: &WeightTable) -> bool {
        &&& self.ncn == other.ncn
        &&& self.ncn_epoch == other.ncn_epoch
        &&& self.slot_created == other.slot_created
        &&& self.slot_finalized == other.slot_finalized
        &&& self.bump == other.bump
    }

    /// The number of slots that are taken.
    pub open spec fn spec_entry_count(&self) -> nat {
        count_taken(self@)
    }

    /// What a lookup of the identifier finds: the weight of the first taken
    /// slot that carries it.
    pub open spec fn spec_find_weight(&self, mint: Pubkey) -> Option<Weight> {
        if exists|i: int| is_first_with(self@, mint, i) {
            Some(self@[choose|i: int| is_first_with(self@, mint, i)].weight)
        } else {
            None
        }
    }

    /// The slot that an update of the identifier writes: the first one that
    /// carries it or is free.
    pub open spec fn slot_for(&self, mint: Pubkey) -> Option<int> {
        if exists|i: int| is_first_for(self@, mint, i) {
            Some(choose|i: int| is_first_for(self@, mint, i))
        } else {
            None
        }
    }

    /// What a guarded update answers and what the slots are after it: a
    /// table that counts as finalized is left alone, and else the weight
    /// goes to the slot of the identifier, where there is one and the
    /// weight has a denominator.
    pub open spec fn spec_update_weight(
        &self,
        mint: Pubkey,
        numerator: u64,
        denominator: u64,
        current_slot: u64,
        epoch_length: u64,
    ) -> (Result<WeightTableState, WeightTableError>, Seq<WeightEntry>) {
        if self.spec_is_finalized(current_slot, epoch_length) {
            (Ok(WeightTableState::Finalized), self@)
        } else {
            match self.slot_for(mint) {
                None => (Err(WeightTableError::NoMoreTableSlots), self@),
                Some(i) => if denominator == 0 {
                    (Err(WeightTableError::DenominatorIsZero), self@)
                } else {
                    (
                        Ok(WeightTableState::Open),
                        self@.update(
                            i,
                            WeightEntry {
                                mint,
                                weight: Weight::spec_from_parts(numerator, denominator),
                            },
                        ),
                    )
                },
            }
        }
    }

    /// The seeds of the address of the table of a network and an epoch.
    pub open spec fn spec_seeds(ncn: Pubkey, ncn_epoch: u64) -> Seq<Seq<u8>> {
        seq!["WEIGHT_TABLE".spec_bytes(), ncn@, spec_u64_to_le_bytes(ncn_epoch)]
    }

    /// A table without weights that is not finalized.
    pub fn new(ncn: Pubkey, ncn_epoch: u64, slot_created: u64, bump: u8) -> (table: Self)
        ensures
            table.ncn == ncn,
            table.ncn_epoch == ncn_epoch,
            table.slot_created == slot_created,
            table.slot_finalized == u64::MAX,
            table.bump == bump,
            forall|i: int| 0 <= i < 32 ==> (#[trigger] table@[i]).is_blank(),
            table.spec_entry_count() == 0,
            forall|mint: Pubkey| table.spec_find_weight(mint) is None,
    {
        let table = Self {
            ncn,
            ncn_epoch,
            slot_created,
            slot_finalized: Self::NOT_FINALIZED,
            bump,
            table: [WeightEntry::default(); 32],
        };
        proof {
            lemma_count_all_free(table@, 32);
        }
        table
    }

    /// The epoch that a slot falls into, where epochs have a length.
    pub fn epoch(current_slot: u64, epoch_length: u64) -> (r: Result<u64, WeightTableError>)
        ensures
            r == if epoch_length == 0 {
                Err::<u64, WeightTableError>(WeightTableError::DenominatorIsZero)
            } else {
                Ok::<u64, WeightTableError>(current_slot / epoch_length)
            },
    {
        current_slot.checked_div(epoch_length).ok_or(WeightTableError::DenominatorIsZero)
    }

    /// The seeds of the address of the table of a network and an epoch: the
    /// namespace, the network and the epoch in little-endian bytes.
    pub fn seeds(ncn: &Pubkey, ncn_epoch: u64) -> (seeds: Vec<Vec<u8>>)
        ensures
            seed_bytes(&seeds) == Self::spec_seeds(*ncn, ncn_epoch),
    {
        let mut seeds: Vec<Vec<u8>> = Vec::new();
        seeds.push("WEIGHT_TABLE".as_bytes_vec());
        seeds.push(key_seed(ncn));
        seeds.push(u64_to_le_bytes(ncn_epoch));
        assert(seed_bytes(&seeds) =~= Self::spec_seeds(*ncn, ncn_epoch));
        seeds
    }

    /// The address of the table of a network and an epoch, with its bump
    /// seed and the seeds it was derived from.
    pub fn find_program_address(program_id: &Pubkey, ncn: &Pubkey, ncn_epoch: u64) -> (found: (
        Pubkey,
        u8,
        Vec<Vec<u8>>,
    ))
        requires
            program_address(Self::spec_seeds(*ncn, ncn_epoch), program_id@) is Some,
        ensures
            seed_bytes(&found.2) == Self::spec_seeds(*ncn, ncn_epoch),
            derives(Self::spec_seeds(*ncn, ncn_epoch), *program_id, found.0, found.1),
    {
        let seeds = Self::seeds(ncn, ncn_epoch);
        let (pda, bump) = find_address(&seeds, program_id).unwrap();
        (pda, bump, seeds)
    }

    /// The address of the table of a network and an epoch as
    /// [`WeightTable::find_program_address`] gives it, and `None` where the
    /// seeds derive no address.
    pub fn try_find_program_address(program_id: &Pubkey, ncn: &Pubkey, ncn_epoch: u64) -> (found:
        Option<(Pubkey, u8, Vec<Vec<u8>>)>)
        ensures
            found is Some <==> program_address(Self::spec_seeds(*ncn, ncn_epoch), program_id@)
                is Some,
            found matches Some(f) ==> seed_bytes(&f.2) == Self::spec_seeds(*ncn, ncn_epoch)
                && derives(Self::spec_seeds(*ncn, ncn_epoch), *program_id, f.0, f.1),
    {
        let seeds = Self::seeds(ncn, ncn_epoch);
        if find_address(&seeds, program_id).is_some() {
            Some(Self::find_program_address(program_id, ncn, ncn_epoch))
        } else {
            None
        }
    }

    /// The number of slots that are taken.
    pub fn entry_count(&self) -> (count: usize)
        ensures
            count == self.spec_entry_count(),
            count <= 32,
    {
        let mut count: usize = 0;
        let mut i: usize = 0;
        while i < 32
            invariant
                i <= 32,
                count <= i,
                count == count_taken(self@.take(i as int)),
            decreases 32 - i,
        {
            assert(self@.take(i + 1).drop_last() =~= self@.take(i as int));
            if !self.table[i].is_empty() {
                count += 1;
            }
            i += 1;
        }
        assert(self@.take(32) =~= self@);
        count
    }

    /// The weight that the table holds for the identifier: that of the first
    /// taken slot that carries it, and `None` where no taken slot does.
    pub fn find_weight(&self, mint: &Pubkey) -> (found: Option<Weight>)
        ensures
            found == self.spec_find_weight(*mint),
            found is Some <==> exists|i: int| holds_at(self@, *mint, i),
            found matches Some(weight) ==> weight.wf(),
    {
        let mut i: usize = 0;
        while i < 32
            invariant
                i <= 32,
                forall|j: int| 0 <= j < i ==> !holds_at(self@, *mint, j),
            decreases 32 - i,
        {
            if self.table[i].mint == *mint && !self.table[i].is_empty() {
                assert(is_first_with(self@, *mint, i as int));
                return Some(self.table[i].weight);
            }
            i += 1;
        }
        None
    }

    /// Writes `weight` for the identifier into the first slot that carries it
    /// or is free. It fails, and leaves the table as it is, where there is
    /// no such slot, and where there is one and the weight has no
    /// denominator, which marks a free slot.
    pub fn set_weight(&mut self, mint: &Pubkey, weight: Weight) -> (r: Result<
        (),
        WeightTableError,
    >)
        ensures
            final(self).same_header(old(self)),
            match old(self).slot_for(*mint) {
                None => r == Err::<(), WeightTableError>(WeightTableError::NoMoreTableSlots)
                    && final(self)@ == old(self)@,
                Some(i) => if weight.wf() {
                    r is Ok && final(self)@ == old(self)@.update(
                        i,
                        WeightEntry { mint: *mint, weight },
                    ) && final(self).spec_entry_count() == old(self).spec_entry_count() + if old(
                        self,
                    )@[i].spec_is_empty() {
                        1nat
                    } else {
                        0nat
                    }
                } else {
                    r == Err::<(), WeightTableError>(WeightTableError::DenominatorIsZero)
                        && final(self)@ == old(self)@
                },
            },
            r is Ok ==> final(self).spec_find_weight(*mint) == Some(weight),
            forall|other: Pubkey|
                other != *mint ==> final(self).spec_find_weight(other) == old(
                    self,
                ).spec_find_weight(other),
    {
        let mut i: usize = 0;
        while i < 32
            invariant
                i <= 32,
                *self == *old(self),
                forall|j: int| 0 <= j < i ==> self@[j].mint != *mint && !self@[j].spec_is_empty(),
            decreases 32 - i,
        {
            if self.table[i].mint == *mint || self.table[i].is_empty() {
                assert(is_first_for(self@, *mint, i as int));
                if weight.denominator() == 0 {
                    return Err(WeightTableError::DenominatorIsZero);
                }
                self.table[i] = WeightEntry { mint: *mint, weight };
                proof {
                    assert(is_first_with(self@, *mint, i as int)) by {
                        assert forall|j: int| 0 <= j < i implies !holds_at(self@, *mint, j) by {
                            assert(self@[j] == old(self)@[j]);
                        }
                    }
                    lemma_count_written(old(self)@, i as int, WeightEntry { mint: *mint, weight });
                    lemma_write_keeps_lookups(*old(self), *self, *mint, weight);
                }
                return Ok(());
            }
            i += 1;
        }
        Err(WeightTableError::NoMoreTableSlots)
    }

    /// The slot at which the table was made.
    #[verifier::when_used_as_spec(spec_slot_created)]
    pub fn slot_created(&self) -> (slot: u64)
        ensures
            slot == self.spec_slot_created(),
    {
        self.slot_created
    }

    /// The slot at which the table was finalized, and
    /// [`WeightTable::NOT_FINALIZED`] where it was not.
    #[verifier::when_used_as_spec(spec_slot_finalized)]
    pub fn slot_finalized(&self) -> (slot: u64)
        ensures
            slot == self.spec_slot_finalized(),
    {
        self.slot_finalized
    }

    /// Tells whether the table has been finalized.
    #[verifier::when_used_as_spec(spec_finalized)]
    pub fn finalized(&self) -> (finalized: bool)
        ensures
            finalized == self.spec_finalized(),
    {
        self.slot_finalized != Self::NOT_FINALIZED
    }

    /// Tells whether the table counts as finalized at `current_slot`: it has
    /// been finalized, or `epoch_length` slots have passed since it was made.
    #[verifier::when_used_as_spec(spec_is_finalized)]
    pub fn is_finalized(&self, current_slot: u64, epoch_length: u64) -> (finalized: bool)
        ensures
            finalized == self.spec_is_finalized(current_slot, epoch_length),
    {
        if self.finalized() {
            return true;
        }
        match self.slot_created.checked_add(epoch_length) {
            Some(end) => current_slot >= end,
            None => false,
        }
    }

    /// Tells whether the table still takes updates at `current_slot`. Who
    /// writes a weight asks this first.
    pub fn state(&self, current_slot: u64, epoch_length: u64) -> (state: WeightTableState)
        ensures
            state == if self.spec_is_finalized(current_slot, epoch_length) {
                WeightTableState::Finalized
            } else {
                WeightTableState::Open
            },
    {
        if self.is_finalized(current_slot, epoch_length) {
            WeightTableState::Finalized
        } else {
            WeightTableState::Open
        }
    }

    /// Writes the weight `numerator / denominator` for the identifier as
    /// [`WeightTable::set_weight`] does, as long as the table takes updates
    /// at `current_slot`. The answer tells in which state the table was
    /// found; a table that counts as finalized stays as it is.
    pub fn update_weight(
        &mut self,
        mint: &Pubkey,
        numerator: u64,
        denominator: u64,
        current_slot: u64,
        epoch_length: u64,
    ) -> (r: Result<WeightTableState, WeightTableError>)
        ensures
            final(self).same_header(old(self)),
            (r, final(self)@) == old(self).spec_update_weight(
                *mint,
                numerator,
                denominator,
                current_slot,
                epoch_length,
            ),
    {
        if self.is_finalized(current_slot, epoch_length) {
            return Ok(WeightTableState::Finalized);
        }
        self.set_weight(mint, Weight::from_parts(numerator, denominator))?;
        Ok(WeightTableState::Open)
    }

    /// The slot that [`WeightTable::finalize`] records for `current_slot`:
    /// the slot itself, and the one before it for the last slot there is,
    /// which stands for "not finalized".
    pub open spec fn recorded_slot(current_slot: u64) -> u64 {
        if current_slot == u64::MAX {
            (u64::MAX - 1) as u64
        } else {
            current_slot
        }
    }

    /// Finalizes the table, whatever its state and whatever the slot, and
    /// records the slot at which that was done. Nothing else changes.
    pub fn finalize(&mut self, current_slot: u64)
        ensures
            *final(self) == (WeightTable {
                slot_finalized: Self::recorded_slot(current_slot),
                ..*old(self)
            }),
            final(self).spec_finalized(),
            forall|slot: u64, epoch_length: u64| final(self).spec_is_finalized(slot, epoch_length),
    {
        self.slot_finalized = if current_slot == Self::NOT_FINALIZED {
            Self::NOT_FINALIZED - 1
        } else {
            current_slot
        };
    }

    /// Tells whether `signer` may finalize or update the table of a network
    /// whose administrator is `admin`.
    pub fn check_admin(admin: &Pubkey, signer: &Pubkey) -> (r: Result<(), WeightTableError>)
        ensures
            r == if *admin == *signer {
                Ok::<(), WeightTableError>(())
            } else {
                Err::<(), WeightTableError>(WeightTableError::IncorrectWeightTableAdmin)
            },
    {
        if *admin != *signer {
            return Err(WeightTableError::IncorrectWeightTableAdmin);
        }
        Ok(())
    }

    /// The outcome of loading `weight_table` as the table of the network
    /// `ncn` and the epoch `ncn_epoch`.
    pub open spec fn spec_load(
        program_id: Pubkey,
        weight_table: Account,
        ncn: Account,
        ncn_epoch: u64,
        expect_writable: bool,
    ) -> Result<(), AccountError> {
        match weight_table.spec_inspect(program_id, WEIGHT_TABLE_DISCRIMINATOR, expect_writable) {
            Err(e) => Err(e),
            Ok(()) => if program_address(Self::spec_seeds(ncn.key, ncn_epoch), program_id@)
                matches Some((address, _)) && weight_table.key@ == address {
                Ok(())
            } else {
                Err(AccountError::InvalidAccountData)
            },
        }
    }

    /// Checks that `weight_table` is the stored table of the network `ncn`
    /// and the epoch `ncn_epoch`: owned by the program, not empty, writable
    /// where that is expected, tagged as a weight table, and stored at the
    /// address that network and epoch derive.
    pub fn load(
        program_id: &Pubkey,
        weight_table: &Account,
        ncn: &Account,
        ncn_epoch: u64,
        expect_writable: bool,
    ) -> (r: Result<(), AccountError>)
        requires
            program_address(Self::spec_seeds(ncn.key, ncn_epoch), program_id@) is Some,
        ensures
            r == Self::spec_load(*program_id, *weight_table, *ncn, ncn_epoch, expect_writable),
    {
        weight_table.inspect(program_id, WEIGHT_TABLE_DISCRIMINATOR, expect_writable)?;
        let expected_pubkey = Self::find_program_address(program_id, &ncn.key, ncn_epoch).0;
        proof {
            Pubkey::lemma_view(weight_table.key, expected_pubkey);
        }
        if weight_table.key != expected_pubkey {
            return Err(AccountError::InvalidAccountData);
        }
        Ok(())
    }

    /// Checks the stored table as [`WeightTable::load`] does, and answers
    /// `None` where network and epoch derive no address.
    pub fn try_load(
        program_id: &Pubkey,
        weight_table: &Account,
        ncn: &Account,
        ncn_epoch: u64,
        expect_writable: bool,
    ) -> (r: Option<Result<(), AccountError>>)
        ensures
            r is Some <==> program_address(Self::spec_seeds(ncn.key, ncn_epoch), program_id@)
                is Some,
            r matches Some(loaded) ==> loaded == Self::spec_load(
                *program_id,
                *weight_table,
                *ncn,
                ncn_epoch,
                expect_writable,
            ),
    {
        if Self::try_find_program_address(program_id, &ncn.key, ncn_epoch).is_some() {
            Some(Self::load(program_id, weight_table, ncn, ncn_epoch, expect_writable))
        } else {
            None
        }
    }
}

/// Writing a taken slot changes the count of taken slots by one where the
/// slot was free, and not at all where it was taken.
pub proof fn lemma_count_written(slots: Seq<WeightEntry>, i: int, entry: WeightEntry)
    requires
        0 <= i < slots.len(),
        !entry.spec_is_empty(),
    ensures
        count_taken(slots.update(i, entry)) == count_taken(slots) + if slots[i].spec_is_empty() {
            1nat
        } else {
            0nat
        },
    decreases slots.len(),
{
    let n = slots.len() as int;
    if i == n - 1 {
        assert(slots.update(i, entry).drop_last() =~= slots.drop_last());
    } else {
        lemma_count_written(slots.drop_last(), i, entry);
        assert(slots.update(i, entry).drop_last() =~= slots.drop_last().update(i, entry));
    }
}

/// Writing a weight for an identifier leaves the lookup of every other
/// identifier as it was.
pub proof fn lemma_write_keeps_lookups(
    before: WeightTable,
    after: WeightTable,
    mint: Pubkey,
    weight: Weight,
)
    requires
        weight.wf(),
        before.slot_for(mint) matches Some(i) && after@ == before@.update(
            i,
            WeightEntry { mint, weight },
        ),
    ensures
        forall|other: Pubkey|
            other != mint ==> after.spec_find_weight(other) == before.spec_find_weight(other),
{
    let i = before.slot_for(mint)->Some_0;
    assert(is_first_for(before@, mint, i));
    assert forall|other: Pubkey, k: int| other != mint implies holds_at(after@, other, k)
        == holds_at(before@, other, k) by {
        if 0 <= k < 32 && k != i {
            assert(after@[k] == before@[k]);
        }
    }
    assert forall|other: Pubkey| other != mint implies after.spec_find_weight(other)
        == before.spec_find_weight(other) by {
        if exists|k: int| is_first_with(before@, other, k) {
            let k = choose|k: int| is_first_with(before@, other, k);
            assert(is_first_with(after@, other, k));
            assert(after@[k] == before@[k]);
        } else if exists|k: int| is_first_with(after@, other, k) {
            let k = choose|k: int| is_first_with(after@, other, k);
            assert(is_first_with(before@, other, k));
        }
    }
}

/// Where the first `n` slots are free, none of them counts as taken.
pub proof fn lemma_count_all_free(slots: Seq<WeightEntry>, n: int)
    requires
        0 <= n <= slots.len(),
        forall|i: int| 0 <= i < n ==> slots[i].spec_is_empty(),
    ensures
        count_taken(slots.take(n)) == 0,
        n == slots.len() ==> count_taken(slots) == 0,
    decreases n,
{
    if n > 0 {
        lemma_count_all_free(slots, n - 1);
        assert(slots.take(n).drop_last() =~= slots.take(n - 1));
    }
    if n == slots.len() {
        assert(slots.take(n) =~= slots);
    }
}

} // verus!
