//! A table of 32 slots that maps asset identifiers to 64-bit amounts. It
//! holds the prices, the stakes and the reward balances of an epoch.
//!
//! A slot whose value is `u64::MAX` is free, so that value is never written
//! as an amount. Lookups go by the first taken slot with the identifier,
//! updates by the first slot that has the identifier or is free.

use crate::error::RewardCoreError;
use crate::pubkey::Pubkey;
use vstd::prelude::*;

verus! {

/// One slot of a [`TokenTable`].
#[derive(Debug, Clone, Copy)]
pub struct TokenEntry {
    pub value: u64,
    pub mint: Pubkey,
}

impl TokenEntry {
    /// The value that marks a free slot.
    pub const EMPTY_ENTRY_VALUE: u64 = u64::MAX;

    /// The slot holds the marker of a free slot.
    pub open spec fn spec_is_empty(&self) -> bool {
        self.value == u64::MAX
    }

    /// A free slot as a new table has it: the marker value and the default
    /// identifier.
    pub open spec fn spec_default() -> TokenEntry {
        TokenEntry { value: u64::MAX, mint: Pubkey::spec_default() }
    }

    /// A slot with this value and identifier.
    pub fn new(value: u64, mint: Pubkey) -> (entry: Self)
        ensures
            entry == (TokenEntry { value, mint }),
    {
        Self { value, mint }
    }

    /// Tells whether the slot is free.
    #[verifier::when_used_as_spec(spec_is_empty)]
    pub fn is_empty(&self) -> (empty: bool)
        ensures
            empty == self.spec_is_empty(),
    {
        self.value == Self::EMPTY_ENTRY_VALUE
    }
}

impl Default for TokenEntry {
    /// A free slot.
    fn default() -> (entry: Self)
        ensures
            entry == TokenEntry::spec_default(),
    {
        Self { value: TokenEntry::EMPTY_ENTRY_VALUE, mint: Pubkey::default() }
    }
}

/// Slot `i` is the first taken slot that carries the identifier.
pub open spec fn is_first_with(slots: Seq<TokenEntry>, mint: Pubkey, i: int) -> bool {
    &&& holds_at(slots, mint, i)
    &&& forall|j: int| 0 <= j < i ==> !holds_at(slots, mint, j)
}

/// Slot `i` is the first one that carries the identifier or is free.
pub open spec fn is_first_for(slots: Seq<TokenEntry>, mint: Pubkey, i: int) -> bool {
    &&& 0 <= i < slots.len()
    &&& (slots[i].mint == mint || slots[i].spec_is_empty())
    &&& forall|j: int| 0 <= j < i ==> slots[j].mint != mint && !slots[j].spec_is_empty()
}

/// Slot `i` is taken and carries the identifier.
pub open spec fn holds_at(slots: Seq<TokenEntry>, mint: Pubkey, i: int) -> bool {
    &&& 0 <= i < slots.len()
    &&& slots[i].mint == mint
    &&& !slots[i].spec_is_empty()
}

/// The number of slots that are taken.
pub open spec fn count_taken(slots: Seq<TokenEntry>) -> nat
    decreases slots.len(),
{
    if slots.len() == 0 {
        0
    } else {
        count_taken(slots.drop_last()) + if slots.last().spec_is_empty() {
            0nat
        } else {
            1nat
        }
    }
}

/// The table of 32 slots.
#[derive(Debug, Clone, Copy, Default)]
pub struct TokenTable {
    pub table: [TokenEntry; 32],
}

/// A table of prices.
pub type EpochPriceTable = TokenTable;

/// A table of stakes.
pub type StakeTable = TokenTable;

/// A slot of a table of prices.
pub type EpochPriceTableEntry = TokenEntry;

/// A slot of a table of stakes.
pub type StakeEntry = TokenEntry;

impl View for TokenTable {
    type V = Seq<TokenEntry>;

    open spec fn view(&self) -> Seq<TokenEntry> {
        self.table@
    }
}

impl TokenTable {
    /// The number of slots.
    pub const MAX_TABLE_ENTRIES: usize = 32;

    /// The table keeps its slots in order: the taken slots come first and
    /// carry identifiers that differ from each other, and the free slots
    /// carry the default identifier.
    pub open spec fn wf(&self) -> bool {
        &&& forall|i: int, j: int|
            #![trigger self@[i], self@[j]]
            0 <= i < j < 32 && self@[i].spec_is_empty() ==> self@[j].spec_is_empty()
        &&& forall|i: int, j: int|
            #![trigger self@[i], self@[j]]
            0 <= i < j < 32 && !self@[j].spec_is_empty() ==> self@[i].mint != self@[j].mint
        &&& self.free_slots_are_blank()
    }

    /// Every free slot carries the default identifier.
    pub open spec fn free_slots_are_blank(&self) -> bool {
        forall|i: int|
            #![trigger self@[i]]
            0 <= i < 32 && self@[i].spec_is_empty() ==> self@[i].mint.is_default()
    }

    /// Every slot is free as in a new table.
    pub open spec fn is_unused(&self) -> bool {
        forall|i: int| 0 <= i < 32 ==> self@[i] == TokenEntry::spec_default()
    }

    /// Some taken slot carries the identifier.
    pub open spec fn contains(&self, mint: Pubkey) -> bool {
        exists|i: int| holds_at(self@, mint, i)
    }

    /// The amount that the table holds for the identifier: the value of the
    /// taken slot that carries it, and zero where there is none.
    pub open spec fn amount(&self, mint: Pubkey) -> nat {
        if self.contains(mint) {
            self@[choose|i: int| holds_at(self@, mint, i)].value as nat
        } else {
            0
        }
    }

    /// The number of slots that are taken.
    pub open spec fn spec_entry_count(&self) -> nat {
        count_taken(self@)
    }

    /// What a lookup of the identifier finds: the value of the first taken
    /// slot that carries it.
    pub open spec fn spec_find_value(&self, mint: Pubkey) -> Option<u64> {
        if exists|i: int| is_first_with(self@, mint, i) {
            Some(self@[choose|i: int| is_first_with(self@, mint, i)].value)
        } else {
            None
        }
    }

    /// The slot that an update of the identifier writes: the first one that
    /// carries it or is free.
    pub open spec fn slot_for(&self, mint: Pubkey) -> Option<int> {
        if exists|i: int| is_first_for(self@, mint, i) {
            Some(choose|i: int| is_first_for(self@, mint, i))
        } else {
            None
        }
    }

    /// Some taken slot among the first `n` carries the identifier.
    pub open spec fn holds_before(&self, mint: Pubkey, n: int) -> bool {
        exists|i: int| 0 <= i < n && holds_at(self@, mint, i)
    }

    /// The number of identifiers among the first `n` slots of `other` that
    /// this table does not hold.
    pub open spec fn count_missing(&self, other: &TokenTable, n: int) -> nat
        decreases n,
    {
        if n <= 0 {
            0
        } else {
            self.count_missing(other, n - 1) + if !other@[n - 1].spec_is_empty() && !self.contains(
                other@[n - 1].mint,
            ) {
                1nat
            } else {
                0nat
            }
        }
    }

    /// For some identifier the amounts of the two tables add up to more than
    /// a slot can hold as an amount.
    pub open spec fn sum_overflows(&self, other: &TokenTable) -> bool {
        exists|mint: Pubkey| self.amount(mint) + other.amount(mint) >= u64::MAX
    }

    /// The identifiers of the two tables together have room in 32 slots.
    pub open spec fn union_fits(&self, other: &TokenTable) -> bool {
        self.spec_entry_count() + self.count_missing(other, 32) <= 32
    }

    /// This table holds, in order, what `before` held and what the first `n`
    /// slots of `added` hold.
    pub open spec fn is_merge_upto(&self, before: &TokenTable, added: &TokenTable, n: int) -> bool {
        &&& self.wf()
        &&& self.keeps_places_of(before)
        &&& self.sums_upto(before, added, n)
    }

    /// This table holds the identifiers and amounts of `before` and of the
    /// first `n` slots of `added`, the new identifiers behind those of
    /// `before`.
    pub open spec fn sums_upto(&self, before: &TokenTable, added: &TokenTable, n: int) -> bool {
        &&& forall|mint: Pubkey|
            self.contains(mint) == (before.contains(mint) || added.holds_before(mint, n))
        &&& forall|mint: Pubkey|
            self.amount(mint) == before.amount(mint) + if added.holds_before(mint, n) {
                added.amount(mint)
            } else {
                0
            }
        &&& self.spec_entry_count() == before.spec_entry_count() + before.count_missing(added, n)
        &&& self.appends_in_order(before, added, n)
    }

    /// This table holds, in order, what `before` and `added` held together:
    /// every identifier of either, each with the sum of its two amounts.
    pub open spec fn is_merge_of(&self, before: &TokenTable, added: &TokenTable) -> bool {
        &&& self.wf()
        &&& forall|mint: Pubkey|
            self.contains(mint) == (before.contains(mint) || added.contains(mint))
        &&& forall|mint: Pubkey| self.amount(mint) == before.amount(mint) + added.amount(mint)
        &&& self.spec_entry_count() == before.spec_entry_count() + before.count_missing(added, 32)
        &&& self.keeps_places_of(before)
        &&& self.appends_in_order(before, added, 32)
    }

    /// Every identifier of `before` is in the slot in which it was.
    pub open spec fn keeps_places_of(&self, before: &TokenTable) -> bool {
        forall|i: int|
            #![trigger before@[i]]
            0 <= i < 32 && !before@[i].spec_is_empty() ==> self@[i].mint == before@[i].mint
                && !self@[i].spec_is_empty()
    }

    /// The identifiers among the first `n` slots of `added` that `before`
    /// did not hold follow the slots of `before`, in the order in which
    /// `added` has them.
    pub open spec fn appends_in_order(&self, before: &TokenTable, added: &TokenTable, n: int)
        -> bool {
        forall|i: int|
            #![trigger added@[i]]
            0 <= i < n && !added@[i].spec_is_empty() && !before.contains(added@[i].mint)
                ==> self.holds_place(
                added@[i].mint,
                before.spec_entry_count() + before.count_missing(added, i),
            )
    }

    /// Slot `i` is a slot of the table and carries the identifier.
    pub open spec fn holds_place(&self, mint: Pubkey, i: nat) -> bool {
        i < 32 && self@[i as int].mint == mint
    }

    /// The outcome of adding the amounts of `added` to this table: which
    /// failure, if any.
    pub open spec fn merge_outcome(&self, added: &TokenTable) -> Result<(), RewardCoreError> {
        if self.sum_overflows(added) {
            Err(RewardCoreError::ArithmeticOverflow)
        } else if !self.union_fits(added) {
            Err(RewardCoreError::NoMoreTableSlots)
        } else {
            Ok(())
        }
    }

    /// A table of free slots.
    pub fn new() -> (table: Self)
        ensures
            table.is_unused(),
            table.wf(),
            table.spec_entry_count() == 0,
            forall|mint: Pubkey| !table.contains(mint),
    {
        let table = Self { table: [TokenEntry::default(); 32] };
        proof {
            table.lemma_unused();
        }
        table
    }

    /// The number of slots that are taken.
    pub fn entry_count(&self) -> (count: usize)
        ensures
            count == self.spec_entry_count(),
            count <= 32,
    {
        let mut count: usize = 0;
        let mut i: usize = 0;
        while i < 32
            invariant
                i <= 32,
                count <= i,
                count == count_taken(self@.take(i as int)),
            decreases 32 - i,
        {
            assert(self@.take(i + 1).drop_last() =~= self@.take(i as int));
            if !self.table[i].is_empty() {
                count += 1;
            }
            i += 1;
        }
        assert(self@.take(32) =~= self@);
        count
    }

    /// The amount that the table holds for the identifier: the value of the
    /// first taken slot that carries it, and `None` where no taken slot does.
    pub fn find_value(&self, mint: &Pubkey) -> (found: Option<u64>)
        ensures
            found == self.spec_find_value(*mint),
            found is Some <==> self.contains(*mint),
            found != Some(u64::MAX),
            self.wf() ==> found == if self.contains(*mint) {
                Some(self.amount(*mint) as u64)
            } else {
                None
            },
    {
        let mut i: usize = 0;
        while i < 32
            invariant
                i <= 32,
                forall|j: int| 0 <= j < i ==> !holds_at(self@, *mint, j),
            decreases 32 - i,
        {
            if self.table[i].mint == *mint && !self.table[i].is_empty() {
                proof {
                    assert(is_first_with(self@, *mint, i as int));
                    lemma_first_with_unique(self@, *mint, i as int);
                    if self.wf() {
                        self.lemma_lookup(*mint);
                    }
                }
                return Some(self.table[i].value);
            }
            i += 1;
        }
        proof {
            if self.wf() {
                self.lemma_lookup(*mint);
            }
        }
        None
    }

    /// Writes `value` for the identifier into the first slot that carries it
    /// or is free. It fails, and leaves the table as it is, where there is
    /// no such slot, and where there is one and the value is the marker of a
    /// free slot, which no slot holds as an amount.
    pub fn set_value(&mut self, mint: &Pubkey, value: u64) -> (r: Result<(), RewardCoreError>)
        ensures
            match old(self).slot_for(*mint) {
                None => r == Err::<(), RewardCoreError>(RewardCoreError::NoMoreTableSlots)
                    && *final(self) == *old(self),
                Some(i) => if value == u64::MAX {
                    r == Err::<(), RewardCoreError>(RewardCoreError::ArithmeticOverflow)
                        && *final(self) == *old(self)
                } else {
                    r is Ok && final(self)@ == old(self)@.update(
                        i,
                        TokenEntry { value, mint: *mint },
                    ) && final(self).spec_entry_count() == old(self).spec_entry_count() + if old(
                        self,
                    )@[i].spec_is_empty() {
                        1nat
                    } else {
                        0nat
                    }
                },
            },
            r is Ok ==> final(self).spec_find_value(*mint) == Some(value),
            forall|other: Pubkey|
                other != *mint ==> final(self).spec_find_value(other) == old(self).spec_find_value(
                    other,
                ),
            old(self).free_slots_are_blank() ==> final(self).free_slots_are_blank(),
            old(self).wf() ==> final(self).wf(),
            old(self).wf() ==> (r == Err::<(), RewardCoreError>(RewardCoreError::NoMoreTableSlots)
                <==> !old(self).contains(*mint) && old(self).spec_entry_count() == 32),
            old(self).wf() && value != u64::MAX ==> (r is Ok <==> old(self).contains(*mint) || old(
                self,
            ).spec_entry_count() < 32),
            old(self).wf() && r is Ok ==> {
                &&& final(self).contains(*mint)
                &&& final(self).amount(*mint) == value
                &&& forall|other: Pubkey|
                    other != *mint ==> final(self).contains(other) == old(self).contains(other)
                        && final(self).amount(other) == old(self).amount(other)
                &&& final(self).spec_entry_count() == old(self).spec_entry_count() + if old(
                    self,
                ).contains(*mint) {
                    0nat
                } else {
                    1nat
                }
            },
    {
        let mut i: usize = 0;
        while i < 32
            invariant
                i <= 32,
                *self == *old(self),
                forall|j: int| 0 <= j < i ==> self@[j].mint != *mint && !self@[j].spec_is_empty(),
            decreases 32 - i,
        {
            if self.table[i].mint == *mint || self.table[i].is_empty() {
                proof {
                    assert(is_first_for(self@, *mint, i as int));
                    lemma_first_for_unique(self@, *mint, i as int);
                    if old(self).wf() {
                        old(self).lemma_slot_available(*mint);
                    }
                }
                if value == TokenEntry::EMPTY_ENTRY_VALUE {
                    return Err(RewardCoreError::ArithmeticOverflow);
                }
                self.table[i] = TokenEntry { value, mint: *mint };
                proof {
                    assert(is_first_with(self@, *mint, i as int)) by {
                        assert forall|j: int| 0 <= j < i implies !holds_at(self@, *mint, j) by {
                            assert(self@[j] == old(self)@[j]);
                        }
                    }
                    lemma_first_with_unique(self@, *mint, i as int);
                    lemma_count_update(old(self)@, i as int, TokenEntry { value, mint: *mint });
                    old(self).lemma_update_keeps_lookups(*self, *mint, value);
                    if old(self).wf() {
                        old(self).lemma_update(*self, *mint, value);
                    }
                }
                return Ok(());
            }
            i += 1;
        }
        proof {
            if old(self).wf() {
                old(self).lemma_slot_available(*mint);
                old(self).lemma_taken_first();
            }
        }
        Err(RewardCoreError::NoMoreTableSlots)
    }

    /// Tells whether the table keeps its slots in order: whether the taken
    /// slots come first and carry identifiers that differ from each other,
    /// and the free slots carry the default identifier.
    #[verifier::when_used_as_spec(wf)]
    pub fn is_well_formed(&self) -> (ok: bool)
        ensures
            ok == self.wf(),
    {
        let zero = Pubkey::default();
        // the taken slots at the front
        let mut taken: usize = 0;
        while taken < 32 && !self.table[taken].is_empty()
            invariant
                taken <= 32,
                forall|j: int| 0 <= j < taken ==> !self@[j].spec_is_empty(),
            decreases 32 - taken,
        {
            taken += 1;
        }
        // behind them, free slots with the default identifier only
        let mut i: usize = taken;
        while i < 32
            invariant
                taken <= i <= 32,
                zero == Pubkey::spec_default(),
                forall|j: int| 0 <= j < taken ==> !self@[j].spec_is_empty(),
                taken < 32 ==> self@[taken as int].spec_is_empty(),
                forall|j: int|
                    taken <= j < i ==> self@[j].spec_is_empty() && self@[j].mint.is_default(),
            decreases 32 - i,
        {
            if !self.table[i].is_empty() {
                assert(self@[taken as int].spec_is_empty());
                return false;
            }
            if self.table[i].mint != zero {
                return false;
            }
            i += 1;
        }
        // among the taken slots, no identifier twice
        let mut b: usize = 0;
        while b < taken
            invariant
                b <= taken <= 32,
                forall|j: int| 0 <= j < taken ==> !self@[j].spec_is_empty(),
                forall|j: int|
                    taken <= j < 32 ==> self@[j].spec_is_empty() && self@[j].mint.is_default(),
                forall|x: int, y: int|
                    #![trigger self@[x], self@[y]]
                    0 <= x < y < b ==> self@[x].mint != self@[y].mint,
            decreases taken - b,
        {
            let mut a: usize = 0;
            while a < b
                invariant
                    a <= b < taken <= 32,
                    forall|x: int| 0 <= x < a ==> self@[x].mint != self@[b as int].mint,
                    forall|j: int| 0 <= j < taken ==> !self@[j].spec_is_empty(),
                decreases b - a,
            {
                if self.table[a].mint == self.table[b].mint {
                    assert(!self@[b as int].spec_is_empty());
                    return false;
                }
                a += 1;
            }
            b += 1;
        }
        true
    }

    /// The amount that a table in order holds for the identifier.
    fn held(&self, mint: &Pubkey) -> (amount: Option<u64>)
        requires
            self.wf(),
        ensures
            amount is Some <==> self.contains(*mint),
            amount matches Some(v) ==> v == self.amount(*mint) && v < u64::MAX,
    {
        proof {
            self.lemma_lookup(*mint);
        }
        self.find_value(mint)
    }

    /// Adds every amount of `other` to the amount that this table holds for
    /// the same identifier, as one step: where a sum does not fit, or the
    /// identifiers of both tables have no room in 32 slots, nothing changes.
    ///
    /// A sum of `u64::MAX` counts as not fitting, since a slot with that
    /// value is free.
    pub fn checked_merge(&mut self, other: &TokenTable) -> (r: Result<(), RewardCoreError>)
        requires
            old(self).wf(),
            other.wf(),
        ensures
            r == old(self).merge_outcome(other),
            r is Err ==> *final(self) == *old(self),
            r is Ok ==> final(self).is_merge_of(old(self), other),
    {
        let mut missing: usize = 0;
        let mut i: usize = 0;
        while i < 32
            invariant
                i <= 32,
                *self == *old(self),
                self.wf(),
                other.wf(),
                missing <= i,
                missing == self.count_missing(other, i as int),
                forall|j: int|
                    0 <= j < i && !other@[j].spec_is_empty() ==> self.amount(other@[j].mint)
                        + other@[j].value < u64::MAX,
            decreases 32 - i,
        {
            let entry = other.table[i];
            if !entry.is_empty() {
                proof {
                    assert(holds_at(other@, entry.mint, i as int));
                    other.lemma_lookup(entry.mint);
                    lemma_holder_unique(
                        *other,
                        entry.mint,
                        i as int,
                        choose|k: int| holds_at(other@, entry.mint, k),
                    );
                }
                match self.held(&entry.mint) {
                    Some(amount) => {
                        if amount >= TokenEntry::EMPTY_ENTRY_VALUE - entry.value {
                            return Err(RewardCoreError::ArithmeticOverflow);
                        }
                    },
                    None => {
                        missing += 1;
                    },
                }
            }
            i += 1;
        }
        proof {
            assert forall|mint: Pubkey| self.amount(mint) + other.amount(mint) < u64::MAX by {
                self.lemma_lookup(mint);
                if other.contains(mint) {
                    let j = choose|j: int| holds_at(other@, mint, j);
                    assert(!other@[j].spec_is_empty());
                }
            }
        }
        if self.entry_count() + missing > 32 {
            return Err(RewardCoreError::NoMoreTableSlots);
        }
        let mut merged = *self;
        let mut i: usize = 0;
        proof {
            self.lemma_merge_start(other);
        }
        while i < 32
            invariant
                i <= 32,
                *self == *old(self),
                self.wf(),
                other.wf(),
                forall|mint: Pubkey| self.amount(mint) + other.amount(mint) < u64::MAX,
                self.union_fits(other),
                merged.is_merge_upto(self, other, i as int),
            decreases 32 - i,
        {
            let entry = other.table[i];
            if !entry.is_empty() {
                proof {
                    merged.lemma_merge_step_ahead(self, other, i as int);
                }
                let total = match merged.held(&entry.mint) {
                    Some(amount) => amount + entry.value,
                    None => entry.value,
                };
                let ghost before = merged;
                let written = merged.set_value(&entry.mint, total);
                assert(written is Ok);
                proof {
                    before.lemma_merge_step(merged, self, other, i as int);
                }
            } else {
                proof {
                    merged.lemma_merge_skip(self, other, i as int);
                }
            }
            i += 1;
        }
        proof {
            merged.lemma_merge_done(self, other);
        }
        *self = merged;
        Ok(())
    }

    /// A table holds what it held and nothing of the other yet.
    proof fn lemma_merge_start(&self, added: &TokenTable)
        requires
            self.wf(),
        ensures
            self.is_merge_upto(self, added, 0),
    {
    }

    /// Once every slot of the other table has been added, the two tables are
    /// merged.
    proof fn lemma_merge_done(&self, before: &TokenTable, added: &TokenTable)
        requires
            self.is_merge_upto(before, added, 32),
        ensures
            self.is_merge_of(before, added),
    {
        assert forall|mint: Pubkey| added.holds_before(mint, 32) == added.contains(mint) by {
            if added.contains(mint) {
                let k = choose|k: int| holds_at(added@, mint, k);
                assert(0 <= k < 32 && holds_at(added@, mint, k));
            }
        }
        assert forall|mint: Pubkey|
            self.amount(mint) == before.amount(mint) + added.amount(mint) by {
            assert(added.holds_before(mint, 32) == added.contains(mint));
        }
    }

    /// One more slot of the other table has been looked at.
    proof fn lemma_holds_before_next(&self, n: int)
        requires
            0 <= n < 32,
        ensures
            forall|mint: Pubkey|
                self.holds_before(mint, n + 1) == (self.holds_before(mint, n) || holds_at(
                    self@,
                    mint,
                    n,
                )),
    {
        assert forall|mint: Pubkey|
            self.holds_before(mint, n + 1) == (self.holds_before(mint, n) || holds_at(
                self@,
                mint,
                n,
            )) by {
            if self.holds_before(mint, n + 1) {
                let k = choose|k: int| 0 <= k < n + 1 && holds_at(self@, mint, k);
                if k < n {
                    assert(self.holds_before(mint, n));
                }
            }
            if self.holds_before(mint, n) {
                let k = choose|k: int| 0 <= k < n && holds_at(self@, mint, k);
                assert(0 <= k < n + 1 && holds_at(self@, mint, k));
            }
        }
    }

    /// A free slot of the other table adds nothing.
    proof fn lemma_merge_skip(&self, before: &TokenTable, added: &TokenTable, n: int)
        requires
            0 <= n < 32,
            added@[n].spec_is_empty(),
            self.sums_upto(before, added, n),
        ensures
            self.sums_upto(before, added, n + 1),
    {
        assert forall|mint: Pubkey|
            added.holds_before(mint, n + 1) == added.holds_before(mint, n) by {
            added.lemma_holds_before_next(n);
            assert(!holds_at(added@, mint, n));
        }
        assert forall|mint: Pubkey|
            self.contains(mint) == (before.contains(mint) || added.holds_before(
                mint,
                n + 1,
            )) by {
            assert(added.holds_before(mint, n + 1) == added.holds_before(mint, n));
        }
        assert forall|mint: Pubkey|
            self.amount(mint) == before.amount(mint) + if added.holds_before(mint, n + 1) {
                added.amount(mint)
            } else {
                0
            } by {
            assert(added.holds_before(mint, n + 1) == added.holds_before(mint, n));
        }
        assert(before.count_missing(added, n + 1) == before.count_missing(added, n));
        assert(self.appends_in_order(before, added, n + 1)) by {
            assert forall|j: int|
                #![trigger added@[j]]
                0 <= j < n + 1 && !added@[j].spec_is_empty() && !before.contains(
                    added@[j].mint,
                ) implies self.holds_place(
                added@[j].mint,
                before.spec_entry_count() + before.count_missing(added, j),
            ) by {
                assert(j < n);
            }
        }
    }

    /// Before a taken slot of the other table is added: this table holds for
    /// its identifier what it held at first, the sum has room in a slot, and
    /// so has the identifier in the table.
    proof fn lemma_merge_step_ahead(&self, before: &TokenTable, added: &TokenTable, n: int)
        requires
            0 <= n < 32,
            !added@[n].spec_is_empty(),
            before.wf(),
            added.wf(),
            forall|mint: Pubkey| before.amount(mint) + added.amount(mint) < u64::MAX,
            before.union_fits(added),
            self.is_merge_upto(before, added, n),
        ensures
            self.wf(),
            self.amount(added@[n].mint) + added@[n].value < u64::MAX,
            self.contains(added@[n].mint) || self.spec_entry_count() < 32,
    {
        added.lemma_next_holder(n);
        before.lemma_count_missing_grows(added, n + 1, 32);
    }

    /// The slot of the other table that is added next is the one taken slot
    /// with its identifier, and no slot before it carries that identifier.
    proof fn lemma_next_holder(&self, n: int)
        requires
            0 <= n < 32,
            !self@[n].spec_is_empty(),
            self.wf(),
        ensures
            self.contains(self@[n].mint),
            self.amount(self@[n].mint) == self@[n].value,
            !self.holds_before(self@[n].mint, n),
    {
        let mint = self@[n].mint;
        assert(holds_at(self@, mint, n));
        lemma_holder_unique(*self, mint, n, choose|k: int| holds_at(self@, mint, k));
        if self.holds_before(mint, n) {
            let k = choose|k: int| 0 <= k < n && holds_at(self@, mint, k);
            lemma_holder_unique(*self, mint, n, k);
        }
    }

    /// What adding a taken slot of the other table does to the places: the
    /// identifiers of `before` stay where they are, and a new identifier
    /// goes behind the ones that are there.
    proof fn lemma_merge_step_places(
        &self,
        after: TokenTable,
        before: &TokenTable,
        added: &TokenTable,
        n: int,
        value: u64,
    )
        requires
            0 <= n < 32,
            !added@[n].spec_is_empty(),
            before.wf(),
            added.wf(),
            self.is_merge_upto(before, added, n),
            value != u64::MAX,
            self.slot_for(added@[n].mint) matches Some(slot) && after@ == self@.update(
                slot,
                TokenEntry { value, mint: added@[n].mint },
            ),
        ensures
            after.keeps_places_of(before),
            after.appends_in_order(before, added, n + 1),
    {
        let mint = added@[n].mint;
        let slot = self.slot_for(mint)->Some_0;
        added.lemma_next_holder(n);
        self.lemma_slot_for(mint);
        self.lemma_slot_available(mint);
        self.lemma_taken_first();
        before.lemma_count_missing_grows(added, n, n + 1);
        assert forall|j: int|
            #![trigger before@[j]]
            0 <= j < 32 && !before@[j].spec_is_empty() implies after@[j].mint == before@[j].mint
            && !after@[j].spec_is_empty() by {
            assert(self@[j].mint == before@[j].mint);
        }
        assert forall|j: int|
            #![trigger added@[j]]
            0 <= j < n + 1 && !added@[j].spec_is_empty() && !before.contains(
                added@[j].mint,
            ) implies after.holds_place(
            added@[j].mint,
            before.spec_entry_count() + before.count_missing(added, j),
        ) by {
            let place = before.spec_entry_count() + before.count_missing(added, j);
            if j < n {
                assert(self.holds_place(added@[j].mint, place));
                before.lemma_count_missing_grows(added, j + 1, n);
                assert(place < self.spec_entry_count());
                assert(added@[j].mint != added@[n].mint);
                assert(slot != place);
            } else {
                assert(!self.contains(mint));
                assert(slot == place);
            }
        }
    }

    /// What adding a taken slot of the other table does: where this table is
    /// the merge of the slots before it, the table after the update is the
    /// merge of the slots up to it.
    proof fn lemma_merge_step(
        &self,
        after: TokenTable,
        before: &TokenTable,
        added: &TokenTable,
        n: int,
    )
        requires
            0 <= n < 32,
            !added@[n].spec_is_empty(),
            before.wf(),
            added.wf(),
            self.is_merge_upto(before, added, n),
            self.amount(added@[n].mint) + added@[n].value < u64::MAX,
            self.slot_for(added@[n].mint) matches Some(slot) && after@ == self@.update(
                slot,
                TokenEntry {
                    value: (self.amount(added@[n].mint) + added@[n].value) as u64,
                    mint: added@[n].mint,
                },
            ),
        ensures
            after.is_merge_upto(before, added, n + 1),
    {
        let mint = added@[n].mint;
        let total = (self.amount(mint) + added@[n].value) as u64;
        self.lemma_merge_step_places(after, before, added, n, total);
        added.lemma_next_holder(n);
        added.lemma_holds_before_next(n);
        self.lemma_update(after, mint, total);
        before.lemma_count_missing_grows(added, n, n + 1);
    }

    /// The count of identifiers that this table does not hold grows with the
    /// number of slots of `other` that are looked at.
    pub proof fn lemma_count_missing_grows(&self, other: &TokenTable, n: int, m: int)
        requires
            n <= m,
        ensures
            self.count_missing(other, n) <= self.count_missing(other, m),
        decreases m - n,
    {
        if n < m {
            self.lemma_count_missing_grows(other, n, m - 1);
        }
    }

    /// A table of free slots keeps its slots in order and holds nothing.
    pub proof fn lemma_unused(&self)
        requires
            self.is_unused(),
        ensures
            self.wf(),
            self.spec_entry_count() == 0,
            forall|mint: Pubkey| !self.contains(mint),
    {
        lemma_count_bounds(self@, 32);
        assert forall|mint: Pubkey| !self.contains(mint) by {
            if self.contains(mint) {
                let i = choose|i: int| holds_at(self@, mint, i);
                assert(self@[i] == TokenEntry::spec_default());
            }
        }
    }

    /// In a table that keeps its slots in order, the taken slots are the
    /// first ones, as many as the table counts.
    pub proof fn lemma_taken_first(&self)
        requires
            self.wf(),
        ensures
            self.spec_entry_count() <= 32,
            forall|i: int|
                #![trigger self@[i]]
                0 <= i < 32 ==> (!self@[i].spec_is_empty() <==> i < self.spec_entry_count()),
    {
        lemma_count_bounds(self@, 32);
        if exists|f: int| 0 <= f < 32 && self@[f].spec_is_empty() {
            let f = choose|f: int| 0 <= f < 32 && self@[f].spec_is_empty();
            let k = first_free(self@, f);
            lemma_first_free(self@, f);
            assert forall|j: int| k <= j < 32 implies self@[j].spec_is_empty() by {
                if j > k {
                    assert(self@[k].spec_is_empty());
                }
            }
            lemma_count_split(self@, k, 32);
        }
    }

    /// In a table that keeps its slots in order, an update writes the slot
    /// that holds the identifier, or else the slot after the taken ones.
    pub proof fn lemma_slot_for(&self, mint: Pubkey)
        requires
            self.wf(),
        ensures
            self.contains(mint) ==> self.slot_for(mint) is Some && holds_at(
                self@,
                mint,
                self.slot_for(mint)->Some_0,
            ),
            !self.contains(mint) && self.spec_entry_count() < 32 ==> self.slot_for(mint) == Some(
                self.spec_entry_count() as int,
            ),
    {
        self.lemma_taken_first();
        if self.contains(mint) {
            let h = choose|i: int| holds_at(self@, mint, i);
            assert(is_first_for(self@, mint, h)) by {
                assert forall|j: int| 0 <= j < h implies self@[j].mint != mint
                    && !self@[j].spec_is_empty() by {
                    assert(!self@[h].spec_is_empty());
                }
            }
            lemma_first_for_unique(self@, mint, h);
        } else if self.spec_entry_count() < 32 {
            let c = self.spec_entry_count() as int;
            assert(self@[c].spec_is_empty());
            assert(is_first_for(self@, mint, c)) by {
                assert forall|j: int| 0 <= j < c implies self@[j].mint != mint
                    && !self@[j].spec_is_empty() by {
                    assert(!self@[j].spec_is_empty());
                    if self@[j].mint == mint {
                        assert(holds_at(self@, mint, j));
                    }
                }
            }
            lemma_first_for_unique(self@, mint, c);
        }
    }

    /// In a table that keeps its slots in order, a lookup finds the amount
    /// that the table holds for the identifier, where it holds one, and an
    /// amount is never the marker of a free slot.
    pub proof fn lemma_lookup(&self, mint: Pubkey)
        requires
            self.wf(),
        ensures
            self.spec_find_value(mint) == if self.contains(mint) {
                Some(self.amount(mint) as u64)
            } else {
                None
            },
            self.amount(mint) < u64::MAX,
    {
        if self.contains(mint) {
            let i = choose|i: int| holds_at(self@, mint, i);
            assert(is_first_with(self@, mint, i)) by {
                assert forall|j: int| 0 <= j < i implies !holds_at(self@, mint, j) by {
                    if holds_at(self@, mint, j) {
                        lemma_holder_unique(*self, mint, i, j);
                    }
                }
            }
            lemma_first_with_unique(self@, mint, i);
        }
    }

    /// An update leaves the lookup of every other identifier as it was, and
    /// the free slots as blank as they were.
    pub proof fn lemma_update_keeps_lookups(&self, after: TokenTable, mint: Pubkey, value: u64)
        requires
            value != u64::MAX,
            self.slot_for(mint) matches Some(i) && after@ == self@.update(
                i,
                TokenEntry { value, mint },
            ),
        ensures
            forall|other: Pubkey|
                other != mint ==> after.spec_find_value(other) == self.spec_find_value(other),
            self.free_slots_are_blank() ==> after.free_slots_are_blank(),
    {
        let i = self.slot_for(mint)->Some_0;
        assert(is_first_for(self@, mint, i));
        assert forall|other: Pubkey, k: int| other != mint implies holds_at(after@, other, k)
            == holds_at(self@, other, k) by {
            if 0 <= k < 32 && k != i {
                assert(after@[k] == self@[k]);
            }
        }
        assert forall|other: Pubkey| other != mint implies after.spec_find_value(other)
            == self.spec_find_value(other) by {
            if exists|k: int| is_first_with(self@, other, k) {
                let k = choose|k: int| is_first_with(self@, other, k);
                assert(is_first_with(after@, other, k));
                lemma_first_with_unique(after@, other, k);
                assert(after@[k] == self@[k]);
            } else if exists|k: int| is_first_with(after@, other, k) {
                let k = choose|k: int| is_first_with(after@, other, k);
                assert(is_first_with(self@, other, k));
            }
        }
        if self.free_slots_are_blank() {
            assert forall|k: int|
                #![trigger after@[k]]
                0 <= k < 32 && after@[k].spec_is_empty() implies after@[k].mint.is_default() by {
                assert(k != i);
                assert(after@[k] == self@[k]);
            }
        }
    }

    /// In a table that keeps its slots in order, an update finds a slot
    /// where the identifier is held or fewer than 32 slots are taken, and
    /// nowhere else.
    pub proof fn lemma_slot_available(&self, mint: Pubkey)
        requires
            self.wf(),
        ensures
            self.slot_for(mint) is Some <==> self.contains(mint) || self.spec_entry_count() < 32,
    {
        self.lemma_slot_for(mint);
        self.lemma_taken_first();
        if self.slot_for(mint) is Some && !self.contains(mint) {
            let i = self.slot_for(mint)->Some_0;
            assert(is_first_for(self@, mint, i));
            if !self@[i].spec_is_empty() {
                assert(holds_at(self@, mint, i));
            }
        }
    }

    /// What an update with a value other than the marker of a free slot does
    /// to a table that keeps its slots in order: the table stays in order,
    /// the identifier then has the new amount, no other amount changes, and
    /// one more slot is taken where the identifier was not held.
    pub proof fn lemma_update(&self, after: TokenTable, mint: Pubkey, value: u64)
        requires
            self.wf(),
            value != u64::MAX,
            self.slot_for(mint) matches Some(i) && after@ == self@.update(
                i,
                TokenEntry { value, mint },
            ),
        ensures
            after.wf(),
            after.contains(mint),
            after.amount(mint) == value,
            forall|other: Pubkey|
                other != mint ==> after.contains(other) == self.contains(other) && after.amount(
                    other,
                ) == self.amount(other),
            after.spec_entry_count() == self.spec_entry_count() + if self.contains(mint) {
                0nat
            } else {
                1nat
            },
    {
        let i = self.slot_for(mint)->Some_0;
        assert(is_first_for(self@, mint, i));
        let entry = TokenEntry { value, mint };
        assert(holds_at(after@, mint, i));
        assert(after.wf()) by {
            assert forall|a: int, b: int|
                #![trigger after@[a], after@[b]]
                0 <= a < b < 32 && after@[a].spec_is_empty() implies after@[b].spec_is_empty() by {
                assert(self@[a].spec_is_empty());
                assert(self@[b].spec_is_empty());
                assert(b != i);
            }
            assert forall|a: int, b: int|
                #![trigger after@[a], after@[b]]
                0 <= a < b < 32 && !after@[b].spec_is_empty() implies after@[a].mint
                != after@[b].mint by {
                if b == i {
                    assert(self@[a].mint != mint);
                } else if a == i {
                    assert(!self@[b].spec_is_empty());
                    if self@[i].spec_is_empty() {
                        assert(self@[b].spec_is_empty());
                    } else {
                        assert(self@[a].mint != self@[b].mint);
                    }
                } else {
                    assert(self@[a].mint != self@[b].mint);
                }
            }
        }
        assert(after.amount(mint) == value) by {
            let c = choose|c: int| holds_at(after@, mint, c);
            if c < i {
                assert(self@[c].mint != mint);
            } else if c > i {
                assert(after@[i].mint != after@[c].mint);
            }
        }
        assert forall|other: Pubkey| other != mint implies after.contains(other)
            == self.contains(other) && after.amount(other) == self.amount(other) by {
            if self.contains(other) {
                let c = choose|c: int| holds_at(self@, other, c);
                if c == i {
                    assert(self@[i].mint == mint || self@[i].spec_is_empty());
                }
                assert(holds_at(after@, other, c));
                let c2 = choose|c: int| holds_at(after@, other, c);
                assert(holds_at(self@, other, c2));
                lemma_holder_unique(*self, other, c, c2);
            }
            if after.contains(other) {
                let c = choose|c: int| holds_at(after@, other, c);
                assert(c != i);
                assert(holds_at(self@, other, c));
            }
        }
        lemma_count_update(self@, i, entry);
        if self.contains(mint) {
            let k = choose|k: int| holds_at(self@, mint, k);
            if k < i {
                assert(self@[k].mint != mint);
            } else if k > i {
                if self@[i].spec_is_empty() {
                    assert(self@[k].spec_is_empty());
                } else {
                    assert(self@[i].mint != self@[k].mint);
                }
            }
            assert(!self@[i].spec_is_empty());
        } else {
            if !self@[i].spec_is_empty() {
                assert(holds_at(self@, mint, i));
            }
        }
    }
}

/// Every place behind the identifiers of `before` and before the `p`-th new
/// identifier has a slot of `added` that it comes from: for every number
/// below the count of new identifiers among the first `n` slots there is a
/// slot with a new identifier before which that many new ones stand.
pub proof fn lemma_new_identifier_at(before: TokenTable, added: TokenTable, n: int, p: nat) -> (j:
    int)
    requires
        0 <= n <= 32,
        p < before.count_missing(&added, n),
    ensures
        0 <= j < n,
        !added@[j].spec_is_empty(),
        !before.contains(added@[j].mint),
        before.count_missing(&added, j) == p,
    decreases n,
{
    if p < before.count_missing(&added, n - 1) {
        lemma_new_identifier_at(before, added, n - 1, p)
    } else {
        n - 1
    }
}

/// Two tables in order that hold the same amounts, keep the places of
/// `before` and append the new identifiers of `added` in the same order
/// agree in every slot.
proof fn lemma_merged_slot(
    a: TokenTable,
    b: TokenTable,
    before: TokenTable,
    added: TokenTable,
    i: int,
)
    requires
        0 <= i < 32,
        before.wf(),
        a.wf(),
        b.wf(),
        a.keeps_places_of(&before),
        b.keeps_places_of(&before),
        a.appends_in_order(&before, &added, 32),
        b.appends_in_order(&before, &added, 32),
        a.spec_entry_count() == before.spec_entry_count() + before.count_missing(&added, 32),
        b.spec_entry_count() == a.spec_entry_count(),
        forall|mint: Pubkey| a.amount(mint) == b.amount(mint),
    ensures
        a@[i] == b@[i],
{
    a.lemma_taken_first();
    b.lemma_taken_first();
    before.lemma_taken_first();
    let kept = before.spec_entry_count();
    if i >= a.spec_entry_count() {
        assert(a@[i].spec_is_empty() && b@[i].spec_is_empty());
        assert(a@[i].mint.is_default() && b@[i].mint.is_default());
    } else {
        if i < kept {
            assert(!before@[i].spec_is_empty());
        } else {
            let j = lemma_new_identifier_at(before, added, 32, (i - kept) as nat);
            assert(a.holds_place(added@[j].mint, kept + before.count_missing(&added, j)));
            assert(b.holds_place(added@[j].mint, kept + before.count_missing(&added, j)));
        }
        assert(a@[i].mint == b@[i].mint);
        a.lemma_next_holder(i);
        b.lemma_next_holder(i);
        assert(a.amount(a@[i].mint) == b.amount(a@[i].mint));
    }
}

/// What adding one table to another gives is one table only: two tables
/// that both hold what `before` and `added` held together are slot for slot
/// the same.
pub proof fn lemma_merge_is_one_table(
    a: TokenTable,
    b: TokenTable,
    before: TokenTable,
    added: TokenTable,
)
    requires
        before.wf(),
        a.is_merge_of(&before, &added),
        b.is_merge_of(&before, &added),
    ensures
        a@ == b@,
{
    assert forall|mint: Pubkey| a.amount(mint) == b.amount(mint) by {
        assert(a.amount(mint) == before.amount(mint) + added.amount(mint));
        assert(b.amount(mint) == before.amount(mint) + added.amount(mint));
    }
    assert forall|i: int| 0 <= i < 32 implies a@[i] == b@[i] by {
        lemma_merged_slot(a, b, before, added, i);
    }
    assert(a@ =~= b@);
}

/// In a table that keeps its slots in order, one slot at most holds an
/// identifier.
pub proof fn lemma_holder_unique(table: TokenTable, mint: Pubkey, a: int, b: int)
    requires
        table.wf(),
        holds_at(table@, mint, a),
        holds_at(table@, mint, b),
    ensures
        a == b,
{
    if a < b {
        assert(table@[a].mint != table@[b].mint);
    } else if b < a {
        assert(table@[b].mint != table@[a].mint);
    }
}

/// The first taken slot that carries an identifier is one slot only.
pub proof fn lemma_first_with_unique(slots: Seq<TokenEntry>, mint: Pubkey, i: int)
    requires
        is_first_with(slots, mint, i),
    ensures
        forall|k: int| is_first_with(slots, mint, k) ==> k == i,
{
}

/// The first slot that carries an identifier or is free is one slot only.
pub proof fn lemma_first_for_unique(slots: Seq<TokenEntry>, mint: Pubkey, i: int)
    requires
        is_first_for(slots, mint, i),
    ensures
        forall|k: int| is_first_for(slots, mint, k) ==> k == i,
{
}

/// The taken slots among the first `n` are `n` at most, and where all of them
/// are taken they are `n`.
pub proof fn lemma_count_bounds(slots: Seq<TokenEntry>, n: int)
    requires
        0 <= n <= slots.len(),
    ensures
        count_taken(slots.take(n)) <= n,
        (forall|i: int| 0 <= i < n ==> slots[i].spec_is_empty()) ==> count_taken(slots.take(n))
            == 0,
        (forall|i: int| 0 <= i < n ==> !slots[i].spec_is_empty()) ==> count_taken(slots.take(n))
            == n,
        n == slots.len() ==> slots.take(n) == slots,
    decreases n,
{
    if n > 0 {
        lemma_count_bounds(slots, n - 1);
        assert(slots.take(n).drop_last() =~= slots.take(n - 1));
    }
    if n == slots.len() {
        assert(slots.take(n) =~= slots);
    }
}

/// Where the first `k` of `n` slots are taken and the others are free, `k`
/// slots count as taken.
pub proof fn lemma_count_split(slots: Seq<TokenEntry>, k: int, n: int)
    requires
        0 <= k <= n <= slots.len(),
        forall|j: int| 0 <= j < k ==> !slots[j].spec_is_empty(),
        forall|j: int| k <= j < n ==> slots[j].spec_is_empty(),
    ensures
        count_taken(slots.take(n)) == k,
        n == slots.len() ==> count_taken(slots) == k,
    decreases n - k,
{
    if n == k {
        lemma_count_bounds(slots, k);
    } else {
        lemma_count_split(slots, k, n - 1);
        assert(slots.take(n).drop_last() =~= slots.take(n - 1));
    }
    if n == slots.len() {
        assert(slots.take(n) =~= slots);
    }
}

/// The first free slot at or before the free slot `f`.
pub open spec fn first_free(slots: Seq<TokenEntry>, f: int) -> int
    decreases f,
{
    if f <= 0 {
        0
    } else if exists|j: int| 0 <= j < f && slots[j].spec_is_empty() {
        first_free(slots, choose|j: int| 0 <= j < f && slots[j].spec_is_empty())
    } else {
        f
    }
}

/// `first_free` names a free slot before which every slot is taken.
pub proof fn lemma_first_free(slots: Seq<TokenEntry>, f: int)
    requires
        0 <= f < slots.len(),
        slots[f].spec_is_empty(),
    ensures
        0 <= first_free(slots, f) <= f,
        slots[first_free(slots, f)].spec_is_empty(),
        forall|j: int| 0 <= j < first_free(slots, f) ==> !slots[j].spec_is_empty(),
    decreases f,
{
    if f > 0 && exists|j: int| 0 <= j < f && slots[j].spec_is_empty() {
        lemma_first_free(slots, choose|j: int| 0 <= j < f && slots[j].spec_is_empty());
    }
}

/// Writing a taken slot changes the count of taken slots by one where the
/// slot was free, and not at all where it was taken.
pub proof fn lemma_count_update(slots: Seq<TokenEntry>, i: int, entry: TokenEntry)
    requires
        0 <= i < slots.len(),
        !entry.spec_is_empty(),
    ensures
        count_taken(slots.update(i, entry)) == count_taken(slots) + if slots[i].spec_is_empty() {
            1nat
        } else {
            0nat
        },
    decreases slots.len(),
{
    let n = slots.len() as int;
    if i == n - 1 {
        assert(slots.update(i, entry).drop_last() =~= slots.drop_last());
    } else {
        lemma_count_update(slots.drop_last(), i, entry);
        assert(slots.update(i, entry).drop_last() =~= slots.drop_last().update(i, entry));
    }
}

} // verus!

