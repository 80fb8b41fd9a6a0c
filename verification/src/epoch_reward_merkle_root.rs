//! The record of one epoch: the roots that operators have voted for, the
//! stake behind each of them, and the rewards of the epoch.
//!
//! Votes are folded into the record one ticket at a time. Once voting is
//! over, the root with the greatest weighted stake is the consensus root of
//! the epoch.

use crate::address::{derives, find_address, key_seed, program_address, seed_bytes};
use crate::epoch_reward_merkle_root_ticket::EpochRewardMerkleRootTicket;
use crate::error::RewardCoreError;
use crate::merkle_root::MerkleRoot;
use crate::pubkey::Pubkey;
use crate::token_table::TokenTable;
use crate::weight::{lemma_from_whole_number, lemma_results_in_lowest_terms, Ratio, Weight};
use crate::weight_table::WeightTable;
use vstd::bytes::{spec_u64_to_le_bytes, u64_to_le_bytes};
use vstd::prelude::*;
use vstd::string::*;

verus! {

/// One candidate: a root and the stake that has been voted for it, by asset.
/// A candidate whose root is all zero is unused.
#[derive(Debug, Clone, Copy, Default)]
pub struct MerkleRootEntry {
    pub root: MerkleRoot,
    pub stake: TokenTable,
}

impl MerkleRootEntry {
    /// An unused candidate: the all-zero root without stake.
    pub fn new() -> (entry: Self)
        ensures
            entry.spec_is_unused(),
    {
        Self { root: MerkleRoot::default(), stake: TokenTable::new() }
    }

    /// The candidate has the all-zero root and no stake.
    pub open spec fn spec_is_unused(&self) -> bool {
        self.root.spec_is_empty() && self.stake.is_unused()
    }
}

/// What became of a vote.
#[derive(Debug, Clone, Copy, PartialEq, Eq, Structural)]
pub enum VoteOutcome {
    /// The vote stands on the ticket and is counted in the record.
    Counted,
    /// The ticket has voted before: nothing is counted twice.
    AlreadyVoted,
    /// Votes are not taken any more.
    VotingClosed,
    /// The all-zero root is no vote.
    EmptyRoot,
}

/// The record of one network for one epoch.
#[derive(Debug, Clone, Copy)]
pub struct EpochRewardMerkleRoot {
    /// The network that the record belongs to.
    pub ncn: Pubkey,
    /// The epoch of the record. The time for voting is counted from it.
    pub ncn_epoch: u64,
    /// How many payouts have been made from the rewards of the epoch.
    pub reward_payout_count: u64,
    /// The candidates, in the order in which their roots were first voted
    /// for.
    pub roots: [MerkleRootEntry; 32],
    /// The rewards of the epoch that wait to be paid out, by asset.
    pub rewards: TokenTable,
    /// The rewards of the epoch have been handed on to a later epoch.
    pub exhausted: bool,
}

/// The weighted stake of the first `n` slots of a stake table: the sum of
/// `stake * weight` over the taken slots whose asset the weight table knows,
/// added up slot by slot. `None` where a product or a sum cannot be computed.
pub open spec fn score_upto(stake: TokenTable, weights: WeightTable, n: int) -> Option<Ratio>
    decreases n,
{
    if n <= 0 {
        Some(Ratio { num: 0, den: 1 })
    } else {
        match score_upto(stake, weights, n - 1) {
            None => None,
            Some(sum) => {
                let entry = stake@[n - 1];
                if entry.spec_is_empty() {
                    Some(sum)
                } else {
                    match weights.spec_find_weight(entry.mint) {
                        None => Some(sum),
                        Some(weight) => match (Ratio { num: entry.value as nat, den: 1 }).checked_mul(
                            weight@,
                        ) {
                            Err(_) => None,
                            Ok(term) => match sum.checked_add(term) {
                                Err(_) => None,
                                Ok(total) => Some(total),
                            },
                        },
                    }
                }
            },
        }
    }
}

/// The sum of `stake * weight` over the first `n` slots of a stake table as
/// a fraction that is not reduced and not bounded: what [`score_upto`]
/// stands for where it can be computed.
pub open spec fn weighted_stake_upto(stake: TokenTable, weights: WeightTable, n: int) -> Ratio
    decreases n,
{
    if n <= 0 {
        Ratio { num: 0, den: 1 }
    } else {
        let sum = weighted_stake_upto(stake, weights, n - 1);
        let entry = stake@[n - 1];
        if entry.spec_is_empty() || weights.spec_find_weight(entry.mint) is None {
            sum
        } else {
            let weight = weights.spec_find_weight(entry.mint)->Some_0@;
            Ratio {
                num: sum.num * weight.den + sum.den * (entry.value as nat * weight.num),
                den: sum.den * weight.den,
            }
        }
    }
}

/// The weighted stake of a stake table under a weight table.
pub open spec fn spec_score(stake: TokenTable, weights: WeightTable) -> Option<Ratio> {
    score_upto(stake, weights, 32)
}

/// `a` is greater than `b` as a rational number.
pub open spec fn beats(a: Ratio, b: Ratio) -> bool {
    a.num * b.den > b.num * a.den
}

/// The fraction that a computed score stands for.
pub open spec fn score_view(score: Option<Weight>) -> Option<Ratio> {
    match score {
        Some(w) => Some(w@),
        None => None,
    }
}

impl EpochRewardMerkleRoot {
    /// The number of candidates that a record can track.
    pub const MAX_ROOTS: usize = 32;

    /// Every table of the record keeps its slots in order.
    pub open spec fn wf(&self) -> bool {
        &&& forall|k: int| 0 <= k < 32 ==> (#[trigger] self.roots[k]).stake.wf()
        &&& self.rewards.wf()
    }

    /// The candidates in use come first, in the order in which their roots
    /// were first voted for, and no root is tracked twice.
    pub open spec fn tracks_each_root_once(&self) -> bool {
        &&& forall|i: int, j: int|
            #![trigger self.roots[i], self.roots[j]]
            0 <= i < j < 32 && self.roots[i].root.spec_is_empty()
                ==> self.roots[j].root.spec_is_empty()
        &&& forall|i: int, j: int|
            #![trigger self.roots[i], self.roots[j]]
            0 <= i < j < 32 && !self.roots[j].root.spec_is_empty() ==> self.roots[i].root
                != self.roots[j].root
    }

    /// The number of bytes of a stored record, after its eight leading
    /// bytes: the fields one after the other, an identifier and a root with
    /// 32 bytes each, a number with 8, a table with 32 slots of 40 bytes, and
    /// the mark with one byte.
    pub open spec fn spec_stored_len() -> nat {
        32 + 8 + 8 + 32 * (32 + 32 * 40) + 32 * 40 + 1
    }

    /// The slot at which voting for the epoch ends.
    pub open spec fn spec_voting_cutoff(&self, valid_voting_slots: u64) -> int {
        self.ncn_epoch + valid_voting_slots
    }

    /// Voting for the epoch is over at `current_slot`.
    pub open spec fn spec_is_voting_done(&self, current_slot: u64, valid_voting_slots: u64) -> bool {
        self.spec_voting_cutoff(valid_voting_slots) <= current_slot
    }

    /// The seeds of the address of the record of a network and an epoch.
    pub open spec fn spec_seeds(ncn: Pubkey, ncn_epoch: u64) -> Seq<Seq<u8>> {
        seq!["EPOCH_MERKLE_ROOT".spec_bytes(), ncn@, spec_u64_to_le_bytes(ncn_epoch)]
    }

    /// Candidate `k` is the first one with this root.
    pub open spec fn is_slot_of(&self, root: MerkleRoot, k: int) -> bool {
        &&& 0 <= k < 32
        &&& self.roots[k].root == root
        &&& forall|j: int| 0 <= j < k ==> (#[trigger] self.roots[j]).root != root
    }

    /// Candidate `k` is the first unused one.
    pub open spec fn is_first_unused(&self, k: int) -> bool {
        &&& 0 <= k < 32
        &&& self.roots[k].root.spec_is_empty()
        &&& forall|j: int| 0 <= j < k ==> !(#[trigger] self.roots[j]).root.spec_is_empty()
    }

    /// The candidate that a vote for `root` goes to: the first one with this
    /// root, or else the first unused one.
    pub open spec fn candidate_slot(&self, root: MerkleRoot) -> Option<int> {
        if exists|k: int| self.is_slot_of(root, k) {
            Some(choose|k: int| self.is_slot_of(root, k))
        } else if exists|k: int| self.is_first_unused(k) {
            Some(choose|k: int| self.is_first_unused(k))
        } else {
            None
        }
    }

    /// The record after a vote for `root` with the stakes `stake` has been
    /// folded into candidate `k`.
    pub open spec fn is_aggregate_of(
        &self,
        before: &EpochRewardMerkleRoot,
        k: int,
        root: MerkleRoot,
        stake: &TokenTable,
    ) -> bool {
        &&& self.ncn == before.ncn
        &&& self.ncn_epoch == before.ncn_epoch
        &&& self.reward_payout_count == before.reward_payout_count
        &&& self.rewards == before.rewards
        &&& self.exhausted == before.exhausted
        &&& forall|j: int| 0 <= j < 32 && j != k ==> #[trigger] self.roots[j] == before.roots[j]
        &&& self.roots[k].root == root
        &&& self.roots[k].stake.is_merge_of(&before.roots[k].stake, stake)
    }

    /// The outcome of folding a vote into the record: which failure, if any.
    pub open spec fn aggregate_outcome(&self, root: MerkleRoot, stake: &TokenTable) -> Result<
        (),
        RewardCoreError,
    > {
        match self.candidate_slot(root) {
            None => Err(RewardCoreError::NoMoreTableSlots),
            Some(k) => self.roots[k].stake.merge_outcome(stake),
        }
    }

    /// What folding the vote of a ticket into the record answers: `false`
    /// for a ticket that has not voted, and else whether the vote can be
    /// folded in.
    pub open spec fn spec_aggregate_ticket(&self, ticket: &EpochRewardMerkleRootTicket) -> Result<
        bool,
        RewardCoreError,
    > {
        if !ticket.spec_has_voted() {
            Ok(false)
        } else {
            match self.aggregate_outcome(ticket.root, &ticket.stake_table) {
                Ok(()) => Ok(true),
                Err(e) => Err(e),
            }
        }
    }

    /// What becomes of a vote for `root` that is cast with a ticket at
    /// `current_slot`.
    pub open spec fn vote_outcome(
        &self,
        ticket: &EpochRewardMerkleRootTicket,
        root: MerkleRoot,
        current_slot: u64,
        valid_voting_slots: u64,
    ) -> Result<VoteOutcome, RewardCoreError> {
        if ticket.spec_has_voted() {
            Ok(VoteOutcome::AlreadyVoted)
        } else if self.spec_is_voting_done(current_slot, valid_voting_slots) {
            Ok(VoteOutcome::VotingClosed)
        } else if root.spec_is_empty() {
            Ok(VoteOutcome::EmptyRoot)
        } else {
            match self.aggregate_outcome(root, &ticket.stake_table) {
                Ok(()) => Ok(VoteOutcome::Counted),
                Err(e) => Err(e),
            }
        }
    }

    /// Candidate `k` can win: it is in use, its weighted stake can be
    /// computed, and that is more than zero.
    pub open spec fn eligible(&self, weights: WeightTable, k: int) -> bool {
        &&& 0 <= k < 32
        &&& !self.roots[k].root.spec_is_empty()
        &&& spec_score(self.roots[k].stake, weights) matches Some(s) && s.num > 0
    }

    /// The weighted stake of candidate `k`.
    pub open spec fn score_of(&self, weights: WeightTable, k: int) -> Ratio {
        spec_score(self.roots[k].stake, weights)->Some_0
    }

    /// Candidate `k` wins: among the candidates that can win, it has more
    /// weighted stake than every earlier one and no less than every later
    /// one.
    pub open spec fn is_winner(&self, weights: WeightTable, k: int) -> bool {
        &&& self.eligible(weights, k)
        &&& forall|j: int|
            #![trigger self.eligible(weights, j)]
            self.eligible(weights, j) && j < k ==> beats(
                self.score_of(weights, k),
                self.score_of(weights, j),
            )
        &&& forall|j: int|
            #![trigger self.eligible(weights, j)]
            self.eligible(weights, j) && j > k ==> !beats(
                self.score_of(weights, j),
                self.score_of(weights, k),
            )
    }

    /// The root of the candidate that wins, where one does.
    pub open spec fn winning_root(&self, weights: WeightTable) -> MerkleRoot {
        self.roots[choose|k: int| self.is_winner(weights, k)].root
    }

    /// Candidate `b` leads the first `n` candidates: among those that can
    /// win, it has more weighted stake than every earlier one and no less
    /// than every later one.
    pub open spec fn leads(&self, weights: WeightTable, b: int, n: int) -> bool {
        &&& self.eligible(weights, b)
        &&& b < n
        &&& forall|j: int|
            #![trigger self.eligible(weights, j)]
            self.eligible(weights, j) && j < b ==> beats(
                self.score_of(weights, b),
                self.score_of(weights, j),
            )
        &&& forall|j: int|
            #![trigger self.eligible(weights, j)]
            self.eligible(weights, j) && b < j < n ==> !beats(
                self.score_of(weights, j),
                self.score_of(weights, b),
            )
    }

    /// The number of bytes that a stored record takes.
    pub fn size() -> (bytes: u64)
        ensures
            bytes == 8 + Self::spec_stored_len(),
    {
        8 + (32 + 8 + 8 + 32 * (32 + 32 * 40) + 32 * 40 + 1)
    }

    /// A record without candidates, payouts and rewards.
    pub fn new(ncn: Pubkey, ncn_epoch: u64) -> (record: Self)
        ensures
            record.ncn == ncn,
            record.ncn_epoch == ncn_epoch,
            record.reward_payout_count == 0,
            !record.exhausted,
            forall|k: int| 0 <= k < 32 ==> (#[trigger] record.roots[k]).spec_is_unused(),
            record.rewards.is_unused(),
            record.wf(),
            record.tracks_each_root_once(),
    {
        let record = Self {
            ncn,
            ncn_epoch,
            reward_payout_count: 0,
            roots: [MerkleRootEntry::new(); 32],
            rewards: TokenTable::new(),
            exhausted: false,
        };
        proof {
            assert forall|k: int| 0 <= k < 32 implies (#[trigger] record.roots[k]).stake.wf() by {
                record.roots[k].stake.lemma_unused();
            }
        }
        record
    }

    /// The epoch that a slot falls into, where epochs have a length.
    pub fn epoch(current_slot: u64, epoch_length: u64) -> (epoch: Option<u64>)
        ensures
            epoch == if epoch_length == 0 {
                None
            } else {
                Some(current_slot / epoch_length)
            },
    {
        current_slot.checked_div(epoch_length)
    }

    /// The seeds of the address of the record: the namespace, the network
    /// and the epoch in little-endian bytes.
    pub fn seeds(ncn: &Pubkey, ncn_epoch: u64) -> (seeds: Vec<Vec<u8>>)
        ensures
            seed_bytes(&seeds) == Self::spec_seeds(*ncn, ncn_epoch),
    {
        let mut seeds: Vec<Vec<u8>> = Vec::new();
        seeds.push("EPOCH_MERKLE_ROOT".as_bytes_vec());
        seeds.push(key_seed(ncn));
        seeds.push(u64_to_le_bytes(ncn_epoch));
        assert(seed_bytes(&seeds) =~= Self::spec_seeds(*ncn, ncn_epoch));
        seeds
    }

    /// The address of the record, with its bump seed and the seeds it was
    /// derived from.
    pub fn find_program_address(program_id: &Pubkey, ncn: &Pubkey, ncn_epoch: u64) -> (found: (
        Pubkey,
        u8,
        Vec<Vec<u8>>,
    ))
        requires
            program_address(Self::spec_seeds(*ncn, ncn_epoch), program_id@) is Some,
        ensures
            seed_bytes(&found.2) == Self::spec_seeds(*ncn, ncn_epoch),
            derives(Self::spec_seeds(*ncn, ncn_epoch), *program_id, found.0, found.1),
    {
        let seeds = Self::seeds(ncn, ncn_epoch);
        let (pda, bump) = find_address(&seeds, program_id).unwrap();
        (pda, bump, seeds)
    }

    /// The address of the record as
    /// [`EpochRewardMerkleRoot::find_program_address`] gives it, and `None`
    /// where the seeds derive no address.
    pub fn try_find_program_address(program_id: &Pubkey, ncn: &Pubkey, ncn_epoch: u64) -> (found:
        Option<(Pubkey, u8, Vec<Vec<u8>>)>)
        ensures
            found is Some <==> program_address(Self::spec_seeds(*ncn, ncn_epoch), program_id@)
                is Some,
            found matches Some(f) ==> seed_bytes(&f.2) == Self::spec_seeds(*ncn, ncn_epoch)
                && derives(Self::spec_seeds(*ncn, ncn_epoch), *program_id, f.0, f.1),
    {
        let seeds = Self::seeds(ncn, ncn_epoch);
        if find_address(&seeds, program_id).is_some() {
            Some(Self::find_program_address(program_id, ncn, ncn_epoch))
        } else {
            None
        }
    }

    /// Tells whether every table of the record keeps its slots in order.
    #[verifier::when_used_as_spec(wf)]
    pub fn is_well_formed(&self) -> (ok: bool)
        ensures
            ok == self.wf(),
    {
        let mut k: usize = 0;
        while k < 32
            invariant
                k <= 32,
                forall|j: int| 0 <= j < k ==> (#[trigger] self.roots[j]).stake.wf(),
            decreases 32 - k,
        {
            if !self.roots[k].stake.is_well_formed() {
                return false;
            }
            k += 1;
        }
        self.rewards.is_well_formed()
    }

    /// The slot at which voting for the epoch ends, where it is a slot that
    /// can be reached.
    pub fn voting_cutoff(&self, valid_voting_slots: u64) -> (cutoff: Option<u64>)
        ensures
            match cutoff {
                Some(slot) => slot == self.spec_voting_cutoff(valid_voting_slots),
                None => self.spec_voting_cutoff(valid_voting_slots) > u64::MAX,
            },
    {
        self.ncn_epoch.checked_add(valid_voting_slots)
    }

    /// Tells whether voting for the epoch is over at `current_slot`: whether
    /// `valid_voting_slots` slots have passed since the epoch started.
    #[verifier::when_used_as_spec(spec_is_voting_done)]
    pub fn is_voting_done(&self, current_slot: u64, valid_voting_slots: u64) -> (done: bool)
        ensures
            done == self.spec_is_voting_done(current_slot, valid_voting_slots),
    {
        match self.voting_cutoff(valid_voting_slots) {
            Some(voting_cutoff) => voting_cutoff <= current_slot,
            None => false,
        }
    }

    /// Folds the vote of a ticket into the record: the stakes of the ticket
    /// are added to the candidate that has the root of the ticket, or else to
    /// the first unused candidate, which then has that root. The answer
    /// tells whether the vote was folded in. A ticket that has not voted has
    /// no vote to fold in; for it, and where there is no such candidate or
    /// the stakes cannot be added, nothing changes.
    pub fn aggregate_ticket(&mut self, ticket: &EpochRewardMerkleRootTicket) -> (r: Result<
        bool,
        RewardCoreError,
    >)
        requires
            old(self).wf(),
            ticket.stake_table.wf(),
        ensures
            r == old(self).spec_aggregate_ticket(ticket),
            !(r matches Ok(true)) ==> *final(self) == *old(self),
            r matches Ok(true) ==> final(self).wf() && final(self).is_aggregate_of(
                old(self),
                old(self).candidate_slot(ticket.root)->Some_0,
                ticket.root,
                &ticket.stake_table,
            ),
            old(self).tracks_each_root_once() ==> final(self).tracks_each_root_once(),
    {
        if !ticket.has_voted() {
            return Ok(false);
        }
        let mut slot: Option<usize> = None;
        let mut k: usize = 0;
        while k < 32 && slot.is_none()
            invariant
                k <= 32,
                *self == *old(self),
                match slot {
                    Some(found) => self.is_slot_of(ticket.root, found as int),
                    None => forall|j: int|
                        0 <= j < k ==> (#[trigger] self.roots[j]).root != ticket.root,
                },
            decreases 32 - k + if slot.is_none() { 1int } else { 0int },
        {
            if self.roots[k].root == ticket.root {
                slot = Some(k);
            } else {
                k += 1;
            }
        }
        let ghost matched = slot is Some;
        k = 0;
        while k < 32 && slot.is_none()
            invariant
                k <= 32,
                *self == *old(self),
                matched ==> slot is Some && self.is_slot_of(ticket.root, slot->Some_0 as int),
                !matched ==> forall|j: int|
                    0 <= j < 32 ==> (#[trigger] self.roots[j]).root != ticket.root,
                !matched ==> match slot {
                    Some(found) => self.is_first_unused(found as int),
                    None => forall|j: int|
                        0 <= j < k ==> !(#[trigger] self.roots[j]).root.spec_is_empty(),
                },
            decreases 32 - k + if slot.is_none() { 1int } else { 0int },
        {
            if self.roots[k].root.is_empty() {
                slot = Some(k);
            } else {
                k += 1;
            }
        }
        let found = match slot {
            Some(found) => found,
            None => {
                return Err(RewardCoreError::NoMoreTableSlots);
            },
        };
        proof {
            // the slot is the one that the contract names
            if exists|j: int| self.is_slot_of(ticket.root, j) {
                let j = choose|j: int| self.is_slot_of(ticket.root, j);
                assert(self.roots[j].root == ticket.root);
                assert(matched);
            } else {
                assert(self.is_first_unused(found as int));
                let j = choose|j: int| self.is_first_unused(j);
                assert(j == found);
            }
            assert(self.candidate_slot(ticket.root) == Some(found as int));
        }
        let mut stake = self.roots[found].stake;
        stake.checked_merge(&ticket.stake_table)?;
        self.roots[found] = MerkleRootEntry { root: ticket.root, stake };
        proof {
            if old(self).tracks_each_root_once() {
                old(self).lemma_tracked_once(*self, found as int, ticket.root);
            }
        }
        Ok(true)
    }

    /// Casts the vote of a ticket for `root` and counts it, once: a ticket
    /// that has voted, a vote after the end of voting and a vote for the
    /// all-zero root change nothing, and neither does a vote whose stakes
    /// cannot be added. A vote that is counted stands on the ticket and in
    /// the record.
    pub fn submit_ticket(
        &mut self,
        ticket: &mut EpochRewardMerkleRootTicket,
        root: MerkleRoot,
        current_slot: u64,
        valid_voting_slots: u64,
    ) -> (r: Result<VoteOutcome, RewardCoreError>)
        requires
            old(self).wf(),
            old(ticket).stake_table.wf(),
        ensures
            r == old(self).vote_outcome(old(ticket), root, current_slot, valid_voting_slots),
            !(r matches Ok(VoteOutcome::Counted)) ==> *final(self) == *old(self) && *final(ticket)
                == *old(ticket),
            r matches Ok(VoteOutcome::Counted) ==> {
                &&& *final(ticket) == (EpochRewardMerkleRootTicket { root, ..*old(ticket) })
                &&& final(ticket).spec_has_voted()
                &&& final(self).wf()
                &&& final(self).is_aggregate_of(
                    old(self),
                    old(self).candidate_slot(root)->Some_0,
                    root,
                    &old(ticket).stake_table,
                )
                &&& old(self).tracks_each_root_once() ==> final(self).tracks_each_root_once()
            },
    {
        if ticket.has_voted() {
            return Ok(VoteOutcome::AlreadyVoted);
        }
        if self.is_voting_done(current_slot, valid_voting_slots) {
            return Ok(VoteOutcome::VotingClosed);
        }
        if root.is_empty() {
            return Ok(VoteOutcome::EmptyRoot);
        }
        let mut voted = *ticket;
        voted.submit(root, ticket.stake_table);
        let counted = self.aggregate_ticket(&voted)?;
        assert(counted);
        *ticket = voted;
        Ok(VoteOutcome::Counted)
    }

    /// Where some candidate has the root, some candidate is the first with
    /// it.
    proof fn lemma_some_slot_of(&self, root: MerkleRoot, j: int)
        requires
            0 <= j < 32,
            self.roots[j].root == root,
        ensures
            exists|k: int| self.is_slot_of(root, k),
        decreases j,
    {
        if exists|h: int| 0 <= h < j && (#[trigger] self.roots[h]).root == root {
            let h = choose|h: int| 0 <= h < j && (#[trigger] self.roots[h]).root == root;
            self.lemma_some_slot_of(root, h);
        } else {
            assert(self.is_slot_of(root, j));
        }
    }

    /// A root that is written to the candidate that a vote for it goes to
    /// keeps the candidates in order and every root tracked once.
    proof fn lemma_tracked_once(&self, after: EpochRewardMerkleRoot, k: int, root: MerkleRoot)
        requires
            self.tracks_each_root_once(),
            !root.spec_is_empty(),
            self.candidate_slot(root) == Some(k),
            0 <= k < 32,
            after.roots[k].root == root,
            forall|j: int| 0 <= j < 32 && j != k ==> #[trigger] after.roots[j] == self.roots[j],
        ensures
            after.tracks_each_root_once(),
    {
        if exists|j: int| self.is_slot_of(root, j) {
            assert(self.is_slot_of(root, k));
            assert forall|j: int| 0 <= j < 32 implies (#[trigger] after.roots[j]).root
                == self.roots[j].root by {}
        } else {
            assert(self.is_first_unused(k));
            assert forall|j: int| 0 <= j < 32 implies (#[trigger] self.roots[j]).root != root by {
                if self.roots[j].root == root {
                    self.lemma_some_slot_of(root, j);
                }
            }
            assert forall|i: int, j: int|
                #![trigger after.roots[i], after.roots[j]]
                0 <= i < j < 32 && after.roots[i].root.spec_is_empty() implies after.roots[j].root.spec_is_empty() by {
                assert(i != k);
                assert(self.roots[i].root.spec_is_empty());
                if j == k {
                    assert(!self.roots[i].root.spec_is_empty());
                }
            }
            assert forall|i: int, j: int|
                #![trigger after.roots[i], after.roots[j]]
                0 <= i < j < 32 && !after.roots[j].root.spec_is_empty() implies after.roots[i].root
                != after.roots[j].root by {
                if j == k {
                    assert(self.roots[i].root != root);
                } else if i == k {
                    assert(self.roots[k].root.spec_is_empty());
                    assert(self.roots[j].root.spec_is_empty());
                }
            }
        }
    }

    /// The weighted stake of a stake table: the sum of `stake * weight` over
    /// its taken slots whose asset the weight table knows, and `None` where
    /// a product or a sum cannot be computed.
    pub fn score(stake: &TokenTable, weights: &WeightTable) -> (score: Option<Weight>)
        ensures
            score_view(score) == spec_score(*stake, *weights),
            score matches Some(s) ==> s.wf(),
    {
        let mut sum = Weight::default();
        let mut n: usize = 0;
        while n < 32
            invariant
                n <= 32,
                Some(sum@) == score_upto(*stake, *weights, n as int),
                sum.wf(),
            decreases 32 - n,
        {
            let entry = stake.table[n];
            if !entry.is_empty() {
                match weights.find_weight(&entry.mint) {
                    Some(weight) => {
                        proof {
                            lemma_from_whole_number(entry.value);
                            lemma_score_fails_on(*stake, *weights, n as int + 1, 32);
                        }
                        let term = match Weight::from(entry.value).checked_mul(&weight) {
                            Ok(term) => term,
                            Err(_) => {
                                return None;
                            },
                        };
                        sum = match sum.checked_add(&term) {
                            Ok(total) => total,
                            Err(_) => {
                                return None;
                            },
                        };
                    },
                    None => {},
                }
            }
            n += 1;
        }
        Some(sum)
    }

    /// The consensus root of the epoch under a finalized weight table: the
    /// root of the candidate with the greatest weighted stake, and of the
    /// earliest such candidate where several have it. Candidates whose
    /// weighted stake is zero or cannot be computed do not take part. `None`
    /// where no candidate takes part.
    pub fn get_highest_voted_root(&self, weights: &WeightTable) -> (winner: Option<MerkleRoot>)
        ensures
            winner is None <==> forall|k: int| !self.eligible(*weights, k),
            winner matches Some(root) ==> root == self.winning_root(*weights) && exists|k: int|
                self.is_winner(*weights, k) && self.roots[k].root == root,
    {
        let mut best: Option<(usize, Weight)> = None;
        let mut k: usize = 0;
        while k < 32
            invariant
                k <= 32,
                match best {
                    None => forall|j: int| 0 <= j < k ==> !self.eligible(*weights, j),
                    Some((b, s)) => {
                        &&& b < k
                        &&& self.eligible(*weights, b as int)
                        &&& s@ == self.score_of(*weights, b as int)
                        &&& forall|j: int|
                            #![trigger self.eligible(*weights, j)]
                            self.eligible(*weights, j) && j < b ==> beats(
                                s@,
                                self.score_of(*weights, j),
                            )
                        &&& forall|j: int|
                            #![trigger self.eligible(*weights, j)]
                            self.eligible(*weights, j) && b < j < k ==> !beats(
                                self.score_of(*weights, j),
                                s@,
                            )
                    },
                },
            decreases 32 - k,
        {
            if !self.roots[k].root.is_empty() {
                match Self::score(&self.roots[k].stake, weights) {
                    Some(score) => {
                        if !score.is_zero() {
                            match best {
                                None => {
                                    best = Some((k, score));
                                },
                                Some((b, s)) => {
                                    if score.exceeds(&s) {
                                        proof {
                                            self.lemma_new_leader(*weights, b as int, k as int);
                                        }
                                        best = Some((k, score));
                                    }
                                },
                            }
                        }
                    },
                    None => {},
                }
            }
            k += 1;
        }
        match best {
            Some((b, _)) => {
                assert(self.is_winner(*weights, b as int));
                proof {
                    self.lemma_winner_unique(
                        *weights,
                        b as int,
                        choose|k: int| self.is_winner(*weights, k),
                    );
                }
                Some(self.roots[b].root)
            },
            None => None,
        }
    }

    /// Where candidate `k` has more weighted stake than candidate `b`, and
    /// `b` leads the candidates before `k`, candidate `k` has more weighted
    /// stake than each of them.
    proof fn lemma_new_leader(&self, weights: WeightTable, b: int, k: int)
        requires
            0 <= b < k < 32,
            self.eligible(weights, b),
            self.eligible(weights, k),
            beats(self.score_of(weights, k), self.score_of(weights, b)),
            forall|j: int|
                #![trigger self.eligible(weights, j)]
                self.eligible(weights, j) && j < b ==> beats(
                    self.score_of(weights, b),
                    self.score_of(weights, j),
                ),
            forall|j: int|
                #![trigger self.eligible(weights, j)]
                self.eligible(weights, j) && b < j < k ==> !beats(
                    self.score_of(weights, j),
                    self.score_of(weights, b),
                ),
        ensures
            forall|j: int|
                #![trigger self.eligible(weights, j)]
                self.eligible(weights, j) && j < k ==> beats(
                    self.score_of(weights, k),
                    self.score_of(weights, j),
                ),
    {
        let sk = self.score_of(weights, k);
        let sb = self.score_of(weights, b);
        lemma_score_has_denominator(self.roots[k].stake, weights, 32);
        lemma_score_has_denominator(self.roots[b].stake, weights, 32);
        assert forall|j: int|
            #![trigger self.eligible(weights, j)]
            self.eligible(weights, j) && j < k implies beats(sk, self.score_of(weights, j)) by {
            let sj = self.score_of(weights, j);
            lemma_score_has_denominator(self.roots[j].stake, weights, 32);
            if j != b {
                lemma_beats_chain(sk, sb, sj);
            }
        }
    }

    /// One candidate at most wins.
    pub proof fn lemma_winner_unique(&self, weights: WeightTable, k1: int, k2: int)
        requires
            self.is_winner(weights, k1),
            self.is_winner(weights, k2),
        ensures
            k1 == k2,
    {
    }

    /// Where some of the first `n` candidates can win, one of them leads
    /// them.
    pub proof fn lemma_leader_exists(&self, weights: WeightTable, n: int) -> (b: int)
        requires
            0 <= n <= 32,
            exists|j: int| self.eligible(weights, j) && j < n,
        ensures
            self.leads(weights, b, n),
        decreases n,
    {
        let k = n - 1;
        if exists|j: int| self.eligible(weights, j) && j < k {
            let b = self.lemma_leader_exists(weights, k);
            if self.eligible(weights, k) && beats(
                self.score_of(weights, k),
                self.score_of(weights, b),
            ) {
                self.lemma_new_leader(weights, b, k);
                k
            } else {
                b
            }
        } else {
            let j = choose|j: int| self.eligible(weights, j) && j < n;
            assert(j == k);
            k
        }
    }

    /// Where some candidate can win, one candidate wins.
    pub proof fn lemma_some_winner(&self, weights: WeightTable)
        requires
            exists|k: int| self.eligible(weights, k),
        ensures
            exists|k: int| self.is_winner(weights, k),
            self.is_winner(weights, choose|k: int| self.is_winner(weights, k)),
    {
        let j = choose|j: int| self.eligible(weights, j);
        assert(self.eligible(weights, j) && j < 32);
        let b = self.lemma_leader_exists(weights, 32);
        assert(self.is_winner(weights, b));
    }

    /// A candidate whose stakes are all zero does not win, whatever the
    /// weights are.
    pub proof fn lemma_no_stake_no_win(&self, weights: WeightTable, k: int)
        requires
            0 <= k < 32,
            forall|i: int|
                0 <= i < 32 ==> self.roots[k].stake@[i].spec_is_empty()
                    || self.roots[k].stake@[i].value == 0,
        ensures
            !self.eligible(weights, k),
    {
        lemma_score_of_nothing(self.roots[k].stake, weights, 32);
    }
}

/// A score that has been computed has a denominator other than zero and fits
/// 64 bits.
pub proof fn lemma_score_has_denominator(stake: TokenTable, weights: WeightTable, n: int)
    ensures
        score_upto(stake, weights, n) matches Some(s) ==> s.den > 0 && s.fits(),
    decreases n,
{
    if n > 0 {
        lemma_score_has_denominator(stake, weights, n - 1);
        if score_upto(stake, weights, n - 1) is Some {
            let sum = score_upto(stake, weights, n - 1)->Some_0;
            let entry = stake@[n - 1];
            if !entry.spec_is_empty() && weights.spec_find_weight(entry.mint) is Some {
                let weight = weights.spec_find_weight(entry.mint)->Some_0;
                let whole = Ratio { num: entry.value as nat, den: 1 };
                lemma_results_in_lowest_terms(whole, weight@);
                if whole.checked_mul(weight@) is Ok {
                    lemma_results_in_lowest_terms(sum, whole.checked_mul(weight@)->Ok_0);
                }
            }
        }
    }
}

/// A score that has been computed is the sum of `stake * weight` over the
/// slots: it has the value of that sum.
pub proof fn lemma_score_is_weighted_stake(stake: TokenTable, weights: WeightTable, n: int)
    ensures
        score_upto(stake, weights, n) matches Some(s) ==> s.den > 0 && s.same_value(
            weighted_stake_upto(stake, weights, n),
        ),
    decreases n,
{
    lemma_score_has_denominator(stake, weights, n);
    if n > 0 && score_upto(stake, weights, n) is Some {
        lemma_score_is_weighted_stake(stake, weights, n - 1);
        lemma_score_has_denominator(stake, weights, n - 1);
        let s = score_upto(stake, weights, n - 1)->Some_0;
        let e = weighted_stake_upto(stake, weights, n - 1);
        let entry = stake@[n - 1];
        if !entry.spec_is_empty() && weights.spec_find_weight(entry.mint) is Some {
            let w = weights.spec_find_weight(entry.mint)->Some_0@;
            let v = entry.value as nat;
            let whole = Ratio { num: v, den: 1 };
            let product = Ratio { num: v * w.num, den: 1 * w.den };
            let t = whole.checked_mul(w)->Ok_0;
            assert(t == product.reduced());
            crate::weight::lemma_reduced_fits(product);
            let sum = Ratio { num: s.num * t.den + s.den * t.num, den: s.den * t.den };
            let total = s.checked_add(t)->Ok_0;
            assert(total == sum.reduced());
            assert(sum.den > 0) by (nonlinear_arith)
                requires
                    sum.den == s.den * t.den,
                    s.den > 0,
                    t.den > 0,
            ;
            crate::weight::lemma_reduced_fits(sum);
            let exact = weighted_stake_upto(stake, weights, n);
            assert(exact.num == e.num * w.den + e.den * (v * w.num) && exact.den == e.den * w.den);
            // the sum before it is reduced has the value of the exact sum
            assert(1 * w.den == w.den) by (nonlinear_arith);
            lemma_sums_of_equal_values(
                s.num as int,
                s.den as int,
                t.num as int,
                t.den as int,
                e.num as int,
                e.den as int,
                (v * w.num) as int,
                w.den as int,
            );
            assert(sum.num * exact.den == exact.num * sum.den);
            // and reducing it keeps the value
            assert(total.num * exact.den == exact.num * total.den) by (nonlinear_arith)
                requires
                    total.num * sum.den == sum.num * total.den,
                    sum.num * exact.den == exact.num * sum.den,
                    sum.den > 0,
            ;
        }
    }
}

/// Fractions of equal values have sums of equal values: where `a/b` is
/// `p/q` and `c/d` is `x/y`, `a/b + c/d` is `p/q + x/y`.
proof fn lemma_sums_of_equal_values(a: int, b: int, c: int, d: int, p: int, q: int, x: int, y: int)
    requires
        a * q == p * b,
        c * y == x * d,
    ensures
        (a * d + b * c) * (q * y) == (p * y + q * x) * (b * d),
{
    assert((a * d) * (q * y) == (a * q) * (d * y)) by (nonlinear_arith);
    assert((p * y) * (b * d) == (p * b) * (d * y)) by (nonlinear_arith);
    assert((b * c) * (q * y) == (c * y) * (b * q)) by (nonlinear_arith);
    assert((q * x) * (b * d) == (x * d) * (b * q)) by (nonlinear_arith);
    assert((a * d + b * c) * (q * y) == (a * d) * (q * y) + (b * c) * (q * y))
        by (nonlinear_arith);
    assert((p * y + q * x) * (b * d) == (p * y) * (b * d) + (q * x) * (b * d))
        by (nonlinear_arith);
}

/// Once the score of the first slots cannot be computed, neither can the
/// score of more slots.
pub proof fn lemma_score_fails_on(stake: TokenTable, weights: WeightTable, n: int, m: int)
    requires
        n <= m,
    ensures
        score_upto(stake, weights, n) is None ==> score_upto(stake, weights, m) is None,
    decreases m - n,
{
    if n < m {
        lemma_score_fails_on(stake, weights, n, m - 1);
    }
}

/// A stake table whose amounts are all zero has the score zero, where it has
/// a score.
pub proof fn lemma_score_of_nothing(stake: TokenTable, weights: WeightTable, n: int)
    requires
        0 <= n <= 32,
        forall|i: int| 0 <= i < 32 ==> stake@[i].spec_is_empty() || stake@[i].value == 0,
    ensures
        score_upto(stake, weights, n) matches Some(s) ==> s == (Ratio { num: 0, den: 1 }),
    decreases n,
{
    if n > 0 {
        lemma_score_of_nothing(stake, weights, n - 1);
        let entry = stake@[n - 1];
        if score_upto(stake, weights, n) is Some && !entry.spec_is_empty()
            && weights.spec_find_weight(entry.mint) is Some {
            let weight = weights.spec_find_weight(entry.mint)->Some_0;
            Weight::lemma_view_injective(weight, weight);
            let d = weight@.den;
            let zero = Ratio { num: 0, den: 1 };
            assert(0 * weight@.num == 0 && 1 * d == d) by (nonlinear_arith);
            assert(crate::gcd::gcd(0, d) == d);
            assert(d > 0);
            assert(0nat / d == 0 && d / d == 1) by (nonlinear_arith)
                requires
                    d > 0,
            ;
            assert(zero.checked_mul(weight@) == Ok::<Ratio, crate::error::WeightTableError>(zero));
            assert(crate::gcd::gcd(0, 1) == 1);
            assert(0nat * 1nat + 1nat * 0nat == 0 && 1nat * 1nat == 1 && 0nat / 1nat == 0 && 1nat
                / 1nat == 1) by (nonlinear_arith);
            assert((Ratio { num: 0, den: 1 }).reduced() == zero);
            assert(zero.checked_add(zero) == Ok::<Ratio, crate::error::WeightTableError>(zero));
        }
    }
}

/// Being greater carries over: where `a` is greater than `b`, it is greater
/// than everything that `b` is greater than, and than everything that is not
/// greater than `b`.
pub proof fn lemma_beats_chain(a: Ratio, b: Ratio, c: Ratio)
    requires
        a.den > 0,
        b.den > 0,
        c.den > 0,
        beats(a, b),
        beats(b, c) || !beats(c, b),
    ensures
        beats(a, c),
{
    let (an, ad, bn, bd, cn, cd) = (
        a.num as int,
        a.den as int,
        b.num as int,
        b.den as int,
        c.num as int,
        c.den as int,
    );
    assert(bn * cd >= cn * bd);
    assert((an * bd) * cd > (bn * ad) * cd) by (nonlinear_arith)
        requires
            an * bd > bn * ad,
            cd > 0,
    ;
    assert((bn * cd) * ad >= (cn * bd) * ad) by (nonlinear_arith)
        requires
            bn * cd >= cn * bd,
            ad > 0,
    ;
    assert((an * cd) * bd > (cn * ad) * bd) by (nonlinear_arith)
        requires
            (an * bd) * cd > (bn * ad) * cd,
            (bn * cd) * ad >= (cn * bd) * ad,
    ;
    assert(an * cd > cn * ad) by (nonlinear_arith)
        requires
            (an * cd) * bd > (cn * ad) * bd,
            bd > 0,
    ;
}

} // verus!
