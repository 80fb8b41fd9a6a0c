//! The way of an epoch from voting to payout.
//!
//! An epoch takes votes until its voting window has passed. Then it has a
//! consensus root, from which its rewards are paid out pair by pair, each
//! pair once, or it has none, and its rewards are handed on to a later
//! epoch. The payouts themselves and their markers are made by the caller:
//! the library decides what is to be done and keeps the count.

use crate::epoch_reward_merkle_root::EpochRewardMerkleRoot;
use crate::error::RewardCoreError;
use crate::merkle_root::MerkleRoot;
use crate::pubkey::Pubkey;
use crate::reward_config::RewardConfig;
use crate::token_table::TokenTable;
use crate::weight_table::WeightTable;
use vstd::prelude::*;

verus! {

/// Where an epoch stands.
#[derive(Debug, Clone, Copy, PartialEq, Eq, Structural)]
pub enum EpochPhase {
    /// Votes are taken.
    VotingOpen,
    /// Voting is over and there is no consensus root.
    VotingClosed,
    /// There is a consensus root and nothing has been paid out yet.
    ConsensusReached,
    /// Rewards are being paid out.
    Distributing,
    /// Nothing is paid out any more: the rewards have been handed on, or the
    /// markers of the payouts may be given up.
    Closed,
}

impl EpochPhase {
    /// The place of the phase on the way of an epoch.
    pub open spec fn rank(self) -> nat {
        match self {
            EpochPhase::VotingOpen => 0,
            EpochPhase::VotingClosed => 1,
            EpochPhase::ConsensusReached => 2,
            EpochPhase::Distributing => 3,
            EpochPhase::Closed => 4,
        }
    }
}

/// What the crank is to do for one pair of asset and recipient.
#[derive(Debug, Clone, Copy)]
pub enum CrankAction {
    /// Nothing: the epoch is not in a phase in which rewards are paid out.
    Wait,
    /// Nothing: the marker of the pair exists, so the pair has been paid.
    Skip,
    /// Pay the pair as the plan with this root says, and make its marker.
    Pay(MerkleRoot),
}

impl EpochRewardMerkleRoot {
    /// The epoch has a consensus root at `current_slot`: voting is over, the
    /// weight table counts as finalized, and some candidate can win.
    pub open spec fn has_consensus(
        &self,
        weights: &WeightTable,
        config: &RewardConfig,
        current_slot: u64,
        epoch_length: u64,
    ) -> bool {
        &&& self.spec_is_voting_done(current_slot, config.valid_voting_slots)
        &&& weights.spec_is_finalized(current_slot, epoch_length)
        &&& exists|k: int| self.eligible(*weights, k)
    }

    /// The epoch is delinquent at `current_slot`: voting is over, the weight
    /// table counts as finalized, no candidate can win, and the rewards have
    /// not been handed on yet.
    pub open spec fn spec_is_delinquent(
        &self,
        weights: &WeightTable,
        config: &RewardConfig,
        current_slot: u64,
        epoch_length: u64,
    ) -> bool {
        &&& self.spec_is_voting_done(current_slot, config.valid_voting_slots)
        &&& weights.spec_is_finalized(current_slot, epoch_length)
        &&& forall|k: int| !self.eligible(*weights, k)
        &&& !self.exhausted
    }

    /// Where the epoch stands at `current_slot`.
    pub open spec fn spec_phase(
        &self,
        weights: &WeightTable,
        config: &RewardConfig,
        current_slot: u64,
        epoch_length: u64,
    ) -> EpochPhase {
        if !self.spec_is_voting_done(current_slot, config.valid_voting_slots) {
            EpochPhase::VotingOpen
        } else if self.exhausted || config.spec_can_close_marker_accounts(self, current_slot) {
            EpochPhase::Closed
        } else if !self.has_consensus(weights, config, current_slot, epoch_length) {
            EpochPhase::VotingClosed
        } else if self.reward_payout_count == 0 {
            EpochPhase::ConsensusReached
        } else {
            EpochPhase::Distributing
        }
    }

    /// Rewards are paid out in this phase.
    pub open spec fn pays_out(phase: EpochPhase) -> bool {
        phase == EpochPhase::ConsensusReached || phase == EpochPhase::Distributing
    }

    /// The record after one more payout has been counted.
    pub open spec fn with_one_more_payout(&self) -> EpochRewardMerkleRoot {
        EpochRewardMerkleRoot {
            reward_payout_count: (self.reward_payout_count + 1) as u64,
            ..*self
        }
    }

    /// What the crank decides for one pair of asset and recipient, and the
    /// record as the crank leaves it. Outside the phases in which rewards
    /// are paid out the crank waits. In them it skips a pair whose marker
    /// exists, and pays a pair whose marker does not exist as the plan with
    /// the winning root says, which it counts.
    pub open spec fn spec_distribute_crank(
        &self,
        weights: &WeightTable,
        config: &RewardConfig,
        current_slot: u64,
        epoch_length: u64,
        marker_exists: bool,
    ) -> (Result<CrankAction, RewardCoreError>, EpochRewardMerkleRoot) {
        if !Self::pays_out(self.spec_phase(weights, config, current_slot, epoch_length)) {
            (Ok(CrankAction::Wait), *self)
        } else if marker_exists {
            (Ok(CrankAction::Skip), *self)
        } else if self.reward_payout_count == u64::MAX {
            (Err(RewardCoreError::ArithmeticOverflow), *self)
        } else {
            (Ok(CrankAction::Pay(self.winning_root(*weights))), self.with_one_more_payout())
        }
    }

    /// The consensus root of the epoch at `current_slot`: the root of the
    /// winning candidate once voting is over and the weight table counts as
    /// finalized, and `None` before that and where no candidate can win.
    pub fn consensus_root(
        &self,
        weights: &WeightTable,
        config: &RewardConfig,
        current_slot: u64,
        epoch_length: u64,
    ) -> (consensus: Option<MerkleRoot>)
        ensures
            consensus == if self.has_consensus(weights, config, current_slot, epoch_length) {
                Some(self.winning_root(*weights))
            } else {
                None
            },
            consensus is Some ==> exists|k: int| self.is_winner(*weights, k),
    {
        if !self.is_voting_done(current_slot, config.valid_voting_slots) {
            return None;
        }
        if !weights.is_finalized(current_slot, epoch_length) {
            return None;
        }
        self.get_highest_voted_root(weights)
    }

    /// Tells where the epoch stands at `current_slot`.
    pub fn phase(
        &self,
        weights: &WeightTable,
        config: &RewardConfig,
        current_slot: u64,
        epoch_length: u64,
    ) -> (phase: EpochPhase)
        ensures
            phase == self.spec_phase(weights, config, current_slot, epoch_length),
    {
        if !self.is_voting_done(current_slot, config.valid_voting_slots) {
            return EpochPhase::VotingOpen;
        }
        if self.exhausted || config.can_close_marker_accounts(self, current_slot) {
            return EpochPhase::Closed;
        }
        if self.consensus_root(weights, config, current_slot, epoch_length).is_none() {
            return EpochPhase::VotingClosed;
        }
        if self.reward_payout_count == 0 {
            EpochPhase::ConsensusReached
        } else {
            EpochPhase::Distributing
        }
    }

    /// Decides what the crank is to do for one pair of asset and recipient,
    /// given whether the marker of the pair exists. Where the pair is to be
    /// paid, the payout is counted; in every other case the record stays as
    /// it is. A count that has reached its limit is an overflow.
    pub fn distribute_crank(
        &mut self,
        weights: &WeightTable,
        config: &RewardConfig,
        current_slot: u64,
        epoch_length: u64,
        marker_exists: bool,
    ) -> (r: Result<CrankAction, RewardCoreError>)
        ensures
            (r, *final(self)) == old(self).spec_distribute_crank(
                weights,
                config,
                current_slot,
                epoch_length,
                marker_exists,
            ),
            r matches Ok(CrankAction::Pay(root)) ==> {
                &&& exists|k: int|
                    old(self).is_winner(*weights, k) && old(self).roots[k].root == root
                &&& final(self).spec_phase(weights, config, current_slot, epoch_length)
                    == EpochPhase::Distributing
            },
    {
        if !self.is_voting_done(current_slot, config.valid_voting_slots) {
            return Ok(CrankAction::Wait);
        }
        if self.exhausted || config.can_close_marker_accounts(self, current_slot) {
            return Ok(CrankAction::Wait);
        }
        let root = match self.consensus_root(weights, config, current_slot, epoch_length) {
            Some(root) => root,
            None => {
                return Ok(CrankAction::Wait);
            },
        };
        if marker_exists {
            return Ok(CrankAction::Skip);
        }
        let count = self.reward_payout_count.checked_add(1).ok_or(
            RewardCoreError::ArithmeticOverflow,
        )?;
        self.reward_payout_count = count;
        proof {
            let k = choose|k: int| old(self).is_winner(*weights, k);
            assert(self.eligible(*weights, k));
        }
        Ok(CrankAction::Pay(root))
    }

    /// Tells whether the epoch is delinquent at `current_slot`: whether
    /// voting has ended without a consensus root and the rewards have not
    /// been handed on yet.
    #[verifier::when_used_as_spec(spec_is_delinquent)]
    pub fn is_delinquent(
        &self,
        weights: &WeightTable,
        config: &RewardConfig,
        current_slot: u64,
        epoch_length: u64,
    ) -> (delinquent: bool)
        ensures
            delinquent == self.spec_is_delinquent(weights, config, current_slot, epoch_length),
    {
        if self.exhausted {
            return false;
        }
        if !self.is_voting_done(current_slot, config.valid_voting_slots) {
            return false;
        }
        if !weights.is_finalized(current_slot, epoch_length) {
            return false;
        }
        self.get_highest_voted_root(weights).is_none()
    }

    /// Hands the rewards of this epoch on to the record of the latest epoch,
    /// where this epoch is delinquent: every amount is added to the rewards
    /// of the latest epoch, and this epoch is left without rewards and
    /// marked as exhausted. The answer tells whether the rewards were handed
    /// on. Where the epoch is not delinquent, or the amounts cannot be
    /// added, nothing changes.
    pub fn delinquent_to_latest(
        &mut self,
        latest: &mut EpochRewardMerkleRoot,
        weights: &WeightTable,
        config: &RewardConfig,
        current_slot: u64,
        epoch_length: u64,
    ) -> (r: Result<bool, RewardCoreError>)
        requires
            old(self).wf(),
            old(latest).wf(),
        ensures
            !old(self).spec_is_delinquent(weights, config, current_slot, epoch_length) ==> r
                == Ok::<bool, RewardCoreError>(false),
            old(self).spec_is_delinquent(weights, config, current_slot, epoch_length) ==> r
                == match old(latest).rewards.merge_outcome(&old(self).rewards) {
                Ok(()) => Ok::<bool, RewardCoreError>(true),
                Err(e) => Err::<bool, RewardCoreError>(e),
            },
            !(r matches Ok(true)) ==> *final(self) == *old(self) && *final(latest) == *old(latest),
            r matches Ok(true) ==> {
                &&& *final(latest) == (EpochRewardMerkleRoot {
                    rewards: final(latest).rewards,
                    ..*old(latest)
                })
                &&& final(latest).rewards.is_merge_of(&old(latest).rewards, &old(self).rewards)
                &&& *final(self) == (EpochRewardMerkleRoot {
                    rewards: final(self).rewards,
                    exhausted: true,
                    ..*old(self)
                })
                &&& final(self).rewards.is_unused()
                &&& final(self).wf()
                &&& final(latest).wf()
                &&& final(self).spec_phase(weights, config, current_slot, epoch_length)
                    == EpochPhase::Closed
            },
    {
        if !self.is_delinquent(weights, config, current_slot, epoch_length) {
            return Ok(false);
        }
        let mut rewards = latest.rewards;
        rewards.checked_merge(&self.rewards)?;
        latest.rewards = rewards;
        self.rewards = TokenTable::new();
        self.exhausted = true;
        Ok(true)
    }
}

/// An epoch does not go back: as long as its record, the weights and the
/// policy stay as they are, a later slot finds it in the same phase or in a
/// later one.
pub proof fn lemma_phase_never_goes_back(
    record: EpochRewardMerkleRoot,
    weights: WeightTable,
    config: RewardConfig,
    earlier: u64,
    later: u64,
    epoch_length: u64,
)
    requires
        earlier <= later,
    ensures
        record.spec_phase(&weights, &config, earlier, epoch_length).rank() <= record.spec_phase(
            &weights,
            &config,
            later,
            epoch_length,
        ).rank(),
{
    if record.has_consensus(&weights, &config, earlier, epoch_length) {
        let k = choose|k: int| record.eligible(weights, k);
        assert(record.has_consensus(&weights, &config, later, epoch_length));
    }
}

/// A pair is paid once. Where the crank pays a pair, it counts one payout,
/// and the marker of the pair is made. With the marker there the crank pays
/// nothing and counts nothing, at whatever slot it is asked again; at the
/// slot of the payout it skips the pair.
pub proof fn lemma_pair_is_paid_once(
    record: EpochRewardMerkleRoot,
    weights: WeightTable,
    config: RewardConfig,
    slot: u64,
    later: u64,
    epoch_length: u64,
)
    requires
        record.spec_distribute_crank(&weights, &config, slot, epoch_length, false).0 matches Ok(
            CrankAction::Pay(_),
        ),
    ensures
        ({
            let paid = record.spec_distribute_crank(&weights, &config, slot, epoch_length, false).1;
            let again = paid.spec_distribute_crank(&weights, &config, later, epoch_length, true);
            &&& paid.reward_payout_count == record.reward_payout_count + 1
            &&& again.1 == paid
            &&& again.0 == Ok::<CrankAction, RewardCoreError>(CrankAction::Skip) || again.0 == Ok::<
                CrankAction,
                RewardCoreError,
            >(CrankAction::Wait)
            &&& later == slot ==> again.0 == Ok::<CrankAction, RewardCoreError>(CrankAction::Skip)
        }),
{
    let paid = record.with_one_more_payout();
    if record.has_consensus(&weights, &config, slot, epoch_length) {
        let k = choose|k: int| record.eligible(weights, k);
        assert(paid.eligible(weights, k));
    }
}

/// The crank pays the pair whose marker does not exist as the plan with the
/// consensus root says, and counts the payout, as long as the epoch pays
/// out and the count has room.
pub proof fn lemma_unpaid_pair_is_paid(
    record: EpochRewardMerkleRoot,
    weights: WeightTable,
    config: RewardConfig,
    slot: u64,
    epoch_length: u64,
)
    requires
        EpochRewardMerkleRoot::pays_out(record.spec_phase(&weights, &config, slot, epoch_length)),
        record.reward_payout_count < u64::MAX,
    ensures
        ({
            let (action, paid) = record.spec_distribute_crank(
                &weights,
                &config,
                slot,
                epoch_length,
                false,
            );
            &&& action matches Ok(CrankAction::Pay(root)) && exists|k: int|
                record.is_winner(weights, k) && record.roots[k].root == root
            &&& paid.reward_payout_count == record.reward_payout_count + 1
        }),
{
    assert(record.has_consensus(&weights, &config, slot, epoch_length));
    record.lemma_some_winner(weights);
}

/// Handing rewards on loses nothing: for every asset, what the two tables
/// hold together is the same before and after, where the table that is
/// handed on is left empty.
pub proof fn lemma_handing_on_keeps_amounts(
    from_before: TokenTable,
    to_before: TokenTable,
    from_after: TokenTable,
    to_after: TokenTable,
    mint: Pubkey,
)
    requires
        to_after.is_merge_of(&to_before, &from_before),
        from_after.is_unused(),
    ensures
        to_after.amount(mint) + from_after.amount(mint) == to_before.amount(mint)
            + from_before.amount(mint),
{
    from_after.lemma_unused();
}

} // verus!
