//! The checks that come before a vote is taken: in which epoch a slot
//! falls, and whether every link between network, operator, vault and
//! slasher is in force.
//!
//! A link is made and given up at slots that its record keeps. Whether it is
//! in force at a later slot is asked of the restaking library, whose answer
//! is stated here.

use crate::error::RewardCoreError;
use vstd::prelude::*;

verus! {

/// The two slots of a link: when it was made, and when it was given up.
#[derive(Debug, Clone, Copy, PartialEq, Eq, Structural)]
pub struct SlotToggle {
    pub slot_added: u64,
    pub slot_removed: u64,
}

/// Why the state of a link cannot be told.
#[derive(Debug, Clone, Copy, PartialEq, Eq, Structural)]
pub enum SlotToggleFailure {
    /// Epochs have no length.
    BadEpochLength,
    /// An epoch number does not fit 64 bits.
    ArithmeticOverflow,
}

/// The links between network, operator, vault and slasher that a vote
/// rests on.
#[derive(Debug, Clone, Copy, PartialEq, Eq, Structural)]
pub struct RestakingLinks {
    /// The ticket of the vault for the slasher of the network.
    pub vault_ncn_slasher_ticket: SlotToggle,
    /// The ticket of the network for the slasher of the vault.
    pub ncn_vault_slasher_ticket: SlotToggle,
    /// The network has opted in to the operator.
    pub ncn_opt_in: SlotToggle,
    /// The operator has opted in to the network.
    pub operator_opt_in: SlotToggle,
    /// The ticket of the operator for the vault.
    pub operator_vault_ticket: SlotToggle,
    /// The ticket of the vault for the network.
    pub vault_ncn_ticket: SlotToggle,
    /// The ticket of the network for the vault.
    pub ncn_vault_ticket: SlotToggle,
}

/// The link that is not in force, or why the state of a link cannot be
/// told.
#[derive(Debug, Clone, Copy, PartialEq, Eq, Structural)]
pub enum RestakingStateError {
    VaultNcnSlasherTicketUnslashable,
    NcnVaultSlasherTicketUnslashable,
    NcnOperatorStateUnslashable,
    OperatorVaultTicketUnslashable,
    VaultNcnTicketUnslashable,
    NcnVaultTicketUnslashable,
    /// The state of a link cannot be told.
    SlotToggle(SlotToggleFailure),
}

/// Calls `jito_jsm_core::slot_toggle::SlotToggle::is_active_or_cooldown` on
/// the toggle that is stored with these two slots. The contract claims that
/// the answer is what [`SlotToggle::spec_is_active_or_cooldown`] states, as
/// the source of that function has it. Of the failures only the overflow is
/// told apart.
#[verifier::external_body]
fn is_active_or_cooldown(toggle: &SlotToggle, slot: u64, epoch_length: u64) -> (r: Result<
    bool,
    SlotToggleFailure,
>)
    ensures
        r == toggle.spec_is_active_or_cooldown(slot, epoch_length),
{
    let mut stored = [0u8; 48];
    stored[..8].copy_from_slice(&toggle.slot_added.to_le_bytes());
    stored[8..16].copy_from_slice(&toggle.slot_removed.to_le_bytes());
    let outside: jito_jsm_core::slot_toggle::SlotToggle = bytemuck::pod_read_unaligned(&stored);
    match outside.is_active_or_cooldown(slot, epoch_length) {
        Ok(in_force) => Ok(in_force),
        Err(solana_program::program_error::ProgramError::ArithmeticOverflow) => Err(
            SlotToggleFailure::ArithmeticOverflow,
        ),
        Err(_) => Err(SlotToggleFailure::BadEpochLength),
    }
}

/// What the state of one link means for the vote: a link that is active or
/// cooling down passes, one that is not fails with `inactive`, and one whose
/// state cannot be told fails with the reason.
pub open spec fn link_outcome(
    state: Result<bool, SlotToggleFailure>,
    inactive: RestakingStateError,
) -> Result<(), RestakingStateError> {
    match state {
        Ok(true) => Ok(()),
        Ok(false) => Err(inactive),
        Err(failure) => Err(RestakingStateError::SlotToggle(failure)),
    }
}

/// The first of two outcomes that is a failure.
pub open spec fn and_then(
    first: Result<(), RestakingStateError>,
    next: Result<(), RestakingStateError>,
) -> Result<(), RestakingStateError> {
    match first {
        Ok(()) => next,
        Err(e) => Err(e),
    }
}

impl SlotToggle {
    /// The slot at which the link last changed: the later of the two.
    pub open spec fn last_change(&self) -> u64 {
        if self.slot_added < self.slot_removed {
            self.slot_removed
        } else {
            self.slot_added
        }
    }

    /// Whether the link is active or cooling down at `slot`.
    ///
    /// A link with two equal slots was never made. One that was given up
    /// after it was made cools down until the epoch after the one in which
    /// it was given up has passed. One that was made after it was given up
    /// warms up for as long, and is active from then on. Epochs without
    /// length give no answer, nor does an epoch number beyond 64 bits.
    pub open spec fn spec_is_active_or_cooldown(&self, slot: u64, epoch_length: u64) -> Result<
        bool,
        SlotToggleFailure,
    > {
        if epoch_length == 0 {
            Err(SlotToggleFailure::BadEpochLength)
        } else if self.slot_added == self.slot_removed {
            Ok(false)
        } else if self.last_change() / epoch_length + 1 > u64::MAX {
            Err(SlotToggleFailure::ArithmeticOverflow)
        } else {
            let settled = slot / epoch_length > self.last_change() / epoch_length + 1;
            Ok(if self.slot_added < self.slot_removed { !settled } else { settled })
        }
    }
}

impl RestakingLinks {
    /// The outcome of looking at the links one after the other: the first
    /// link that is not in force, or whose state cannot be told, decides.
    pub open spec fn outcome(&self, slot: u64, epoch_length: u64) -> Result<
        (),
        RestakingStateError,
    > {
        and_then(
            link_outcome(
                self.vault_ncn_slasher_ticket.spec_is_active_or_cooldown(slot, epoch_length),
                RestakingStateError::VaultNcnSlasherTicketUnslashable,
            ),
            and_then(
                link_outcome(
                    self.ncn_vault_slasher_ticket.spec_is_active_or_cooldown(slot, epoch_length),
                    RestakingStateError::NcnVaultSlasherTicketUnslashable,
                ),
                and_then(
                    link_outcome(
                        self.ncn_opt_in.spec_is_active_or_cooldown(slot, epoch_length),
                        RestakingStateError::NcnOperatorStateUnslashable,
                    ),
                    and_then(
                        link_outcome(
                            self.operator_opt_in.spec_is_active_or_cooldown(slot, epoch_length),
                            RestakingStateError::NcnOperatorStateUnslashable,
                        ),
                        and_then(
                            link_outcome(
                                self.operator_vault_ticket.spec_is_active_or_cooldown(
                                    slot,
                                    epoch_length,
                                ),
                                RestakingStateError::OperatorVaultTicketUnslashable,
                            ),
                            and_then(
                                link_outcome(
                                    self.vault_ncn_ticket.spec_is_active_or_cooldown(
                                        slot,
                                        epoch_length,
                                    ),
                                    RestakingStateError::VaultNcnTicketUnslashable,
                                ),
                                link_outcome(
                                    self.ncn_vault_ticket.spec_is_active_or_cooldown(
                                        slot,
                                        epoch_length,
                                    ),
                                    RestakingStateError::NcnVaultTicketUnslashable,
                                ),
                            ),
                        ),
                    ),
                ),
            ),
        )
    }
}

/// The epoch that `slot` falls into, where epochs have the length
/// `epoch_length`. Epochs without length are refused.
pub fn get_ncn_epoch(slot: u64, epoch_length: u64) -> (r: Result<u64, RewardCoreError>)
    ensures
        r == if epoch_length == 0 {
            Err::<u64, RewardCoreError>(RewardCoreError::ArithmeticOverflow)
        } else {
            Ok::<u64, RewardCoreError>(slot / epoch_length)
        },
{
    let ncn_epoch = slot.checked_div(epoch_length).ok_or(RewardCoreError::ArithmeticOverflow)?;
    Ok(ncn_epoch)
}

/// Decides what the state of one link means for the vote.
pub fn check_link(state: Result<bool, SlotToggleFailure>, inactive: RestakingStateError) -> (r:
    Result<(), RestakingStateError>)
    ensures
        r == link_outcome(state, inactive),
{
    match state {
        Ok(true) => Ok(()),
        Ok(false) => Err(inactive),
        Err(failure) => Err(RestakingStateError::SlotToggle(failure)),
    }
}

/// Succeeds where every link is active or cooling down at `slot`, and else
/// names the first link that is not, in the order in which the links are
/// looked at.
pub fn check_states_active_or_cooling_down(
    links: &RestakingLinks,
    slot: u64,
    epoch_length: u64,
) -> (r: Result<(), RestakingStateError>)
    ensures
        r == links.outcome(slot, epoch_length),
{
    check_link(
        is_active_or_cooldown(&links.vault_ncn_slasher_ticket, slot, epoch_length),
        RestakingStateError::VaultNcnSlasherTicketUnslashable,
    )?;
    check_link(
        is_active_or_cooldown(&links.ncn_vault_slasher_ticket, slot, epoch_length),
        RestakingStateError::NcnVaultSlasherTicketUnslashable,
    )?;
    check_link(
        is_active_or_cooldown(&links.ncn_opt_in, slot, epoch_length),
        RestakingStateError::NcnOperatorStateUnslashable,
    )?;
    check_link(
        is_active_or_cooldown(&links.operator_opt_in, slot, epoch_length),
        RestakingStateError::NcnOperatorStateUnslashable,
    )?;
    check_link(
        is_active_or_cooldown(&links.operator_vault_ticket, slot, epoch_length),
        RestakingStateError::OperatorVaultTicketUnslashable,
    )?;
    check_link(
        is_active_or_cooldown(&links.vault_ncn_ticket, slot, epoch_length),
        RestakingStateError::VaultNcnTicketUnslashable,
    )?;
    check_link(
        is_active_or_cooldown(&links.ncn_vault_ticket, slot, epoch_length),
        RestakingStateError::NcnVaultTicketUnslashable,
    )
}

} // verus!
