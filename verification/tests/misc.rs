use rewards_ncn::discriminators::{Discriminators, CONFIG_DISCRIMINATOR, WEIGHT_TABLE_DISCRIMINATOR};
use rewards_ncn::epoch_reward_merkle_root::EpochRewardMerkleRoot;
use rewards_ncn::epoch_reward_price_table::EpochRewardPriceTable;
use rewards_ncn::error::{RewardCoreError, RewardError, WeightTableError};
use rewards_ncn::instruction::{RewardInstruction, WeightTableInstruction};
use rewards_ncn::merkle_root::MerkleRoot;
use rewards_ncn::pubkey::Pubkey;
use rewards_ncn::redacted_config::Config;
use rewards_ncn::restaking_helpers::{
    check_link, check_states_active_or_cooling_down, get_ncn_epoch, RestakingLinks,
    RestakingStateError, SlotToggle, SlotToggleFailure,
};
use rewards_ncn::reward_config::RewardConfig;
use rewards_ncn::weight_table::{WeightTable, WeightTableState};

fn key(n: u8) -> Pubkey {
    let mut bytes = [0u8; 32];
    bytes[0] = n;
    bytes[31] = 1;
    Pubkey::new_from_array(bytes)
}

#[test]
fn the_codes_of_the_failures() {
    assert_eq!(u32::from(WeightTableError::NoMoreTableSlots), 0x2000);
    assert_eq!(u32::from(WeightTableError::DenominatorIsZero), 0x2100);
    assert_eq!(u32::from(WeightTableError::ArithmeticOverflow), 0x2101);
    assert_eq!(u32::from(WeightTableError::ModuloOverflow), 0x2102);
    assert_eq!(u32::from(WeightTableError::IncorrectWeightTableAdmin), 0x2200);
    assert_eq!(u64::from(WeightTableError::IncorrectWeightTableAdmin), 0x2200);
    assert_eq!(WeightTableError::ModuloOverflow.code(), 8450);
    assert_eq!(u32::from(RewardCoreError::NoMoreTableSlots), 0x2000);
    assert_eq!(u64::from(RewardCoreError::NoMoreTableSlots), 0x2000);
    assert_eq!(u32::from(RewardCoreError::ArithmeticOverflow), 0x2101);
    assert_eq!(u32::from(RewardError::VaultSlashUnderflow), 1000);
    assert_eq!(u64::from(RewardError::VaultSlashUnderflow), 1000);
}

#[test]
fn the_texts_of_the_failures() {
    assert_eq!(WeightTableError::NoMoreTableSlots.message(), "No more table slots available");
    assert_eq!(WeightTableError::DenominatorIsZero.message(), "Zero in the denominator");
    assert_eq!(WeightTableError::ArithmeticOverflow.message(), "Overflow");
    assert_eq!(WeightTableError::ModuloOverflow.message(), "Modulo Overflow");
    assert_eq!(
        WeightTableError::IncorrectWeightTableAdmin.message(),
        "Incorrect weight table admin"
    );
    assert_eq!(RewardCoreError::NoMoreTableSlots.message(), "No more table slots available");
    assert_eq!(RewardError::VaultSlashUnderflow.message(), "VaultSlashUnderflow");
    assert_eq!(WeightTableError::type_of(), "jito::weight_table");
    assert_eq!(RewardCoreError::type_of(), "jito::vault");
    assert_eq!(RewardError::type_of(), "jito::reward");
}

#[test]
fn the_tags_of_the_records() {
    assert_eq!(Discriminators::EpochPriceTable.value(), 0);
    assert_eq!(Discriminators::EpochRewardMerkleRoot.value(), 1);
    assert_eq!(Discriminators::EpochRewardMerkleRootTicket.value(), 2);
    assert_eq!(Discriminators::EpochRewardDistributionMarker.value(), 3);
    assert_eq!(Discriminators::RewardDropbox.value(), 4);
    assert_eq!(Discriminators::RewardConfig.value(), 5);
    assert_eq!(CONFIG_DISCRIMINATOR, 3);
    assert_ne!(WEIGHT_TABLE_DISCRIMINATOR, CONFIG_DISCRIMINATOR);
}

#[test]
fn the_sizes_of_the_stored_records() {
    assert_eq!(RewardConfig::size(), 88);
    assert_eq!(EpochRewardMerkleRoot::size(), 43321);
}

#[test]
fn the_epoch_of_a_slot_needs_a_length() {
    assert_eq!(get_ncn_epoch(1000, 100), Ok(10));
    assert_eq!(get_ncn_epoch(999, 100), Ok(9));
    assert_eq!(get_ncn_epoch(0, 1), Ok(0));
    assert_eq!(get_ncn_epoch(u64::MAX, 1), Ok(u64::MAX));
    assert_eq!(get_ncn_epoch(5, 0), Err(RewardCoreError::ArithmeticOverflow));
}

const EPOCH: u64 = 10;
const NOW: u64 = 25;

// made in the epoch 0, never given up: active in the epoch 2
fn active() -> SlotToggle {
    SlotToggle { slot_added: 5, slot_removed: 0 }
}

// given up in the epoch 1: cooling down until the end of the epoch 2
fn cooling_down() -> SlotToggle {
    SlotToggle { slot_added: 0, slot_removed: 15 }
}

// made in the epoch 2: warming up until the end of the epoch 3
fn warming_up() -> SlotToggle {
    SlotToggle { slot_added: 25, slot_removed: 0 }
}

// never made
fn inactive() -> SlotToggle {
    SlotToggle { slot_added: 7, slot_removed: 7 }
}

fn all_active() -> RestakingLinks {
    RestakingLinks {
        vault_ncn_slasher_ticket: active(),
        ncn_vault_slasher_ticket: cooling_down(),
        ncn_opt_in: active(),
        operator_opt_in: active(),
        operator_vault_ticket: cooling_down(),
        vault_ncn_ticket: active(),
        ncn_vault_ticket: active(),
    }
}

#[test]
fn every_link_has_to_be_in_force() {
    assert_eq!(check_states_active_or_cooling_down(&all_active(), NOW, EPOCH), Ok(()));
    let mut s = all_active();
    s.ncn_vault_ticket = inactive();
    assert_eq!(
        check_states_active_or_cooling_down(&s, NOW, EPOCH),
        Err(RestakingStateError::NcnVaultTicketUnslashable)
    );
    s.vault_ncn_ticket = warming_up();
    assert_eq!(
        check_states_active_or_cooling_down(&s, NOW, EPOCH),
        Err(RestakingStateError::VaultNcnTicketUnslashable)
    );
    s.operator_vault_ticket = inactive();
    assert_eq!(
        check_states_active_or_cooling_down(&s, NOW, EPOCH),
        Err(RestakingStateError::OperatorVaultTicketUnslashable)
    );
    s.operator_opt_in = warming_up();
    assert_eq!(
        check_states_active_or_cooling_down(&s, NOW, EPOCH),
        Err(RestakingStateError::NcnOperatorStateUnslashable)
    );
    s.operator_opt_in = active();
    s.ncn_opt_in = inactive();
    assert_eq!(
        check_states_active_or_cooling_down(&s, NOW, EPOCH),
        Err(RestakingStateError::NcnOperatorStateUnslashable)
    );
    s.ncn_vault_slasher_ticket = inactive();
    assert_eq!(
        check_states_active_or_cooling_down(&s, NOW, EPOCH),
        Err(RestakingStateError::NcnVaultSlasherTicketUnslashable)
    );
    s.vault_ncn_slasher_ticket = warming_up();
    assert_eq!(
        check_states_active_or_cooling_down(&s, NOW, EPOCH),
        Err(RestakingStateError::VaultNcnSlasherTicketUnslashable)
    );
}

#[test]
fn the_state_of_a_link_changes_with_the_slot() {
    let mut s = all_active();
    // a link that cools down is in force until the end of the epoch 2; the
    // first link that cools down is the second one
    s.ncn_vault_ticket = cooling_down();
    assert_eq!(check_states_active_or_cooling_down(&s, 29, EPOCH), Ok(()));
    assert_eq!(
        check_states_active_or_cooling_down(&s, 30, EPOCH),
        Err(RestakingStateError::NcnVaultSlasherTicketUnslashable)
    );
    // the link that warms up is in force from the epoch 4 on
    let mut s = all_active();
    s.ncn_vault_slasher_ticket = active();
    s.operator_vault_ticket = active();
    s.ncn_vault_ticket = warming_up();
    assert_eq!(
        check_states_active_or_cooling_down(&s, 39, EPOCH),
        Err(RestakingStateError::NcnVaultTicketUnslashable)
    );
    assert_eq!(check_states_active_or_cooling_down(&s, 40, EPOCH), Ok(()));
}

#[test]
fn a_state_that_cannot_be_told_fails_the_check() {
    assert_eq!(
        check_states_active_or_cooling_down(&all_active(), NOW, 0),
        Err(RestakingStateError::SlotToggle(SlotToggleFailure::BadEpochLength))
    );
    let mut s = all_active();
    s.vault_ncn_slasher_ticket = SlotToggle { slot_added: 0, slot_removed: u64::MAX };
    assert_eq!(
        check_states_active_or_cooling_down(&s, NOW, 1),
        Err(RestakingStateError::SlotToggle(SlotToggleFailure::ArithmeticOverflow))
    );
    // an earlier link that is not in force decides before it
    let mut s = all_active();
    s.vault_ncn_slasher_ticket = inactive();
    s.ncn_vault_ticket = SlotToggle { slot_added: 0, slot_removed: u64::MAX };
    assert_eq!(
        check_states_active_or_cooling_down(&s, NOW, 1),
        Err(RestakingStateError::VaultNcnSlasherTicketUnslashable)
    );
}

#[test]
fn what_the_state_of_a_link_means() {
    let inactive = RestakingStateError::VaultNcnTicketUnslashable;
    assert_eq!(check_link(Ok(true), inactive), Ok(()));
    assert_eq!(check_link(Ok(false), inactive), Err(inactive));
    assert_eq!(
        check_link(Err(SlotToggleFailure::BadEpochLength), inactive),
        Err(RestakingStateError::SlotToggle(SlotToggleFailure::BadEpochLength))
    );
    assert_eq!(
        check_link(Err(SlotToggleFailure::ArithmeticOverflow), inactive),
        Err(RestakingStateError::SlotToggle(SlotToggleFailure::ArithmeticOverflow))
    );
}

#[test]
fn prices_count_once_they_are_verified() {
    let mut prices = EpochRewardPriceTable::new(key(1), key(2), 77);
    assert_eq!(prices.ncn, key(1));
    assert_eq!(prices.update_authority, key(2));
    assert_eq!(prices.ncn_slot, 77);
    assert!(!prices.verified);
    assert_eq!(prices.table.entry_count(), 0);
    prices.table.set_value(&key(9), 1234).unwrap();
    assert_eq!(prices.table.find_value(&key(9)), Some(1234));
    assert_eq!(prices.verified_price(&key(9)), None);
    prices.mark_verified();
    assert!(prices.verified);
    assert_eq!(prices.verified_price(&key(9)), Some(1234));
    assert_eq!(prices.verified_price(&key(8)), None);
    assert_eq!(prices.ncn_slot, 77);
    assert_eq!(EpochRewardPriceTable::MAX_TABLE_ENTRIES, 32);
}

#[test]
fn the_policy_and_the_configuration_keep_their_fields() {
    let policy = RewardConfig::new(&key(1), &key(2), 50, 500);
    assert_eq!(policy.ncn, key(1));
    assert_eq!(policy.admin, key(2));
    assert_eq!(policy.valid_voting_slots, 50);
    assert_eq!(policy.slots_before_closing_marker_accounts, 500);
    let config = Config::new(key(3), key(4));
    assert_eq!(config.ncn, key(3));
    assert_eq!(config.admin, key(4));
    let config = Config::default();
    assert_eq!(config.ncn, Pubkey::default());
    assert_eq!(config.admin, Pubkey::default());
}

#[test]
fn a_weight_table_is_open_until_it_counts_as_finalized() {
    let mut table = WeightTable::new(key(1), 0, 100, 0);
    assert_eq!(table.state(149, 50), WeightTableState::Open);
    assert_eq!(table.state(150, 50), WeightTableState::Finalized);
    table.finalize(120);
    assert_eq!(table.state(121, 50), WeightTableState::Finalized);
}

#[test]
fn instructions_carry_their_arguments() {
    let mut bytes = [0u8; 32];
    bytes[3] = 9;
    let submit = RewardInstruction::SubmitTicket { root: MerkleRoot { root: bytes } };
    match submit {
        RewardInstruction::SubmitTicket { root } => assert_eq!(root.root[3], 9),
        _ => panic!("another instruction"),
    }
    let init = RewardInstruction::InitializeConfig {
        valid_voting_slots: 5,
        slots_before_closing_marker_accounts: 6,
    };
    assert!(matches!(
        init,
        RewardInstruction::InitializeConfig {
            valid_voting_slots: 5,
            slots_before_closing_marker_accounts: 6
        }
    ));
    assert_eq!(
        WeightTableInstruction::UpdateWeightTable {
            ncn_epoch: 1,
            weight_numerator: 2,
            weight_denominator: 3
        },
        WeightTableInstruction::UpdateWeightTable {
            ncn_epoch: 1,
            weight_numerator: 2,
            weight_denominator: 3
        }
    );
    assert_ne!(
        WeightTableInstruction::FinalizeWeightTable { ncn_epoch: 1 },
        WeightTableInstruction::InitializeWeightTable { first_slot_of_ncn_epoch: Some(1) }
    );
}

// every link the same one
fn all_of(toggle: SlotToggle) -> RestakingLinks {
    RestakingLinks {
        vault_ncn_slasher_ticket: toggle,
        ncn_vault_slasher_ticket: toggle,
        ncn_opt_in: toggle,
        operator_opt_in: toggle,
        operator_vault_ticket: toggle,
        vault_ncn_ticket: toggle,
        ncn_vault_ticket: toggle,
    }
}

// what is stated of a link, written out once more
fn stated(toggle: SlotToggle, slot: u64, epoch_length: u64) -> Result<bool, SlotToggleFailure> {
    if epoch_length == 0 {
        return Err(SlotToggleFailure::BadEpochLength);
    }
    if toggle.slot_added == toggle.slot_removed {
        return Ok(false);
    }
    let changed = toggle.slot_added.max(toggle.slot_removed);
    let until = (changed / epoch_length) as u128 + 1;
    if until > u64::MAX as u128 {
        return Err(SlotToggleFailure::ArithmeticOverflow);
    }
    let settled = (slot / epoch_length) as u128 > until;
    Ok(if toggle.slot_added < toggle.slot_removed { !settled } else { settled })
}

#[test]
fn a_link_is_in_force_as_it_is_stated() {
    let slots = [0u64, 1, 7, 9, 10, 19, 20, 29, 30, 39, 40, 1000, u64::MAX - 1, u64::MAX];
    let lengths = [0u64, 1, 2, 10, 1000, u64::MAX];
    for added in slots {
        for removed in slots {
            for slot in slots {
                for length in lengths {
                    let toggle = SlotToggle { slot_added: added, slot_removed: removed };
                    let expected = match stated(toggle, slot, length) {
                        Ok(true) => Ok(()),
                        Ok(false) => Err(RestakingStateError::VaultNcnSlasherTicketUnslashable),
                        Err(failure) => Err(RestakingStateError::SlotToggle(failure)),
                    };
                    assert_eq!(
                        check_states_active_or_cooling_down(&all_of(toggle), slot, length),
                        expected,
                        "added {added}, removed {removed}, slot {slot}, length {length}"
                    );
                }
            }
        }
    }
}

#[test]
fn the_edges_of_the_state_of_a_link() {
    let unslashable = Err(RestakingStateError::VaultNcnSlasherTicketUnslashable);
    // given up at slot 15 of epochs of 10 slots: in force through epoch 2
    let given_up = all_of(SlotToggle { slot_added: 3, slot_removed: 15 });
    assert_eq!(check_states_active_or_cooling_down(&given_up, 15, 10), Ok(()));
    assert_eq!(check_states_active_or_cooling_down(&given_up, 29, 10), Ok(()));
    assert_eq!(check_states_active_or_cooling_down(&given_up, 30, 10), unslashable);
    // made at slot 15 after it was given up at slot 3: in force from epoch 3 on
    let made = all_of(SlotToggle { slot_added: 15, slot_removed: 3 });
    assert_eq!(check_states_active_or_cooling_down(&made, 15, 10), unslashable);
    assert_eq!(check_states_active_or_cooling_down(&made, 29, 10), unslashable);
    assert_eq!(check_states_active_or_cooling_down(&made, 30, 10), Ok(()));
    // never made
    let never = all_of(SlotToggle { slot_added: 15, slot_removed: 15 });
    assert_eq!(check_states_active_or_cooling_down(&never, 1000, 10), unslashable);
    // epochs without length are refused before the slots are looked at
    assert_eq!(
        check_states_active_or_cooling_down(&never, 1000, 0),
        Err(RestakingStateError::SlotToggle(SlotToggleFailure::BadEpochLength))
    );
    // the epoch after the last one there is
    let last = all_of(SlotToggle { slot_added: u64::MAX, slot_removed: 0 });
    assert_eq!(
        check_states_active_or_cooling_down(&last, u64::MAX, 1),
        Err(RestakingStateError::SlotToggle(SlotToggleFailure::ArithmeticOverflow))
    );
    assert_eq!(check_states_active_or_cooling_down(&last, u64::MAX, 2), unslashable);
}
