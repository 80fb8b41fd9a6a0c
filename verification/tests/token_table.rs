use rewards_ncn::error::RewardCoreError;
use rewards_ncn::pubkey::Pubkey;
use rewards_ncn::token_table::{TokenEntry, TokenTable};

fn key(n: u8) -> Pubkey {
    let mut bytes = [0u8; 32];
    bytes[0] = n;
    bytes[31] = 1;
    Pubkey::new_from_array(bytes)
}

fn full_table() -> TokenTable {
    let mut table = TokenTable::new();
    for n in 0..32 {
        table.set_value(&key(n), n as u64 + 100).unwrap();
    }
    table
}

fn same_slots(a: &TokenTable, b: &TokenTable) -> bool {
    (0..32).all(|i| a.table[i].mint == b.table[i].mint && a.table[i].value == b.table[i].value)
}

#[test]
fn a_new_table_has_free_slots_only() {
    let table = TokenTable::new();
    assert_eq!(table.entry_count(), 0);
    for entry in table.table.iter() {
        assert!(entry.is_empty());
        assert_eq!(entry.value, u64::MAX);
        assert_eq!(entry.mint, Pubkey::default());
    }
    let by_default = TokenTable::default();
    assert!(same_slots(&table, &by_default));
}

#[test]
fn an_entry_is_free_by_its_value() {
    assert!(TokenEntry::default().is_empty());
    assert!(TokenEntry::new(u64::MAX, key(1)).is_empty());
    assert!(!TokenEntry::new(0, key(1)).is_empty());
    assert!(!TokenEntry::new(u64::MAX - 1, Pubkey::default()).is_empty());
    assert_eq!(TokenEntry::EMPTY_ENTRY_VALUE, u64::MAX);
    let entry = TokenEntry::new(5, key(9));
    assert_eq!(entry.value, 5);
    assert_eq!(entry.mint, key(9));
}

#[test]
fn thirty_two_identifiers_fit_and_one_more_does_not() {
    let mut table = TokenTable::new();
    for n in 0..32 {
        assert_eq!(table.set_value(&key(n), 1), Ok(()));
        assert_eq!(table.entry_count(), n as usize + 1);
    }
    let before = table;
    assert_eq!(
        table.set_value(&key(32), 1),
        Err(RewardCoreError::NoMoreTableSlots)
    );
    assert!(same_slots(&table, &before));
    assert_eq!(table.entry_count(), 32);
}

#[test]
fn setting_a_present_identifier_again_keeps_the_count() {
    let mut table = full_table();
    for n in 0..32 {
        table.set_value(&key(n), 7).unwrap();
        assert_eq!(table.entry_count(), 32);
        assert_eq!(table.find_value(&key(n)), Some(7));
    }
    let mut small = TokenTable::new();
    small.set_value(&key(1), 5).unwrap();
    small.set_value(&key(2), 6).unwrap();
    small.set_value(&key(1), 9).unwrap();
    assert_eq!(small.entry_count(), 2);
    assert_eq!(small.table[0].value, 9);
    assert_eq!(small.table[0].mint, key(1));
    assert_eq!(small.table[1].value, 6);
    assert_eq!(small.table[1].mint, key(2));
}

#[test]
fn an_unset_identifier_is_absent_and_a_set_one_is_found() {
    let mut table = TokenTable::new();
    assert_eq!(table.find_value(&key(1)), None);
    table.set_value(&key(1), 11).unwrap();
    assert_eq!(table.find_value(&key(1)), Some(11));
    assert_eq!(table.find_value(&key(2)), None);
    table.set_value(&key(2), 0).unwrap();
    assert_eq!(table.find_value(&key(2)), Some(0));
    assert_eq!(table.find_value(&key(1)), Some(11));
}

#[test]
fn the_default_identifier_is_absent_until_it_is_set() {
    let mut table = TokenTable::new();
    assert_eq!(table.find_value(&Pubkey::default()), None);
    table.set_value(&key(1), 4).unwrap();
    assert_eq!(table.find_value(&Pubkey::default()), None);
    table.set_value(&Pubkey::default(), 9).unwrap();
    assert_eq!(table.find_value(&Pubkey::default()), Some(9));
    assert_eq!(table.find_value(&key(1)), Some(4));
    assert_eq!(table.entry_count(), 2);
    let full = full_table();
    assert_eq!(full.find_value(&Pubkey::default()), None);
}

#[test]
fn taking_the_last_free_slot_changes_no_other_lookup() {
    let mut table = TokenTable::new();
    for n in 0..31 {
        table.set_value(&key(n), n as u64 + 100).unwrap();
    }
    let unset = [Pubkey::default(), key(31), key(200)];
    for id in unset.iter() {
        assert_eq!(table.find_value(id), None);
    }
    table.set_value(&key(31), 1).unwrap();
    assert_eq!(table.entry_count(), 32);
    assert_eq!(table.find_value(&Pubkey::default()), None);
    assert_eq!(table.find_value(&key(200)), None);
    for n in 0..31 {
        assert_eq!(table.find_value(&key(n)), Some(n as u64 + 100));
    }
    assert_eq!(table.find_value(&key(31)), Some(1));
}

#[test]
fn a_lookup_never_finds_the_marker_of_a_free_slot() {
    let mut table = TokenTable::new();
    table.table[0] = TokenEntry::new(u64::MAX, key(1));
    table.table[1] = TokenEntry::new(8, key(1));
    assert_eq!(table.find_value(&key(1)), Some(8));
    table.table[1] = TokenEntry::new(u64::MAX, key(1));
    assert_eq!(table.find_value(&key(1)), None);
}

#[test]
fn a_free_slot_with_another_identifier_gets_the_new_identifier() {
    let mut table = TokenTable::new();
    table.table[0] = TokenEntry::new(u64::MAX, key(1));
    table.set_value(&key(2), 5).unwrap();
    assert_eq!(table.table[0].mint, key(2));
    assert_eq!(table.table[0].value, 5);
    assert_eq!(table.find_value(&key(2)), Some(5));
    assert_eq!(table.find_value(&key(1)), None);
}

#[test]
fn merging_adds_the_amounts_by_identifier() {
    let mut into = TokenTable::new();
    into.set_value(&key(1), 100).unwrap();
    into.set_value(&key(2), 7).unwrap();
    let mut from = TokenTable::new();
    from.set_value(&key(2), 3).unwrap();
    from.set_value(&key(3), 50).unwrap();
    from.set_value(&key(1), 50).unwrap();
    assert_eq!(into.checked_merge(&from), Ok(()));
    assert_eq!(into.find_value(&key(1)), Some(150));
    assert_eq!(into.find_value(&key(2)), Some(10));
    assert_eq!(into.find_value(&key(3)), Some(50));
    assert_eq!(into.entry_count(), 3);
    // the table that was added is as it was
    assert_eq!(from.find_value(&key(2)), Some(3));
    assert_eq!(from.entry_count(), 3);
}

#[test]
fn merging_an_empty_table_changes_nothing() {
    let mut into = full_table();
    let before = into;
    assert_eq!(into.checked_merge(&TokenTable::new()), Ok(()));
    assert!(same_slots(&into, &before));
    let mut empty = TokenTable::new();
    assert_eq!(empty.checked_merge(&before), Ok(()));
    for n in 0..32 {
        assert_eq!(empty.find_value(&key(n)), Some(n as u64 + 100));
    }
}

#[test]
fn a_sum_that_reaches_the_marker_of_a_free_slot_is_an_overflow() {
    let mut into = TokenTable::new();
    into.set_value(&key(1), u64::MAX - 10).unwrap();
    into.set_value(&key(2), 1).unwrap();
    let before = into;

    let mut reaches = TokenTable::new();
    reaches.set_value(&key(2), 5).unwrap();
    reaches.set_value(&key(1), 10).unwrap();
    assert_eq!(
        into.checked_merge(&reaches),
        Err(RewardCoreError::ArithmeticOverflow)
    );
    assert!(same_slots(&into, &before));

    let mut fits = TokenTable::new();
    fits.set_value(&key(1), 9).unwrap();
    assert_eq!(into.checked_merge(&fits), Ok(()));
    assert_eq!(into.find_value(&key(1)), Some(u64::MAX - 1));
    assert_eq!(into.find_value(&key(2)), Some(1));
}

#[test]
fn merging_fails_where_the_identifiers_have_no_room() {
    let mut into = full_table();
    let before = into;
    let mut from = TokenTable::new();
    from.set_value(&key(3), 1).unwrap();
    from.set_value(&key(40), 1).unwrap();
    assert_eq!(
        into.checked_merge(&from),
        Err(RewardCoreError::NoMoreTableSlots)
    );
    assert!(same_slots(&into, &before));

    let mut known = TokenTable::new();
    known.set_value(&key(3), 1).unwrap();
    known.set_value(&key(4), 2).unwrap();
    assert_eq!(into.checked_merge(&known), Ok(()));
    assert_eq!(into.find_value(&key(3)), Some(104));
    assert_eq!(into.find_value(&key(4)), Some(106));
    assert_eq!(into.entry_count(), 32);
}

#[test]
fn an_overflow_is_reported_before_a_lack_of_room() {
    let mut into = full_table();
    into.set_value(&key(0), u64::MAX - 1).unwrap();
    let mut from = TokenTable::new();
    from.set_value(&key(50), 1).unwrap();
    from.set_value(&key(0), 1).unwrap();
    assert_eq!(
        into.checked_merge(&from),
        Err(RewardCoreError::ArithmeticOverflow)
    );
}

#[test]
fn new_identifiers_follow_the_old_ones_in_their_order() {
    let mut into = TokenTable::new();
    into.set_value(&key(1), 10).unwrap();
    into.set_value(&key(2), 20).unwrap();
    let mut from = TokenTable::new();
    from.set_value(&key(7), 1).unwrap();
    from.set_value(&key(2), 2).unwrap();
    from.set_value(&key(5), 3).unwrap();
    into.checked_merge(&from).unwrap();
    let slots: Vec<(Pubkey, u64)> = (0..5).map(|i| (into.table[i].mint, into.table[i].value)).collect();
    assert_eq!(
        slots,
        vec![
            (key(1), 10),
            (key(2), 22),
            (key(7), 1),
            (key(5), 3),
            (Pubkey::default(), u64::MAX)
        ]
    );
    assert!(into.is_well_formed());
}

#[test]
fn a_table_is_in_order_when_it_is_filled_from_the_front_without_repeats() {
    assert!(TokenTable::new().is_well_formed());
    assert!(full_table().is_well_formed());
    let mut table = TokenTable::new();
    table.set_value(&key(1), 0).unwrap();
    table.set_value(&Pubkey::default(), 5).unwrap();
    assert!(table.is_well_formed());

    // a free slot before a taken one
    let mut gap = TokenTable::new();
    gap.table[1] = TokenEntry::new(5, key(1));
    assert!(!gap.is_well_formed());

    // the same identifier twice
    let mut twice = TokenTable::new();
    twice.table[0] = TokenEntry::new(5, key(1));
    twice.table[1] = TokenEntry::new(6, key(2));
    twice.table[2] = TokenEntry::new(7, key(1));
    assert!(!twice.is_well_formed());

    // a free slot that carries an identifier
    let mut marked = TokenTable::new();
    marked.table[0] = TokenEntry::new(5, key(1));
    marked.table[1] = TokenEntry::new(u64::MAX, key(2));
    assert!(!marked.is_well_formed());

}

#[test]
fn the_marker_of_a_free_slot_is_not_stored() {
    let mut table = TokenTable::new();
    table.set_value(&key(1), 5).unwrap();
    table.set_value(&key(2), 6).unwrap();
    let before = table;
    // for an identifier that is there
    assert_eq!(
        table.set_value(&key(1), u64::MAX),
        Err(RewardCoreError::ArithmeticOverflow)
    );
    // for a new one
    assert_eq!(
        table.set_value(&key(3), u64::MAX),
        Err(RewardCoreError::ArithmeticOverflow)
    );
    assert!(same_slots(&table, &before));
    assert_eq!(table.entry_count(), 2);
    assert_eq!(table.find_value(&key(1)), Some(5));
    assert_eq!(table.find_value(&key(3)), None);
    assert!(table.is_well_formed());
    // the largest amount that a slot can hold
    table.set_value(&key(1), u64::MAX - 1).unwrap();
    assert_eq!(table.find_value(&key(1)), Some(u64::MAX - 1));
    assert_eq!(table.entry_count(), 2);
}

#[test]
fn a_full_table_has_no_slot_for_a_new_identifier_whatever_the_value() {
    let mut full = full_table();
    let before = full;
    for value in [0, 1, u64::MAX - 1, u64::MAX] {
        assert_eq!(
            full.set_value(&key(77), value),
            Err(RewardCoreError::NoMoreTableSlots)
        );
        assert_eq!(
            full.set_value(&Pubkey::default(), value),
            Err(RewardCoreError::NoMoreTableSlots)
        );
    }
    assert!(same_slots(&full, &before));
    // for an identifier that is there, the slot is found and the value refused
    assert_eq!(
        full.set_value(&key(3), u64::MAX),
        Err(RewardCoreError::ArithmeticOverflow)
    );
    assert!(same_slots(&full, &before));
    assert_eq!(full.entry_count(), 32);
}
