use rewards_ncn::address::{stored_at, Account, AccountError};
use rewards_ncn::discriminators::{Discriminators, WEIGHT_TABLE_DISCRIMINATOR};
use rewards_ncn::epoch_reward_distribution_marker::EpochRewardDistributionMarker;
use rewards_ncn::epoch_reward_merkle_root::EpochRewardMerkleRoot;
use rewards_ncn::epoch_reward_merkle_root_ticket::EpochRewardMerkleRootTicket;
use rewards_ncn::epoch_reward_price_table::EpochRewardPriceTable;
use rewards_ncn::pubkey::Pubkey;
use rewards_ncn::redacted_config::Config;
use rewards_ncn::reward_config::RewardConfig;
use rewards_ncn::reward_dropbox::RewardDropbox;
use rewards_ncn::weight_table::WeightTable;

fn key(n: u8) -> Pubkey {
    let mut bytes = [0u8; 32];
    bytes[0] = n;
    bytes[31] = 1;
    Pubkey::new_from_array(bytes)
}

fn outside(k: &Pubkey) -> solana_program::pubkey::Pubkey {
    solana_program::pubkey::Pubkey::new_from_array(k.to_bytes())
}

fn expected(seeds: &[&[u8]], program: &Pubkey) -> (Pubkey, u8) {
    let (address, bump) =
        solana_program::pubkey::Pubkey::find_program_address(seeds, &outside(program));
    (Pubkey::new_from_array(address.to_bytes()), bump)
}

#[test]
fn identifiers_keep_their_bytes() {
    let mut bytes = [0u8; 32];
    for (i, b) in bytes.iter_mut().enumerate() {
        *b = i as u8 * 3;
    }
    let k = Pubkey::new_from_array(bytes);
    assert_eq!(k.to_bytes(), bytes);
    assert_eq!(Pubkey::default().to_bytes(), [0u8; 32]);
    assert_eq!(k, Pubkey::new_from_array(bytes));
    bytes[31] ^= 1;
    assert_ne!(k, Pubkey::new_from_array(bytes));
}

#[test]
fn the_seeds_of_each_kind_of_record() {
    let ncn = key(1);
    let operator = key(2);
    let epoch: u64 = 0x0102030405060708;
    let le = epoch.to_le_bytes().to_vec();
    assert_eq!(le, vec![8, 7, 6, 5, 4, 3, 2, 1]);

    assert_eq!(
        WeightTable::seeds(&ncn, epoch),
        vec![b"WEIGHT_TABLE".to_vec(), ncn.to_bytes().to_vec(), le.clone()]
    );
    assert_eq!(
        EpochRewardMerkleRoot::seeds(&ncn, epoch),
        vec![b"EPOCH_MERKLE_ROOT".to_vec(), ncn.to_bytes().to_vec(), le.clone()]
    );
    assert_eq!(
        EpochRewardPriceTable::seeds(&ncn, epoch),
        vec![b"EPOCH_PRICE_TABLE".to_vec(), ncn.to_bytes().to_vec(), le.clone()]
    );
    assert_eq!(
        EpochRewardMerkleRootTicket::seeds(&ncn, &operator, epoch),
        vec![
            b"EPOCH_MERKLE_ROOT_TICKET".to_vec(),
            ncn.to_bytes().to_vec(),
            operator.to_bytes().to_vec(),
            le.clone()
        ]
    );
    assert_eq!(
        EpochRewardDistributionMarker::seeds(&key(3), &key(4), &key(5), epoch),
        vec![
            b"EPOCH_REWARD_DISTRIBUTION_MARKER".to_vec(),
            key(3).to_bytes().to_vec(),
            key(4).to_bytes().to_vec(),
            key(5).to_bytes().to_vec(),
            le.clone()
        ]
    );
    assert_eq!(
        RewardConfig::seeds(&ncn),
        vec![b"REWARD_CONFIG".to_vec(), ncn.to_bytes().to_vec()]
    );
    assert_eq!(
        RewardDropbox::seeds(&ncn),
        vec![b"REWARD_DROPBOX".to_vec(), ncn.to_bytes().to_vec()]
    );
    assert_eq!(
        Config::seeds(&ncn),
        vec![b"CONFIG".to_vec(), ncn.to_bytes().to_vec()]
    );
}

#[test]
fn the_address_of_a_weight_table_is_the_derived_one() {
    let program = key(77);
    let ncn = key(1);
    let le = 9u64.to_le_bytes();
    let (address, bump) = expected(&[b"WEIGHT_TABLE", &ncn.to_bytes(), &le], &program);
    let (found, found_bump, seeds) =
        WeightTable::try_find_program_address(&program, &ncn, 9).unwrap();
    assert_eq!(found, address);
    assert_eq!(found_bump, bump);
    assert_eq!(seeds, WeightTable::seeds(&ncn, 9));
    assert_ne!(found, program);
    assert_ne!(found, ncn);
    // the address depends on every input
    let (other_epoch, _, _) = WeightTable::try_find_program_address(&program, &ncn, 10).unwrap();
    assert_ne!(other_epoch, found);
    let (other_program, _, _) =
        WeightTable::try_find_program_address(&key(78), &ncn, 9).unwrap();
    assert_ne!(other_program, found);
    // the same through the function that expects an address to exist
    let direct = WeightTable::find_program_address(&program, &ncn, 9);
    assert_eq!((direct.0, direct.1), (address, bump));
}

#[test]
fn the_addresses_of_the_other_records_are_the_derived_ones() {
    let program = key(77);
    let ncn = key(1);
    let operator = key(2);
    let le = 9u64.to_le_bytes();

    let (a, b, _) = EpochRewardMerkleRoot::try_find_program_address(&program, &ncn, 9).unwrap();
    assert_eq!((a, b), expected(&[b"EPOCH_MERKLE_ROOT", &ncn.to_bytes(), &le], &program));

    let (a, b, _) = EpochRewardPriceTable::try_find_program_address(&program, &ncn, 9).unwrap();
    assert_eq!((a, b), expected(&[b"EPOCH_PRICE_TABLE", &ncn.to_bytes(), &le], &program));

    let (a, b, _) =
        EpochRewardMerkleRootTicket::try_find_program_address(&program, &ncn, &operator, 9)
            .unwrap();
    assert_eq!(
        (a, b),
        expected(
            &[b"EPOCH_MERKLE_ROOT_TICKET", &ncn.to_bytes(), &operator.to_bytes(), &le],
            &program
        )
    );

    let (a, b, _) = EpochRewardDistributionMarker::try_find_program_address(
        &program,
        &key(3),
        &key(4),
        &key(5),
        9,
    )
    .unwrap();
    assert_eq!(
        (a, b),
        expected(
            &[
                b"EPOCH_REWARD_DISTRIBUTION_MARKER",
                &key(3).to_bytes(),
                &key(4).to_bytes(),
                &key(5).to_bytes(),
                &le
            ],
            &program
        )
    );

    let (a, b, _) = RewardConfig::try_find_program_address(&program, &ncn).unwrap();
    assert_eq!((a, b), expected(&[b"REWARD_CONFIG", &ncn.to_bytes()], &program));

    let (a, b, _) = RewardDropbox::try_find_program_address(&program, &ncn).unwrap();
    assert_eq!((a, b), expected(&[b"REWARD_DROPBOX", &ncn.to_bytes()], &program));

    let (a, b, _) = Config::try_find_program_address(&program, &ncn).unwrap();
    assert_eq!((a, b), expected(&[b"CONFIG", &ncn.to_bytes()], &program));

    // the functions that expect an address to exist give the same
    let (a, b, _) = RewardConfig::find_program_address(&program, &ncn);
    assert_eq!((a, b), expected(&[b"REWARD_CONFIG", &ncn.to_bytes()], &program));
    let (a, b, _) = EpochRewardMerkleRoot::find_program_address(&program, &ncn, 9);
    assert_eq!((a, b), expected(&[b"EPOCH_MERKLE_ROOT", &ncn.to_bytes(), &le], &program));
}

fn stored_config(program: &Pubkey, ncn: &Pubkey) -> Account {
    let (address, _, _) = RewardConfig::try_find_program_address(program, ncn).unwrap();
    let mut data = vec![0u8; RewardConfig::size() as usize];
    data[0] = Discriminators::RewardConfig.value();
    Account { key: address, owner: *program, is_writable: true, data }
}

#[test]
fn a_policy_is_loaded_from_its_own_record_only() {
    let program = key(77);
    let ncn = key(1);
    let good = stored_config(&program, &ncn);
    assert_eq!(RewardConfig::try_load(&program, &ncn, &good, true), Some(Ok(())));
    assert_eq!(RewardConfig::try_load(&program, &ncn, &good, false), Some(Ok(())));
    assert_eq!(RewardConfig::load(&program, &ncn, &good, true), Ok(()));

    let mut wrong_owner = stored_config(&program, &ncn);
    wrong_owner.owner = key(78);
    wrong_owner.data = Vec::new();
    assert_eq!(
        RewardConfig::try_load(&program, &ncn, &wrong_owner, true),
        Some(Err(AccountError::InvalidAccountOwner))
    );

    let mut empty = stored_config(&program, &ncn);
    empty.data = Vec::new();
    assert_eq!(
        RewardConfig::try_load(&program, &ncn, &empty, false),
        Some(Err(AccountError::InvalidAccountData))
    );

    let mut read_only = stored_config(&program, &ncn);
    read_only.is_writable = false;
    assert_eq!(
        RewardConfig::try_load(&program, &ncn, &read_only, true),
        Some(Err(AccountError::InvalidAccountData))
    );
    assert_eq!(RewardConfig::try_load(&program, &ncn, &read_only, false), Some(Ok(())));

    let mut other_kind = stored_config(&program, &ncn);
    other_kind.data[0] = Discriminators::RewardDropbox.value();
    assert_eq!(
        RewardConfig::try_load(&program, &ncn, &other_kind, true),
        Some(Err(AccountError::InvalidAccountData))
    );

    // the record of another network is stored elsewhere
    assert_eq!(
        RewardConfig::try_load(&program, &key(2), &good, true),
        Some(Err(AccountError::InvalidAccountData))
    );
}

#[test]
fn a_weight_table_is_loaded_from_its_own_record_only() {
    let program = key(77);
    let ncn_key = key(1);
    let ncn = Account { key: ncn_key, owner: key(90), is_writable: false, data: vec![1] };
    let (address, _, _) = WeightTable::try_find_program_address(&program, &ncn_key, 4).unwrap();
    let stored = |data: Vec<u8>, writable: bool, owner: Pubkey, at: Pubkey| Account {
        key: at,
        owner,
        is_writable: writable,
        data,
    };
    let good = stored(vec![WEIGHT_TABLE_DISCRIMINATOR, 0, 0], true, program, address);
    assert_eq!(WeightTable::try_load(&program, &good, &ncn, 4, true), Some(Ok(())));
    assert_eq!(WeightTable::load(&program, &good, &ncn, 4, false), Ok(()));
    // another epoch has another address
    assert_eq!(
        WeightTable::try_load(&program, &good, &ncn, 5, true),
        Some(Err(AccountError::InvalidAccountData))
    );
    let wrong_owner = stored(vec![WEIGHT_TABLE_DISCRIMINATOR], true, key(78), address);
    assert_eq!(
        WeightTable::try_load(&program, &wrong_owner, &ncn, 4, true),
        Some(Err(AccountError::InvalidAccountOwner))
    );
    let empty = stored(Vec::new(), true, program, address);
    assert_eq!(
        WeightTable::try_load(&program, &empty, &ncn, 4, true),
        Some(Err(AccountError::InvalidAccountData))
    );
    let read_only = stored(vec![WEIGHT_TABLE_DISCRIMINATOR], false, program, address);
    assert_eq!(
        WeightTable::try_load(&program, &read_only, &ncn, 4, true),
        Some(Err(AccountError::InvalidAccountData))
    );
    assert_eq!(WeightTable::try_load(&program, &read_only, &ncn, 4, false), Some(Ok(())));
    let other_kind = stored(vec![WEIGHT_TABLE_DISCRIMINATOR + 1], true, program, address);
    assert_eq!(
        WeightTable::try_load(&program, &other_kind, &ncn, 4, true),
        Some(Err(AccountError::InvalidAccountData))
    );
    let elsewhere = stored(vec![WEIGHT_TABLE_DISCRIMINATOR], true, program, key(5));
    assert_eq!(
        WeightTable::try_load(&program, &elsewhere, &ncn, 4, true),
        Some(Err(AccountError::InvalidAccountData))
    );
}

#[test]
fn a_record_is_looked_at_in_a_fixed_order() {
    let program = key(77);
    let account = Account { key: key(1), owner: key(2), is_writable: false, data: Vec::new() };
    // the owner is looked at first
    assert_eq!(account.inspect(&program, 1, true), Err(AccountError::InvalidAccountOwner));
    let account = Account { key: key(1), owner: program, is_writable: true, data: vec![1, 2] };
    assert_eq!(account.inspect(&program, 1, true), Ok(()));
    assert_eq!(account.inspect(&program, 2, true), Err(AccountError::InvalidAccountData));
}

#[test]
fn a_record_is_made_at_the_address_that_was_derived_for_it() {
    let program = key(9);
    let derived = RewardConfig::try_find_program_address(&program, &key(1)).unwrap();
    let (address, bump, seeds) = derived.clone();
    let mut with_bump = seeds.clone();
    with_bump.push(vec![bump]);
    assert_eq!(stored_at(&address, derived.clone()), Ok(with_bump.clone()));
    assert_eq!(with_bump.len(), 3);
    assert_eq!(with_bump[0], b"REWARD_CONFIG".to_vec());
    assert_eq!(with_bump[2], vec![bump]);
    // the seeds with the bump seed make the address
    let slices: Vec<&[u8]> = with_bump.iter().map(|seed| seed.as_slice()).collect();
    assert_eq!(
        solana_program::pubkey::Pubkey::create_program_address(&slices, &outside(&program)),
        Ok(outside(&address))
    );
    // any other address is refused
    assert_eq!(stored_at(&key(1), derived.clone()), Err(AccountError::InvalidAccountData));
    assert_eq!(
        stored_at(&Pubkey::default(), derived),
        Err(AccountError::InvalidAccountData)
    );
}

#[test]
fn a_ticket_is_the_ticket_of_its_operator() {
    let ticket = EpochRewardMerkleRootTicket::new(key(1), key(2), 5);
    assert_eq!(ticket.check_operator(&key(2)), Ok(()));
    assert_eq!(ticket.check_operator(&key(1)), Err(AccountError::InvalidAccountData));
    assert_eq!(
        ticket.check_operator(&Pubkey::default()),
        Err(AccountError::InvalidAccountData)
    );
}
