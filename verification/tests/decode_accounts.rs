use solana_sdk::pubkey::Pubkey;
use solana_sdk::stake::stake_flags::StakeFlags;
use solana_sdk::stake::state::{Delegation, Meta, Stake, StakeStateV2};

use stake_query::aggregate::process_stake_accounts_info_for_total_stake;
use stake_query::records::{AccountId, StakeAccountRecord};
use stake_query::select::process_stake_accounts_info_for_staker;

fn stake_record(
    id_byte: u8,
    stake_amount: u64,
    activation_epoch: u64,
    deactivation_epoch: u64,
) -> StakeAccountRecord {
    let delegation = Delegation {
        voter_pubkey: Pubkey::new_from_array([9; 32]),
        stake: stake_amount,
        activation_epoch,
        deactivation_epoch,
        ..Delegation::default()
    };
    let state = StakeStateV2::Stake(
        Meta::default(),
        Stake { delegation, credits_observed: 0 },
        StakeFlags::empty(),
    );
    StakeAccountRecord {
        account_id: AccountId([id_byte; 32]),
        data: bincode::serialize(&state).unwrap(),
    }
}

fn record_with_data(id_byte: u8, data: Vec<u8>) -> StakeAccountRecord {
    StakeAccountRecord { account_id: AccountId([id_byte; 32]), data }
}

#[test]
fn encoded_stake_accounts_sum_to_exact_total() {
    let records = vec![
        stake_record(1, 2_000_000_000, 5, 100),
        stake_record(2, 500_000_000, 8, 50),
    ];
    assert_eq!(
        process_stake_accounts_info_for_total_stake(30, &records),
        2_500_000_000u128
    );
}

#[test]
fn undecodable_account_data_is_skipped() {
    let records = vec![
        record_with_data(1, vec![255u8; 8]),
        record_with_data(2, Vec::new()),
        stake_record(3, 2_000_000_000, 5, 100),
    ];
    assert_eq!(
        process_stake_accounts_info_for_total_stake(30, &records),
        2_000_000_000u128
    );
}

#[test]
fn non_stake_variants_are_skipped() {
    let records = vec![
        record_with_data(1, bincode::serialize(&StakeStateV2::Uninitialized).unwrap()),
        record_with_data(2, bincode::serialize(&StakeStateV2::Initialized(Meta::default())).unwrap()),
    ];
    assert_eq!(process_stake_accounts_info_for_total_stake(30, &records), 0u128);
    assert_eq!(process_stake_accounts_info_for_staker(30, &records), Ok(None));
}

#[test]
fn staker_selected_from_encoded_accounts() {
    // Epoch 30 gives lookback key 19: the account whose delegation activated
    // at epoch 19 is selected over the one with the smaller activation epoch.
    let records = vec![
        stake_record(1, 2_000_000_000, 5, 100),
        stake_record(2, 3_000_000_000, 19, 100),
    ];
    assert_eq!(
        process_stake_accounts_info_for_staker(30, &records),
        Ok(Some(AccountId([2; 32])))
    );
}
