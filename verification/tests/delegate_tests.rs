use alloy::primitives::U256;
use untron_solver::abi::word_from_u64;
use untron_solver::address::Address;
use untron_solver::delegate::{
    available_by_key, choose_delegate_owner, delegate_request, delegated_resource_available_sun, key_for_owner,
    reserved_by_owner, resource_code_from_i32, DelegateError, FrozenV2, ResourceCode, TronAccount,
};
use untron_solver::intents::DelegateResourceIntent;

#[test]
fn available_capacity_subtracts_delegations() {
    let acct = TronAccount {
        frozen_v2: vec![
            FrozenV2 { resource_type: 1, amount: 500 },
            FrozenV2 { resource_type: 0, amount: 70 },
            FrozenV2 { resource_type: 1, amount: 100 },
            FrozenV2 { resource_type: 9, amount: 1000 },
        ],
        delegated_for_energy: Some(150),
        delegated_for_bandwidth: 100,
    };
    assert_eq!(delegated_resource_available_sun(&acct, ResourceCode::Energy), 450);
    assert_eq!(delegated_resource_available_sun(&acct, ResourceCode::Bandwidth), 0);
    assert_eq!(delegated_resource_available_sun(&acct, ResourceCode::TronPower), 0);
    let saturated = TronAccount {
        frozen_v2: vec![
            FrozenV2 { resource_type: 1, amount: i64::MAX },
            FrozenV2 { resource_type: 1, amount: i64::MAX },
        ],
        delegated_for_energy: None,
        delegated_for_bandwidth: 0,
    };
    assert_eq!(delegated_resource_available_sun(&saturated, ResourceCode::Energy), i64::MAX);
    assert_eq!(resource_code_from_i32(2), Some(ResourceCode::TronPower));
    assert_eq!(resource_code_from_i32(3), None);
}

#[test]
fn delegate_requests_read_resource_and_amount() {
    let intent = DelegateResourceIntent {
        receiver: Address::zero(),
        resource: 1,
        balance_sun: word_from_u64(5_000_000),
        lock_period: word_from_u64(10),
    };
    assert_eq!(delegate_request(&intent), Ok((ResourceCode::Energy, 5_000_000)));
    let huge = DelegateResourceIntent {
        balance_sun: (U256::from(1u64) << 70usize).to_be_bytes::<32>(),
        ..intent
    };
    assert_eq!(delegate_request(&huge), Ok((ResourceCode::Energy, i64::MAX)));
    let bad = DelegateResourceIntent { resource: 7, ..intent };
    let e = delegate_request(&bad).unwrap_err();
    assert_eq!(e, DelegateError::UnsupportedResource { code: 7 });
    assert_eq!(e.message(), "unsupported DelegateResourceIntent.resource: 7");
}

#[test]
fn reservations_align_with_owners() {
    let owners = vec![vec![0x41, 1], vec![0x41, 2], vec![0x41, 3]];
    let reserved = vec![(vec![0x41, 2], 50), (vec![0x41, 9], 7), (vec![0x41, 2], 60)];
    assert_eq!(reserved_by_owner(&owners, &reserved), vec![0, 60, 0]);
    let avail = vec![100, 200, 150];
    assert_eq!(choose_delegate_owner(&owners, &avail, &reserved, 120), Ok(2));
    assert_eq!(
        choose_delegate_owner(&owners, &avail, &reserved, 1_000),
        Err(DelegateError::CapacityInsufficient)
    );
    assert_eq!(DelegateError::CapacityInsufficient.message(), "delegate_capacity_insufficient");
}

#[test]
fn key_for_owner_prefers_configured_keys_in_order() {
    let keys = vec![[1u8; 32], [2u8; 32], [3u8; 32]];
    let addresses = vec![Some(vec![0x41, 0xaa]), None, Some(vec![0x41, 0xbb])];
    let default_address = Some(vec![0x41, 0xcc]);
    assert_eq!(
        key_for_owner(&keys, &addresses, [9u8; 32], &default_address, &vec![0x41, 0xbb]),
        Some([3u8; 32])
    );
    assert_eq!(
        key_for_owner(&keys, &addresses, [9u8; 32], &default_address, &vec![0x41, 0xcc]),
        Some([9u8; 32])
    );
    assert_eq!(
        key_for_owner(&keys, &addresses, [9u8; 32], &default_address, &vec![0x41, 0xdd]),
        None
    );
    let twice = vec![Some(vec![0x41, 0xaa]), Some(vec![0x41, 0xaa]), None];
    assert_eq!(
        key_for_owner(&keys, &twice, [9u8; 32], &Some(vec![0x41, 0xaa]), &vec![0x41, 0xaa]),
        Some([1u8; 32])
    );
}

#[test]
fn available_by_key_is_empty_with_the_mock_backend() {
    let acct = TronAccount {
        frozen_v2: vec![FrozenV2 { resource_type: 1, amount: 500 }],
        delegated_for_energy: Some(100),
        delegated_for_bandwidth: 0,
    };
    let accounts = vec![acct];
    assert_eq!(
        available_by_key(untron_solver::types::TronMode::Grpc, &accounts, ResourceCode::Energy),
        vec![400]
    );
    assert!(available_by_key(untron_solver::types::TronMode::Mock, &accounts, ResourceCode::Energy).is_empty());
}
