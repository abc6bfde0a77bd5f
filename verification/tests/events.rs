use pos_bridge::events::{
    copy_bytes, ContractEvent, DecodeError, DisputeEvent, EpochState, EventKey,
    RewardDistributionEvent, UnlockEvent,
};
use pos_bridge::hash::{array_from_slice, bytes_equal, AccountAddress, HashValue, H256};

#[test]
fn hashes_compare_by_bytes() {
    let a = H256::new([1u8; 32]);
    let b = H256::new([1u8; 32]);
    let mut other = [1u8; 32];
    other[31] = 2;
    let c = H256::new(other);
    assert!(a == b);
    assert!(a != c);
    assert!(bytes_equal(&[1u8, 2, 3], &[1u8, 2, 3]));
    assert!(!bytes_equal(&[1u8, 2, 3], &[1u8, 2, 4]));
    assert_eq!(a.to_fixed_bytes(), [1u8; 32]);
    assert!(HashValue::new([4; 32]) == HashValue::new([4; 32]));
    assert!(HashValue::new([4; 32]) != HashValue::new([5; 32]));
}

#[test]
fn hash_from_slice_takes_the_bytes() {
    let mut bytes = vec![0u8; 40];
    for (i, b) in bytes.iter_mut().enumerate() {
        *b = i as u8;
    }
    let tail = array_from_slice(&bytes, 8);
    assert_eq!(tail[0], 8);
    assert_eq!(tail[31], 39);
    let h = H256::from_slice(&bytes[0..32]);
    assert_eq!(h.bytes[0], 0);
    assert_eq!(h.bytes[31], 31);
}

#[test]
fn unlock_payload_decodes_to_exact_values() {
    let mut payload = vec![7u8; 32];
    payload.extend_from_slice(&[1, 2, 0, 0, 0, 0, 0, 0]);
    let event = UnlockEvent::from_bytes(&payload).unwrap();
    assert_eq!(event.node_id, AccountAddress::new([7; 32]));
    assert_eq!(event.unlocked, 513);
    let mut top = vec![0u8; 32];
    top.extend_from_slice(&[0, 0, 0, 0, 0, 0, 0, 0x80]);
    assert_eq!(UnlockEvent::from_bytes(&top).unwrap().unlocked, 1u64 << 63);
}

#[test]
fn unlock_payload_of_wrong_length_is_refused() {
    assert_eq!(UnlockEvent::from_bytes(&[]).err(), Some(DecodeError::UnexpectedLength));
    assert_eq!(UnlockEvent::from_bytes(&[0u8; 39]).err(), Some(DecodeError::UnexpectedLength));
    assert_eq!(UnlockEvent::from_bytes(&[0u8; 41]).err(), Some(DecodeError::UnexpectedLength));
    assert_eq!(UnlockEvent::from_bytes(&[0u8; 32]).err(), Some(DecodeError::UnexpectedLength));
}

#[test]
fn unlock_round_trip() {
    let event = UnlockEvent { node_id: AccountAddress::new([3; 32]), unlocked: 0x0102030405060708 };
    let bytes = event.to_bytes();
    assert_eq!(bytes.len(), 40);
    assert_eq!(&bytes[32..], &[8, 7, 6, 5, 4, 3, 2, 1]);
    let back = UnlockEvent::from_bytes(&bytes).unwrap();
    assert_eq!(back.node_id, event.node_id);
    assert_eq!(back.unlocked, event.unlocked);
}

#[test]
fn dispute_payload_decodes_and_round_trips() {
    let event = DisputeEvent { node_id: AccountAddress::new([9; 32]) };
    let bytes = event.to_bytes();
    assert_eq!(bytes, vec![9u8; 32]);
    assert_eq!(DisputeEvent::from_bytes(&bytes).unwrap().node_id, event.node_id);
    assert_eq!(DisputeEvent::from_bytes(&[0u8; 31]).err(), Some(DecodeError::UnexpectedLength));
    assert_eq!(DisputeEvent::from_bytes(&[0u8; 40]).err(), Some(DecodeError::UnexpectedLength));
}

#[test]
fn event_keys_of_the_two_kinds_differ() {
    let unlock = UnlockEvent::event_key();
    let dispute = DisputeEvent::event_key();
    assert!(unlock != dispute);
    assert!(unlock == UnlockEvent::event_key());
    assert_eq!(unlock.bytes[0], 5);
    assert_eq!(dispute.bytes[0], 6);
    assert_eq!(&unlock.bytes[1..], &[0u8; 39]);
    assert!(EventKey::new([0u8; 40]) != unlock);
}

#[test]
fn copies_keep_what_they_copy() {
    let event = ContractEvent::new(UnlockEvent::event_key(), vec![1, 2, 3]);
    let copy = event.clone();
    assert!(*copy.key() == UnlockEvent::event_key());
    assert_eq!(copy.event_data(), &[1, 2, 3]);
    assert_eq!(copy_bytes(&vec![4, 5]), vec![4, 5]);
    assert_eq!(RewardDistributionEvent::new(vec![6]).clone().payload, vec![6]);
    let state = EpochState::new(3, vec![1], vec![2, 2]).clone();
    assert_eq!(state.epoch, 3);
    assert_eq!(state.verifier, vec![1]);
    assert_eq!(state.vrf_seed, vec![2, 2]);
}
