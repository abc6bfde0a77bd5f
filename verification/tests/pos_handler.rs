use pos_bridge::events::{
    ContractEvent, DisputeEvent, EpochState, EventKey, RewardDistributionEvent, UnlockEvent,
};
use pos_bridge::hash::{AccountAddress, HashValue, H256};
use pos_bridge::memory_ledger::MemoryLedger;
use pos_bridge::pos_handler::{
    dispute_events_decode, initial_validators, unlock_events_decode, GenesisPosNodeInfo, GenesisPosState, InitializeError, PosConfiguration,
    PosConnection, PosHandler, PosInterface,
};
use pos_bridge::storage::{CommittedBlock, PivotBlockDecision, PosState};
use pos_bridge::sync::ProtocolConfiguration;
use std::sync::Arc;
use std::time::Duration;

type Bridge = PosHandler<PosConnection<MemoryLedger, ()>>;

fn id(tag: u8) -> H256 {
    H256::new([tag; 32])
}

fn block(tag: u8, epoch: u64, round: u64, version: u64) -> CommittedBlock {
    CommittedBlock {
        hash: HashValue::new([tag; 32]),
        epoch,
        round,
        pivot_decision: PivotBlockDecision { height: version, block_hash: H256::new([tag + 100; 32]) },
        version,
    }
}

fn configuration() -> PosConfiguration {
    PosConfiguration {
        bls_key: vec![1, 2, 3],
        vrf_key: vec![4, 5, 6],
        protocol_conf: ProtocolConfiguration { request_timeout: Duration::from_secs(5) },
        pos_initial_nodes_path: String::from("initial_nodes.json"),
    }
}

fn bridge_over(ledger: MemoryLedger) -> Bridge {
    let mut bridge = PosHandler::new(configuration(), 10);
    let view = PosConnection::new(Arc::new(ledger), Arc::new(()));
    assert_eq!(bridge.initialize(view), Ok(()));
    bridge
}

fn unlock(node: u8, votes: u64) -> ContractEvent {
    let event = UnlockEvent { node_id: AccountAddress::new([node; 32]), unlocked: votes };
    ContractEvent::new(UnlockEvent::event_key(), event.to_bytes())
}

fn dispute(node: u8) -> ContractEvent {
    let event = DisputeEvent { node_id: AccountAddress::new([node; 32]) };
    ContractEvent::new(DisputeEvent::event_key(), event.to_bytes())
}

fn other_event() -> ContractEvent {
    ContractEvent::new(EventKey::new([9u8; 40]), vec![1, 2, 3])
}

fn two_blocks() -> MemoryLedger {
    let mut ledger = MemoryLedger::new();
    assert_eq!(ledger.commit_block(block(1, 1, 5, 10), vec![]), Ok(()));
    assert_eq!(ledger.commit_block(block(2, 1, 7, 20), vec![]), Ok(()));
    ledger
}

#[test]
fn later_block_extends_its_parent() {
    let bridge = bridge_over(two_blocks());
    assert!(bridge.verify_against_predecessors(&id(2), &vec![id(1)]));
}

#[test]
fn earlier_block_does_not_extend_a_later_one() {
    let bridge = bridge_over(two_blocks());
    assert!(!bridge.verify_against_predecessors(&id(1), &vec![id(2)]));
}

#[test]
fn same_anchor_is_accepted_as_predecessor() {
    let bridge = bridge_over(two_blocks());
    assert!(bridge.verify_against_predecessors(&id(2), &vec![id(2), id(1), id(2)]));
}

#[test]
fn unknown_candidate_is_refused() {
    let bridge = bridge_over(two_blocks());
    assert!(!bridge.verify_against_predecessors(&id(3), &vec![id(1)]));
    assert!(!bridge.verify_against_predecessors(&id(3), &vec![]));
}

#[test]
fn unknown_predecessor_is_refused() {
    let bridge = bridge_over(two_blocks());
    assert!(!bridge.verify_against_predecessors(&id(2), &vec![id(1), id(3)]));
}

#[test]
fn committed_candidate_without_predecessors_is_accepted() {
    let bridge = bridge_over(two_blocks());
    assert!(bridge.verify_against_predecessors(&id(1), &vec![]));
}

#[test]
fn one_late_predecessor_among_many_refuses() {
    let mut ledger = two_blocks();
    assert_eq!(ledger.commit_block(block(3, 1, 9, 30), vec![]), Ok(()));
    let bridge = bridge_over(ledger);
    assert!(bridge.verify_against_predecessors(&id(3), &vec![id(1), id(2)]));
    assert!(!bridge.verify_against_predecessors(&id(2), &vec![id(1), id(3)]));
}

#[test]
fn position_goes_by_epoch_before_round() {
    let mut ledger = MemoryLedger::new();
    assert_eq!(ledger.commit_block(block(1, 1, 9, 10), vec![]), Ok(()));
    assert_eq!(ledger.commit_block(block(2, 2, 1, 20), vec![]), Ok(()));
    let bridge = bridge_over(ledger);
    assert!(bridge.verify_against_predecessors(&id(2), &vec![id(1)]));
    assert!(!bridge.verify_against_predecessors(&id(1), &vec![id(2)]));
}

#[test]
fn committed_blocks_are_found() {
    let bridge = bridge_over(two_blocks());
    assert!(bridge.is_committed(&id(1)));
    assert!(bridge.is_committed(&id(2)));
    assert!(!bridge.is_committed(&id(3)));
}

#[test]
fn pivot_decision_of_a_committed_block() {
    let bridge = bridge_over(two_blocks());
    assert_eq!(bridge.get_pivot_decision(&id(1)), Some(H256::new([101; 32])));
    assert_eq!(bridge.get_pivot_decision(&id(2)), Some(H256::new([102; 32])));
    assert_eq!(bridge.get_pivot_decision(&id(3)), None);
}

#[test]
fn latest_reference_is_the_last_commit() {
    let bridge = bridge_over(two_blocks());
    assert_eq!(bridge.get_latest_pos_reference(), id(2));
}

#[test]
fn anchoring_starts_at_the_activation_height() {
    let bridge: Bridge = PosHandler::new(configuration(), 10);
    assert!(!bridge.is_enabled_at_height(0));
    assert!(!bridge.is_enabled_at_height(9));
    assert!(bridge.is_enabled_at_height(10));
    assert!(bridge.is_enabled_at_height(u64::MAX));
}

#[test]
fn second_initialize_is_refused_and_the_first_stays() {
    let mut bridge: Bridge = PosHandler::new(configuration(), 10);
    assert!(!bridge.is_initialized());
    let first = PosConnection::new(Arc::new(two_blocks()), Arc::new(()));
    let second = PosConnection::new(Arc::new(MemoryLedger::new()), Arc::new(()));
    assert_eq!(bridge.initialize(first), Ok(()));
    assert!(bridge.is_initialized());
    assert_eq!(bridge.initialize(second), Err(InitializeError::AlreadyInitialized));
    assert!(bridge.is_initialized());
    assert!(bridge.is_committed(&id(1)));
    assert_eq!(bridge.get_latest_pos_reference(), id(2));
    assert_eq!(bridge.config().pos_initial_nodes_path, "initial_nodes.json");
}

#[test]
fn no_events_give_no_nodes() {
    let bridge = bridge_over(two_blocks());
    assert!(bridge.get_unlock_nodes(&id(2), &id(1)).is_empty());
    assert!(bridge.get_disputed_nodes(&id(2), &id(1)).is_empty());
}

#[test]
fn events_of_another_tag_give_no_nodes() {
    let mut ledger = MemoryLedger::new();
    assert_eq!(ledger.commit_block(block(1, 1, 5, 10), vec![]), Ok(()));
    assert_eq!(ledger.commit_block(block(2, 1, 7, 20), vec![other_event()]), Ok(()));
    let bridge = bridge_over(ledger);
    assert!(bridge.get_unlock_nodes(&id(2), &id(1)).is_empty());
    assert!(bridge.get_disputed_nodes(&id(2), &id(1)).is_empty());
}

#[test]
fn a_dispute_is_no_unlock_and_an_unlock_is_no_dispute() {
    let mut ledger = MemoryLedger::new();
    assert_eq!(ledger.commit_block(block(1, 1, 5, 10), vec![]), Ok(()));
    assert_eq!(ledger.commit_block(block(2, 1, 7, 20), vec![dispute(7)]), Ok(()));
    assert_eq!(ledger.commit_block(block(3, 1, 8, 30), vec![unlock(8, 3)]), Ok(()));
    let bridge = bridge_over(ledger);
    assert!(bridge.get_unlock_nodes(&id(2), &id(1)).is_empty());
    assert!(bridge.get_disputed_nodes(&id(3), &id(2)).is_empty());
    assert_eq!(bridge.get_disputed_nodes(&id(2), &id(1)), vec![id(7)]);
    assert_eq!(bridge.get_unlock_nodes(&id(3), &id(2)), vec![(id(8), 3)]);
}

#[test]
fn nodes_come_out_in_commit_order() {
    let mut ledger = MemoryLedger::new();
    assert_eq!(ledger.commit_block(block(1, 1, 5, 10), vec![unlock(50, 1)]), Ok(()));
    assert_eq!(
        ledger.commit_block(
            block(2, 1, 7, 20),
            vec![unlock(9, 4), other_event(), dispute(3), unlock(2, 600)]
        ),
        Ok(())
    );
    assert_eq!(ledger.commit_block(block(3, 1, 8, 30), vec![dispute(1), unlock(5, 7)]), Ok(()));
    assert_eq!(ledger.commit_block(block(4, 1, 9, 40), vec![unlock(60, 2)]), Ok(()));
    let bridge = bridge_over(ledger);
    assert_eq!(
        bridge.get_unlock_nodes(&id(3), &id(1)),
        vec![(id(9), 4), (id(2), 600), (id(5), 7)]
    );
    assert_eq!(bridge.get_disputed_nodes(&id(3), &id(1)), vec![id(3), id(1)]);
}

#[test]
fn range_leaves_out_the_parent_and_takes_in_the_block() {
    let mut ledger = MemoryLedger::new();
    assert_eq!(ledger.commit_block(block(1, 1, 5, 10), vec![unlock(1, 1)]), Ok(()));
    assert_eq!(ledger.commit_block(block(2, 1, 7, 20), vec![unlock(2, 2)]), Ok(()));
    let bridge = bridge_over(ledger);
    assert_eq!(bridge.get_unlock_nodes(&id(2), &id(1)), vec![(id(2), 2)]);
    assert!(bridge.get_unlock_nodes(&id(1), &id(1)).is_empty());
    assert!(bridge.get_unlock_nodes(&id(1), &id(2)).is_empty());
}

fn epochs() -> MemoryLedger {
    let mut ledger = MemoryLedger::new();
    assert_eq!(ledger.commit_block(block(1, 1, 5, 10), vec![]), Ok(()));
    assert_eq!(ledger.commit_block(block(2, 1, 7, 20), vec![]), Ok(()));
    assert_eq!(ledger.commit_block(block(3, 2, 8, 30), vec![]), Ok(()));
    assert_eq!(ledger.commit_block(block(4, 4, 9, 40), vec![]), Ok(()));
    ledger
}

#[test]
fn no_reward_for_the_same_block() {
    let mut ledger = epochs();
    assert!(ledger.put_reward_event(1, RewardDistributionEvent::new(vec![1])));
    let bridge = bridge_over(ledger);
    assert!(bridge.get_reward_distribution_event(&id(1), &id(1)).is_none());
    assert!(bridge.get_reward_distribution_event(&id(4), &id(4)).is_none());
    assert!(bridge.get_reward_distribution_event(&id(9), &id(9)).is_none());
}

#[test]
fn no_reward_within_one_epoch() {
    let mut ledger = epochs();
    assert!(ledger.put_reward_event(1, RewardDistributionEvent::new(vec![1])));
    let bridge = bridge_over(ledger);
    assert!(bridge.get_reward_distribution_event(&id(2), &id(1)).is_none());
}

#[test]
fn no_reward_for_unknown_blocks() {
    let mut ledger = epochs();
    assert!(ledger.put_reward_event(1, RewardDistributionEvent::new(vec![1])));
    let bridge = bridge_over(ledger);
    assert!(bridge.get_reward_distribution_event(&id(9), &id(1)).is_none());
    assert!(bridge.get_reward_distribution_event(&id(3), &id(9)).is_none());
}

#[test]
fn rewards_of_every_epoch_crossed() {
    let mut ledger = epochs();
    assert!(ledger.put_reward_event(1, RewardDistributionEvent::new(vec![11])));
    assert!(ledger.put_reward_event(2, RewardDistributionEvent::new(vec![22])));
    assert!(ledger.put_reward_event(3, RewardDistributionEvent::new(vec![33])));
    assert!(ledger.put_reward_event(4, RewardDistributionEvent::new(vec![44])));
    let bridge = bridge_over(ledger);
    let one = bridge.get_reward_distribution_event(&id(3), &id(2)).unwrap();
    assert_eq!(one.len(), 1);
    assert_eq!(one[0].payload, vec![11]);
    let three = bridge.get_reward_distribution_event(&id(4), &id(1)).unwrap();
    assert_eq!(three.len(), 3);
    assert_eq!(three[0].payload, vec![11]);
    assert_eq!(three[1].payload, vec![22]);
    assert_eq!(three[2].payload, vec![33]);
}

#[test]
fn a_missing_epoch_gives_no_rewards_at_all() {
    let mut ledger = epochs();
    assert!(ledger.put_reward_event(1, RewardDistributionEvent::new(vec![11])));
    assert!(ledger.put_reward_event(3, RewardDistributionEvent::new(vec![33])));
    let bridge = bridge_over(ledger);
    assert!(bridge.get_reward_distribution_event(&id(4), &id(1)).is_none());
    assert!(bridge.get_reward_distribution_event(&id(4), &id(3)).is_none());
    assert!(bridge.get_reward_distribution_event(&id(3), &id(1)).is_some());
}

#[test]
fn a_block_before_its_parent_owes_nothing() {
    let mut ledger = epochs();
    assert!(ledger.put_reward_event(1, RewardDistributionEvent::new(vec![11])));
    let bridge = bridge_over(ledger);
    let none = bridge.get_reward_distribution_event(&id(1), &id(3)).unwrap();
    assert!(none.is_empty());
}

#[test]
fn epoch_state_at_a_block() {
    let mut ledger = epochs();
    ledger.put_pos_state(
        HashValue::new([2; 32]),
        PosState { epoch_state: EpochState::new(2, vec![7, 7], vec![8]) },
    );
    let bridge = bridge_over(ledger);
    let state = bridge.get_epoch_state(&id(2));
    assert_eq!(state.epoch, 2);
    assert_eq!(state.verifier, vec![7, 7]);
    assert_eq!(state.vrf_seed, vec![8]);
}

#[test]
fn epoch_ending_blocks_of_a_range() {
    let mut ledger = epochs();
    ledger.put_epoch_ending_block(1, HashValue::new([2; 32]));
    ledger.put_epoch_ending_block(2, HashValue::new([3; 32]));
    ledger.put_epoch_ending_block(4, HashValue::new([4; 32]));
    let view = PosConnection::new(Arc::new(ledger), Arc::new(()));
    assert_eq!(view.initialize(), Ok(()));
    assert_eq!(view.get_epoch_ending_blocks(1, 3), vec![id(2), id(3)]);
    assert_eq!(view.get_epoch_ending_blocks(2, 2), Vec::<H256>::new());
    assert_eq!(view.get_epoch_ending_blocks(0, 9), vec![id(2), id(3), id(4)]);
    assert_eq!(view.latest_block(), id(4));
    assert_eq!(view.diem_db().blocks.len(), 4);
}

#[test]
fn ledger_view_reads_the_block() {
    let view = PosConnection::new(Arc::new(two_blocks()), Arc::new(()));
    let found = view.get_committed_block(&id(2)).unwrap();
    assert_eq!(found.hash, id(2));
    assert_eq!(found.epoch, 1);
    assert_eq!(found.round, 7);
    assert_eq!(found.pivot_decision, H256::new([102; 32]));
    assert_eq!(found.version, 20);
    assert!(view.get_committed_block(&id(5)).is_none());
    assert!(view.get_reward_event(1).is_none());
}

#[test]
fn initial_validators_follow_the_initial_nodes() {
    let nodes = GenesisPosState {
        initial_nodes: vec![
            GenesisPosNodeInfo { bls_key: vec![1, 2], vrf_key: vec![3], voting_power: 5 },
            GenesisPosNodeInfo { bls_key: vec![4], vrf_key: vec![5, 6], voting_power: 1 },
        ],
    };
    let validators = initial_validators(&nodes);
    assert_eq!(validators.len(), 2);
    assert_eq!(validators[0].0.public_key, vec![1, 2]);
    assert_eq!(validators[0].0.vrf_public_key, vec![3]);
    assert_eq!(validators[0].1, 5);
    assert_eq!(validators[1].0.public_key, vec![4]);
    assert_eq!(validators[1].0.vrf_public_key, vec![5, 6]);
    assert_eq!(validators[1].1, 1);
    assert!(initial_validators(&GenesisPosState { initial_nodes: vec![] }).is_empty());
}

#[test]
fn a_store_that_cannot_be_read_has_no_blocks_for_the_bridge() {
    let mut ledger = epochs();
    assert!(ledger.put_reward_event(1, RewardDistributionEvent::new(vec![11])));
    ledger.set_readable(false);
    let bridge = bridge_over(ledger);
    assert!(!bridge.is_committed(&id(1)));
    assert!(!bridge.verify_against_predecessors(&id(2), &vec![id(1)]));
    assert!(!bridge.verify_against_predecessors(&id(2), &vec![]));
    assert_eq!(bridge.get_pivot_decision(&id(1)), None);
    assert!(bridge.get_reward_distribution_event(&id(3), &id(2)).is_none());
}

#[test]
fn payloads_of_tagged_events_are_checked() {
    let good = vec![unlock(1, 2), other_event(), dispute(3)];
    assert!(unlock_events_decode(&good));
    assert!(dispute_events_decode(&good));
    assert!(unlock_events_decode(&vec![]));
    let short_unlock = vec![unlock(1, 2), ContractEvent::new(UnlockEvent::event_key(), vec![0; 39])];
    assert!(!unlock_events_decode(&short_unlock));
    assert!(dispute_events_decode(&short_unlock));
    let long_dispute = vec![ContractEvent::new(DisputeEvent::event_key(), vec![0; 33]), unlock(1, 2)];
    assert!(!dispute_events_decode(&long_dispute));
    assert!(unlock_events_decode(&long_dispute));
}
