use pos_bridge::events::{ContractEvent, EpochState, EventKey, RewardDistributionEvent};
use pos_bridge::hash::{HashValue, H256};
use pos_bridge::pos_handler::{PosBlock, PosConfiguration, PosConnection, PosHandler, PosInterface};
use pos_bridge::storage::{
    CommittedBlock, DBReaderForPoW, LedgerInfoWithSignatures, PosState, StorageError,
};
use pos_bridge::sync::ProtocolConfiguration;
use std::sync::Arc;
use std::time::Duration;

fn settings() -> PosConfiguration {
    PosConfiguration {
        bls_key: vec![],
        vrf_key: vec![],
        protocol_conf: ProtocolConfiguration { request_timeout: Duration::from_secs(1) },
        pos_initial_nodes_path: String::new(),
    }
}

/// A store whose every read fails.
struct BrokenStore;

impl DBReaderForPoW for BrokenStore {
    fn get_committed_block_by_hash(
        &self,
        _hash: &HashValue,
    ) -> Result<CommittedBlock, StorageError> {
        Err(StorageError::Unavailable)
    }

    fn get_latest_ledger_info_option(&self) -> Option<LedgerInfoWithSignatures> {
        None
    }

    fn get_events_by_version(
        &self,
        _start: u64,
        _end: u64,
    ) -> Result<Vec<ContractEvent>, StorageError> {
        Err(StorageError::Unavailable)
    }

    fn get_epoch_ending_blocks(
        &self,
        _start: u64,
        _end: u64,
    ) -> Result<Vec<HashValue>, StorageError> {
        Err(StorageError::Unavailable)
    }

    fn get_reward_event(&self, _epoch: u64) -> Result<RewardDistributionEvent, StorageError> {
        Err(StorageError::Unavailable)
    }

    fn get_pos_state(&self, _block_id: &HashValue) -> Result<PosState, StorageError> {
        Err(StorageError::Unavailable)
    }
}

#[test]
fn a_broken_store_stands_in_for_the_ledger() {
    let view = PosConnection::new(Arc::new(BrokenStore), Arc::new(()));
    assert!(view.get_committed_block(&H256::new([1; 32])).is_none());
    assert!(view.get_reward_event(3).is_none());
    let mut bridge = PosHandler::new(settings(), 0);
    assert!(bridge.initialize(view).is_ok());
    assert!(!bridge.is_committed(&H256::new([1; 32])));
    assert!(!bridge.verify_against_predecessors(&H256::new([1; 32]), &vec![]));
    assert_eq!(bridge.get_pivot_decision(&H256::new([1; 32])), None);
    assert!(bridge
        .get_reward_distribution_event(&H256::new([2; 32]), &H256::new([1; 32]))
        .is_none());
}

/// A ledger view of two blocks in one epoch, without a store behind it.
struct TwoBlocks {
    nothing: Arc<()>,
}

impl PosInterface for TwoBlocks {
    type Storage = ();

    fn initialize(&self) -> Result<(), String> {
        Ok(())
    }

    fn get_committed_block(&self, h: &H256) -> Option<PosBlock> {
        let round = match h.bytes[0] {
            1 => 5,
            2 => 7,
            _ => return None,
        };
        Some(PosBlock { hash: *h, epoch: 1, round, pivot_decision: *h, version: round })
    }

    fn latest_block(&self) -> H256 {
        H256::new([2; 32])
    }

    fn get_events(&self, _from: &H256, _to: &H256) -> Vec<ContractEvent> {
        vec![ContractEvent::new(EventKey::new([0; 40]), vec![])]
    }

    fn get_epoch_ending_blocks(&self, _start: u64, _end: u64) -> Vec<H256> {
        vec![]
    }

    fn get_reward_event(&self, _epoch: u64) -> Option<RewardDistributionEvent> {
        None
    }

    fn get_epoch_state(&self, _block_id: &H256) -> EpochState {
        EpochState::new(1, vec![], vec![])
    }

    fn diem_db(&self) -> &Arc<()> {
        &self.nothing
    }
}

#[test]
fn any_ledger_view_serves_the_bridge() {
    let mut bridge = PosHandler::new(settings(), 0);
    assert!(bridge.initialize(TwoBlocks { nothing: Arc::new(()) }).is_ok());
    let a = H256::new([1; 32]);
    let b = H256::new([2; 32]);
    assert!(bridge.verify_against_predecessors(&b, &vec![a]));
    assert!(!bridge.verify_against_predecessors(&a, &vec![b]));
    assert!(bridge.verify_against_predecessors(&a, &vec![a]));
    assert_eq!(bridge.get_latest_pos_reference(), b);
    assert!(bridge.get_unlock_nodes(&b, &a).is_empty());
    assert!(bridge.get_disputed_nodes(&b, &a).is_empty());
    assert!(bridge.get_reward_distribution_event(&b, &a).is_none());
}
