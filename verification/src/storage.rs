//! What the ledger view reads from the store of the committed
//! proof-of-stake ledger.
//!
//! The store is a capability: the bridge never sees a concrete storage
//! engine. Each query has one answer for a given state of the store, which
//! is either the value asked for or the error with which the read failed.

use crate::events::{
    events_view, ContractEvent, ContractEventView, EpochState, EpochStateView,
    RewardDistributionEvent,
};
use crate::hash::{HashValue, H256};
use vstd::prelude::*;

verus! {

/// Why a read of the ledger store failed.
#[derive(Clone, Copy, Debug, PartialEq, Eq, Structural)]
pub enum StorageError {
    /// The store holds nothing under what was asked for.
    NotFound,
    /// The store itself could not be read.
    Unavailable,
}

/// The proof-of-work block that a proof-of-stake block anchors.
#[derive(Clone, Copy, Debug)]
pub struct PivotBlockDecision {
    pub height: u64,
    pub block_hash: H256,
}

/// A committed block as the ledger store records it.
#[derive(Clone, Copy, Debug)]
pub struct CommittedBlock {
    pub hash: HashValue,
    pub epoch: u64,
    pub round: u64,
    pub pivot_decision: PivotBlockDecision,
    /// The ledger version at which the block was committed.
    pub version: u64,
}

/// What the ledger records of its latest commit.
#[derive(Clone, Copy, Debug)]
pub struct LedgerInfo {
    pub consensus_block_id: HashValue,
}

impl LedgerInfo {
    pub fn consensus_block_id(&self) -> (id: HashValue)
        ensures
            id == self.consensus_block_id,
    {
        self.consensus_block_id
    }
}

/// The latest ledger info as the store hands it out.
#[derive(Clone, Copy, Debug)]
pub struct LedgerInfoWithSignatures {
    pub ledger_info: LedgerInfo,
}

impl LedgerInfoWithSignatures {
    pub fn ledger_info(&self) -> (info: &LedgerInfo)
        ensures
            *info == self.ledger_info,
    {
        &self.ledger_info
    }
}

/// The proof-of-stake state that the store keeps for a block.
#[derive(Debug)]
pub struct PosState {
    pub epoch_state: EpochState,
}

impl PosState {
    pub fn epoch_state(&self) -> (state: &EpochState)
        ensures
            *state == self.epoch_state,
    {
        &self.epoch_state
    }
}

/// The read contract of the ledger store. A store says what each of its
/// queries answers; one that does not leaves the answers open.
pub trait DBReaderForPoW {
    /// The committed block stored under `hash`.
    open spec fn committed_block_by_hash(&self, hash: HashValue) -> Result<CommittedBlock, StorageError> {
        arbitrary()
    }

    /// The latest ledger info, if the ledger has committed anything.
    open spec fn latest_ledger_info(&self) -> Option<LedgerInfoWithSignatures> {
        arbitrary()
    }

    /// The events committed at the versions after `start_version` up to and
    /// including `end_version`, in commit order.
    open spec fn events_by_version(&self, start_version: u64, end_version: u64) -> Result<
        Seq<ContractEventView>,
        StorageError,
    > {
        arbitrary()
    }

    /// The blocks that end the epochs from `start_epoch` up to, not
    /// including, `end_epoch`.
    open spec fn epoch_ending_blocks(&self, start_epoch: u64, end_epoch: u64) -> Result<
        Seq<HashValue>,
        StorageError,
    > {
        arbitrary()
    }

    /// The reward record of `epoch`.
    open spec fn reward_event(&self, epoch: u64) -> Result<Seq<u8>, StorageError> {
        arbitrary()
    }

    /// The epoch state kept for the block stored under `hash`.
    open spec fn pos_state(&self, hash: HashValue) -> Result<EpochStateView, StorageError> {
        arbitrary()
    }

    fn get_committed_block_by_hash(&self, hash: &HashValue) -> (read: Result<
        CommittedBlock,
        StorageError,
    >)
        ensures
            read == self.committed_block_by_hash(*hash),
    ;

    fn get_latest_ledger_info_option(&self) -> (read: Option<LedgerInfoWithSignatures>)
        ensures
            read == self.latest_ledger_info(),
    ;

    fn get_events_by_version(&self, start_version: u64, end_version: u64) -> (read: Result<
        Vec<ContractEvent>,
        StorageError,
    >)
        ensures
            match read {
                Ok(events) => self.events_by_version(start_version, end_version) == Ok::<
                    Seq<ContractEventView>,
                    StorageError,
                >(events_view(events@)),
                Err(error) => self.events_by_version(start_version, end_version) == Err::<
                    Seq<ContractEventView>,
                    StorageError,
                >(error),
            },
    ;

    fn get_epoch_ending_blocks(&self, start_epoch: u64, end_epoch: u64) -> (read: Result<
        Vec<HashValue>,
        StorageError,
    >)
        ensures
            match read {
                Ok(blocks) => self.epoch_ending_blocks(start_epoch, end_epoch) == Ok::<
                    Seq<HashValue>,
                    StorageError,
                >(blocks@),
                Err(error) => self.epoch_ending_blocks(start_epoch, end_epoch) == Err::<
                    Seq<HashValue>,
                    StorageError,
                >(error),
            },
    ;

    fn get_reward_event(&self, epoch: u64) -> (read: Result<RewardDistributionEvent, StorageError>)
        ensures
            match read {
                Ok(event) => self.reward_event(epoch) == Ok::<Seq<u8>, StorageError>(event@),
                Err(error) => self.reward_event(epoch) == Err::<Seq<u8>, StorageError>(error),
            },
    ;

    fn get_pos_state(&self, block_id: &HashValue) -> (read: Result<PosState, StorageError>)
        ensures
            match read {
                Ok(state) => self.pos_state(*block_id) == Ok::<EpochStateView, StorageError>(
                    state.epoch_state@,
                ),
                Err(error) => self.pos_state(*block_id) == Err::<EpochStateView, StorageError>(
                    error,
                ),
            },
    ;
}

} // verus!
