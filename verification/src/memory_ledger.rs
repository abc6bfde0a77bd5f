//! A ledger store in memory.
//!
//! It keeps what was committed in the order of commitment and answers the
//! store's queries from that. Blocks are taken in chain order only: a new
//! block stands at or after the last one, at a later version, under a hash
//! that is not yet taken. The store can be made unreadable, so that every
//! read fails as it does on a store whose disk is gone.

use crate::events::{
    events_view, ContractEvent, ContractEventView, EpochStateView, RewardDistributionEvent,
};
use crate::hash::HashValue;
use crate::hash::PosBlockId;
use crate::pos_handler::{
    chain_consistent, extends_predecessors, hash_of_id, id_of_hash, position_le, PosConnection,
    PosInterface,
};
use crate::storage::{
    CommittedBlock, DBReaderForPoW, LedgerInfo, LedgerInfoWithSignatures, PosState, StorageError,
};
use vstd::prelude::*;

verus! {

/// An event together with the ledger version at which it was committed.
#[derive(Debug)]
pub struct VersionedEvent {
    pub version: u64,
    pub event: ContractEvent,
}

/// The reward record of an epoch.
#[derive(Debug)]
pub struct EpochReward {
    pub epoch: u64,
    pub event: RewardDistributionEvent,
}

/// The proof-of-stake state kept for a block.
#[derive(Debug)]
pub struct BlockState {
    pub block: HashValue,
    pub state: PosState,
}

/// The block that ends an epoch.
#[derive(Clone, Copy, Debug)]
pub struct EpochEnding {
    pub epoch: u64,
    pub block: HashValue,
}

/// Why a block was not taken.
#[derive(Clone, Copy, Debug, PartialEq, Eq, Structural)]
pub enum CommitError {
    /// A block is committed under this hash already.
    DuplicateBlock,
    /// The block stands before the last committed block, or its version is
    /// not after that block's.
    OutOfOrder,
}

/// The first item of `items` that `wanted` holds of.
pub open spec fn first_match<T>(items: Seq<T>, wanted: spec_fn(T) -> bool) -> Option<T>
    decreases items.len(),
{
    if items.len() == 0 {
        None
    } else if wanted(items[0]) {
        Some(items[0])
    } else {
        first_match(items.drop_first(), wanted)
    }
}

proof fn lemma_first_match_skip<T>(items: Seq<T>, wanted: spec_fn(T) -> bool, n: int)
    requires
        0 <= n <= items.len(),
        forall|k: int| 0 <= k < n ==> !wanted(#[trigger] items[k]),
    ensures
        first_match(items, wanted) == first_match(items.skip(n), wanted),
    decreases n,
{
    if n == 0 {
        assert(items.skip(0) =~= items);
    } else {
        lemma_first_match_skip(items, wanted, n - 1);
        let rest = items.skip(n - 1);
        assert(rest[0] == items[n - 1]);
        assert(rest.drop_first() =~= items.skip(n));
    }
}

/// What is found is an item that was asked for; and where nothing is found,
/// no item was.
pub proof fn lemma_first_match<T>(items: Seq<T>, wanted: spec_fn(T) -> bool)
    ensures
        match first_match(items, wanted) {
            Some(item) => items.contains(item) && wanted(item),
            None => forall|k: int| 0 <= k < items.len() ==> !wanted(#[trigger] items[k]),
        },
    decreases items.len(),
{
    if items.len() > 0 && !wanted(items[0]) {
        let rest = items.drop_first();
        lemma_first_match(rest, wanted);
        match first_match(rest, wanted) {
            Some(item) => {
                let k = choose|k: int| 0 <= k < rest.len() && rest[k] == item;
                assert(items[k + 1] == item);
            },
            None => {
                assert forall|k: int| 0 <= k < items.len() implies !wanted(
                    #[trigger] items[k],
                ) by {
                    if k > 0 {
                        assert(rest[k - 1] == items[k]);
                    }
                }
            },
        }
    } else if items.len() > 0 {
        assert(items[0] == items[0]);
    }
}

/// Whether block `a` stands at or before block `b`: by epoch, and within an
/// epoch by round.
pub open spec fn stands_before(a: CommittedBlock, b: CommittedBlock) -> bool {
    a.epoch < b.epoch || (a.epoch == b.epoch && a.round <= b.round)
}

/// Whether `blocks` is in chain order: no hash occurs twice, and each block
/// stands at or after the ones before it, at a later version.
pub open spec fn in_chain_order(blocks: Seq<CommittedBlock>) -> bool {
    forall|i: int, j: int|
        0 <= i < j < blocks.len() ==> {
            &&& (#[trigger] blocks[i]).hash != (#[trigger] blocks[j]).hash
            &&& stands_before(blocks[i], blocks[j])
            &&& blocks[i].version < blocks[j].version
        }
}

/// The ledger store in memory.
#[derive(Debug)]
pub struct MemoryLedger {
    /// The committed blocks, in the order of commitment.
    pub blocks: Vec<CommittedBlock>,
    /// The committed events, in the order of commitment.
    pub events: Vec<VersionedEvent>,
    pub rewards: Vec<EpochReward>,
    pub states: Vec<BlockState>,
    pub epoch_endings: Vec<EpochEnding>,
    /// Whether the store can be read.
    pub readable: bool,
}

impl MemoryLedger {
    /// Whether the committed blocks are in chain order.
    pub open spec fn wf(&self) -> bool {
        in_chain_order(self.blocks@)
    }

    /// The event of `item`, if its version lies after `start_version` and
    /// not after `end_version`.
    pub open spec fn event_within(
        item: VersionedEvent,
        start_version: u64,
        end_version: u64,
    ) -> Option<ContractEventView> {
        if start_version < item.version <= end_version {
            Some(item.event@)
        } else {
            None
        }
    }

    /// The block of `item`, if its epoch is at least `start_epoch` and below
    /// `end_epoch`.
    pub open spec fn ending_within(item: EpochEnding, start_epoch: u64, end_epoch: u64) -> Option<
        HashValue,
    > {
        if start_epoch <= item.epoch < end_epoch {
            Some(item.block)
        } else {
            None
        }
    }

    /// A ledger with nothing committed.
    pub fn new() -> (ledger: MemoryLedger)
        ensures
            ledger.wf(),
            ledger.blocks@.len() == 0,
            ledger.events@.len() == 0,
            ledger.rewards@.len() == 0,
            ledger.states@.len() == 0,
            ledger.epoch_endings@.len() == 0,
            ledger.readable,
    {
        MemoryLedger {
            blocks: Vec::new(),
            events: Vec::new(),
            rewards: Vec::new(),
            states: Vec::new(),
            epoch_endings: Vec::new(),
            readable: true,
        }
    }

    /// Makes the store readable or unreadable. What is committed stays.
    pub fn set_readable(&mut self, readable: bool)
        ensures
            final(self).readable == readable,
            final(self).blocks == old(self).blocks,
            final(self).events == old(self).events,
            final(self).rewards == old(self).rewards,
            final(self).states == old(self).states,
            final(self).epoch_endings == old(self).epoch_endings,
    {
        self.readable = readable;
    }

    /// Whether `block` may follow the committed blocks.
    pub open spec fn accepts(&self, block: CommittedBlock) -> Result<(), CommitError> {
        if exists|i: int| 0 <= i < self.blocks@.len() && (#[trigger] self.blocks@[i]).hash == block.hash {
            Err(CommitError::DuplicateBlock)
        } else if self.blocks@.len() > 0 && !(stands_before(self.blocks@.last(), block)
            && self.blocks@.last().version < block.version) {
            Err(CommitError::OutOfOrder)
        } else {
            Ok(())
        }
    }

    /// Commits `block` with the events that it emitted, in their order. A
    /// block that may not follow is refused, and the ledger stays as it is.
    pub fn commit_block(&mut self, block: CommittedBlock, events: Vec<ContractEvent>) -> (done:
        Result<(), CommitError>)
        requires
            old(self).wf(),
        ensures
            done == old(self).accepts(block),
            final(self).wf(),
            done is Err ==> *final(self) == *old(self),
            done is Ok ==> final(self).blocks@ == old(self).blocks@.push(block),
            done is Ok ==> final(self).events@.len() == old(self).events@.len() + events@.len(),
            done is Ok ==> forall|k: int|
                0 <= k < old(self).events@.len() ==> final(self).events@[k] == old(
                    self,
                ).events@[k],
            done is Ok ==> forall|k: int|
                0 <= k < events@.len() ==> (#[trigger] final(self).events@[old(self).events@.len()
                    + k]).version == block.version && final(self).events@[old(self).events@.len()
                    + k].event@ == events@[k]@,
            final(self).rewards == old(self).rewards,
            final(self).states == old(self).states,
            final(self).epoch_endings == old(self).epoch_endings,
            final(self).readable == old(self).readable,
    {
        let mut i: usize = 0;
        while i < self.blocks.len()
            invariant
                i <= self.blocks@.len(),
                *self == *old(self),
                self.wf(),
                forall|k: int| 0 <= k < i ==> (#[trigger] self.blocks@[k]).hash != block.hash,
            decreases self.blocks@.len() - i,
        {
            if self.blocks[i].hash == block.hash {
                return Err(CommitError::DuplicateBlock);
            }
            i += 1;
        }
        let count = self.blocks.len();
        if count > 0 {
            let last = self.blocks[count - 1];
            let after = last.epoch < block.epoch || (last.epoch == block.epoch && last.round
                <= block.round);
            if !after || last.version >= block.version {
                return Err(CommitError::OutOfOrder);
            }
        }
        self.blocks.push(block);
        proof {
            let blocks = self.blocks@;
            assert forall|a: int, b: int| 0 <= a < b < blocks.len() implies {
                &&& (#[trigger] blocks[a]).hash != (#[trigger] blocks[b]).hash
                &&& stands_before(blocks[a], blocks[b])
                &&& blocks[a].version < blocks[b].version
            } by {
                if b == blocks.len() - 1 {
                    let last = old(self).blocks@.last();
                    if a < count - 1 {
                        assert(stands_before(old(self).blocks@[a], last));
                        assert(old(self).blocks@[a].version < last.version);
                    }
                } else {
                    assert(blocks[a] == old(self).blocks@[a]);
                    assert(blocks[b] == old(self).blocks@[b]);
                }
            }
        }
        let mut events = events;
        let ghost given = events@;
        let mut k: usize = 0;
        while k < events.len()
            invariant
                k <= events@.len(),
                events@.len() == given.len(),
                forall|m: int| k <= m < given.len() ==> events@[m]@ == given[m]@,
                self.blocks@ == old(self).blocks@.push(block),
                self.wf(),
                self.rewards == old(self).rewards,
                self.states == old(self).states,
                self.epoch_endings == old(self).epoch_endings,
                self.readable == old(self).readable,
                self.events@.len() == old(self).events@.len() + k,
                forall|m: int|
                    0 <= m < old(self).events@.len() ==> self.events@[m] == old(self).events@[m],
                forall|m: int|
                    0 <= m < k ==> (#[trigger] self.events@[old(self).events@.len() + m]).version
                        == block.version && self.events@[old(self).events@.len() + m].event@
                        == given[m]@,
            decreases events@.len() - k,
        {
            let event = events[k].clone();
            self.events.push(VersionedEvent { version: block.version, event });
            k += 1;
        }
        Ok(())
    }

    /// Records the reward record of `epoch`, unless the epoch has one.
    pub fn put_reward_event(&mut self, epoch: u64, event: RewardDistributionEvent) -> (taken: bool)
        ensures
            taken == (forall|i: int|
                0 <= i < old(self).rewards@.len() ==> (#[trigger] old(self).rewards@[i]).epoch
                    != epoch),
            taken ==> final(self).rewards@ == old(self).rewards@.push(
                EpochReward { epoch, event },
            ),
            !taken ==> final(self).rewards == old(self).rewards,
            final(self).blocks == old(self).blocks,
            final(self).events == old(self).events,
            final(self).states == old(self).states,
            final(self).epoch_endings == old(self).epoch_endings,
            final(self).readable == old(self).readable,
    {
        let mut i: usize = 0;
        while i < self.rewards.len()
            invariant
                i <= self.rewards@.len(),
                *self == *old(self),
                forall|k: int| 0 <= k < i ==> (#[trigger] self.rewards@[k]).epoch != epoch,
            decreases self.rewards@.len() - i,
        {
            if self.rewards[i].epoch == epoch {
                return false;
            }
            i += 1;
        }
        self.rewards.push(EpochReward { epoch, event });
        true
    }

    /// Records the proof-of-stake state kept for `block`.
    pub fn put_pos_state(&mut self, block: HashValue, state: PosState)
        ensures
            final(self).states@ == old(self).states@.push(BlockState { block, state }),
            final(self).blocks == old(self).blocks,
            final(self).events == old(self).events,
            final(self).rewards == old(self).rewards,
            final(self).epoch_endings == old(self).epoch_endings,
            final(self).readable == old(self).readable,
    {
        self.states.push(BlockState { block, state });
    }

    /// Records that `block` ends `epoch`.
    pub fn put_epoch_ending_block(&mut self, epoch: u64, block: HashValue)
        ensures
            final(self).epoch_endings@ == old(self).epoch_endings@.push(
                EpochEnding { epoch, block },
            ),
            final(self).blocks == old(self).blocks,
            final(self).events == old(self).events,
            final(self).rewards == old(self).rewards,
            final(self).states == old(self).states,
            final(self).readable == old(self).readable,
    {
        self.epoch_endings.push(EpochEnding { epoch, block });
    }
}

impl DBReaderForPoW for MemoryLedger {
    open spec fn committed_block_by_hash(&self, hash: HashValue) -> Result<
        CommittedBlock,
        StorageError,
    > {
        if !self.readable {
            Err(StorageError::Unavailable)
        } else {
            match first_match(self.blocks@, |b: CommittedBlock| b.hash == hash) {
                Some(block) => Ok(block),
                None => Err(StorageError::NotFound),
            }
        }
    }

    open spec fn latest_ledger_info(&self) -> Option<LedgerInfoWithSignatures> {
        if !self.readable || self.blocks@.len() == 0 {
            None
        } else {
            Some(
                LedgerInfoWithSignatures {
                    ledger_info: LedgerInfo { consensus_block_id: self.blocks@.last().hash },
                },
            )
        }
    }

    open spec fn events_by_version(&self, start_version: u64, end_version: u64) -> Result<
        Seq<ContractEventView>,
        StorageError,
    > {
        if !self.readable {
            Err(StorageError::Unavailable)
        } else {
            Ok(
                self.events@.filter_map(
                    |item: VersionedEvent| Self::event_within(item, start_version, end_version),
                ),
            )
        }
    }

    open spec fn epoch_ending_blocks(&self, start_epoch: u64, end_epoch: u64) -> Result<
        Seq<HashValue>,
        StorageError,
    > {
        if !self.readable {
            Err(StorageError::Unavailable)
        } else {
            Ok(
                self.epoch_endings@.filter_map(
                    |item: EpochEnding| Self::ending_within(item, start_epoch, end_epoch),
                ),
            )
        }
    }

    open spec fn reward_event(&self, epoch: u64) -> Result<Seq<u8>, StorageError> {
        if !self.readable {
            Err(StorageError::Unavailable)
        } else {
            match first_match(self.rewards@, |r: EpochReward| r.epoch == epoch) {
                Some(reward) => Ok(reward.event@),
                None => Err(StorageError::NotFound),
            }
        }
    }

    open spec fn pos_state(&self, hash: HashValue) -> Result<EpochStateView, StorageError> {
        if !self.readable {
            Err(StorageError::Unavailable)
        } else {
            match first_match(self.states@, |s: BlockState| s.block == hash) {
                Some(kept) => Ok(kept.state.epoch_state@),
                None => Err(StorageError::NotFound),
            }
        }
    }

    fn get_committed_block_by_hash(&self, hash: &HashValue) -> (read: Result<
        CommittedBlock,
        StorageError,
    >) {
        if !self.readable {
            return Err(StorageError::Unavailable);
        }
        let ghost wanted = |b: CommittedBlock| b.hash == *hash;
        let mut i: usize = 0;
        while i < self.blocks.len()
            invariant
                i <= self.blocks@.len(),
                self.readable,
                wanted == (|b: CommittedBlock| b.hash == *hash),
                forall|k: int| 0 <= k < i ==> !wanted(#[trigger] self.blocks@[k]),
            decreases self.blocks@.len() - i,
        {
            if self.blocks[i].hash == *hash {
                proof {
                    lemma_first_match_skip(self.blocks@, wanted, i as int);
                    assert(self.blocks@.skip(i as int)[0] == self.blocks@[i as int]);
                }
                return Ok(self.blocks[i]);
            }
            i += 1;
        }
        proof {
            lemma_first_match_skip(self.blocks@, wanted, i as int);
        }
        Err(StorageError::NotFound)
    }

    fn get_latest_ledger_info_option(&self) -> (read: Option<LedgerInfoWithSignatures>) {
        let count = self.blocks.len();
        if !self.readable || count == 0 {
            None
        } else {
            Some(
                LedgerInfoWithSignatures {
                    ledger_info: LedgerInfo { consensus_block_id: self.blocks[count - 1].hash },
                },
            )
        }
    }

    fn get_events_by_version(&self, start_version: u64, end_version: u64) -> (read: Result<
        Vec<ContractEvent>,
        StorageError,
    >) {
        if !self.readable {
            return Err(StorageError::Unavailable);
        }
        let ghost within = |item: VersionedEvent|
            Self::event_within(item, start_version, end_version);
        let mut found: Vec<ContractEvent> = Vec::new();
        let mut i: usize = 0;
        while i < self.events.len()
            invariant
                i <= self.events@.len(),
                within == (|item: VersionedEvent|
                    Self::event_within(item, start_version, end_version)),
                events_view(found@) == self.events@.take(i as int).filter_map(within),
            decreases self.events@.len() - i,
        {
            proof {
                self.events@.lemma_filter_map_take_succ(within, i as int);
            }
            let item = &self.events[i];
            if start_version < item.version && item.version <= end_version {
                let ghost before = found@;
                found.push(item.event.clone());
                proof {
                    assert(events_view(found@) =~= events_view(before).push(item.event@));
                }
            }
            i += 1;
        }
        proof {
            assert(self.events@.take(self.events@.len() as int) =~= self.events@);
        }
        Ok(found)
    }

    fn get_epoch_ending_blocks(&self, start_epoch: u64, end_epoch: u64) -> (read: Result<
        Vec<HashValue>,
        StorageError,
    >) {
        if !self.readable {
            return Err(StorageError::Unavailable);
        }
        let ghost within = |item: EpochEnding| Self::ending_within(item, start_epoch, end_epoch);
        let mut found: Vec<HashValue> = Vec::new();
        let mut i: usize = 0;
        while i < self.epoch_endings.len()
            invariant
                i <= self.epoch_endings@.len(),
                within == (|item: EpochEnding| Self::ending_within(item, start_epoch, end_epoch)),
                found@ == self.epoch_endings@.take(i as int).filter_map(within),
            decreases self.epoch_endings@.len() - i,
        {
            proof {
                self.epoch_endings@.lemma_filter_map_take_succ(within, i as int);
            }
            let item = &self.epoch_endings[i];
            if start_epoch <= item.epoch && item.epoch < end_epoch {
                found.push(item.block);
            }
            i += 1;
        }
        proof {
            assert(self.epoch_endings@.take(self.epoch_endings@.len() as int)
                =~= self.epoch_endings@);
        }
        Ok(found)
    }

    fn get_reward_event(&self, epoch: u64) -> (read: Result<RewardDistributionEvent, StorageError>) {
        if !self.readable {
            return Err(StorageError::Unavailable);
        }
        let ghost wanted = |r: EpochReward| r.epoch == epoch;
        let mut i: usize = 0;
        while i < self.rewards.len()
            invariant
                i <= self.rewards@.len(),
                self.readable,
                wanted == (|r: EpochReward| r.epoch == epoch),
                forall|k: int| 0 <= k < i ==> !wanted(#[trigger] self.rewards@[k]),
            decreases self.rewards@.len() - i,
        {
            if self.rewards[i].epoch == epoch {
                proof {
                    lemma_first_match_skip(self.rewards@, wanted, i as int);
                    assert(self.rewards@.skip(i as int)[0] == self.rewards@[i as int]);
                }
                return Ok(self.rewards[i].event.clone());
            }
            i += 1;
        }
        proof {
            lemma_first_match_skip(self.rewards@, wanted, i as int);
        }
        Err(StorageError::NotFound)
    }

    fn get_pos_state(&self, block_id: &HashValue) -> (read: Result<PosState, StorageError>) {
        if !self.readable {
            return Err(StorageError::Unavailable);
        }
        let ghost wanted = |s: BlockState| s.block == *block_id;
        let mut i: usize = 0;
        while i < self.states.len()
            invariant
                i <= self.states@.len(),
                self.readable,
                wanted == (|s: BlockState| s.block == *block_id),
                forall|k: int| 0 <= k < i ==> !wanted(#[trigger] self.states@[k]),
            decreases self.states@.len() - i,
        {
            if self.states[i].block == *block_id {
                proof {
                    lemma_first_match_skip(self.states@, wanted, i as int);
                    assert(self.states@.skip(i as int)[0] == self.states@[i as int]);
                }
                return Ok(PosState { epoch_state: self.states[i].state.epoch_state.clone() });
            }
            i += 1;
        }
        proof {
            lemma_first_match_skip(self.states@, wanted, i as int);
        }
        Err(StorageError::NotFound)
    }
}

/// A block that was committed is found under its hash.
pub proof fn lemma_committed_block_is_found(ledger: &MemoryLedger, i: int)
    requires
        ledger.wf(),
        ledger.readable,
        0 <= i < ledger.blocks@.len(),
    ensures
        ledger.committed_block_by_hash(ledger.blocks@[i].hash) == Ok::<
            CommittedBlock,
            StorageError,
        >(ledger.blocks@[i]),
{
    let hash = ledger.blocks@[i].hash;
    let wanted = |b: CommittedBlock| b.hash == hash;
    lemma_first_match(ledger.blocks@, wanted);
    match first_match(ledger.blocks@, wanted) {
        Some(block) => {
            let k = choose|k: int| 0 <= k < ledger.blocks@.len() && ledger.blocks@[k] == block;
            if k < i {
                assert(ledger.blocks@[k].hash != ledger.blocks@[i].hash);
            } else if i < k {
                assert(ledger.blocks@[i].hash != ledger.blocks@[k].hash);
            }
        },
        None => {
            assert(wanted(ledger.blocks@[i]));
        },
    }
}

/// Nothing is found under a hash that no committed block has.
pub proof fn lemma_unknown_block_is_not_found(ledger: &MemoryLedger, hash: HashValue)
    requires
        ledger.readable,
        forall|i: int| 0 <= i < ledger.blocks@.len() ==> (#[trigger] ledger.blocks@[i]).hash != hash,
    ensures
        ledger.committed_block_by_hash(hash) == Err::<CommittedBlock, StorageError>(
            StorageError::NotFound,
        ),
{
    let wanted = |b: CommittedBlock| b.hash == hash;
    lemma_first_match(ledger.blocks@, wanted);
    match first_match(ledger.blocks@, wanted) {
        Some(block) => {
            let k = choose|k: int| 0 <= k < ledger.blocks@.len() && ledger.blocks@[k] == block;
            assert(ledger.blocks@[k].hash != hash);
        },
        None => {},
    }
}

/// Over a ledger in memory the causal check follows the order of
/// commitment: a block accepts every block committed before it, and itself,
/// as a predecessor; and it refuses a block committed after it that stands
/// at a later position.
pub proof fn lemma_commit_order_decides<C>(view: &PosConnection<MemoryLedger, C>, i: int, j: int)
    requires
        view.storage().wf(),
        view.storage().readable,
        0 <= i <= j < view.storage().blocks@.len(),
    ensures
        extends_predecessors(
            view,
            id_of_hash(view.storage().blocks@[j].hash),
            seq![id_of_hash(view.storage().blocks@[i].hash)],
        ),
        !stands_before(view.storage().blocks@[j], view.storage().blocks@[i])
            ==> !extends_predecessors(
            view,
            id_of_hash(view.storage().blocks@[i].hash),
            seq![id_of_hash(view.storage().blocks@[j].hash)],
        ),
{
    let ledger = view.storage();
    lemma_committed_block_is_found(&ledger, i);
    lemma_committed_block_is_found(&ledger, j);
    let earlier = id_of_hash(ledger.blocks@[i].hash);
    let later = id_of_hash(ledger.blocks@[j].hash);
    assert(hash_of_id(earlier) == ledger.blocks@[i].hash);
    assert(hash_of_id(later) == ledger.blocks@[j].hash);
    assert(seq![earlier][0] == earlier);
    assert(seq![later][0] == later);
    if i < j {
        assert(stands_before(ledger.blocks@[i], ledger.blocks@[j]));
    }
}

/// A store that cannot be read has no block for the bridge, whatever was
/// committed to it.
pub proof fn lemma_unreadable_store_has_no_blocks<C>(
    view: &PosConnection<MemoryLedger, C>,
    h: PosBlockId,
)
    requires
        !view.storage().readable,
    ensures
        view.committed_block(h) is None,
        view.latest() is None,
        view.reward_event(0) is None,
{
}

/// Whether rounds rise with positions: a block's round is never below that
/// of a block committed before it, and blocks of one round stand in one
/// epoch.
pub open spec fn rounds_never_fall(blocks: Seq<CommittedBlock>) -> bool {
    forall|i: int, j: int|
        0 <= i < j < blocks.len() ==> (#[trigger] blocks[i]).round <= (#[trigger] blocks[j]).round
            && (blocks[i].round == blocks[j].round ==> blocks[i].epoch == blocks[j].epoch)
}

proof fn lemma_committed_block_index<C>(view: &PosConnection<MemoryLedger, C>, id: PosBlockId) -> (i:
    int)
    requires
        view.storage().readable,
        view.committed_block(id) is Some,
    ensures
        0 <= i < view.storage().blocks@.len(),
        view.committed_block(id)->0.epoch == view.storage().blocks@[i].epoch,
        view.committed_block(id)->0.round == view.storage().blocks@[i].round,
{
    let blocks = view.storage().blocks@;
    let hash = hash_of_id(id);
    let wanted = |b: CommittedBlock| b.hash == hash;
    lemma_first_match(blocks, wanted);
    let found = first_match(blocks, wanted)->0;
    choose|i: int| 0 <= i < blocks.len() && blocks[i] == found
}

/// A ledger in memory whose blocks are in chain order and whose rounds
/// never fall is chain-consistent: over it the causal check goes by rounds
/// alone.
pub proof fn lemma_chain_consistent<C>(view: &PosConnection<MemoryLedger, C>)
    requires
        view.storage().wf(),
        view.storage().readable,
        rounds_never_fall(view.storage().blocks@),
    ensures
        chain_consistent(view),
{
    let blocks = view.storage().blocks@;
    assert forall|a: PosBlockId, b: PosBlockId|
        (#[trigger] view.committed_block(a)) is Some && (#[trigger] view.committed_block(b))
            is Some implies (position_le(view.committed_block(a)->0, view.committed_block(b)->0)
        <==> view.committed_block(a)->0.round <= view.committed_block(b)->0.round) by {
        let i = lemma_committed_block_index(view, a);
        let j = lemma_committed_block_index(view, b);
        if i < j {
            assert(stands_before(blocks[i], blocks[j]));
            assert(blocks[i].round <= blocks[j].round);
        } else if j < i {
            assert(stands_before(blocks[j], blocks[i]));
            assert(blocks[j].round <= blocks[i].round);
        }
    }
}

} // verus!
