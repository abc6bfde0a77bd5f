//! The consensus bridge: the gateway through which the proof-of-work engine
//! consults the committed proof-of-stake ledger.
//!
//! The bridge starts uninitialized and is made ready once, by handing it a
//! ledger view. Every query that reads the ledger needs a ready bridge.
//! Blocks are ordered by their position, which is the pair of epoch and
//! round, compared epoch first.

use crate::events::{
    copy_bytes, events_view, rewards_view, ContractEvent, ContractEventView, DisputeEvent, EpochState,
    EpochStateView, RewardDistributionEvent, UnlockEvent,
};
use crate::hash::{HashValue, NodeId, PosBlockId, H256};
use crate::storage::DBReaderForPoW;
use crate::sync::ProtocolConfiguration;
use std::sync::Arc;
use vstd::prelude::*;

verus! {

/// A committed proof-of-stake block as the bridge sees it.
#[derive(Clone, Copy, Debug)]
pub struct PosBlock {
    pub hash: PosBlockId,
    pub epoch: u64,
    pub round: u64,
    /// The hash of the proof-of-work block that this block anchors.
    pub pivot_decision: H256,
    /// The ledger version at which the block was committed.
    pub version: u64,
}

/// What the proof-of-work consensus needs from the committed proof-of-stake
/// ledger.
///
/// Each query has one answer for a given state of the ledger. Where a query
/// cannot be answered at all (the ledger has committed nothing yet, a block
/// of a range is not committed, the store cannot be read), its answer is
/// `None` and the query must not be made. A ledger view says what each of
/// its queries answers; one that does not leaves the answers open.
pub trait PosInterface {
    /// The store that the ledger view reads.
    type Storage;

    /// The store that the ledger view reads.
    open spec fn store(&self) -> Self::Storage {
        arbitrary()
    }

    /// The committed block with id `h`, if there is one.
    open spec fn committed_block(&self, h: PosBlockId) -> Option<PosBlock> {
        arbitrary()
    }

    /// The id of the latest committed block.
    open spec fn latest(&self) -> Option<PosBlockId> {
        arbitrary()
    }

    /// The events committed after block `from` up to and including block
    /// `to`, in commit order.
    open spec fn events(&self, from: PosBlockId, to: PosBlockId) -> Option<Seq<ContractEventView>> {
        arbitrary()
    }

    /// The ids of the blocks that end the epochs from `start_epoch` up to,
    /// not including, `end_epoch`.
    open spec fn epoch_ending_blocks(&self, start_epoch: u64, end_epoch: u64) -> Option<
        Seq<PosBlockId>,
    > {
        arbitrary()
    }

    /// The reward record of `epoch`, if the ledger has one.
    open spec fn reward_event(&self, epoch: u64) -> Option<Seq<u8>> {
        arbitrary()
    }

    /// The epoch state in force at block `block_id`.
    open spec fn epoch_state(&self, block_id: PosBlockId) -> Option<EpochStateView> {
        arbitrary()
    }

    /// Waits until the ledger can be queried.
    fn initialize(&self) -> (done: Result<(), String>);

    /// Gets a block by its id: `None` if it does not exist or is not
    /// committed.
    fn get_committed_block(&self, h: &PosBlockId) -> (block: Option<PosBlock>)
        ensures
            block == self.committed_block(*h),
            block matches Some(b) ==> b.hash == *h,
    ;

    /// The id of the latest committed block.
    fn latest_block(&self) -> (id: PosBlockId)
        requires
            self.latest() is Some,
        ensures
            self.latest() == Some(id),
    ;

    fn get_events(&self, from: &PosBlockId, to: &PosBlockId) -> (events: Vec<ContractEvent>)
        requires
            self.events(*from, *to) is Some,
        ensures
            self.events(*from, *to) == Some(events_view(events@)),
    ;

    fn get_epoch_ending_blocks(&self, start_epoch: u64, end_epoch: u64) -> (blocks: Vec<
        PosBlockId,
    >)
        requires
            self.epoch_ending_blocks(start_epoch, end_epoch) is Some,
        ensures
            self.epoch_ending_blocks(start_epoch, end_epoch) == Some(blocks@),
    ;

    fn get_reward_event(&self, epoch: u64) -> (event: Option<RewardDistributionEvent>)
        ensures
            match event {
                Some(e) => self.reward_event(epoch) == Some(e@),
                None => self.reward_event(epoch) is None,
            },
    ;

    fn get_epoch_state(&self, block_id: &PosBlockId) -> (state: EpochState)
        requires
            self.epoch_state(*block_id) is Some,
        ensures
            self.epoch_state(*block_id) == Some(state@),
    ;

    /// The store itself, for those who read more of the ledger than the
    /// bridge does.
    fn diem_db(&self) -> (db: &Arc<Self::Storage>)
        ensures
            **db == self.store(),
    ;
}

/// Bootstrap parameters of the bridge.
pub struct PosConfiguration {
    /// The private key with which this node signs consensus messages.
    pub bls_key: Vec<u8>,
    /// The private key of this node's verifiable random function.
    pub vrf_key: Vec<u8>,
    pub protocol_conf: ProtocolConfiguration,
    /// Where the initial validator set is kept.
    pub pos_initial_nodes_path: String,
}

/// Why the bridge could not be initialized.
#[derive(Clone, Copy, Debug, PartialEq, Eq, Structural)]
pub enum InitializeError {
    /// The bridge had been initialized before.
    AlreadyInitialized,
}

/// Whether block `a` stands at or before block `b` in the order of
/// positions: by epoch, and within an epoch by round.
pub open spec fn position_le(a: PosBlock, b: PosBlock) -> bool {
    a.epoch < b.epoch || (a.epoch == b.epoch && a.round <= b.round)
}

/// Whether `me` is committed, every predecessor is committed, and no
/// predecessor stands after `me`.
pub open spec fn extends_predecessors<P: PosInterface>(
    pos: &P,
    me: PosBlockId,
    preds: Seq<PosBlockId>,
) -> bool {
    &&& pos.committed_block(me) is Some
    &&& forall|i: int|
        0 <= i < preds.len() ==> {
            &&& (#[trigger] pos.committed_block(preds[i])) is Some
            &&& position_le(pos.committed_block(preds[i])->0, pos.committed_block(me)->0)
        }
}

/// What an event says of an unlocked validator: its id and the number of
/// votes unlocked, if the event is tagged as an unlock event and its payload
/// decodes.
pub open spec fn unlock_of(event: ContractEventView) -> Option<(NodeId, u64)> {
    if event.key == UnlockEvent::spec_event_key() {
        match UnlockEvent::spec_from_bytes(event.event_data) {
            Some(unlock) => Some((H256 { bytes: unlock.node_id.bytes }, unlock.unlocked)),
            None => None,
        }
    } else {
        None
    }
}

/// What an event says of a disputed validator: its id, if the event is
/// tagged as a dispute event and its payload decodes.
pub open spec fn dispute_of(event: ContractEventView) -> Option<NodeId> {
    if event.key == DisputeEvent::spec_event_key() {
        match DisputeEvent::spec_from_bytes(event.event_data) {
            Some(dispute) => Some(H256 { bytes: dispute.node_id.bytes }),
            None => None,
        }
    } else {
        None
    }
}

/// The unlocked validators that a list of events names, in the order of the
/// events.
pub open spec fn unlock_nodes(events: Seq<ContractEventView>) -> Seq<(NodeId, u64)> {
    events.filter_map(|event: ContractEventView| unlock_of(event))
}

/// The disputed validators that a list of events names, in the order of the
/// events.
pub open spec fn disputed_nodes(events: Seq<ContractEventView>) -> Seq<NodeId> {
    events.filter_map(|event: ContractEventView| dispute_of(event))
}

/// Whether the payload of every event tagged as an unlock event decodes.
pub open spec fn unlocks_decode(events: Seq<ContractEventView>) -> bool {
    forall|i: int|
        0 <= i < events.len() && (#[trigger] events[i]).key == UnlockEvent::spec_event_key()
            ==> UnlockEvent::spec_from_bytes(events[i].event_data) is Some
}

/// Whether the payload of every event tagged as a dispute event decodes.
pub open spec fn disputes_decode(events: Seq<ContractEventView>) -> bool {
    forall|i: int|
        0 <= i < events.len() && (#[trigger] events[i]).key == DisputeEvent::spec_event_key()
            ==> DisputeEvent::spec_from_bytes(events[i].event_data) is Some
}

/// Whether the ledger has a reward record for every epoch from `from` up
/// to, not including, `to`.
pub open spec fn rewards_complete<P: PosInterface>(pos: &P, from: u64, to: u64) -> bool {
    forall|epoch: u64| from <= epoch < to ==> (#[trigger] pos.reward_event(epoch)) is Some
}

/// The reward records that block `h` owes beyond its parent's anchor
/// `parent`: one for each epoch from the parent's up to, not including, that
/// of `h`, in the order of the epochs. There is no result where the two ids
/// are the same, where one of the blocks is not committed, where both stand
/// in one epoch, and where the record of one of the epochs is missing.
pub open spec fn reward_distribution<P: PosInterface>(
    pos: &P,
    h: PosBlockId,
    parent: PosBlockId,
) -> Option<Seq<Seq<u8>>> {
    if h == parent {
        None
    } else {
        match (pos.committed_block(h), pos.committed_block(parent)) {
            (Some(me), Some(before)) => {
                if me.epoch == before.epoch {
                    None
                } else if rewards_complete(pos, before.epoch, me.epoch) {
                    Some(
                        Seq::new(
                            if me.epoch > before.epoch {
                                (me.epoch - before.epoch) as nat
                            } else {
                                0
                            },
                            |i: int| pos.reward_event((before.epoch + i) as u64)->0,
                        ),
                    )
                } else {
                    None
                }
            },
            _ => None,
        }
    }
}

/// Whether the payload of every event of `events` that is tagged as an
/// unlock event decodes.
pub fn unlock_events_decode(events: &Vec<ContractEvent>) -> (decode: bool)
    ensures
        decode == unlocks_decode(events_view(events@)),
{
    let unlock_event_key = UnlockEvent::event_key();
    let mut i: usize = 0;
    while i < events.len()
        invariant
            i <= events@.len(),
            unlock_event_key == UnlockEvent::spec_event_key(),
            forall|k: int|
                0 <= k < i && (#[trigger] events_view(events@)[k]).key
                    == UnlockEvent::spec_event_key() ==> UnlockEvent::spec_from_bytes(
                    events_view(events@)[k].event_data,
                ) is Some,
        decreases events@.len() - i,
    {
        let event = &events[i];
        proof {
            assert(events_view(events@)[i as int] == event@);
        }
        if *event.key() == unlock_event_key && UnlockEvent::from_bytes(event.event_data()).is_err() {
            return false;
        }
        i += 1;
    }
    true
}

/// Whether the payload of every event of `events` that is tagged as a
/// dispute event decodes.
pub fn dispute_events_decode(events: &Vec<ContractEvent>) -> (decode: bool)
    ensures
        decode == disputes_decode(events_view(events@)),
{
    let dispute_event_key = DisputeEvent::event_key();
    let mut i: usize = 0;
    while i < events.len()
        invariant
            i <= events@.len(),
            dispute_event_key == DisputeEvent::spec_event_key(),
            forall|k: int|
                0 <= k < i && (#[trigger] events_view(events@)[k]).key
                    == DisputeEvent::spec_event_key() ==> DisputeEvent::spec_from_bytes(
                    events_view(events@)[k].event_data,
                ) is Some,
        decreases events@.len() - i,
    {
        let event = &events[i];
        proof {
            assert(events_view(events@)[i as int] == event@);
        }
        if *event.key() == dispute_event_key && DisputeEvent::from_bytes(
            event.event_data(),
        ).is_err() {
            return false;
        }
        i += 1;
    }
    true
}

/// The bridge. It is generic in the ledger view, so that a store on disk
/// and a ledger in memory serve alike. Initializing takes the bridge
/// exclusively, so of any number of attempts exactly one succeeds; queries
/// share it.
pub struct PosHandler<P: PosInterface> {
    pos: Option<P>,
    enable_height: u64,
    pub conf: PosConfiguration,
}

pub type PosVerifier<P> = PosHandler<P>;

impl<P: PosInterface> PosHandler<P> {
    /// The ledger view that the bridge was initialized with, if it was.
    pub closed spec fn ledger(&self) -> Option<P> {
        self.pos
    }

    /// Whether the bridge has been initialized.
    pub open spec fn ready(&self) -> bool {
        self.ledger() is Some
    }

    /// The ledger view of a ready bridge.
    pub open spec fn view(&self) -> P
        recommends
            self.ready(),
    {
        self.ledger()->0
    }

    /// The proof-of-work height from which blocks must anchor to the
    /// proof-of-stake chain.
    pub closed spec fn activation_height(&self) -> u64 {
        self.enable_height
    }

    /// The parameters that the bridge was made with.
    pub closed spec fn configuration(&self) -> PosConfiguration {
        self.conf
    }

    /// A bridge that is not yet initialized.
    pub fn new(conf: PosConfiguration, enable_height: u64) -> (handler: Self)
        ensures
            !handler.ready(),
            handler.activation_height() == enable_height,
            handler.configuration() == conf,
    {
        PosHandler { pos: None, enable_height, conf }
    }

    /// Makes the bridge ready with the ledger view `pos`. A bridge that is
    /// ready already refuses, and stays as it is.
    pub fn initialize(&mut self, pos: P) -> (done: Result<(), InitializeError>)
        ensures
            old(self).ready() ==> done == Err::<(), InitializeError>(
                InitializeError::AlreadyInitialized,
            ) && *final(self) == *old(self),
            !old(self).ready() ==> done is Ok && final(self).ledger() == Some(pos),
            (final(self).ledger(), done) == initialize_step(old(self).ledger(), pos),
            final(self).activation_height() == old(self).activation_height(),
            final(self).configuration() == old(self).configuration(),
    {
        if self.pos.is_some() {
            return Err(InitializeError::AlreadyInitialized);
        }
        self.pos = Some(pos);
        Ok(())
    }

    pub fn config(&self) -> (conf: &PosConfiguration)
        ensures
            *conf == self.configuration(),
    {
        &self.conf
    }

    fn pos(&self) -> (pos: &P)
        requires
            self.ready(),
        ensures
            *pos == self@,
    {
        self.pos.as_ref().unwrap()
    }

    /// Whether the bridge has been initialized.
    pub fn is_initialized(&self) -> (ready: bool)
        ensures
            ready == self.ready(),
    {
        self.pos.is_some()
    }

    /// Whether anchoring is active at proof-of-work height `height`.
    pub fn is_enabled_at_height(&self, height: u64) -> (enabled: bool)
        ensures
            enabled == (height >= self.activation_height()),
    {
        height >= self.enable_height
    }

    /// Whether the ledger has a committed block with id `h`.
    pub fn is_committed(&self, h: &PosBlockId) -> (committed: bool)
        requires
            self.ready(),
        ensures
            committed == (self@.committed_block(*h) is Some),
    {
        self.pos().get_committed_block(h).is_some()
    }

    /// Checks that `me` is equal to or extends `preds`, the anchors of a
    /// proof-of-work block's parent and referees: `me` and every
    /// predecessor must be committed, and none of them may stand after
    /// `me`. A predecessor at the same position is accepted.
    pub fn verify_against_predecessors(&self, me: &PosBlockId, preds: &Vec<PosBlockId>) -> (ok:
        bool)
        requires
            self.ready(),
        ensures
            ok == extends_predecessors(&self@, *me, preds@),
    {
        let me_block = match self.pos().get_committed_block(me) {
            None => {
                return false;
            },
            Some(b) => b,
        };
        let mut i: usize = 0;
        while i < preds.len()
            invariant
                i <= preds@.len(),
                self.ready(),
                self@.committed_block(*me) == Some(me_block),
                forall|k: int|
                    0 <= k < i ==> {
                        &&& (#[trigger] self@.committed_block(preds@[k])) is Some
                        &&& position_le(self@.committed_block(preds@[k])->0, me_block)
                    },
            decreases preds@.len() - i,
        {
            let p_block = match self.pos().get_committed_block(&preds[i]) {
                None => {
                    return false;
                },
                Some(b) => b,
            };
            if me_block.epoch < p_block.epoch || (me_block.epoch == p_block.epoch && me_block.round
                < p_block.round) {
                return false;
            }
            i += 1;
        }
        true
    }

    /// The hash of the proof-of-work block that block `h` anchors, if `h`
    /// is committed.
    pub fn get_pivot_decision(&self, h: &PosBlockId) -> (decision: Option<H256>)
        requires
            self.ready(),
        ensures
            decision == match self@.committed_block(*h) {
                Some(block) => Some(block.pivot_decision),
                None => None,
            },
    {
        match self.pos().get_committed_block(h) {
            Some(b) => Some(b.pivot_decision),
            None => None,
        }
    }

    /// The id of the latest committed block: the anchor for a block that is
    /// mined now.
    pub fn get_latest_pos_reference(&self) -> (id: PosBlockId)
        requires
            self.ready(),
            self@.latest() is Some,
        ensures
            self@.latest() == Some(id),
    {
        self.pos().latest_block()
    }

    /// The validators whose stake was unlocked by the events committed
    /// after block `parent_pos_ref` up to and including block `h`, each with
    /// the number of votes unlocked, in commit order.
    pub fn get_unlock_nodes(&self, h: &PosBlockId, parent_pos_ref: &PosBlockId) -> (nodes: Vec<
        (NodeId, u64),
    >)
        requires
            self.ready(),
            self@.events(*parent_pos_ref, *h) is Some,
            unlocks_decode(self@.events(*parent_pos_ref, *h)->0),
        ensures
            nodes@ == unlock_nodes(self@.events(*parent_pos_ref, *h)->0),
    {
        let unlock_event_key = UnlockEvent::event_key();
        let events = self.pos().get_events(parent_pos_ref, h);
        let ghost all = events_view(events@);
        let mut unlock_nodes: Vec<(NodeId, u64)> = Vec::new();
        let mut i: usize = 0;
        while i < events.len()
            invariant
                i <= events@.len(),
                all == events_view(events@),
                unlocks_decode(all),
                unlock_event_key == UnlockEvent::spec_event_key(),
                unlock_nodes@ == self::unlock_nodes(all.take(i as int)),
            decreases events@.len() - i,
        {
            let event = &events[i];
            proof {
                assert(all[i as int] == event@);
                all.lemma_filter_map_take_succ(|event: ContractEventView| unlock_of(event), i as int);
            }
            if *event.key() == unlock_event_key {
                let unlock_event = UnlockEvent::from_bytes(event.event_data()).expect("key checked");
                let node_id = H256::new(unlock_event.node_id.bytes);
                let votes = unlock_event.unlocked;
                unlock_nodes.push((node_id, votes));
            }
            i += 1;
        }
        proof {
            assert(all.take(events@.len() as int) =~= all);
        }
        unlock_nodes
    }

    /// The validators that the events committed after block
    /// `parent_pos_ref` up to and including block `h` put into dispute, in
    /// commit order.
    pub fn get_disputed_nodes(&self, h: &PosBlockId, parent_pos_ref: &PosBlockId) -> (nodes: Vec<
        NodeId,
    >)
        requires
            self.ready(),
            self@.events(*parent_pos_ref, *h) is Some,
            disputes_decode(self@.events(*parent_pos_ref, *h)->0),
        ensures
            nodes@ == disputed_nodes(self@.events(*parent_pos_ref, *h)->0),
    {
        let dispute_event_key = DisputeEvent::event_key();
        let events = self.pos().get_events(parent_pos_ref, h);
        let ghost all = events_view(events@);
        let mut disputed_nodes: Vec<NodeId> = Vec::new();
        let mut i: usize = 0;
        while i < events.len()
            invariant
                i <= events@.len(),
                all == events_view(events@),
                disputes_decode(all),
                dispute_event_key == DisputeEvent::spec_event_key(),
                disputed_nodes@ == self::disputed_nodes(all.take(i as int)),
            decreases events@.len() - i,
        {
            let event = &events[i];
            proof {
                assert(all[i as int] == event@);
                all.lemma_filter_map_take_succ(
                    |event: ContractEventView| dispute_of(event),
                    i as int,
                );
            }
            if *event.key() == dispute_event_key {
                let dispute_event = DisputeEvent::from_bytes(event.event_data()).expect(
                    "key checked",
                );
                disputed_nodes.push(H256::new(dispute_event.node_id.bytes));
            }
            i += 1;
        }
        proof {
            assert(all.take(events@.len() as int) =~= all);
        }
        disputed_nodes
    }

    /// The reward records that block `h` owes beyond `parent_pos_ref`, the
    /// anchor of its parent: all of them, or no result.
    pub fn get_reward_distribution_event(&self, h: &PosBlockId, parent_pos_ref: &PosBlockId) -> (
        rewards: Option<Vec<RewardDistributionEvent>>)
        requires
            self.ready(),
        ensures
            match rewards {
                Some(events) => reward_distribution(&self@, *h, *parent_pos_ref) == Some(
                    rewards_view(events@),
                ),
                None => reward_distribution(&self@, *h, *parent_pos_ref) is None,
            },
    {
        if *h == *parent_pos_ref {
            return None;
        }
        let me_block = match self.pos().get_committed_block(h) {
            Some(b) => b,
            None => {
                return None;
            },
        };
        let parent_block = match self.pos().get_committed_block(parent_pos_ref) {
            Some(b) => b,
            None => {
                return None;
            },
        };
        if me_block.epoch == parent_block.epoch {
            return None;
        }
        let mut events: Vec<RewardDistributionEvent> = Vec::new();
        let mut epoch: u64 = parent_block.epoch;
        while epoch < me_block.epoch
            invariant
                self.ready(),
                *h != *parent_pos_ref,
                self@.committed_block(*h) == Some(me_block),
                self@.committed_block(*parent_pos_ref) == Some(parent_block),
                me_block.epoch != parent_block.epoch,
                parent_block.epoch <= epoch,
                epoch <= me_block.epoch || parent_block.epoch > me_block.epoch,
                parent_block.epoch > me_block.epoch ==> epoch == parent_block.epoch,
                rewards_complete(&self@, parent_block.epoch, epoch),
                events@.len() == epoch - parent_block.epoch,
                forall|k: int|
                    0 <= k < events@.len() ==> Some((#[trigger] events@[k])@)
                        == self@.reward_event((parent_block.epoch + k) as u64),
            decreases me_block.epoch - epoch,
        {
            match self.pos().get_reward_event(epoch) {
                Some(event) => {
                    events.push(event);
                },
                None => {
                    proof {
                        assert(self@.reward_event(epoch) is None);
                        assert(!rewards_complete(&self@, parent_block.epoch, me_block.epoch));
                    }
                    return None;
                },
            }
            epoch += 1;
        }
        proof {
            let expected = reward_distribution(&self@, *h, *parent_pos_ref);
            assert(rewards_complete(&self@, parent_block.epoch, me_block.epoch));
            assert(expected is Some);
            assert(rewards_view(events@) =~= expected->0);
        }
        Some(events)
    }

    /// The store behind the ledger view.
    pub fn diem_db(&self) -> (db: &Arc<P::Storage>)
        requires
            self.ready(),
        ensures
            **db == self@.store(),
    {
        self.pos().diem_db()
    }

    /// The epoch state in force at block `block_id`.
    pub fn get_epoch_state(&self, block_id: &PosBlockId) -> (state: EpochState)
        requires
            self.ready(),
            self@.epoch_state(*block_id) is Some,
        ensures
            self@.epoch_state(*block_id) == Some(state@),
    {
        self.pos().get_epoch_state(block_id)
    }
}

/// What one call of `initialize` with the ledger view `pos` makes of a
/// bridge that holds `before`: the ledger view it holds afterwards, and
/// what the call returns.
pub open spec fn initialize_step<P>(before: Option<P>, pos: P) -> (
    Option<P>,
    Result<(), InitializeError>,
) {
    match before {
        Some(_) => (before, Err(InitializeError::AlreadyInitialized)),
        None => (Some(pos), Ok(())),
    }
}

/// A bridge is initialized once: of two calls in a row on a bridge that was
/// not ready, the first succeeds and the second fails with
/// `AlreadyInitialized`, and the bridge keeps the ledger view of the first.
pub proof fn lemma_initialize_once<P>(first: P, second: P)
    ensures
        initialize_step(None, first) == (Some(first), Ok::<(), InitializeError>(())),
        initialize_step(initialize_step(None, first).0, second) == (
            Some(first),
            Err::<(), InitializeError>(InitializeError::AlreadyInitialized),
        ),
{
}

/// Whether the order of positions and the order of rounds agree on all
/// committed blocks of the ledger: one block stands at or before another
/// exactly when its round is at most the other's.
pub open spec fn chain_consistent<P: PosInterface>(pos: &P) -> bool {
    forall|a: PosBlockId, b: PosBlockId|
        (#[trigger] pos.committed_block(a)) is Some && (#[trigger] pos.committed_block(b))
            is Some ==> (position_le(pos.committed_block(a)->0, pos.committed_block(b)->0)
            <==> pos.committed_block(a)->0.round <= pos.committed_block(b)->0.round)
}

/// On a chain-consistent ledger the causal check goes by rounds alone: it
/// accepts exactly when the candidate and all predecessors are committed
/// and every predecessor's round is at most the candidate's.
pub proof fn lemma_verify_by_rounds<P: PosInterface>(
    pos: &P,
    me: PosBlockId,
    preds: Seq<PosBlockId>,
)
    requires
        chain_consistent(pos),
    ensures
        extends_predecessors(pos, me, preds) <==> {
            &&& pos.committed_block(me) is Some
            &&& forall|i: int|
                0 <= i < preds.len() ==> {
                    &&& (#[trigger] pos.committed_block(preds[i])) is Some
                    &&& pos.committed_block(preds[i])->0.round <= pos.committed_block(me)->0.round
                }
        },
{
}

/// A block that is not committed is never accepted, neither as the
/// candidate nor as a predecessor; nor is a candidate with a predecessor
/// that stands after it.
pub proof fn lemma_verify_refuses<P: PosInterface>(
    pos: &P,
    me: PosBlockId,
    preds: Seq<PosBlockId>,
    i: int,
)
    requires
        0 <= i < preds.len(),
        pos.committed_block(me) is None || pos.committed_block(preds[i]) is None || !position_le(
            pos.committed_block(preds[i])->0,
            pos.committed_block(me)->0,
        ),
    ensures
        !extends_predecessors(pos, me, preds),
{
}

proof fn lemma_filter_map_concat<A, B>(a: Seq<A>, b: Seq<A>, f: spec_fn(A) -> Option<B>)
    ensures
        (a + b).filter_map(f) == a.filter_map(f) + b.filter_map(f),
    decreases b.len(),
{
    if b.len() == 0 {
        assert(a + b =~= a);
        assert(a.filter_map(f) + b.filter_map(f) =~= a.filter_map(f));
    } else {
        assert((a + b).drop_last() =~= a + b.drop_last());
        assert((a + b).last() == b.last());
        lemma_filter_map_concat(a, b.drop_last(), f);
        match f(b.last()) {
            Some(x) => {
                assert((a + b).filter_map(f) =~= a.filter_map(f) + (b.drop_last().filter_map(f)
                    + seq![x]));
            },
            None => {},
        }
    }
}

proof fn lemma_filter_map_nothing<A, B>(a: Seq<A>, f: spec_fn(A) -> Option<B>)
    requires
        forall|i: int| 0 <= i < a.len() ==> f(#[trigger] a[i]) is None,
    ensures
        a.filter_map(f) == Seq::<B>::empty(),
    decreases a.len(),
{
    if a.len() > 0 {
        lemma_filter_map_nothing(a.drop_last(), f);
    }
}

/// Where no event carries the unlock key, no validator is unlocked.
pub proof fn lemma_unlock_nodes_without_match(events: Seq<ContractEventView>)
    requires
        forall|i: int|
            0 <= i < events.len() ==> (#[trigger] events[i]).key != UnlockEvent::spec_event_key(),
    ensures
        unlock_nodes(events) == Seq::<(NodeId, u64)>::empty(),
{
    lemma_filter_map_nothing(events, |event: ContractEventView| unlock_of(event));
}

/// Where no event carries the dispute key, no validator is disputed.
pub proof fn lemma_disputed_nodes_without_match(events: Seq<ContractEventView>)
    requires
        forall|i: int|
            0 <= i < events.len() ==> (#[trigger] events[i]).key != DisputeEvent::spec_event_key(),
    ensures
        disputed_nodes(events) == Seq::<NodeId>::empty(),
{
    lemma_filter_map_nothing(events, |event: ContractEventView| dispute_of(event));
}

/// Unlocked validators come out in commit order: one event gives at most
/// one of them, and the events of a range followed by those of the next give
/// those of the first followed by those of the second.
pub proof fn lemma_unlock_nodes_in_order(
    event: ContractEventView,
    earlier: Seq<ContractEventView>,
    later: Seq<ContractEventView>,
)
    ensures
        unlock_nodes(seq![event]) == match unlock_of(event) {
            Some(node) => seq![node],
            None => Seq::<(NodeId, u64)>::empty(),
        },
        unlock_nodes(earlier + later) == unlock_nodes(earlier) + unlock_nodes(later),
{
    Seq::lemma_filter_map_singleton(event, |event: ContractEventView| unlock_of(event));
    lemma_filter_map_concat(earlier, later, |event: ContractEventView| unlock_of(event));
}

/// Disputed validators come out in commit order: one event gives at most
/// one of them, and the events of a range followed by those of the next give
/// those of the first followed by those of the second.
pub proof fn lemma_disputed_nodes_in_order(
    event: ContractEventView,
    earlier: Seq<ContractEventView>,
    later: Seq<ContractEventView>,
)
    ensures
        disputed_nodes(seq![event]) == match dispute_of(event) {
            Some(node) => seq![node],
            None => Seq::<NodeId>::empty(),
        },
        disputed_nodes(earlier + later) == disputed_nodes(earlier) + disputed_nodes(later),
{
    Seq::lemma_filter_map_singleton(event, |event: ContractEventView| dispute_of(event));
    lemma_filter_map_concat(earlier, later, |event: ContractEventView| dispute_of(event));
}

/// A block owes no reward records beyond itself.
pub proof fn lemma_no_reward_for_same_block<P: PosInterface>(pos: &P, h: PosBlockId)
    ensures
        reward_distribution(pos, h, h) is None,
{
}

/// Reward records come all or none: where the record of one epoch from the
/// parent's up to, not including, the block's is missing, there is no
/// result.
pub proof fn lemma_no_partial_rewards<P: PosInterface>(
    pos: &P,
    h: PosBlockId,
    parent: PosBlockId,
    epoch: u64,
)
    requires
        pos.committed_block(h) is Some,
        pos.committed_block(parent) is Some,
        pos.committed_block(parent)->0.epoch <= epoch < pos.committed_block(h)->0.epoch,
        pos.reward_event(epoch) is None,
    ensures
        reward_distribution(pos, h, parent) is None,
{
}

/// Where there is a result, it holds one record for each epoch from the
/// parent's up to, not including, the block's, in the order of the epochs.
pub proof fn lemma_rewards_cover_epochs<P: PosInterface>(
    pos: &P,
    h: PosBlockId,
    parent: PosBlockId,
)
    requires
        reward_distribution(pos, h, parent) is Some,
    ensures
        pos.committed_block(h) is Some,
        pos.committed_block(parent) is Some,
        pos.committed_block(h)->0.epoch != pos.committed_block(parent)->0.epoch,
        pos.committed_block(parent)->0.epoch < pos.committed_block(h)->0.epoch
            ==> reward_distribution(pos, h, parent)->0.len() == pos.committed_block(h)->0.epoch
            - pos.committed_block(parent)->0.epoch,
        forall|i: int|
            0 <= i < reward_distribution(pos, h, parent)->0.len() ==> Some(
                #[trigger] reward_distribution(pos, h, parent)->0[i],
            ) == pos.reward_event((pos.committed_block(parent)->0.epoch + i) as u64),
{
    let me = pos.committed_block(h)->0;
    let before = pos.committed_block(parent)->0;
    assert forall|i: int| 0 <= i < reward_distribution(pos, h, parent)->0.len() implies Some(
        #[trigger] reward_distribution(pos, h, parent)->0[i],
    ) == pos.reward_event((before.epoch + i) as u64) by {
        let epoch = (before.epoch + i) as u64;
        assert(before.epoch <= epoch < me.epoch);
        assert(pos.reward_event(epoch) is Some);
    }
}

/// A validator of the initial set, as the file of initial nodes names it.
#[derive(Debug)]
pub struct GenesisPosNodeInfo {
    /// The validator's public consensus key.
    pub bls_key: Vec<u8>,
    /// The public key of the validator's verifiable random function.
    pub vrf_key: Vec<u8>,
    pub voting_power: u64,
}

/// The initial validator set.
#[derive(Debug)]
pub struct GenesisPosState {
    pub initial_nodes: Vec<GenesisPosNodeInfo>,
}

/// The identity of a validator: its consensus key and the key of its
/// verifiable random function.
#[derive(Debug)]
pub struct NodeID {
    pub public_key: Vec<u8>,
    pub vrf_public_key: Vec<u8>,
}

impl View for NodeID {
    type V = (Seq<u8>, Seq<u8>);

    open spec fn view(&self) -> (Seq<u8>, Seq<u8>) {
        (self.public_key@, self.vrf_public_key@)
    }
}

impl NodeID {
    pub fn new(public_key: Vec<u8>, vrf_public_key: Vec<u8>) -> (id: NodeID)
        ensures
            id@ == (public_key@, vrf_public_key@),
    {
        NodeID { public_key, vrf_public_key }
    }
}

/// The validators that the proof-of-stake runtime starts with, each with
/// its voting power: one for each initial node, in the order of the nodes.
pub fn initial_validators(nodes: &GenesisPosState) -> (validators: Vec<(NodeID, u64)>)
    ensures
        validators@.len() == nodes.initial_nodes@.len(),
        forall|i: int|
            0 <= i < validators@.len() ==> (#[trigger] validators@[i]).0@ == (
                nodes.initial_nodes@[i].bls_key@,
                nodes.initial_nodes@[i].vrf_key@,
            ) && validators@[i].1 == nodes.initial_nodes@[i].voting_power,
{
    let mut validators: Vec<(NodeID, u64)> = Vec::new();
    let mut i: usize = 0;
    while i < nodes.initial_nodes.len()
        invariant
            i <= nodes.initial_nodes@.len(),
            validators@.len() == i,
            forall|k: int|
                0 <= k < i ==> (#[trigger] validators@[k]).0@ == (
                    nodes.initial_nodes@[k].bls_key@,
                    nodes.initial_nodes@[k].vrf_key@,
                ) && validators@[k].1 == nodes.initial_nodes@[k].voting_power,
        decreases nodes.initial_nodes@.len() - i,
    {
        let node = &nodes.initial_nodes[i];
        validators.push(
            (NodeID::new(copy_bytes(&node.bls_key), copy_bytes(&node.vrf_key)), node.voting_power),
        );
        i += 1;
    }
    validators
}

/// The hash under which the ledger store keeps the block with id `h`.
pub open spec fn hash_of_id(h: PosBlockId) -> HashValue {
    HashValue { hash: h.bytes }
}

/// The id of the block that the ledger store keeps under `h`.
pub open spec fn id_of_hash(h: HashValue) -> PosBlockId {
    H256 { bytes: h.hash }
}

/// An id and the hash it is stored under name each other.
pub proof fn lemma_ids_and_hashes(id: PosBlockId, hash: HashValue)
    ensures
        id_of_hash(hash_of_id(id)) == id,
        hash_of_id(id_of_hash(hash)) == hash,
{
}

fn diem_hash_to_h256(h: &HashValue) -> (id: PosBlockId)
    ensures
        id == id_of_hash(*h),
{
    H256::new(h.hash)
}

fn h256_to_diem_hash(h: &PosBlockId) -> (hash: HashValue)
    ensures
        hash == hash_of_id(*h),
{
    HashValue::new(h.to_fixed_bytes())
}

/// The ledger view over a ledger store: it maps ids to hashes, and turns what
/// the store answers into what the bridge asks for.
pub struct PosConnection<S: DBReaderForPoW, C> {
    pos_storage: Arc<S>,
    consensus_db: Arc<C>,
}

impl<S: DBReaderForPoW, C> PosConnection<S, C> {
    /// The ledger store that the view reads.
    pub closed spec fn storage(&self) -> S {
        *self.pos_storage
    }

    /// The store of the consensus runtime, which the view keeps alive.
    pub closed spec fn consensus_storage(&self) -> C {
        *self.consensus_db
    }

    pub fn new(pos_storage: Arc<S>, consensus_db: Arc<C>) -> (connection: Self)
        ensures
            connection.storage() == *pos_storage,
            connection.consensus_storage() == *consensus_db,
    {
        Self { pos_storage, consensus_db }
    }
}

impl<S: DBReaderForPoW, C> PosInterface for PosConnection<S, C> {
    type Storage = S;

    open spec fn store(&self) -> S {
        self.storage()
    }

    open spec fn committed_block(&self, h: PosBlockId) -> Option<PosBlock> {
        match self.storage().committed_block_by_hash(hash_of_id(h)) {
            Ok(block) => Some(
                PosBlock {
                    hash: h,
                    epoch: block.epoch,
                    round: block.round,
                    pivot_decision: block.pivot_decision.block_hash,
                    version: block.version,
                },
            ),
            Err(_) => None,
        }
    }

    open spec fn latest(&self) -> Option<PosBlockId> {
        match self.storage().latest_ledger_info() {
            Some(info) => Some(id_of_hash(info.ledger_info.consensus_block_id)),
            None => None,
        }
    }

    open spec fn events(&self, from: PosBlockId, to: PosBlockId) -> Option<
        Seq<ContractEventView>,
    > {
        match (
            self.storage().committed_block_by_hash(hash_of_id(from)),
            self.storage().committed_block_by_hash(hash_of_id(to)),
        ) {
            (Ok(start), Ok(end)) => match self.storage().events_by_version(
                start.version,
                end.version,
            ) {
                Ok(events) => Some(events),
                Err(_) => None,
            },
            _ => None,
        }
    }

    open spec fn epoch_ending_blocks(&self, start_epoch: u64, end_epoch: u64) -> Option<
        Seq<PosBlockId>,
    > {
        match self.storage().epoch_ending_blocks(start_epoch, end_epoch) {
            Ok(hashes) => Some(hashes.map_values(|h: HashValue| id_of_hash(h))),
            Err(_) => None,
        }
    }

    open spec fn reward_event(&self, epoch: u64) -> Option<Seq<u8>> {
        match self.storage().reward_event(epoch) {
            Ok(event) => Some(event),
            Err(_) => None,
        }
    }

    open spec fn epoch_state(&self, block_id: PosBlockId) -> Option<EpochStateView> {
        match self.storage().pos_state(hash_of_id(block_id)) {
            Ok(state) => Some(state),
            Err(_) => None,
        }
    }

    fn initialize(&self) -> (done: Result<(), String>)
        ensures
            done is Ok,
    {
        Ok(())
    }

    fn get_committed_block(&self, h: &PosBlockId) -> (block: Option<PosBlock>) {
        let block_hash = h256_to_diem_hash(h);
        let committed_block = match self.pos_storage.get_committed_block_by_hash(&block_hash) {
            Ok(block) => block,
            Err(_) => {
                return None;
            },
        };
        Some(
            PosBlock {
                hash: *h,
                epoch: committed_block.epoch,
                round: committed_block.round,
                pivot_decision: committed_block.pivot_decision.block_hash,
                version: committed_block.version,
            },
        )
    }

    fn latest_block(&self) -> (id: PosBlockId) {
        diem_hash_to_h256(
            &self.pos_storage.get_latest_ledger_info_option().expect(
                "Initialized",
            ).ledger_info().consensus_block_id(),
        )
    }

    fn get_events(&self, from: &PosBlockId, to: &PosBlockId) -> (events: Vec<ContractEvent>) {
        let start_version = self.pos_storage.get_committed_block_by_hash(
            &h256_to_diem_hash(from),
        ).expect("err reading ledger info for from").version;
        let end_version = self.pos_storage.get_committed_block_by_hash(
            &h256_to_diem_hash(to),
        ).expect("err reading ledger info for to").version;
        self.pos_storage.get_events_by_version(start_version, end_version).expect(
            "err reading events",
        )
    }

    fn get_epoch_ending_blocks(&self, start_epoch: u64, end_epoch: u64) -> (blocks: Vec<
        PosBlockId,
    >) {
        let hashes = self.pos_storage.get_epoch_ending_blocks(start_epoch, end_epoch).expect(
            "err reading epoch ending blocks",
        );
        let mut blocks: Vec<PosBlockId> = Vec::new();
        let mut i: usize = 0;
        while i < hashes.len()
            invariant
                i <= hashes@.len(),
                blocks@ == hashes@.take(i as int).map_values(|h: HashValue| id_of_hash(h)),
            decreases hashes@.len() - i,
        {
            blocks.push(diem_hash_to_h256(&hashes[i]));
            proof {
                assert(hashes@.take(i + 1).map_values(|h: HashValue| id_of_hash(h))
                    =~= hashes@.take(i as int).map_values(|h: HashValue| id_of_hash(h)).push(
                    id_of_hash(hashes@[i as int]),
                ));
            }
            i += 1;
        }
        proof {
            assert(hashes@.take(hashes@.len() as int) =~= hashes@);
        }
        blocks
    }

    fn get_reward_event(&self, epoch: u64) -> (event: Option<RewardDistributionEvent>) {
        match self.pos_storage.get_reward_event(epoch) {
            Ok(event) => Some(event),
            Err(_) => None,
        }
    }

    fn get_epoch_state(&self, block_id: &PosBlockId) -> (state: EpochState) {
        self.pos_storage.get_pos_state(&h256_to_diem_hash(block_id)).expect(
            "parent of an ending_epoch block",
        ).epoch_state().clone()
    }

    fn diem_db(&self) -> (db: &Arc<S>) {
        &self.pos_storage
    }
}

} // verus!
