//! What committed proof-of-stake blocks leave behind for the proof-of-work
//! side: tagged contract events, and the records decoded from them.
//!
//! An event carries a key, which tags its kind, and a payload. The payload
//! of an unlock event is the 32 bytes of the validator's address followed by
//! the unlocked vote count as 8 little-endian bytes; that of a dispute event
//! is the 32 bytes of the validator's address.

use crate::hash::{array32, array_from_slice, bytes_equal, lemma_array32, AccountAddress};
use vstd::bytes::{
    lemma_auto_spec_u64_to_from_le_bytes, spec_u64_from_le_bytes, spec_u64_to_le_bytes,
    u64_from_le_bytes, u64_to_le_bytes,
};
use vstd::prelude::*;
use vstd::slice::slice_subrange;

verus! {

/// Copies a byte string.
pub fn copy_bytes(src: &Vec<u8>) -> (out: Vec<u8>)
    ensures
        out@ == src@,
{
    let mut out: Vec<u8> = Vec::new();
    let mut i: usize = 0;
    while i < src.len()
        invariant
            i <= src@.len(),
            out@ == src@.take(i as int),
        decreases src@.len() - i,
    {
        out.push(src[i]);
        proof {
            assert(src@.take(i + 1) =~= src@.take(i as int).push(src@[i as int]));
        }
        i += 1;
    }
    proof {
        assert(src@.take(src@.len() as int) =~= src@);
    }
    out
}

/// The key of an event: the tag by which events of one kind are found.
#[derive(Clone, Copy, Debug)]
pub struct EventKey {
    pub bytes: [u8; 40],
}

impl EventKey {
    pub fn new(bytes: [u8; 40]) -> (key: EventKey)
        ensures
            key.bytes == bytes,
    {
        EventKey { bytes }
    }
}

impl PartialEq for EventKey {
    fn eq(&self, other: &EventKey) -> (same: bool) {
        bytes_equal(&self.bytes, &other.bytes)
    }
}

impl Eq for EventKey {

}

impl vstd::std_specs::cmp::PartialEqSpecImpl for EventKey {
    open spec fn obeys_eq_spec() -> bool {
        true
    }

    open spec fn eq_spec(&self, other: &EventKey) -> bool {
        self.bytes == other.bytes
    }
}

/// The key whose first byte is `kind` and whose other bytes are zero.
pub open spec fn key_of_kind(kind: u8) -> EventKey {
    EventKey { bytes: choose|a: [u8; 40]| a@ == Seq::new(40, |i: int| if i == 0 { kind } else { 0u8 }) }
}

fn make_key(kind: u8) -> (key: EventKey)
    ensures
        key == key_of_kind(kind),
        key.bytes[0] == kind,
{
    let mut bytes: [u8; 40] = [0u8; 40];
    bytes[0] = kind;
    proof {
        let s = Seq::new(40, |i: int| if i == 0 { kind } else { 0u8 });
        assert(bytes@ =~= s);
        assert(bytes =~= key_of_kind(kind).bytes);
    }
    EventKey { bytes }
}

/// Keys of different kinds differ.
pub proof fn lemma_keys_differ(a: u8, b: u8)
    requires
        a != b,
    ensures
        key_of_kind(a) != key_of_kind(b),
{
    let sa = Seq::new(40, |i: int| if i == 0 { a } else { 0u8 });
    let sb = Seq::new(40, |i: int| if i == 0 { b } else { 0u8 });
    let wa: [u8; 40] = vstd::array::spec_array_update(
        vstd::array::spec_array_fill_for_copy_type::<u8, 40>(0u8),
        0,
        a,
    );
    let wb: [u8; 40] = vstd::array::spec_array_update(
        vstd::array::spec_array_fill_for_copy_type::<u8, 40>(0u8),
        0,
        b,
    );
    assert(wa@ =~= sa);
    assert(wb@ =~= sb);
    assert(key_of_kind(a).bytes@[0] == a);
    assert(key_of_kind(b).bytes@[0] == b);
}

/// An event that a committed block emitted.
#[derive(Debug)]
pub struct ContractEvent {
    pub key: EventKey,
    pub event_data: Vec<u8>,
}

/// What an event is: its key and the bytes of its payload.
pub struct ContractEventView {
    pub key: EventKey,
    pub event_data: Seq<u8>,
}

impl View for ContractEvent {
    type V = ContractEventView;

    open spec fn view(&self) -> ContractEventView {
        ContractEventView { key: self.key, event_data: self.event_data@ }
    }
}

/// The events of a list, each as what it is, in the list's order.
pub open spec fn events_view(events: Seq<ContractEvent>) -> Seq<ContractEventView> {
    events.map_values(|e: ContractEvent| e@)
}

impl ContractEvent {
    pub fn new(key: EventKey, event_data: Vec<u8>) -> (event: ContractEvent)
        ensures
            event@ == (ContractEventView { key, event_data: event_data@ }),
    {
        ContractEvent { key, event_data }
    }

    pub fn key(&self) -> (key: &EventKey)
        ensures
            *key == self@.key,
    {
        &self.key
    }

    pub fn event_data(&self) -> (data: &[u8])
        ensures
            data@ == self@.event_data,
    {
        self.event_data.as_slice()
    }
}

impl Clone for ContractEvent {
    fn clone(&self) -> (copy: ContractEvent)
        ensures
            copy@ == self@,
    {
        ContractEvent { key: self.key, event_data: copy_bytes(&self.event_data) }
    }
}

/// Why a payload could not be decoded.
#[derive(Clone, Copy, Debug, PartialEq, Eq, Structural)]
pub enum DecodeError {
    /// The payload does not have the length of the record.
    UnexpectedLength,
}

/// A validator's locked stake became spendable.
#[derive(Clone, Copy, Debug)]
pub struct UnlockEvent {
    /// The validator whose stake is unlocked.
    pub node_id: AccountAddress,
    /// The number of votes unlocked.
    pub unlocked: u64,
}

/// A validator entered the disputed state.
#[derive(Clone, Copy, Debug)]
pub struct DisputeEvent {
    /// The validator that is disputed.
    pub node_id: AccountAddress,
}

impl UnlockEvent {
    /// The key that tags unlock events.
    pub open spec fn spec_event_key() -> EventKey {
        key_of_kind(5)
    }

    /// The key that tags unlock events.
    pub fn event_key() -> (key: EventKey)
        ensures
            key == Self::spec_event_key(),
    {
        make_key(5)
    }

    /// The record that a payload encodes, if it encodes one.
    pub open spec fn spec_from_bytes(bytes: Seq<u8>) -> Option<UnlockEvent> {
        if bytes.len() == 40 {
            Some(
                UnlockEvent {
                    node_id: AccountAddress { bytes: array32(bytes.subrange(0, 32)) },
                    unlocked: spec_u64_from_le_bytes(bytes.subrange(32, 40)),
                },
            )
        } else {
            None
        }
    }

    /// The payload that encodes a record.
    pub open spec fn spec_to_bytes(self) -> Seq<u8> {
        self.node_id.bytes@ + spec_u64_to_le_bytes(self.unlocked)
    }

    /// Decodes a payload.
    pub fn from_bytes(bytes: &[u8]) -> (decoded: Result<UnlockEvent, DecodeError>)
        ensures
            match decoded {
                Ok(event) => Self::spec_from_bytes(bytes@) == Some(event),
                Err(error) => Self::spec_from_bytes(bytes@) is None
                    && error == DecodeError::UnexpectedLength,
            },
    {
        if bytes.len() != 40 {
            return Err(DecodeError::UnexpectedLength);
        }
        let node_id = AccountAddress { bytes: array_from_slice(bytes, 0) };
        let unlocked = u64_from_le_bytes(slice_subrange(bytes, 32, 40));
        Ok(UnlockEvent { node_id, unlocked })
    }

    /// Encodes the record.
    pub fn to_bytes(&self) -> (bytes: Vec<u8>)
        ensures
            bytes@ == self.spec_to_bytes(),
            Self::spec_from_bytes(bytes@) == Some(*self),
    {
        let mut bytes: Vec<u8> = Vec::new();
        let mut i: usize = 0;
        while i < 32
            invariant
                i <= 32,
                bytes@ == self.node_id.bytes@.take(i as int),
            decreases 32 - i,
        {
            bytes.push(self.node_id.bytes[i]);
            proof {
                assert(self.node_id.bytes@.take(i + 1) =~= self.node_id.bytes@.take(i as int).push(
                    self.node_id.bytes@[i as int],
                ));
            }
            i += 1;
        }
        let mut tail = u64_to_le_bytes(self.unlocked);
        bytes.append(&mut tail);
        proof {
            assert(self.node_id.bytes@.take(32) =~= self.node_id.bytes@);
            assert(bytes@ =~= self.spec_to_bytes());
            lemma_unlock_round_trip(*self);
        }
        bytes
    }
}

/// Decoding what was encoded gives the record back.
pub proof fn lemma_unlock_round_trip(event: UnlockEvent)
    ensures
        UnlockEvent::spec_from_bytes(event.spec_to_bytes()) == Some(event),
{
    lemma_auto_spec_u64_to_from_le_bytes();
    let bytes = event.spec_to_bytes();
    let tail = spec_u64_to_le_bytes(event.unlocked);
    assert(tail.len() == 8);
    assert(bytes.subrange(0, 32) =~= event.node_id.bytes@);
    assert(bytes.subrange(32, 40) =~= tail);
    lemma_array32(event.node_id.bytes@);
}

impl DisputeEvent {
    /// The key that tags dispute events.
    pub open spec fn spec_event_key() -> EventKey {
        key_of_kind(6)
    }

    /// The key that tags dispute events.
    pub fn event_key() -> (key: EventKey)
        ensures
            key == Self::spec_event_key(),
    {
        make_key(6)
    }

    /// The record that a payload encodes, if it encodes one.
    pub open spec fn spec_from_bytes(bytes: Seq<u8>) -> Option<DisputeEvent> {
        if bytes.len() == 32 {
            Some(DisputeEvent { node_id: AccountAddress { bytes: array32(bytes) } })
        } else {
            None
        }
    }

    /// The payload that encodes a record.
    pub open spec fn spec_to_bytes(self) -> Seq<u8> {
        self.node_id.bytes@
    }

    /// Decodes a payload.
    pub fn from_bytes(bytes: &[u8]) -> (decoded: Result<DisputeEvent, DecodeError>)
        ensures
            match decoded {
                Ok(event) => Self::spec_from_bytes(bytes@) == Some(event),
                Err(error) => Self::spec_from_bytes(bytes@) is None
                    && error == DecodeError::UnexpectedLength,
            },
    {
        if bytes.len() != 32 {
            return Err(DecodeError::UnexpectedLength);
        }
        proof {
            assert(bytes@.subrange(0, 32) =~= bytes@);
        }
        Ok(DisputeEvent { node_id: AccountAddress { bytes: array_from_slice(bytes, 0) } })
    }

    /// Encodes the record.
    pub fn to_bytes(&self) -> (bytes: Vec<u8>)
        ensures
            bytes@ == self.spec_to_bytes(),
            Self::spec_from_bytes(bytes@) == Some(*self),
    {
        let mut bytes: Vec<u8> = Vec::new();
        let mut i: usize = 0;
        while i < 32
            invariant
                i <= 32,
                bytes@ == self.node_id.bytes@.take(i as int),
            decreases 32 - i,
        {
            bytes.push(self.node_id.bytes[i]);
            proof {
                assert(self.node_id.bytes@.take(i + 1) =~= self.node_id.bytes@.take(i as int).push(
                    self.node_id.bytes@[i as int],
                ));
            }
            i += 1;
        }
        proof {
            assert(self.node_id.bytes@.take(32) =~= self.node_id.bytes@);
            lemma_array32(self.node_id.bytes@);
        }
        bytes
    }
}

/// The two kinds of event that the bridge extracts carry different keys.
pub proof fn lemma_event_keys_differ()
    ensures
        UnlockEvent::spec_event_key() != DisputeEvent::spec_event_key(),
{
    lemma_keys_differ(5, 6);
}

/// The record of one epoch's reward payout, as the ledger encodes it.
#[derive(Debug)]
pub struct RewardDistributionEvent {
    pub payload: Vec<u8>,
}

impl View for RewardDistributionEvent {
    type V = Seq<u8>;

    open spec fn view(&self) -> Seq<u8> {
        self.payload@
    }
}

impl RewardDistributionEvent {
    pub fn new(payload: Vec<u8>) -> (event: RewardDistributionEvent)
        ensures
            event@ == payload@,
    {
        RewardDistributionEvent { payload }
    }
}

impl Clone for RewardDistributionEvent {
    fn clone(&self) -> (copy: RewardDistributionEvent)
        ensures
            copy@ == self@,
    {
        RewardDistributionEvent { payload: copy_bytes(&self.payload) }
    }
}

/// The reward records of a list, each as its bytes, in the list's order.
pub open spec fn rewards_view(events: Seq<RewardDistributionEvent>) -> Seq<Seq<u8>> {
    events.map_values(|e: RewardDistributionEvent| e@)
}

/// The validator set and key material that hold for one epoch, as the
/// ledger encodes them.
#[derive(Debug)]
pub struct EpochState {
    pub epoch: u64,
    pub verifier: Vec<u8>,
    pub vrf_seed: Vec<u8>,
}

/// What an epoch state is.
pub struct EpochStateView {
    pub epoch: u64,
    pub verifier: Seq<u8>,
    pub vrf_seed: Seq<u8>,
}

impl View for EpochState {
    type V = EpochStateView;

    open spec fn view(&self) -> EpochStateView {
        EpochStateView { epoch: self.epoch, verifier: self.verifier@, vrf_seed: self.vrf_seed@ }
    }
}

impl EpochState {
    pub fn new(epoch: u64, verifier: Vec<u8>, vrf_seed: Vec<u8>) -> (state: EpochState)
        ensures
            state@ == (EpochStateView { epoch, verifier: verifier@, vrf_seed: vrf_seed@ }),
    {
        EpochState { epoch, verifier, vrf_seed }
    }
}

impl Clone for EpochState {
    fn clone(&self) -> (copy: EpochState)
        ensures
            copy@ == self@,
    {
        EpochState {
            epoch: self.epoch,
            verifier: copy_bytes(&self.verifier),
            vrf_seed: copy_bytes(&self.vrf_seed),
        }
    }
}

} // verus!
