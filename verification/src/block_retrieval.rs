//! Requests for proof-of-stake blocks, and the way a request is resolved.
//!
//! A request that was sent holds the sink of the one who waits for its
//! outcome. The first of a response, an error and the firing of the timer
//! takes the sink out of the request and hands the outcome to it; whatever
//! comes later finds no sink and does nothing. So an outcome is delivered at
//! most once, and a request with a sink delivers the first one.
//!
//! A request that arrives from a peer is not served where it is received:
//! it is put, with the peer's identity, on the queue of the retrieval
//! worker.

use crate::hash::{AccountAddress, HashValue, H256, H512};
use crate::sync::{Error, ProtocolConfiguration};
use futures::channel::oneshot;
use std::time::Duration;
use vstd::prelude::*;

verus! {

/// The sending half of a one-shot channel.
#[verifier::external_type_specification]
#[verifier::external_body]
#[verifier::reject_recursive_types(T)]
pub struct ExSender<T>(oneshot::Sender<T>);

/// The number by which a response is matched with its request.
pub type RequestId = u64;

/// What a peer is asked for: a block, and how many blocks back from it.
#[derive(Clone, Copy, Debug)]
pub struct BlockRetrievalRequest {
    pub block_id: HashValue,
    pub num_blocks: u64,
}

impl BlockRetrievalRequest {
    pub fn new(block_id: HashValue, num_blocks: u64) -> (request: BlockRetrievalRequest)
        ensures
            request.block_id == block_id,
            request.num_blocks == num_blocks,
    {
        BlockRetrievalRequest { block_id, num_blocks }
    }

    pub fn block_id(&self) -> (id: HashValue)
        ensures
            id == self.block_id,
    {
        self.block_id
    }

    pub fn num_blocks(&self) -> (count: u64)
        ensures
            count == self.num_blocks,
    {
        self.num_blocks
    }
}

/// A peer's response to a request, as it came over the wire.
#[derive(Debug)]
pub struct RpcResponse {
    pub request_id: RequestId,
    pub payload: Vec<u8>,
}

/// How a request ended for the one who waits: with its response or with an
/// error.
pub type Outcome = Result<RpcResponse, Error>;

/// The sink of the one who waits for a request's outcome.
pub type ResponseSink = oneshot::Sender<Outcome>;

/// What became of an outcome.
#[derive(Clone, Copy, Debug, PartialEq, Eq, Structural)]
pub enum Resolution {
    /// The outcome was handed to the one who waits.
    Delivered,
    /// The request held a sink, but the one who waited had gone; the
    /// outcome was dropped.
    Abandoned,
    /// The request held no sink: it was resolved before, or nobody waits.
    /// Nothing was done.
    NotPending,
}

/// Hands `outcome` to the sink `tx`, by `oneshot::Sender::send`. The call
/// returns `Ok` where the outcome was stored for the receiver, and where
/// the receiver had been dropped it returns the outcome in `Err`.
#[verifier::external_body]
fn send_outcome(tx: ResponseSink, outcome: Outcome) -> (sent: Result<(), Outcome>)
    ensures
        sent matches Err(back) ==> back == outcome,
{
    tx.send(outcome)
}

/// What can end a request that was sent.
#[derive(Debug)]
pub enum RequestEvent {
    /// The peer's response arrived.
    ResponseArrived(RpcResponse),
    /// An error was reported for the request: by the peer, or by the one
    /// who cancels it.
    ErrorReported(Error),
    /// The request's timer fired.
    TimerFired,
}

/// The outcome that an event stands for. A timer that fires stands for the
/// timeout error.
pub open spec fn outcome_of(event: RequestEvent) -> Outcome {
    match event {
        RequestEvent::ResponseArrived(response) => Ok(response),
        RequestEvent::ErrorReported(error) => Err(error),
        RequestEvent::TimerFired => Err(Error::RpcTimeout),
    }
}

/// What one event does to a request: whether the request holds a sink
/// afterwards, and the outcome that is handed to the sink it held, if it
/// held one.
pub open spec fn resolve_step(pending: bool, event: RequestEvent) -> (bool, Option<Outcome>) {
    if pending {
        (false, Some(outcome_of(event)))
    } else {
        (false, None)
    }
}

/// The outcomes that a run of events hands to the sink, in their order.
pub open spec fn resolutions(pending: bool, events: Seq<RequestEvent>) -> Seq<Outcome>
    decreases events.len(),
{
    if events.len() == 0 {
        Seq::empty()
    } else {
        let (still, handed) = resolve_step(pending, events[0]);
        match handed {
            Some(outcome) => seq![outcome] + resolutions(still, events.drop_first()),
            None => resolutions(still, events.drop_first()),
        }
    }
}

/// A request without a sink hands out nothing, whatever comes.
pub proof fn lemma_resolved_stays_resolved(events: Seq<RequestEvent>)
    ensures
        resolutions(false, events) == Seq::<Outcome>::empty(),
    decreases events.len(),
{
    if events.len() > 0 {
        lemma_resolved_stays_resolved(events.drop_first());
    }
}

/// A request is resolved exactly once: of the events that reach a request
/// with a sink, the first decides the outcome, and no later one is handed
/// on.
pub proof fn lemma_resolved_exactly_once(events: Seq<RequestEvent>)
    requires
        events.len() > 0,
    ensures
        resolutions(true, events) == seq![outcome_of(events[0])],
{
    lemma_resolved_stays_resolved(events.drop_first());
    assert(seq![outcome_of(events[0])] + Seq::<Outcome>::empty() =~= seq![outcome_of(events[0])]);
}

/// A response that comes after the timer fired is dropped: the one who
/// waits gets the timeout, and nothing else. A response that comes before
/// the timer fires is what the one who waits gets, and the timer has no
/// effect.
pub proof fn lemma_timeout_and_response_race(response: RpcResponse)
    ensures
        resolutions(
            true,
            seq![RequestEvent::TimerFired, RequestEvent::ResponseArrived(response)],
        ) == seq![Err::<RpcResponse, Error>(Error::RpcTimeout)],
        resolutions(
            true,
            seq![RequestEvent::ResponseArrived(response), RequestEvent::TimerFired],
        ) == seq![Ok::<RpcResponse, Error>(response)],
{
    lemma_resolved_exactly_once(
        seq![RequestEvent::TimerFired, RequestEvent::ResponseArrived(response)],
    );
    lemma_resolved_exactly_once(
        seq![RequestEvent::ResponseArrived(response), RequestEvent::TimerFired],
    );
}

/// What every request to a peer offers to the one who manages requests.
pub trait Request {
    /// Whether the request holds the sink of one who waits.
    spec fn pending(&self) -> bool;

    /// The deadline that the request was given when it was sent.
    spec fn deadline(&self) -> Duration;

    /// How long the request may stay unanswered.
    fn timeout(&self, conf: &ProtocolConfiguration) -> (limit: Duration)
        ensures
            limit == self.deadline(),
    ;

    /// Ends the request with `error`. A request that holds a sink hands the
    /// error to it and holds none afterwards; a request without a sink is
    /// left as it is.
    fn notify_error(&mut self, error: Error) -> (done: Resolution)
        ensures
            !final(self).pending(),
            final(self).deadline() == old(self).deadline(),
            done == Resolution::NotPending <==> !old(self).pending(),
            final(self).pending() == resolve_step(
                old(self).pending(),
                RequestEvent::ErrorReported(error),
            ).0,
            (done != Resolution::NotPending) == (resolve_step(
                old(self).pending(),
                RequestEvent::ErrorReported(error),
            ).1 is Some),
    ;

    /// Registers the sink of the one who waits for the outcome.
    fn set_response_notification(&mut self, res_tx: ResponseSink)
        ensures
            final(self).pending(),
            final(self).deadline() == old(self).deadline(),
    ;
}

/// What became of an outcome that was handed to a sink, by what the send
/// returned.
pub fn resolution_of(sent: Result<(), Outcome>) -> (done: Resolution)
    ensures
        done == match sent {
            Ok(_) => Resolution::Delivered,
            Err(_) => Resolution::Abandoned,
        },
{
    match sent {
        Ok(_) => Resolution::Delivered,
        Err(_) => Resolution::Abandoned,
    }
}

/// A request to a peer for a block.
pub struct BlockRetrievalRpcRequest {
    pub request_id: RequestId,
    pub request: BlockRetrievalRequest,
    pub is_empty: bool,
    pub response_tx: Option<ResponseSink>,
    pub timeout: Duration,
}

/// The outcome that `event` stands for.
pub fn outcome_for(event: RequestEvent) -> (outcome: Outcome)
    ensures
        outcome == outcome_of(event),
{
    match event {
        RequestEvent::ResponseArrived(response) => Ok(response),
        RequestEvent::ErrorReported(error) => Err(error),
        RequestEvent::TimerFired => Err(Error::RpcTimeout),
    }
}

/// A sink and the outcome that is to be handed to it.
pub struct Delivery {
    pub sink: ResponseSink,
    pub outcome: Outcome,
}

/// What one event has a request hand over: to the sink that the request
/// holds, the outcome that the event stands for; and nothing where the
/// request holds no sink.
pub open spec fn delivery_of(held: Option<ResponseSink>, event: RequestEvent) -> Option<Delivery> {
    match held {
        Some(sink) => Some(Delivery { sink, outcome: outcome_of(event) }),
        None => None,
    }
}

impl BlockRetrievalRpcRequest {
    /// Takes the sink out of the request and pairs it with the outcome that
    /// `event` stands for. The request holds no sink afterwards, so what is
    /// taken here is handed over once.
    pub fn take_delivery(&mut self, event: RequestEvent) -> (handed: Option<Delivery>)
        ensures
            handed == delivery_of(old(self).response_tx, event),
            (handed is Some) == (resolve_step(old(self).response_tx is Some, event).1 is Some),
            handed matches Some(delivery) ==> Some(delivery.outcome) == resolve_step(
                old(self).response_tx is Some,
                event,
            ).1,
            final(self).response_tx is None,
            final(self).request_id == old(self).request_id,
            final(self).request == old(self).request,
            final(self).is_empty == old(self).is_empty,
            final(self).timeout == old(self).timeout,
    {
        let res_tx = self.response_tx.take();
        match res_tx {
            Some(sink) => Some(Delivery { sink, outcome: outcome_for(event) }),
            None => None,
        }
    }

    /// Applies one event to the request: what `take_delivery` takes is sent,
    /// and the request holds no sink afterwards.
    pub fn resolve(&mut self, event: RequestEvent) -> (done: Resolution)
        ensures
            final(self).response_tx is None,
            final(self).request_id == old(self).request_id,
            final(self).request == old(self).request,
            final(self).is_empty == old(self).is_empty,
            final(self).timeout == old(self).timeout,
            done == Resolution::NotPending <==> old(self).response_tx is None,
            (final(self).response_tx is Some) == resolve_step(
                old(self).response_tx is Some,
                event,
            ).0,
            (done != Resolution::NotPending) == (resolve_step(
                old(self).response_tx is Some,
                event,
            ).1 is Some),
    {
        match self.take_delivery(event) {
            Some(delivery) => resolution_of(send_outcome(delivery.sink, delivery.outcome)),
            None => Resolution::NotPending,
        }
    }

    /// Ends the request with the peer's response.
    pub fn notify_response(&mut self, response: RpcResponse) -> (done: Resolution)
        ensures
            final(self).response_tx is None,
            final(self).request_id == old(self).request_id,
            final(self).request == old(self).request,
            final(self).is_empty == old(self).is_empty,
            final(self).timeout == old(self).timeout,
            done == Resolution::NotPending <==> old(self).response_tx is None,
    {
        self.resolve(RequestEvent::ResponseArrived(response))
    }

    /// Ends the request because its timer fired.
    pub fn notify_timeout(&mut self) -> (done: Resolution)
        ensures
            final(self).response_tx is None,
            final(self).request_id == old(self).request_id,
            final(self).request == old(self).request,
            final(self).is_empty == old(self).is_empty,
            final(self).timeout == old(self).timeout,
            done == Resolution::NotPending <==> old(self).response_tx is None,
    {
        self.resolve(RequestEvent::TimerFired)
    }
}

impl Request for BlockRetrievalRpcRequest {
    open spec fn pending(&self) -> bool {
        self.response_tx is Some
    }

    open spec fn deadline(&self) -> Duration {
        self.timeout
    }

    fn timeout(&self, _conf: &ProtocolConfiguration) -> (limit: Duration) {
        self.timeout
    }

    fn notify_error(&mut self, error: Error) -> (done: Resolution)
        ensures
            final(self).request_id == old(self).request_id,
            final(self).request == old(self).request,
            final(self).is_empty == old(self).is_empty,
    {
        self.resolve(RequestEvent::ErrorReported(error))
    }

    fn set_response_notification(&mut self, res_tx: ResponseSink)
        ensures
            final(self).response_tx == Some(res_tx),
            final(self).request_id == old(self).request_id,
            final(self).request == old(self).request,
            final(self).is_empty == old(self).is_empty,
    {
        self.response_tx = Some(res_tx);
    }
}

/// A request for blocks as the retrieval worker gets it: what is asked
/// for, who asks, and the number under which the answer is expected.
#[derive(Clone, Copy, Debug)]
pub struct IncomingBlockRetrievalRequest {
    pub req: BlockRetrievalRequest,
    pub peer_id: H512,
    pub request_id: RequestId,
}

/// An item on the queue of the retrieval worker, under the address of the
/// peer that asked.
#[derive(Clone, Copy, Debug)]
pub struct RetrievalWork {
    pub peer_address: AccountAddress,
    pub request: IncomingBlockRetrievalRequest,
}

/// The queue of the retrieval worker: work is put at its back and taken
/// from its front. A queue that was closed takes no work.
pub struct RetrievalQueue {
    pub items: Vec<RetrievalWork>,
    pub closed: bool,
}

impl RetrievalQueue {
    /// An open queue without work.
    pub fn new() -> (queue: RetrievalQueue)
        ensures
            queue.items@.len() == 0,
            !queue.closed,
    {
        RetrievalQueue { items: Vec::new(), closed: false }
    }

    /// Puts `request` at the back of the queue, under `peer_address`. A
    /// closed queue refuses and stays as it is.
    pub fn push(&mut self, peer_address: AccountAddress, request: IncomingBlockRetrievalRequest) -> (
        done: Result<(), Error>)
        ensures
            final(self).closed == old(self).closed,
            old(self).closed ==> done == Err::<(), Error>(Error::RetrievalQueueClosed)
                && final(self).items@ == old(self).items@,
            !old(self).closed ==> done is Ok && final(self).items@ == old(self).items@.push(
                RetrievalWork { peer_address, request },
            ),
    {
        if self.closed {
            return Err(Error::RetrievalQueueClosed);
        }
        self.items.push(RetrievalWork { peer_address, request });
        Ok(())
    }

    /// Takes the work at the front of the queue, if there is any.
    pub fn pop(&mut self) -> (work: Option<RetrievalWork>)
        ensures
            final(self).closed == old(self).closed,
            old(self).items@.len() == 0 ==> work is None && final(self).items@ == old(self).items@,
            old(self).items@.len() > 0 ==> work == Some(old(self).items@[0]) && final(self).items@
                == old(self).items@.drop_first(),
    {
        if self.items.len() == 0 {
            return None;
        }
        let work = self.items.remove(0);
        proof {
            assert(self.items@ =~= old(self).items@.drop_first());
        }
        Some(work)
    }

    /// Closes the queue: what is on it stays, and nothing more is taken.
    pub fn close(&mut self)
        ensures
            final(self).closed,
            final(self).items@ == old(self).items@,
    {
        self.closed = true;
    }
}

/// What the handler of a message knows of where the message came from, and
/// the queue on which it leaves work.
pub struct Context {
    /// The peer that sent the message.
    pub peer: H512,
    /// The hash of the peer's id.
    pub peer_hash: H256,
    pub block_retrieval_tx: RetrievalQueue,
}

/// What can be done with a message that arrived.
pub trait Handleable: Sized {
    /// The work that the message asks for.
    spec fn work(self, ctx: Context) -> RetrievalWork;

    /// Hands the message's work on, and returns at once: the work is put at
    /// the back of the retrieval worker's queue, unless the queue is
    /// closed.
    fn handle(self, ctx: &mut Context) -> (done: Result<(), Error>)
        ensures
            final(ctx).peer == old(ctx).peer,
            final(ctx).peer_hash == old(ctx).peer_hash,
            final(ctx).block_retrieval_tx.closed == old(ctx).block_retrieval_tx.closed,
            old(ctx).block_retrieval_tx.closed ==> done == Err::<(), Error>(
                Error::RetrievalQueueClosed,
            ) && final(ctx).block_retrieval_tx.items@ == old(ctx).block_retrieval_tx.items@,
            !old(ctx).block_retrieval_tx.closed ==> done is Ok && final(ctx).block_retrieval_tx.items@ == old(ctx).block_retrieval_tx.items@.push(
                self.work(*old(ctx)),
            ),
    ;
}

impl Handleable for BlockRetrievalRpcRequest {
    open spec fn work(self, ctx: Context) -> RetrievalWork {
        RetrievalWork {
            peer_address: AccountAddress { bytes: ctx.peer_hash.bytes },
            request: IncomingBlockRetrievalRequest {
                req: self.request,
                peer_id: ctx.peer,
                request_id: self.request_id,
            },
        }
    }

    fn handle(self, ctx: &mut Context) -> (done: Result<(), Error>) {
        let peer_address = AccountAddress::new(ctx.peer_hash.to_fixed_bytes());
        let req = self.request;
        let req_with_callback = IncomingBlockRetrievalRequest {
            req,
            peer_id: ctx.peer,
            request_id: self.request_id,
        };
        ctx.block_retrieval_tx.push(peer_address, req_with_callback)
    }
}

} // verus!
