use futures::channel::oneshot;
use pos_bridge::block_retrieval::{
    outcome_for, resolution_of, BlockRetrievalRequest, BlockRetrievalRpcRequest, Context,
    Handleable, Outcome, Request, RequestEvent, Resolution, RetrievalQueue, RpcResponse,
};
use pos_bridge::hash::{AccountAddress, HashValue, H256, H512};
use pos_bridge::sync::{Error, ProtocolConfiguration};
use std::time::Duration;

fn request(id: u64) -> BlockRetrievalRpcRequest {
    BlockRetrievalRpcRequest {
        request_id: id,
        request: BlockRetrievalRequest::new(HashValue::new([3; 32]), 4),
        is_empty: false,
        response_tx: None,
        timeout: Duration::from_millis(1500),
    }
}

fn response(id: u64) -> RpcResponse {
    RpcResponse { request_id: id, payload: vec![9, 8, 7] }
}

fn conf() -> ProtocolConfiguration {
    ProtocolConfiguration { request_timeout: Duration::from_secs(30) }
}

#[test]
fn timeout_is_the_one_the_request_was_given() {
    let pending = request(1);
    assert_eq!(pending.timeout(&conf()), Duration::from_millis(1500));
}

#[test]
fn error_reaches_the_waiter_once() {
    let (tx, mut rx) = oneshot::channel::<Outcome>();
    let mut pending = request(1);
    pending.set_response_notification(tx);
    assert!(pending.response_tx.is_some());
    assert_eq!(pending.notify_error(Error::RpcPeerFailure), Resolution::Delivered);
    assert!(pending.response_tx.is_none());
    assert_eq!(pending.notify_error(Error::RpcTimeout), Resolution::NotPending);
    match rx.try_recv() {
        Ok(Some(Err(error))) => assert_eq!(error, Error::RpcPeerFailure),
        _ => panic!("the waiter got no error"),
    }
    assert_eq!(pending.request_id, 1);
}

#[test]
fn late_response_after_timeout_is_dropped() {
    let (tx, mut rx) = oneshot::channel::<Outcome>();
    let mut pending = request(2);
    pending.set_response_notification(tx);
    assert_eq!(pending.notify_timeout(), Resolution::Delivered);
    assert_eq!(pending.notify_response(response(2)), Resolution::NotPending);
    match rx.try_recv() {
        Ok(Some(Err(error))) => assert_eq!(error, Error::RpcTimeout),
        _ => panic!("the waiter got no timeout"),
    }
}

#[test]
fn response_before_timeout_wins() {
    let (tx, mut rx) = oneshot::channel::<Outcome>();
    let mut pending = request(3);
    pending.set_response_notification(tx);
    assert_eq!(pending.notify_response(response(3)), Resolution::Delivered);
    assert_eq!(pending.notify_timeout(), Resolution::NotPending);
    assert_eq!(pending.notify_error(Error::RpcCancelledByDisconnection), Resolution::NotPending);
    match rx.try_recv() {
        Ok(Some(Ok(got))) => {
            assert_eq!(got.request_id, 3);
            assert_eq!(got.payload, vec![9, 8, 7]);
        }
        _ => panic!("the waiter got no response"),
    }
}

#[test]
fn cancellation_goes_the_way_of_errors() {
    let (tx, mut rx) = oneshot::channel::<Outcome>();
    let mut pending = request(4);
    pending.set_response_notification(tx);
    assert_eq!(
        pending.resolve(RequestEvent::ErrorReported(Error::RpcCancelledByDisconnection)),
        Resolution::Delivered
    );
    match rx.try_recv() {
        Ok(Some(Err(error))) => assert_eq!(error, Error::RpcCancelledByDisconnection),
        _ => panic!("the waiter got no error"),
    }
}

#[test]
fn a_waiter_that_left_is_no_failure() {
    let (tx, rx) = oneshot::channel::<Outcome>();
    let mut pending = request(5);
    pending.set_response_notification(tx);
    drop(rx);
    assert_eq!(pending.notify_error(Error::RpcTimeout), Resolution::Abandoned);
    assert!(pending.response_tx.is_none());
    assert_eq!(pending.notify_response(response(5)), Resolution::NotPending);
}

#[test]
fn without_a_sink_nothing_is_resolved() {
    let mut pending = request(6);
    assert_eq!(pending.notify_error(Error::RpcTimeout), Resolution::NotPending);
    assert_eq!(pending.notify_response(response(6)), Resolution::NotPending);
    assert_eq!(pending.notify_timeout(), Resolution::NotPending);
    assert_eq!(pending.request_id, 6);
    assert_eq!(pending.timeout, Duration::from_millis(1500));
}

#[test]
fn a_new_sink_replaces_the_old() {
    let (first, mut first_rx) = oneshot::channel::<Outcome>();
    let (second, mut second_rx) = oneshot::channel::<Outcome>();
    let mut pending = request(7);
    pending.set_response_notification(first);
    pending.set_response_notification(second);
    assert_eq!(pending.notify_timeout(), Resolution::Delivered);
    assert!(first_rx.try_recv().is_err());
    match second_rx.try_recv() {
        Ok(Some(Err(error))) => assert_eq!(error, Error::RpcTimeout),
        _ => panic!("the waiter got no timeout"),
    }
}

fn context() -> Context {
    Context {
        peer: H512::new([5; 64]),
        peer_hash: H256::new([6; 32]),
        block_retrieval_tx: RetrievalQueue::new(),
    }
}

#[test]
fn incoming_request_is_queued_for_the_worker() {
    let mut ctx = context();
    assert_eq!(request(11).handle(&mut ctx), Ok(()));
    assert_eq!(request(12).handle(&mut ctx), Ok(()));
    assert_eq!(ctx.block_retrieval_tx.items.len(), 2);
    let first = ctx.block_retrieval_tx.pop().unwrap();
    assert_eq!(first.peer_address, AccountAddress::new([6; 32]));
    assert_eq!(first.request.peer_id, H512::new([5; 64]));
    assert_eq!(first.request.request_id, 11);
    assert_eq!(first.request.req.block_id(), HashValue::new([3; 32]));
    assert_eq!(first.request.req.num_blocks(), 4);
    let second = ctx.block_retrieval_tx.pop().unwrap();
    assert_eq!(second.request.request_id, 12);
    assert!(ctx.block_retrieval_tx.pop().is_none());
}

#[test]
fn a_closed_queue_refuses_work() {
    let mut ctx = context();
    assert_eq!(request(11).handle(&mut ctx), Ok(()));
    ctx.block_retrieval_tx.close();
    assert_eq!(request(12).handle(&mut ctx), Err(Error::RetrievalQueueClosed));
    assert_eq!(ctx.block_retrieval_tx.items.len(), 1);
    assert_eq!(ctx.block_retrieval_tx.pop().unwrap().request.request_id, 11);
}

#[test]
fn each_event_stands_for_its_outcome() {
    match outcome_for(RequestEvent::ResponseArrived(response(8))) {
        Ok(got) => {
            assert_eq!(got.request_id, 8);
            assert_eq!(got.payload, vec![9, 8, 7]);
        }
        Err(_) => panic!("a response stands for itself"),
    }
    assert_eq!(outcome_for(RequestEvent::ErrorReported(Error::RpcPeerFailure)).err(), Some(Error::RpcPeerFailure));
    assert_eq!(outcome_for(RequestEvent::TimerFired).err(), Some(Error::RpcTimeout));
    assert_eq!(resolution_of(Ok(())), Resolution::Delivered);
    assert_eq!(resolution_of(Err(Err(Error::RpcTimeout))), Resolution::Abandoned);
}

#[test]
fn the_sink_is_taken_with_its_outcome_once() {
    let (tx, mut rx) = oneshot::channel::<Outcome>();
    let mut pending = request(9);
    pending.set_response_notification(tx);
    let taken = pending.take_delivery(RequestEvent::ErrorReported(Error::RpcPeerFailure)).unwrap();
    assert!(pending.response_tx.is_none());
    assert_eq!(taken.outcome.as_ref().err(), Some(&Error::RpcPeerFailure));
    assert!(pending.take_delivery(RequestEvent::TimerFired).is_none());
    assert!(taken.sink.send(taken.outcome).is_ok());
    match rx.try_recv() {
        Ok(Some(Err(error))) => assert_eq!(error, Error::RpcPeerFailure),
        _ => panic!("the waiter got no error"),
    }
    assert_eq!(pending.request_id, 9);
}
