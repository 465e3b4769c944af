use futures::channel::oneshot::{channel, Canceled, Sender};
use std::sync::Arc;
use tide_panic::{
    claim, dispatch, error_reply, Capture, Escalation, Middleware, Outcome, PropagateUnwind,
    Resolution, Response, UnwindHandle,
};

fn plain(status: u16, body: &str) -> Response {
    Response { status, headers: Vec::new(), body: body.as_bytes().to_vec() }
}

#[test]
fn a_new_handle_is_pending() {
    let (middleware, mut handle) = PropagateUnwind::<String>::new();
    assert!(!handle.is_resolved());
    assert_eq!(handle.poll(), Resolution::Pending);
    assert!(!handle.is_resolved());
    drop(middleware);
}

#[test]
fn a_fault_is_answered_with_500_and_reaches_the_handle() {
    let (middleware, mut handle) = PropagateUnwind::<String>::new();
    let out = middleware.handle(Outcome::Fault("Hello, world!".to_string()));
    assert_eq!(out, Outcome::Reply(error_reply()));
    assert_eq!(handle.poll(), Resolution::Escalated("Hello, world!".to_string()));
    assert!(handle.is_resolved());
}

#[test]
fn a_reply_passes_and_nothing_is_escalated() {
    let (middleware, mut handle) = PropagateUnwind::<String>::new();
    let out = middleware.handle(Outcome::Reply(plain(204, "")));
    assert_eq!(out, Outcome::Reply(plain(204, "")));
    assert_eq!(handle.poll(), Resolution::Pending);
}

#[test]
fn only_the_first_fault_is_delivered() {
    let (middleware, mut handle) = PropagateUnwind::<u32>::new();
    assert_eq!(middleware.capture(7), Capture::Delivered);
    assert_eq!(middleware.capture(8), Capture::Lost(8));
    assert_eq!(middleware.capture(9), Capture::Lost(9));
    assert_eq!(handle.poll(), Resolution::Escalated(7));
}

#[test]
fn later_faults_still_get_the_error_reply() {
    let (middleware, mut handle) = PropagateUnwind::<u32>::new();
    for payload in 0..5u32 {
        let out = middleware.handle(Outcome::Fault(payload));
        assert_eq!(out, Outcome::Reply(error_reply()));
    }
    assert_eq!(handle.poll(), Resolution::Escalated(0));
}

#[test]
fn many_faults_deliver_exactly_one_payload() {
    for winner in 0..16u32 {
        let (middleware, mut handle) = PropagateUnwind::<u32>::new();
        let shared = Arc::new(middleware);
        let mut delivered = 0;
        let mut lost = Vec::new();
        for turn in 0..16u32 {
            let payload = (winner + turn) % 16;
            let middleware = Arc::clone(&shared);
            match middleware.capture(payload) {
                Capture::Delivered => delivered += 1,
                Capture::Lost(payload) => lost.push(payload),
                Capture::Undeliverable(_) => panic!("the handle is still there"),
            }
        }
        assert_eq!(delivered, 1);
        assert_eq!(lost.len(), 15);
        assert!(!lost.contains(&winner));
        assert_eq!(handle.poll(), Resolution::Escalated(winner));
    }
}

#[test]
fn a_fault_after_the_handle_is_gone_is_still_answered() {
    let (middleware, handle) = PropagateUnwind::<String>::new();
    drop(handle);
    assert_eq!(
        middleware.capture("late".to_string()),
        Capture::Undeliverable("late".to_string())
    );
    let out = middleware.handle(Outcome::Fault("later".to_string()));
    assert_eq!(out, Outcome::Reply(error_reply()));
}

#[test]
fn a_clean_close_resolves_with_closed() {
    let (middleware, mut handle) = PropagateUnwind::<String>::new();
    assert_eq!(handle.poll(), Resolution::Pending);
    drop(middleware);
    assert_eq!(handle.poll(), Resolution::Closed);
    assert!(handle.is_resolved());
}

#[test]
fn settle_reads_the_channel() {
    assert_eq!(UnwindHandle::<u8>::settle(Ok(Some(3))), Resolution::Escalated(3));
    assert_eq!(UnwindHandle::<u8>::settle(Ok(None)), Resolution::Pending);
    assert_eq!(UnwindHandle::<u8>::settle(Err(Canceled)), Resolution::Closed);
}

#[test]
fn conclude_reads_the_end_of_a_wait() {
    assert_eq!(UnwindHandle::<u8>::conclude(Ok(3)), Resolution::Escalated(3));
    assert_eq!(UnwindHandle::<u8>::conclude(Err(Canceled)), Resolution::Closed);
}

#[test]
fn waiting_on_the_receiver_yields_the_payload() {
    let (middleware, handle) = PropagateUnwind::<String>::new();
    let receiver = handle.into_receiver();
    assert_eq!(middleware.capture("boom".to_string()), Capture::Delivered);
    let awaited = futures::executor::block_on(receiver);
    assert_eq!(UnwindHandle::conclude(awaited), Resolution::Escalated("boom".to_string()));
}

#[test]
fn waiting_on_the_receiver_after_a_clean_close_yields_closed() {
    let (middleware, handle) = PropagateUnwind::<String>::new();
    let receiver = handle.into_receiver();
    drop(middleware);
    let awaited = futures::executor::block_on(receiver);
    assert_eq!(UnwindHandle::conclude(awaited), Resolution::Closed);
}

#[test]
fn claim_takes_the_sender_once() {
    let (tx, mut rx) = channel::<u8>();
    let mut slot: Option<Sender<u8>> = Some(tx);
    let first = claim(&mut slot, 1);
    assert!(slot.is_none());
    assert!(matches!(first, Escalation::Forward { payload: 1, .. }));
    let second = claim(&mut slot, 2);
    assert!(slot.is_none());
    assert!(matches!(second, Escalation::Contain { payload: 2 }));
    assert_eq!(dispatch(second), Capture::Lost(2));
    assert_eq!(dispatch(first), Capture::Delivered);
    assert_eq!(rx.try_recv(), Ok(Some(1)));
}

#[test]
fn dispatch_hands_back_what_cannot_be_sent() {
    let (tx, rx) = channel::<String>();
    drop(rx);
    let decision = Escalation::Forward { through: tx, payload: "x".to_string() };
    assert_eq!(dispatch(decision), Capture::Undeliverable("x".to_string()));
}
