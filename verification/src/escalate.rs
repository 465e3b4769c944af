//! The middleware that stops a fault and also forwards the first one it sees,
//! once, to a handle that a supervisor waits on.

use futures::channel::oneshot::{channel, Canceled, Receiver, Sender};
use std::sync::Mutex;
use vstd::prelude::*;

use crate::channel::{acquire, guarded};
use crate::isolate::contained;
use crate::message::{error_reply, error_reply_view, Outcome, OutcomeView, Request, RequestView};
use crate::middleware::{Admission, AdmissionView, Link, Middleware};

verus! {

/// What a fault is to do about forwarding its payload, as decided while it
/// holds the slot.
#[verifier::reject_recursive_types(P)]
pub enum Escalation<P> {
    /// The sender was still in the slot: the payload goes through it.
    Forward { through: Sender<P>, payload: P },
    /// The slot was empty: the fault is stopped here and goes no further.
    Contain { payload: P },
}

/// What became of the payload of a fault.
#[derive(Debug, PartialEq, Eq)]
pub enum Capture<P> {
    /// It is on its way to the handle.
    Delivered,
    /// It won the slot, but the handle is gone; here it is again.
    Undeliverable(P),
    /// An earlier fault had emptied the slot; here it is again.
    Lost(P),
}

/// The decision of `claim`: the sender goes with the first payload, and
/// nothing goes with any later one.
pub open spec fn escalation<P>(slot: Option<Sender<P>>, payload: P) -> Escalation<P> {
    match slot {
        Some(through) => Escalation::Forward { through, payload },
        None => Escalation::Contain { payload },
    }
}

/// Takes the sender out of the slot, if it is still there, for `payload` to
/// go through. The slot is empty afterwards, whatever it held.
pub fn claim<P>(slot: &mut Option<Sender<P>>, payload: P) -> (decision: Escalation<P>)
    ensures
        *final(slot) == None::<Sender<P>>,
        decision == escalation(*old(slot), payload),
{
    match slot.take() {
        Some(through) => Escalation::Forward { through, payload },
        None => Escalation::Contain { payload },
    }
}

/// Carries a decision out: sends the payload where a sender goes with it.
/// Whether a send arrives depends on the handle. A payload that does not go
/// out comes back unchanged.
pub fn dispatch<P>(decision: Escalation<P>) -> (capture: Capture<P>)
    ensures
        match decision {
            Escalation::Forward { payload, .. } => capture == Capture::<P>::Delivered || capture
                == Capture::Undeliverable(payload),
            Escalation::Contain { payload } => capture == Capture::Lost(payload),
        },
{
    match decision {
        Escalation::Forward { through, payload } => match through.send(payload) {
            Ok(()) => Capture::Delivered,
            Err(back) => Capture::Undeliverable(back),
        },
        Escalation::Contain { payload } => Capture::Lost(payload),
    }
}

/// A middleware that stops any fault raised by what comes after it in the
/// chain, answers the request with the fixed error reply, and forwards the
/// payload of the first fault to its [`UnwindHandle`]. The slot that holds
/// the sender is the one thing that the requests of a listener share.
#[verifier::reject_recursive_types(P)]
pub struct PropagateUnwind<P> {
    tx: Mutex<Option<Sender<P>>>,
}

/// How a wait on an [`UnwindHandle`] stands.
#[derive(Debug, PartialEq, Eq)]
pub enum Resolution<P> {
    /// No fault yet, and the middleware is still there.
    Pending,
    /// A fault was captured; this is its payload.
    Escalated(P),
    /// The middleware is gone and no fault was ever captured.
    Closed,
}

/// The supervisor's end of a [`PropagateUnwind`]: it yields the payload of
/// the first fault that the middleware captures, or says that the middleware
/// went away without one. It is resolved at most once.
#[verifier::reject_recursive_types(P)]
pub struct UnwindHandle<P> {
    rx: Receiver<P>,
    resolved: bool,
}

/// What a look into the channel means for the wait.
pub open spec fn resolution<P>(polled: Result<Option<P>, Canceled>) -> Resolution<P> {
    match polled {
        Ok(Some(payload)) => Resolution::Escalated(payload),
        Ok(None) => Resolution::Pending,
        Err(_) => Resolution::Closed,
    }
}

/// What the end of a wait on the channel means.
pub open spec fn awaited_resolution<P>(awaited: Result<P, Canceled>) -> Resolution<P> {
    match awaited {
        Ok(payload) => Resolution::Escalated(payload),
        Err(_) => Resolution::Closed,
    }
}

impl<P> PropagateUnwind<P> {
    /// Makes a middleware and the one handle that goes with it.
    pub fn new() -> (pair: (Self, UnwindHandle<P>))
        ensures
            !pair.1.resolved(),
    {
        let (tx, rx) = channel();
        (PropagateUnwind { tx: Mutex::new(Some(tx)) }, UnwindHandle { rx, resolved: false })
    }

    /// This middleware as a link of a chain.
    pub fn link(self) -> (link: Link<P>) where P: Send + 'static
        ensures
            forall|request: RequestView| #[trigger]
                link.admits(request) == AdmissionView::Continue(request),
            forall|outcome: OutcomeView<P>| #[trigger] link.settles(outcome) == contained(outcome),
    {
        Link { middleware: Box::new(self) }
    }

    /// Tries to forward the payload of a fault to the handle. The first
    /// fault to get the slot takes the sender and sends through it; a later
    /// one finds the slot empty. A payload that is not delivered comes back
    /// unchanged.
    pub fn capture(&self, payload: P) -> (capture: Capture<P>)
        ensures
            capture == Capture::<P>::Delivered || capture == Capture::Undeliverable(payload)
                || capture == Capture::Lost(payload),
    {
        let decision = match acquire(&self.tx) {
            Some(mut guard) => claim(guarded(&mut guard), payload),
            None => Escalation::Contain { payload },
        };
        dispatch(decision)
    }
}

impl<P: Send> Middleware<P> for PropagateUnwind<P> {
    open spec fn admits(&self, request: RequestView) -> AdmissionView {
        AdmissionView::Continue(request)
    }

    open spec fn settles(&self, outcome: OutcomeView<P>) -> OutcomeView<P> {
        contained(outcome)
    }

    fn enter(&self, request: Request) -> (admission: Admission) {
        Admission::Continue(request)
    }

    /// A reply goes back as it is. A fault is answered with the fixed error
    /// reply, whether or not its payload won the slot.
    fn handle(&self, outcome: Outcome<P>) -> (result: Outcome<P>) {
        match outcome {
            Outcome::Reply(response) => Outcome::Reply(response),
            Outcome::Fault(payload) => {
                let _ = self.capture(payload);
                Outcome::Reply(error_reply())
            },
        }
    }
}

impl<P> UnwindHandle<P> {
    /// Whether the wait has come to its end.
    pub closed spec fn resolved(&self) -> bool {
        self.resolved
    }

    /// The receiving half of the channel.
    pub closed spec fn receiver(&self) -> Receiver<P> {
        self.rx
    }

    /// Whether the wait has come to its end.
    pub fn is_resolved(&self) -> (resolved: bool)
        ensures
            resolved == self.resolved(),
    {
        self.resolved
    }

    /// Says what a look into the channel means: a payload is the captured
    /// fault, an empty channel with its sender alive is no news yet, and a
    /// channel whose sender went away with nothing sent is a clean close.
    pub fn settle(polled: Result<Option<P>, Canceled>) -> (outcome: Resolution<P>)
        ensures
            outcome == resolution(polled),
    {
        match polled {
            Ok(Some(payload)) => Resolution::Escalated(payload),
            Ok(None) => Resolution::Pending,
            Err(_) => Resolution::Closed,
        }
    }

    /// Says what the end of a wait on the channel means: a payload is the
    /// captured fault, and a channel whose sender went away with nothing
    /// sent is a clean close.
    pub fn conclude(awaited: Result<P, Canceled>) -> (outcome: Resolution<P>)
        ensures
            outcome == awaited_resolution(awaited),
            !(outcome is Pending),
    {
        match awaited {
            Ok(payload) => Resolution::Escalated(payload),
            Err(_) => Resolution::Closed,
        }
    }

    /// Looks, without waiting, whether the wait is over. Once it has said
    /// `Escalated` or `Closed` the handle is resolved and is not to be asked
    /// again.
    pub fn poll(&mut self) -> (outcome: Resolution<P>)
        requires
            !old(self).resolved(),
        ensures
            final(self).resolved() == !(outcome is Pending),
    {
        let outcome = Self::settle(self.rx.try_recv());
        match outcome {
            Resolution::Pending => {},
            _ => {
                self.resolved = true;
            },
        }
        outcome
    }

    /// Gives up the handle for the receiving half of its channel, for a
    /// caller that waits on it by its own means and hands what it gets to
    /// `conclude`.
    pub fn into_receiver(self) -> (receiver: Receiver<P>)
        requires
            !self.resolved(),
        ensures
            receiver == self.receiver(),
    {
        self.rx
    }
}

/// The decisions that a run of faults comes to on one slot, taken in the
/// order in which the faults get hold of the slot. After any claim the slot is
/// empty.
pub open spec fn claims<P>(slot: Option<Sender<P>>, payloads: Seq<P>) -> Seq<Escalation<P>>
    decreases payloads.len(),
{
    if payloads.len() == 0 {
        Seq::empty()
    } else {
        seq![escalation(slot, payloads[0])] + claims(None, payloads.skip(1))
    }
}

/// On an empty slot every fault is stopped where it stands, and each keeps
/// its own payload.
proof fn lemma_empty_slot_contains_all<P>(payloads: Seq<P>)
    ensures
        claims(None, payloads).len() == payloads.len(),
        forall|i: int|
            0 <= i < payloads.len() ==> claims(None, payloads)[i] == (Escalation::Contain {
                payload: payloads[i],
            }),
    decreases payloads.len(),
{
    if payloads.len() > 0 {
        lemma_empty_slot_contains_all(payloads.skip(1));
        let rest = claims(None::<Sender<P>>, payloads.skip(1));
        assert forall|i: int| 0 <= i < payloads.len() implies claims(None, payloads)[i] == (
        Escalation::Contain { payload: payloads[i] }) by {
            if i > 0 {
                assert(claims(None, payloads)[i] == rest[i - 1]);
                assert(payloads.skip(1)[i - 1] == payloads[i]);
            }
        }
    }
}

/// Of any number of faults behind one middleware, one payload goes to the
/// handle and no more: that of the fault that got hold of the slot first, as
/// that fault raised it. Every later fault is stopped where it stands and
/// keeps its payload.
pub proof fn lemma_exactly_one_forwarded<P>(sender: Sender<P>, payloads: Seq<P>)
    requires
        payloads.len() >= 1,
    ensures
        claims(Some(sender), payloads).len() == payloads.len(),
        claims(Some(sender), payloads)[0] == (Escalation::Forward {
            through: sender,
            payload: payloads[0],
        }),
        forall|i: int|
            1 <= i < payloads.len() ==> claims(Some(sender), payloads)[i] == (Escalation::Contain {
                payload: payloads[i],
            }),
{
    lemma_empty_slot_contains_all(payloads.skip(1));
    let rest = claims(None::<Sender<P>>, payloads.skip(1));
    assert forall|i: int| 1 <= i < payloads.len() implies claims(Some(sender), payloads)[i] == (
    Escalation::Contain { payload: payloads[i] }) by {
        assert(claims(Some(sender), payloads)[i] == rest[i - 1]);
        assert(payloads.skip(1)[i - 1] == payloads[i]);
    }
}

/// A fault that finds the slot empty is answered like any other: its request
/// gets the fixed error reply. What the middleware answers does not depend
/// on the slot.
pub proof fn lemma_every_fault_answered<P: Send>(middleware: PropagateUnwind<P>, payload: P)
    ensures
        escalation(None::<Sender<P>>, payload) == (Escalation::Contain { payload }),
        middleware.settles(OutcomeView::Fault(payload)) == OutcomeView::<P>::Reply(
            error_reply_view(),
        ),
{
}

/// The payload goes from the fault to the supervisor as it was raised: the
/// fault that wins the slot sends the payload it was handed, and the handle
/// yields what the channel hands it.
pub proof fn lemma_payload_unchanged<P>(sender: Sender<P>, payload: P, canceled: Canceled)
    ensures
        escalation(Some(sender), payload) == (Escalation::Forward { through: sender, payload }),
        resolution(Ok::<Option<P>, Canceled>(Some(payload))) == Resolution::Escalated(payload),
        awaited_resolution(Ok::<P, Canceled>(payload)) == Resolution::Escalated(payload),
{
}

} // verus!
