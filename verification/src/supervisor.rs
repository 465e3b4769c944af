//! What the host of a listener does about the two things it waits on: the
//! serving loop and the handle.

use vstd::prelude::*;

use futures::channel::oneshot::Canceled;

use crate::escalate::{awaited_resolution, resolution, Resolution};

verus! {

/// What the host saw, whichever came first.
#[derive(Debug, PartialEq, Eq)]
pub enum Event<P> {
    /// The serving loop of the listener came to an end.
    ServingEnded,
    /// The handle was asked and said this.
    Handle(Resolution<P>),
}

/// What the host is to do about it.
#[derive(Debug, PartialEq, Eq)]
pub enum Reaction<P> {
    /// Nothing has happened yet: go on waiting.
    Wait,
    /// The listener stopped serving on its own, which it ought not to do:
    /// report that as a failure of the host.
    ReportTermination,
    /// A fault was escalated: stop accepting connections on the listener and
    /// raise the payload again at the top level.
    Shutdown(P),
    /// The middleware went away without a fault: there is nothing to
    /// escalate.
    StandDown,
}

/// The reaction that each event calls for.
pub open spec fn reaction<P>(event: Event<P>) -> Reaction<P> {
    match event {
        Event::ServingEnded => Reaction::ReportTermination,
        Event::Handle(Resolution::Pending) => Reaction::Wait,
        Event::Handle(Resolution::Escalated(payload)) => Reaction::Shutdown(payload),
        Event::Handle(Resolution::Closed) => Reaction::StandDown,
    }
}

/// Decides what the host does about an event. The payload of an escalated
/// fault is handed on as it came.
pub fn react<P>(event: Event<P>) -> (decision: Reaction<P>)
    ensures
        decision == reaction(event),
{
    match event {
        Event::ServingEnded => Reaction::ReportTermination,
        Event::Handle(Resolution::Pending) => Reaction::Wait,
        Event::Handle(Resolution::Escalated(payload)) => Reaction::Shutdown(payload),
        Event::Handle(Resolution::Closed) => Reaction::StandDown,
    }
}

/// A listener torn down with no fault ever raised ends the wait with
/// `Closed`, not with a payload and not with an error, and the host takes no
/// action on it.
pub proof fn lemma_clean_close_calls_for_nothing<P>(canceled: Canceled)
    ensures
        resolution(Err::<Option<P>, Canceled>(canceled)) == Resolution::<P>::Closed,
        awaited_resolution(Err::<P, Canceled>(canceled)) == Resolution::<P>::Closed,
        reaction(Event::Handle(Resolution::<P>::Closed)) == Reaction::<P>::StandDown,
{
}

/// The payload that the channel hands to the handle is the payload that the
/// host raises again.
pub proof fn lemma_escalated_payload_raised_again<P>(payload: P)
    ensures
        reaction(Event::Handle(resolution(Ok::<Option<P>, Canceled>(Some(payload)))))
            == Reaction::Shutdown(payload),
        reaction(Event::Handle(awaited_resolution(Ok::<P, Canceled>(payload))))
            == Reaction::Shutdown(payload),
{
}

} // verus!
