//! The middleware that stops a fault and lets the listener go on.

use vstd::prelude::*;

use crate::message::{error_reply, error_reply_view, Outcome, OutcomeView, Request, RequestView,
    ResponseView};
use crate::middleware::{ascent, ascent_to, lemma_ascent_in_stretches, Admission, AdmissionView,
    Chain, Link, Middleware};

verus! {

/// What becomes of an outcome where faults are stopped: a reply stays as it
/// is, and a fault becomes the fixed error reply, whatever it carried.
pub open spec fn contained<P>(outcome: OutcomeView<P>) -> OutcomeView<P> {
    match outcome {
        OutcomeView::Reply(response) => OutcomeView::Reply(response),
        OutcomeView::Fault(_) => OutcomeView::Reply(error_reply_view()),
    }
}

/// Stops a fault: hands a reply back as it is, and answers a fault with the
/// fixed error reply. The payload of the fault is dropped.
pub fn contain<P>(outcome: Outcome<P>) -> (result: Outcome<P>)
    ensures
        result@ == contained(outcome@),
{
    match outcome {
        Outcome::Reply(response) => Outcome::Reply(response),
        Outcome::Fault(_) => Outcome::Reply(error_reply()),
    }
}

/// A middleware that stops any fault raised by what comes after it in the
/// chain and answers the request with the fixed error reply. It keeps no
/// state: one request's fault leaves no trace for the next.
#[derive(Debug, Clone, Copy, PartialEq, Eq)]
pub struct CatchUnwind {}

impl CatchUnwind {
    /// A middleware that stops faults.
    pub fn new() -> (middleware: Self) {
        CatchUnwind {  }
    }

    /// This middleware as a link of a chain.
    pub fn link<P>(self) -> (link: Link<P>)
        ensures
            forall|request: RequestView| #[trigger]
                link.admits(request) == AdmissionView::Continue(request),
            forall|outcome: OutcomeView<P>| #[trigger] link.settles(outcome) == contained(outcome),
    {
        Link { middleware: Box::new(self) }
    }
}

impl<P> Middleware<P> for CatchUnwind {
    open spec fn admits(&self, request: RequestView) -> AdmissionView {
        AdmissionView::Continue(request)
    }

    open spec fn settles(&self, outcome: OutcomeView<P>) -> OutcomeView<P> {
        contained(outcome)
    }

    fn enter(&self, request: Request) -> (admission: Admission) {
        Admission::Continue(request)
    }

    fn handle(&self, outcome: Outcome<P>) -> (result: Outcome<P>) {
        contain(outcome)
    }
}

/// The middleware at `level` stops faults as [`CatchUnwind`] does: what it
/// makes of an outcome is `contained`.
pub open spec fn stops_faults<P>(chain: Chain<P>, level: int) -> bool {
    forall|outcome: OutcomeView<P>| #[trigger] chain[level].settles(outcome) == contained(outcome)
}

/// The middleware at `level` lets a fault through as it came.
pub open spec fn passes_faults<P>(chain: Chain<P>, level: int) -> bool {
    forall|payload: P| #[trigger]
        chain[level].settles(OutcomeView::Fault(payload)) == OutcomeView::<P>::Fault(payload)
}

/// A request whose processing faults below a `CatchUnwind` is answered with
/// exactly the fixed error reply, whatever the fault carried. The middleware
/// keeps nothing of it: the reply to a later request that does not fault
/// goes through as it is.
pub proof fn lemma_fault_contained_and_service_goes_on<P>(
    middleware: CatchUnwind,
    payload: P,
    later: ResponseView,
)
    ensures
        Middleware::<P>::settles(&middleware, OutcomeView::Fault(payload)) == OutcomeView::<
            P,
        >::Reply(error_reply_view()),
        Middleware::<P>::settles(&middleware, OutcomeView::Reply(later)) == OutcomeView::<
            P,
        >::Reply(later),
{
}

/// The middleware that stops faults is the boundary: whatever comes up from
/// below it, those before it in the chain are handed a reply.
pub proof fn lemma_reply_above_boundary<P>(
    chain: Chain<P>,
    depth: nat,
    level: nat,
    outcome: OutcomeView<P>,
)
    requires
        level < depth <= chain.len(),
        stops_faults(chain, level as int),
    ensures
        ascent_to(chain, depth, level, outcome) is Reply,
        ascent(chain, depth, outcome) == ascent(chain, level, ascent_to(chain, depth, level, outcome)),
        level == 0 ==> ascent(chain, depth, outcome) is Reply,
{
    lemma_ascent_in_stretches(chain, depth, level + 1, level, outcome);
    lemma_ascent_in_stretches(chain, depth, level, 0, outcome);
    let below = ascent_to(chain, depth, level + 1, outcome);
    assert(ascent_to(chain, level + 1, level, below) == chain[level as int].settles(below)) by {
        assert(ascent_to(chain, level, level, chain[level as int].settles(below))
            == chain[level as int].settles(below));
    }
}

/// A reply goes up through middlewares that stop faults as it came: after
/// any number of faults, a request that does not fault is answered as its
/// endpoint answered it.
pub proof fn lemma_reply_passes_boundaries<P>(chain: Chain<P>, depth: nat, response: ResponseView)
    requires
        depth <= chain.len(),
        forall|level: int| 0 <= level < depth ==> #[trigger] stops_faults(chain, level),
    ensures
        ascent(chain, depth, OutcomeView::Reply(response)) == OutcomeView::<P>::Reply(response),
    decreases depth,
{
    if depth > 0 {
        assert(stops_faults(chain, depth - 1));
        assert(chain[depth - 1].settles(OutcomeView::Reply(response)) == OutcomeView::<P>::Reply(
            response,
        ));
        lemma_reply_passes_boundaries(chain, (depth - 1) as nat, response);
    }
}

/// A fault raised below a middleware that stops faults, with nothing between
/// the two but middlewares that let faults through, leaves that middleware
/// as the fixed error reply.
pub proof fn lemma_fault_stops_at_boundary<P>(
    chain: Chain<P>,
    depth: nat,
    level: nat,
    payload: P,
)
    requires
        level < depth <= chain.len(),
        stops_faults(chain, level as int),
        forall|between: int| level < between < depth ==> #[trigger] passes_faults(chain, between),
    ensures
        ascent_to(chain, depth, level, OutcomeView::Fault(payload)) == OutcomeView::<P>::Reply(
            error_reply_view(),
        ),
    decreases depth,
{
    let fault = OutcomeView::<P>::Fault(payload);
    if depth == level + 1 {
        assert(ascent_to(chain, level, level, chain[level as int].settles(fault))
            == chain[level as int].settles(fault));
    } else {
        assert(passes_faults(chain, depth - 1));
        assert(chain[depth - 1].settles(fault) == fault);
        lemma_fault_stops_at_boundary(chain, (depth - 1) as nat, level, payload);
    }
}

} // verus!
