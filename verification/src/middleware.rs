//! The chain: an ordered sequence of middlewares around one endpoint.

use vstd::prelude::*;

use crate::message::{header_views, Fields, Outcome, OutcomeView, Request, RequestView, Response,
    ResponseView};

verus! {

/// What a middleware does with a request on the way in.
#[derive(Debug, PartialEq, Eq)]
pub enum Admission {
    /// Hand the request, possibly changed, to the rest of the chain.
    Continue(Request),
    /// Answer at once; the rest of the chain does not run.
    Respond(Response),
}

/// The mathematical content of an [`Admission`].
pub enum AdmissionView {
    Continue(RequestView),
    Respond(ResponseView),
}

impl View for Admission {
    type V = AdmissionView;

    open spec fn view(&self) -> AdmissionView {
        match self {
            Admission::Continue(request) => AdmissionView::Continue(request@),
            Admission::Respond(response) => AdmissionView::Respond(response@),
        }
    }
}

/// One link of the chain.
///
/// A middleware sees a request on the way in and, unless it answered the
/// request itself, the outcome of the rest of the chain on the way out. What
/// it makes of each is a function of what it is handed: `admits` and
/// `settles` say which.
pub trait Middleware<P>: Send + Sync {
    /// What `enter` makes of a request.
    spec fn admits(&self, request: RequestView) -> AdmissionView;

    /// What `handle` makes of the outcome of the rest of the chain.
    spec fn settles(&self, outcome: OutcomeView<P>) -> OutcomeView<P>;

    /// Looks at a request on the way in: passes it on or answers it.
    fn enter(&self, request: Request) -> (admission: Admission)
        ensures
            admission@ == self.admits(request@),
    ;

    /// Takes the outcome of the rest of the chain and gives the outcome of
    /// the chain from this middleware on.
    fn handle(&self, outcome: Outcome<P>) -> (result: Outcome<P>)
        ensures
            result@ == self.settles(outcome@),
    ;
}

/// A middleware in its place in a chain.
#[verifier::reject_recursive_types(P)]
pub struct Link<P> {
    pub middleware: Box<dyn Middleware<P>>,
}

impl<P> Link<P> {
    /// What the middleware in this place makes of a request.
    pub open spec fn admits(&self, request: RequestView) -> AdmissionView {
        self.middleware.admits(request)
    }

    /// What the middleware in this place makes of the outcome of the rest of
    /// the chain.
    pub open spec fn settles(&self, outcome: OutcomeView<P>) -> OutcomeView<P> {
        self.middleware.settles(outcome)
    }

    /// Hands a request to the middleware.
    pub fn enter(&self, request: Request) -> (admission: Admission)
        ensures
            admission@ == self.admits(request@),
    {
        self.middleware.enter(request)
    }

    /// Hands the outcome of the rest of the chain to the middleware.
    pub fn handle(&self, outcome: Outcome<P>) -> (result: Outcome<P>)
        ensures
            result@ == self.settles(outcome@),
    {
        self.middleware.handle(outcome)
    }
}

/// The chain as contracts speak of it.
pub type Chain<P> = Seq<Link<P>>;

/// How far a request gets on the way in.
pub enum DescentView {
    /// Every middleware passed it on; the endpoint gets this request.
    Endpoint(RequestView),
    /// The middleware at `depth` answered; those before it passed it on.
    Answered { depth: nat, response: ResponseView },
}

/// Walks `request` down `chain` from its first middleware.
pub open spec fn descent<P>(chain: Chain<P>, request: RequestView) -> DescentView
    decreases chain.len(),
{
    if chain.len() == 0 {
        DescentView::Endpoint(request)
    } else {
        match chain[0].admits(request) {
            AdmissionView::Respond(response) => DescentView::Answered { depth: 0, response },
            AdmissionView::Continue(passed) => match descent(chain.skip(1), passed) {
                DescentView::Endpoint(last) => DescentView::Endpoint(last),
                DescentView::Answered { depth, response } => DescentView::Answered {
                    depth: depth + 1,
                    response,
                },
            },
        }
    }
}

/// Takes `outcome` back up from below the middleware at `depth - 1` to above
/// the middleware at `level`: through `chain[level..depth]`, the innermost
/// first.
pub open spec fn ascent_to<P>(
    chain: Chain<P>,
    depth: nat,
    level: nat,
    outcome: OutcomeView<P>,
) -> OutcomeView<P>
    decreases depth,
{
    if depth <= level {
        outcome
    } else {
        ascent_to(chain, (depth - 1) as nat, level, chain[depth - 1].settles(outcome))
    }
}

/// Takes `outcome` back up through the first `depth` middlewares of `chain`,
/// the innermost first.
pub open spec fn ascent<P>(chain: Chain<P>, depth: nat, outcome: OutcomeView<P>) -> OutcomeView<P> {
    ascent_to(chain, depth, 0, outcome)
}

/// The request as it reaches the middleware at `level`, or the endpoint where
/// `level` is the length of the chain: `None` where a middleware before that
/// answered.
pub open spec fn arrival<P>(chain: Chain<P>, request: RequestView, level: nat) -> Option<
    RequestView,
>
    decreases level,
{
    if level == 0 {
        Some(request)
    } else {
        match arrival(chain, request, (level - 1) as nat) {
            Some(reached) => match chain[level - 1].admits(reached) {
                AdmissionView::Continue(passed) => Some(passed),
                AdmissionView::Respond(_) => None,
            },
            None => None,
        }
    }
}

/// How far a request got on the way in.
#[derive(Debug, PartialEq, Eq)]
pub enum Descent {
    /// Every middleware passed it on; the endpoint gets this request.
    Endpoint(Request),
    /// The middleware at `depth` answered; those before it passed it on.
    Answered { depth: usize, response: Response },
}

impl View for Descent {
    type V = DescentView;

    open spec fn view(&self) -> DescentView {
        match self {
            Descent::Endpoint(request) => DescentView::Endpoint(request@),
            Descent::Answered { depth, response } => DescentView::Answered {
                depth: *depth as nat,
                response: response@,
            },
        }
    }
}

/// A descent that began `levels` middlewares further up.
pub open spec fn deepen(below: DescentView, levels: nat) -> DescentView {
    match below {
        DescentView::Endpoint(request) => DescentView::Endpoint(request),
        DescentView::Answered { depth, response } => DescentView::Answered {
            depth: depth + levels,
            response,
        },
    }
}

/// What the descent from `level` comes to, by what the middleware there
/// makes of the request.
proof fn lemma_descent_step<P>(chain: Chain<P>, level: int, request: RequestView)
    requires
        0 <= level < chain.len(),
    ensures
        descent(chain.skip(level), request) == match chain[level].admits(request) {
            AdmissionView::Respond(response) => DescentView::Answered { depth: 0, response },
            AdmissionView::Continue(passed) => deepen(descent(chain.skip(level + 1), passed), 1),
        },
{
    assert(chain.skip(level).skip(1) =~= chain.skip(level + 1));
}

/// Walks a request down `chain`, asking each middleware in order, until one
/// answers or none is left.
pub fn descend<P>(chain: &[Link<P>], request: Request) -> (reached: Descent)
    ensures
        reached@ == descent(chain@, request@),
        reached matches Descent::Answered { depth, .. } ==> depth < chain@.len(),
{
    let mut level: usize = 0;
    let mut current = request;
    assert(chain@.skip(0) =~= chain@);
    while level < chain.len()
        invariant
            level <= chain@.len(),
            descent(chain@, request@) == deepen(
                descent(chain@.skip(level as int), current@),
                level as nat,
            ),
        decreases chain@.len() - level,
    {
        proof {
            lemma_descent_step(chain@, level as int, current@);
        }
        match chain[level].enter(current) {
            Admission::Respond(response) => {
                return Descent::Answered { depth: level, response };
            },
            Admission::Continue(passed) => {
                current = passed;
            },
        }
        level = level + 1;
    }
    Descent::Endpoint(current)
}

/// Takes an outcome back up through `chain[..depth]`.
pub fn ascend<P>(chain: &[Link<P>], depth: usize, outcome: Outcome<P>) -> (result: Outcome<P>)
    requires
        depth <= chain@.len(),
    ensures
        result@ == ascent(chain@, depth as nat, outcome@),
{
    let mut level: usize = depth;
    let mut current = outcome;
    while level > 0
        invariant
            level <= depth <= chain@.len(),
            ascent(chain@, level as nat, current@) == ascent(chain@, depth as nat, outcome@),
        decreases level,
    {
        level = level - 1;
        current = chain[level].handle(current);
    }
    current
}

/// What stands at the end of the chain and answers a request that every
/// middleware passed on. What it answers is its own business: it may reply,
/// and it may fault, and it need not answer the same request the same way
/// twice. `answers` says which answers it may give to what it is handed.
pub trait Endpoint<D, P>: Send + Sync {
    /// Whether `answer` is one that `call` may give.
    spec fn answers(
        &self,
        app_data: D,
        request: RequestView,
        params: Fields,
        answer: OutcomeView<P>,
    ) -> bool;

    fn call(&self, app_data: D, request: Request, params: Vec<(String, String)>) -> (answer:
        Outcome<P>)
        ensures
            self.answers(app_data, request@, header_views(params@), answer@),
    ;
}

/// What travels with one request: the application's state, the request, the
/// route parameters, and the part of the chain that has not yet run. Made
/// once for each request and used up by `next`.
#[verifier::reject_recursive_types(D)]
#[verifier::reject_recursive_types(P)]
pub struct RequestContext<'a, D, P, E> {
    app_data: D,
    req: Request,
    params: Vec<(String, String)>,
    endpoint: &'a E,
    next_middleware: &'a [Link<P>],
}

impl<'a, D, P, E: Endpoint<D, P>> RequestContext<'a, D, P, E> {
    /// The middlewares that have not yet run, in order.
    pub closed spec fn remaining(&self) -> Chain<P> {
        self.next_middleware@
    }

    /// The request as it stands.
    pub closed spec fn request(&self) -> RequestView {
        self.req@
    }

    /// The application's state.
    pub closed spec fn app_data(&self) -> D {
        self.app_data
    }

    /// The route parameters, by name and value.
    pub closed spec fn params(&self) -> Fields {
        header_views(self.params@)
    }

    /// The endpoint behind the chain.
    pub closed spec fn endpoint(&self) -> E {
        *self.endpoint
    }

    /// A context for `req` at the head of `chain`, with `endpoint` behind it.
    pub fn new(
        app_data: D,
        req: Request,
        params: Vec<(String, String)>,
        endpoint: &'a E,
        chain: &'a [Link<P>],
    ) -> (context: Self)
        ensures
            context.remaining() == chain@,
            context.request() == req@,
            context.app_data() == app_data,
            context.params() == header_views(params@),
            context.endpoint() == *endpoint,
    {
        RequestContext { app_data, req, params, endpoint, next_middleware: chain }
    }

    /// Uses up the context and runs what is left of the chain to completion.
    ///
    /// The request goes down the remaining middlewares in order. If one of
    /// them answers, its response goes back up through those before it, and
    /// the endpoint is not called. If all pass the request on, the endpoint
    /// is called with it, once, and what it answers goes back up through all
    /// of them.
    pub fn next(self) -> (result: Outcome<P>)
        ensures
            match descent(self.remaining(), self.request()) {
                DescentView::Answered { depth, response } => result@ == ascent(
                    self.remaining(),
                    depth,
                    OutcomeView::Reply(response),
                ),
                DescentView::Endpoint(last) => exists|answer: OutcomeView<P>|
                    {
                        &&& #[trigger] self.endpoint().answers(
                            self.app_data(),
                            last,
                            self.params(),
                            answer,
                        )
                        &&& result@ == ascent(self.remaining(), self.remaining().len(), answer)
                    },
            },
    {
        let chain = self.next_middleware;
        match descend(chain, self.req) {
            Descent::Answered { depth, response } => ascend(chain, depth, Outcome::Reply(response)),
            Descent::Endpoint(request) => {
                let answer = self.endpoint.call(self.app_data, request, self.params);
                assert(self.endpoint().answers(
                    self.app_data(),
                    request@,
                    self.params(),
                    answer@,
                ));
                ascend(chain, chain.len(), answer)
            },
        }
    }
}

/// Going up in two stretches is going up in one: the outcome that leaves
/// `chain[middle..depth]` is what `chain[level..middle]` takes up.
pub proof fn lemma_ascent_in_stretches<P>(
    chain: Chain<P>,
    depth: nat,
    middle: nat,
    level: nat,
    outcome: OutcomeView<P>,
)
    requires
        level <= middle <= depth,
    ensures
        ascent_to(chain, depth, level, outcome) == ascent_to(
            chain,
            middle,
            level,
            ascent_to(chain, depth, middle, outcome),
        ),
    decreases depth,
{
    if depth > middle {
        lemma_ascent_in_stretches(
            chain,
            (depth - 1) as nat,
            middle,
            level,
            chain[depth - 1].settles(outcome),
        );
    }
}

/// From a request that reached `level`, the rest of the descent goes as
/// `arrival` says.
proof fn lemma_descent_from<P>(chain: Chain<P>, request: RequestView, level: nat, reached: RequestView)
    requires
        level <= chain.len(),
        arrival(chain, request, level) == Some(reached),
    ensures
        match descent(chain.skip(level as int), reached) {
            DescentView::Endpoint(last) => arrival(chain, request, chain.len()) == Some(last),
            DescentView::Answered { depth, response } => {
                &&& level + depth < chain.len()
                &&& arrival(chain, request, level + depth) is Some
                &&& chain[(level + depth) as int].admits(arrival(chain, request, level + depth)->0)
                    == AdmissionView::Respond(response)
            },
        },
    decreases chain.len() - level,
{
    if level < chain.len() {
        lemma_descent_step(chain, level as int, reached);
        match chain[level as int].admits(reached) {
            AdmissionView::Respond(_) => {},
            AdmissionView::Continue(passed) => {
                assert(arrival(chain, request, level + 1) == Some(passed));
                lemma_descent_from(chain, request, level + 1, passed);
            },
        }
    }
}

/// The middlewares are asked in the order of the chain, each with what the
/// one before it passed on. The endpoint is reached only when every one of
/// them passed the request on, and it gets the request as the last of them
/// left it. Where the descent stops at a middleware, every one before it
/// passed the request on and that one answered.
pub proof fn lemma_descent_in_order<P>(chain: Chain<P>, request: RequestView)
    ensures
        match descent(chain, request) {
            DescentView::Endpoint(last) => arrival(chain, request, chain.len()) == Some(last),
            DescentView::Answered { depth, response } => {
                &&& depth < chain.len()
                &&& arrival(chain, request, depth) is Some
                &&& chain[depth as int].admits(arrival(chain, request, depth)->0)
                    == AdmissionView::Respond(response)
            },
        },
{
    assert(chain.skip(0) =~= chain);
    lemma_descent_from(chain, request, 0, request);
}

} // verus!
