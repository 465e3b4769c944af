use tide_panic::{
    ascend, descend, error_reply, react, Admission, AdmissionView, CatchUnwind, DefaultHeaders,
    Descent, Endpoint, Event, Fields, Link, Middleware, Outcome, OutcomeView, PropagateUnwind, Reaction,
    Request, RequestContext, RequestView, Resolution, Response,
};

fn get(path: &str) -> Request {
    Request { method: "GET".to_string(), path: path.to_string(), headers: Vec::new(), body: Vec::new() }
}

fn text(status: u16, body: &str) -> Response {
    Response { status, headers: Vec::new(), body: body.as_bytes().to_vec() }
}

/// An endpoint that faults on `/panic` and says where it was reached otherwise.
struct Router;

impl Endpoint<u32, String> for Router {
    fn answers(
        &self,
        _app_data: u32,
        _request: RequestView,
        _params: Fields,
        _answer: OutcomeView<String>,
    ) -> bool {
        unreachable!()
    }

    fn call(&self, app_data: u32, request: Request, _params: Vec<(String, String)>) -> Outcome<String> {
        if request.path == "/panic" {
            Outcome::Fault("Hello, world!".to_string())
        } else {
            Outcome::Reply(text(200, &format!("{} {}", app_data, request.path)))
        }
    }
}

/// Adds a mark to the path on the way in and to the body on the way out.
struct Mark(&'static str);

impl Middleware<String> for Mark {
    fn admits(&self, _request: RequestView) -> AdmissionView {
        unreachable!()
    }

    fn settles(&self, _outcome: OutcomeView<String>) -> OutcomeView<String> {
        unreachable!()
    }

    fn enter(&self, request: Request) -> Admission {
        let mut request = request;
        request.path.push_str(self.0);
        Admission::Continue(request)
    }

    fn handle(&self, outcome: Outcome<String>) -> Outcome<String> {
        match outcome {
            Outcome::Reply(mut response) => {
                response.body.extend_from_slice(self.0.as_bytes());
                Outcome::Reply(response)
            }
            Outcome::Fault(payload) => Outcome::Fault(payload),
        }
    }
}

/// Answers every request itself.
struct Gate;

impl Middleware<String> for Gate {
    fn admits(&self, _request: RequestView) -> AdmissionView {
        unreachable!()
    }

    fn settles(&self, _outcome: OutcomeView<String>) -> OutcomeView<String> {
        unreachable!()
    }

    fn enter(&self, _request: Request) -> Admission {
        Admission::Respond(text(403, "no"))
    }

    fn handle(&self, outcome: Outcome<String>) -> Outcome<String> {
        outcome
    }
}

fn link<M: Middleware<String> + 'static>(middleware: M) -> Link<String> {
    Link { middleware: Box::new(middleware) }
}

fn run(chain: &[Link<String>], path: &str) -> Outcome<String> {
    RequestContext::new(7u32, get(path), Vec::new(), &Router, chain).next()
}

/// Says what it was handed.
struct Echo;

impl Endpoint<&'static str, String> for Echo {
    fn answers(
        &self,
        _app_data: &'static str,
        _request: RequestView,
        _params: Fields,
        _answer: OutcomeView<String>,
    ) -> bool {
        unreachable!()
    }

    fn call(
        &self,
        app_data: &'static str,
        request: Request,
        params: Vec<(String, String)>,
    ) -> Outcome<String> {
        let mut body = format!("{} {} {}", app_data, request.method, request.path);
        for (name, value) in params {
            body.push_str(&format!(" {}={}", name, value));
        }
        Outcome::Reply(text(200, &body))
    }
}

#[test]
fn the_endpoint_gets_the_state_the_request_and_the_parameters() {
    let chain = vec![link(Mark("/x"))];
    let params = vec![("id".to_string(), "42".to_string())];
    let out = RequestContext::new("state", get("/users"), params, &Echo, &chain).next();
    assert_eq!(out, Outcome::Reply(text(200, "state GET /users/x id=42/x")));
}

#[test]
fn an_empty_chain_calls_the_endpoint() {
    assert_eq!(run(&[], "/a"), Outcome::Reply(text(200, "7 /a")));
}

#[test]
fn middlewares_run_in_order_down_and_in_reverse_up() {
    let chain = vec![link(Mark("1")), link(Mark("2")), link(Mark("3"))];
    assert_eq!(run(&chain, "/"), Outcome::Reply(text(200, "7 /123321")));
}

#[test]
fn a_middleware_that_answers_stops_the_descent() {
    let chain = vec![link(Mark("1")), link(Gate), link(Mark("3"))];
    assert_eq!(run(&chain, "/"), Outcome::Reply(text(403, "no1")));
}

#[test]
fn descend_says_how_far_the_request_got() {
    let chain = vec![link(Mark("1")), link(Gate), link(Mark("3"))];
    assert_eq!(
        descend(&chain, get("/")),
        Descent::Answered { depth: 1, response: text(403, "no") }
    );
    let open = vec![link(Mark("1")), link(Mark("2"))];
    assert_eq!(descend(&open, get("/")), Descent::Endpoint(get("/12")));
}

#[test]
fn ascend_goes_through_the_first_middlewares_only() {
    let chain = vec![link(Mark("1")), link(Mark("2")), link(Mark("3"))];
    assert_eq!(ascend(&chain, 0, Outcome::Reply(text(200, ""))), Outcome::Reply(text(200, "")));
    assert_eq!(ascend(&chain, 2, Outcome::Reply(text(200, ""))), Outcome::Reply(text(200, "21")));
    assert_eq!(ascend(&chain, 3, Outcome::Reply(text(200, ""))), Outcome::Reply(text(200, "321")));
}

#[test]
fn a_fault_goes_up_until_something_stops_it() {
    let chain = vec![link(Mark("1")), link(Mark("2"))];
    assert_eq!(run(&chain, "/panic"), Outcome::Reply(text(200, "7 /panic1221")));
    let exact: Vec<Link<String>> = Vec::new();
    assert_eq!(run(&exact, "/panic"), Outcome::Fault("Hello, world!".to_string()));
}

#[test]
fn a_fault_below_catch_unwind_becomes_the_error_reply() {
    let chain = vec![CatchUnwind::new().link(), link(Mark(""))];
    assert_eq!(run(&chain, "/panic"), Outcome::Reply(error_reply()));
}

#[test]
fn middlewares_before_the_boundary_see_a_reply() {
    let chain = vec![link(Mark("!")), CatchUnwind::new().link()];
    let mut expected = error_reply();
    expected.body.extend_from_slice(b"!");
    assert_eq!(
        ascend(&chain, 2, Outcome::Fault("boom".to_string())),
        Outcome::Reply(expected)
    );
}

#[test]
fn default_headers_complete_the_error_reply() {
    let chain = vec![
        DefaultHeaders::new().header("x-version", "1.0").header("Content-Type", "text/html").link(),
        CatchUnwind::new().link(),
    ];
    let mut expected = error_reply();
    expected.headers.push(("x-version".to_string(), "1.0".to_string()));
    assert_eq!(ascend(&chain, 2, Outcome::Fault("boom".to_string())), Outcome::Reply(expected));
}

#[test]
fn panic_handling() {
    // Listener A stops faults and goes on serving.
    let soft_fail = vec![CatchUnwind::new().link()];
    assert_eq!(run(&soft_fail, "/panic"), Outcome::Reply(error_reply()));
    assert_eq!(run(&soft_fail, "/panic"), Outcome::Reply(error_reply()));
    assert_eq!(run(&soft_fail, "/still-here"), Outcome::Reply(text(200, "7 /still-here")));

    // Listener B escalates the first fault, and its host stops serving.
    let (propagate, mut panic_handle) = PropagateUnwind::<String>::new();
    let hard_fail = vec![propagate.link()];
    let mut serving = true;
    assert!(serving);
    assert_eq!(react(Event::Handle(panic_handle.poll())), Reaction::Wait);
    assert_eq!(run(&hard_fail, "/panic"), Outcome::Reply(error_reply()));
    match react(Event::Handle(panic_handle.poll())) {
        Reaction::Shutdown(payload) => {
            assert_eq!(payload, "Hello, world!");
            serving = false;
        }
        other => panic!("expected a shutdown, got {:?}", other),
    }
    assert!(!serving);
    assert!(panic_handle.is_resolved());
}

#[test]
fn a_listener_torn_down_without_a_fault_calls_for_nothing() {
    let (propagate, mut panic_handle) = PropagateUnwind::<String>::new();
    let chain = vec![propagate.link()];
    assert_eq!(run(&chain, "/fine"), Outcome::Reply(text(200, "7 /fine")));
    drop(chain);
    let resolution = panic_handle.poll();
    assert_eq!(resolution, Resolution::Closed);
    assert_eq!(react(Event::Handle(resolution)), Reaction::StandDown);
}
