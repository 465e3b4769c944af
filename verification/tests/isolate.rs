use tide_panic::{contain, error_reply, CatchUnwind, Middleware, Outcome, Response};

fn plain(status: u16, body: &str) -> Response {
    Response { status, headers: Vec::new(), body: body.as_bytes().to_vec() }
}

#[test]
fn error_reply_is_the_fixed_response() {
    let reply = error_reply();
    assert_eq!(reply.status, 500);
    assert_eq!(
        reply.headers,
        vec![("content-type".to_string(), "text/plain; charset=utf-8".to_string())]
    );
    assert_eq!(reply.body, b"Internal server error".to_vec());
}

#[test]
fn contain_turns_a_fault_into_the_error_reply() {
    let out = contain(Outcome::Fault("Hello, world!".to_string()));
    assert_eq!(out, Outcome::Reply(error_reply()));
}

#[test]
fn contain_leaves_a_reply_alone() {
    let out: Outcome<String> = contain(Outcome::Reply(plain(200, "ok")));
    assert_eq!(out, Outcome::Reply(plain(200, "ok")));
}

#[test]
fn contain_does_not_look_at_the_payload() {
    let first = contain(Outcome::Fault(1u64));
    let second = contain(Outcome::Fault(2u64));
    assert_eq!(first, second);
}

#[test]
fn catch_unwind_answers_a_fault_with_500() {
    let middleware = CatchUnwind::new();
    let out = middleware.handle(Outcome::Fault(String::from("boom")));
    match out {
        Outcome::Reply(reply) => {
            assert_eq!(reply.status, 500);
            assert_eq!(reply.body, b"Internal server error".to_vec());
        }
        Outcome::Fault(_) => panic!("the fault got through"),
    }
}

#[test]
fn catch_unwind_keeps_serving_after_a_fault() {
    let middleware = CatchUnwind::new();
    let first = middleware.handle(Outcome::Fault(String::from("boom")));
    assert_eq!(first, Outcome::Reply(error_reply()));
    let second = middleware.handle(Outcome::Fault(String::from("boom again")));
    assert_eq!(second, Outcome::Reply(error_reply()));
    let third: Outcome<String> = middleware.handle(Outcome::Reply(plain(200, "fine")));
    assert_eq!(third, Outcome::Reply(plain(200, "fine")));
}

#[test]
fn catch_unwind_passes_every_request_on() {
    let middleware = CatchUnwind::new();
    let request = tide_panic::Request {
        method: "GET".to_string(),
        path: "/".to_string(),
        headers: Vec::new(),
        body: Vec::new(),
    };
    let admission = Middleware::<String>::enter(&middleware, request.clone());
    assert_eq!(admission, tide_panic::Admission::Continue(request));
}
