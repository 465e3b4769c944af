//! Requests, responses, and the outcome of running part of a chain.

use vstd::prelude::*;
use vstd::string::*;

verus! {

/// Names and values, as text, in order: the mathematical content of a list of
/// headers or of parameters.
pub type Fields = Seq<(Seq<char>, Seq<char>)>;

/// An inbound request, as the chain sees it.
#[derive(Debug, Clone, PartialEq, Eq)]
pub struct Request {
    pub method: String,
    pub path: String,
    pub headers: Vec<(String, String)>,
    pub body: Vec<u8>,
}

/// The mathematical content of a [`Request`].
pub struct RequestView {
    pub method: Seq<char>,
    pub path: Seq<char>,
    pub headers: Fields,
    pub body: Seq<u8>,
}

/// A response: status, headers in order, body.
#[derive(Debug, Clone, PartialEq, Eq)]
pub struct Response {
    pub status: u16,
    pub headers: Vec<(String, String)>,
    pub body: Vec<u8>,
}

/// The mathematical content of a [`Response`].
pub struct ResponseView {
    pub status: u16,
    pub headers: Fields,
    pub body: Seq<u8>,
}

/// The name and value of each header, as text, in order.
pub open spec fn header_views(headers: Seq<(String, String)>) -> Fields {
    Seq::new(headers.len(), |i: int| (headers[i].0@, headers[i].1@))
}

impl View for Request {
    type V = RequestView;

    open spec fn view(&self) -> RequestView {
        RequestView {
            method: self.method@,
            path: self.path@,
            headers: header_views(self.headers@),
            body: self.body@,
        }
    }
}

impl View for Response {
    type V = ResponseView;

    open spec fn view(&self) -> ResponseView {
        ResponseView {
            status: self.status,
            headers: header_views(self.headers@),
            body: self.body@,
        }
    }
}

/// What running a middleware, an endpoint, or a stretch of the chain came to:
/// a reply, or a fault carrying whatever the failing computation attached.
/// The payload is carried along and never looked into.
#[derive(Debug, PartialEq, Eq)]
pub enum Outcome<P> {
    Reply(Response),
    Fault(P),
}

/// The mathematical content of an [`Outcome`].
pub enum OutcomeView<P> {
    Reply(ResponseView),
    Fault(P),
}

impl<P> View for Outcome<P> {
    type V = OutcomeView<P>;

    open spec fn view(&self) -> OutcomeView<P> {
        match self {
            Outcome::Reply(response) => OutcomeView::Reply(response@),
            Outcome::Fault(payload) => OutcomeView::Fault(*payload),
        }
    }
}

/// The status code that `http` gives for "Internal Server Error".
///
/// Trusted: `http::StatusCode::INTERNAL_SERVER_ERROR` is declared with the
/// number 500, and `as_u16` hands that number back.
#[verifier::external_body]
fn internal_server_error() -> (code: u16)
    ensures
        code == 500,
{
    http::StatusCode::INTERNAL_SERVER_ERROR.as_u16()
}

/// The reply that stands in for a request whose processing faulted: status
/// 500, one header `content-type: text/plain; charset=utf-8`, and the body
/// `Internal server error`.
pub open spec fn error_reply_view() -> ResponseView {
    ResponseView {
        status: 500,
        headers: seq![("content-type"@, "text/plain; charset=utf-8"@)],
        body: "Internal server error".spec_bytes(),
    }
}

/// Builds the fixed error reply.
pub fn error_reply() -> (response: Response)
    ensures
        response@ == error_reply_view(),
{
    let mut headers: Vec<(String, String)> = Vec::new();
    headers.push(("content-type".to_owned(), "text/plain; charset=utf-8".to_owned()));
    let response = Response {
        status: internal_server_error(),
        headers,
        body: "Internal server error".as_bytes_vec(),
    };
    assert(response@.headers =~= error_reply_view().headers);
    response
}

} // verus!
