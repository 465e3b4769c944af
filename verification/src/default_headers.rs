//! A middleware that gives every reply the headers it lacks.

use vstd::prelude::*;
use vstd::string::*;

use crate::message::{header_views, Fields, Outcome, OutcomeView, Request, RequestView, Response,
    ResponseView};
use crate::middleware::{Admission, AdmissionView, Link, Middleware};

verus! {

/// Whether a character may stand in the name of a header: a letter, a digit,
/// or one of ``!#$%&'*+-.^_`|~``.
pub open spec fn header_name_char(c: char) -> bool {
    let code = c as u32;
    ||| 0x61 <= code <= 0x7a
    ||| 0x41 <= code <= 0x5a
    ||| 0x30 <= code <= 0x39
    ||| code == 0x21
    ||| 0x23 <= code <= 0x27
    ||| code == 0x2a
    ||| code == 0x2b
    ||| code == 0x2d
    ||| code == 0x2e
    ||| 0x5e <= code <= 0x60
    ||| code == 0x7c
    ||| code == 0x7e
}

/// Whether `text` can name a header: 1 to 65535 characters, each of them one
/// that may stand in a name.
pub open spec fn header_name_fits(text: Seq<char>) -> bool {
    &&& 1 <= text.len() <= 65535
    &&& forall|i: int| 0 <= i < text.len() ==> header_name_char(#[trigger] text[i])
}

/// A character of a name as it is kept: a capital letter as its small one,
/// any other as it is.
pub open spec fn small_letter(c: char) -> char {
    if 0x41 <= c as u32 <= 0x5a {
        ((c as u32) + 0x20) as char
    } else {
        c
    }
}

/// The name of a header as it is kept: in small letters.
pub open spec fn canonical_header_name(text: Seq<char>) -> Seq<char> {
    Seq::new(text.len(), |i: int| small_letter(text[i]))
}

/// Whether bytes can be the value of a header: no control byte among them
/// but the tab.
pub open spec fn header_value_fits(bytes: Seq<u8>) -> bool {
    forall|i: int|
        0 <= i < bytes.len() ==> {
            let byte = #[trigger] bytes[i];
            (byte >= 32 && byte != 127) || byte == 9
        }
}

/// Has `http` read the name of a header, and gives the name as `http` keeps
/// it.
///
/// Trusted: `HeaderName::from_bytes` takes 1 to 65535 bytes, each of which
/// its table `HEADER_CHARS` maps to a byte other than zero, and fails on
/// anything else. The bytes that the table takes are those of the characters
/// of `header_name_char`, each of them one byte of the text, so that the
/// text has as many characters as bytes. The name holds each byte as the
/// table maps it, a capital letter as its small one and any other as it is,
/// and `HeaderName::as_str` hands that text out.
#[verifier::external_body]
fn parse_header_name(text: &str) -> (name: Option<String>)
    ensures
        name is Some <==> header_name_fits(text@),
        name matches Some(kept) ==> kept@ == canonical_header_name(text@),
{
    match http::header::HeaderName::from_bytes(text.as_bytes()) {
        Ok(name) => Some(name.as_str().to_owned()),
        Err(_) => None,
    }
}

/// Asks `http` whether a text can be the value of a header.
///
/// Trusted: `HeaderValue::from_str` succeeds when every byte of the text is
/// 32 or more and not 127, or is the tab, and fails otherwise.
#[verifier::external_body]
fn accepts_header_value(text: &str) -> (fits: bool)
    ensures
        fits == header_value_fits(text.spec_bytes()),
{
    http::header::HeaderValue::from_str(text).is_ok()
}

/// Whether a header of this name is among `headers`.
pub open spec fn has_header(headers: Fields, name: Seq<char>) -> bool {
    exists|i: int| 0 <= i < headers.len() && (#[trigger] headers[i]).0 == name
}

/// `headers` with each of `defaults`, taken in order, added at the end
/// unless a header of its name is already there.
pub open spec fn with_defaults(
    headers: Fields,
    defaults: Fields,
) -> Fields
    decreases defaults.len(),
{
    if defaults.len() == 0 {
        headers
    } else if has_header(headers, defaults[0].0) {
        with_defaults(headers, defaults.skip(1))
    } else {
        with_defaults(headers.push(defaults[0]), defaults.skip(1))
    }
}

/// A response with the default headers that it lacks.
pub open spec fn completed(response: ResponseView, defaults: Fields) -> ResponseView {
    ResponseView {
        status: response.status,
        headers: with_defaults(response.headers, defaults),
        body: response.body,
    }
}

/// Looks for a header by its name.
fn find_header(headers: &Vec<(String, String)>, name: &String) -> (found: bool)
    ensures
        found == has_header(header_views(headers@), name@),
{
    let mut i: usize = 0;
    while i < headers.len()
        invariant
            i <= headers@.len(),
            forall|j: int| 0 <= j < i ==> header_views(headers@)[j].0 != name@,
        decreases headers@.len() - i,
    {
        if headers[i].0 == *name {
            assert(header_views(headers@)[i as int].0 == name@);
            return true;
        }
        i = i + 1;
    }
    false
}

/// A middleware that adds its headers to every reply that passes, each
/// unless the reply already has a header of that name. It leaves faults
/// alone.
#[derive(Debug, Clone)]
pub struct DefaultHeaders {
    headers: Vec<(String, String)>,
}

impl DefaultHeaders {
    /// The default headers, in the order in which they were given.
    pub closed spec fn entries(&self) -> Fields {
        header_views(self.headers@)
    }

    /// A middleware with no default headers yet.
    pub fn new() -> (middleware: DefaultHeaders)
        ensures
            middleware.entries() == Fields::empty(),
    {
        let middleware = DefaultHeaders { headers: Vec::new() };
        assert(middleware.entries() =~= Fields::empty());
        middleware
    }

    /// Whether `key` and `value` can be a header.
    pub fn accepts(key: &str, value: &str) -> (fits: bool)
        ensures
            fits == (header_name_fits(key@) && header_value_fits(value.spec_bytes())),
    {
        parse_header_name(key).is_some() && accepts_header_value(value)
    }

    /// Adds a default header. The name is kept in small letters.
    pub fn header(self, key: &str, value: &str) -> (middleware: DefaultHeaders)
        requires
            header_name_fits(key@),
            header_value_fits(value.spec_bytes()),
        ensures
            middleware.entries() == self.entries().push((canonical_header_name(key@), value@)),
    {
        let mut headers = self.headers;
        match parse_header_name(key) {
            Some(name) => {
                headers.push((name, value.to_owned()));
            },
            None => {},
        }
        let middleware = DefaultHeaders { headers };
        assert(middleware.entries() =~= self.entries().push(
            (canonical_header_name(key@), value@),
        ));
        middleware
    }

    /// Gives a response the default headers that it lacks. Names are
    /// compared as they stand; those of the default headers are in small
    /// letters.
    pub fn complete(&self, response: Response) -> (result: Response)
        ensures
            result@ == completed(response@, self.entries()),
    {
        let mut headers = response.headers;
        let mut i: usize = 0;
        assert(self.entries().skip(0) =~= self.entries());
        while i < self.headers.len()
            invariant
                i <= self.headers@.len(),
                with_defaults(header_views(headers@), self.entries().skip(i as int))
                    == with_defaults(header_views(response.headers@), self.entries()),
            decreases self.headers@.len() - i,
        {
            proof {
                assert(self.entries().skip(i as int).skip(1) =~= self.entries().skip(i as int + 1));
                assert(self.entries().skip(i as int)[0] == self.entries()[i as int]);
            }
            let ghost before = header_views(headers@);
            if !find_header(&headers, &self.headers[i].0) {
                headers.push((self.headers[i].0.clone(), self.headers[i].1.clone()));
                assert(header_views(headers@) =~= before.push(self.entries()[i as int]));
            }
            i = i + 1;
        }
        Response { status: response.status, headers, body: response.body }
    }

    /// This middleware as a link of a chain.
    pub fn link<P>(self) -> (link: Link<P>)
        ensures
            forall|request: RequestView| #[trigger]
                link.admits(request) == AdmissionView::Continue(request),
            forall|outcome: OutcomeView<P>| #[trigger]
                link.settles(outcome) == Middleware::<P>::settles(&self, outcome),
    {
        Link { middleware: Box::new(self) }
    }
}

impl Default for DefaultHeaders {
    fn default() -> (middleware: DefaultHeaders)
        ensures
            middleware.entries() == Fields::empty(),
    {
        DefaultHeaders::new()
    }
}

impl<P> Middleware<P> for DefaultHeaders {
    open spec fn admits(&self, request: RequestView) -> AdmissionView {
        AdmissionView::Continue(request)
    }

    open spec fn settles(&self, outcome: OutcomeView<P>) -> OutcomeView<P> {
        match outcome {
            OutcomeView::Reply(response) => OutcomeView::Reply(completed(response, self.entries())),
            OutcomeView::Fault(payload) => OutcomeView::Fault(payload),
        }
    }

    fn enter(&self, request: Request) -> (admission: Admission) {
        Admission::Continue(request)
    }

    fn handle(&self, outcome: Outcome<P>) -> (result: Outcome<P>) {
        match outcome {
            Outcome::Reply(response) => Outcome::Reply(self.complete(response)),
            Outcome::Fault(payload) => Outcome::Fault(payload),
        }
    }
}

/// Completing leaves every header that was there in its place, and
/// afterwards there is a header of the name of every default.
pub proof fn lemma_defaults_complete(headers: Fields, defaults: Fields)
    ensures
        headers.len() <= with_defaults(headers, defaults).len(),
        forall|i: int|
            0 <= i < headers.len() ==> with_defaults(headers, defaults)[i] == headers[i],
        forall|j: int|
            0 <= j < defaults.len() ==> has_header(
                with_defaults(headers, defaults),
                #[trigger] defaults[j].0,
            ),
    decreases defaults.len(),
{
    if defaults.len() > 0 {
        let first = defaults[0];
        let rest = defaults.skip(1);
        let grown = if has_header(headers, first.0) {
            headers
        } else {
            headers.push(first)
        };
        let result = with_defaults(headers, defaults);
        assert(result == with_defaults(grown, rest));
        lemma_defaults_complete(grown, rest);
        assert forall|i: int| 0 <= i < headers.len() implies result[i] == headers[i] by {
            assert(result[i] == grown[i]);
        }
        if !has_header(headers, first.0) {
            assert(grown[headers.len() as int].0 == first.0);
        }
        assert(has_header(grown, first.0));
        let k = choose|k: int| 0 <= k < grown.len() && (#[trigger] grown[k]).0 == first.0;
        assert(result[k] == grown[k]);
        assert forall|j: int| 0 <= j < defaults.len() implies has_header(
            result,
            #[trigger] defaults[j].0,
        ) by {
            if j > 0 {
                assert(defaults[j] == rest[j - 1]);
            }
        }
    }
}

} // verus!
