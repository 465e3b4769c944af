//! Fault isolation for a request-handling middleware chain.
//!
//! A request travels down an ordered chain of middlewares to a terminal
//! endpoint, and the outcome travels back up. An outcome is either a reply or
//! a fault: an unrecoverable failure raised further down. Two middlewares stop
//! faults where they stand. [`CatchUnwind`] answers the request with a fixed
//! error reply and lets the listener go on. [`PropagateUnwind`] does the same
//! and also forwards the first fault it sees, once, to an [`UnwindHandle`]
//! that a supervisor waits on.

pub mod channel;
pub mod default_headers;
pub mod escalate;
pub mod isolate;
pub mod message;
pub mod middleware;
pub mod supervisor;

pub use default_headers::DefaultHeaders;
pub use escalate::{claim, dispatch, Capture, Escalation, PropagateUnwind, Resolution, UnwindHandle};
pub use isolate::{contain, CatchUnwind};
pub use message::{error_reply, Fields, Outcome, OutcomeView, Request, RequestView, Response, ResponseView};
pub use middleware::{ascend, descend, Admission, AdmissionView, Descent, DescentView, Endpoint,
    Link, Middleware, RequestContext};
pub use supervisor::{react, Event, Reaction};
