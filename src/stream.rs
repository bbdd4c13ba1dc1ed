//! What is pushed to an open stream, and the body wrapper around its receiver.
use crate::report::Report;
use crate::user::ToStrUser;
use vstd::prelude::*;

verus! {

/// The first chunk sent on a stream: a user's view, or an administrator's.
#[allow(inconsistent_fields)]
pub enum StreamPayload<'a> {
    Ready {
        user: ToStrUser<'a>,
        reports: Vec<&'a Report>,
        nicknames: Vec<(&'a str, &'a str)>,
    },
    ReadyAdmin { id: &'a str, users: Vec<ToStrUser<'a>>, reports: &'a Vec<Report> },
}

/// A chunk stream that never yields an error item.
pub struct InfallibleStream<S> {
    pub stream: S,
}

impl<S> InfallibleStream<S> {
    /// Wraps `stream`.
    pub fn new(stream: S) -> (r: Self)
        ensures
            r.stream == stream,
    {
        InfallibleStream { stream }
    }
}

} // verus!
