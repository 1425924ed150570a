//! The classified failures an inference call can surface.
use vstd::prelude::*;

verus! {

/// A classified failure of one inference round trip.
///
/// The four spec classes are kept apart: a transport fault is never
/// conflated with a rejection, and an unreadable body is never conflated
/// with either.
#[derive(Debug)]
pub enum Error {
    /// The transport itself failed — connection, signing or SDK fault —
    /// before a reply body was classified; the transport's own
    /// diagnostic is carried as-is, and nothing is retried here.
    Transport(String),
    /// The reply did not decode: the body matched no expected schema, or
    /// a successful envelope carried image data that was not valid
    /// base64.  Carries the decoder's failure text.
    Decode(String),
    /// The backend answered with an error envelope; the message is carried
    /// verbatim.
    ModelResponse(String),
    /// An internal expectation failed, such as an empty content list in a
    /// successful envelope, or a status off the protocol entirely.
    Unexpected(String),
}

} // verus!
