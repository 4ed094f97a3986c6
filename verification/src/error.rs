//! What can go wrong during a run, and which failures are worth another try.

use vstd::prelude::*;

verus! {

/// What is known of a failed request.
#[derive(Debug, Clone, Copy, PartialEq, Eq, Structural)]
pub struct RequestFailure {
    /// The request ran out of time.
    pub timeout: bool,
    /// The connection could not be made.
    pub connect: bool,
    /// The request could not be sent.
    pub request: bool,
    /// The status of the answer, where the failure is a refused status.
    pub status: Option<u16>,
}

/// A failure inside the request pipeline.
#[derive(Debug, Clone, Copy, PartialEq, Eq, Structural)]
pub enum MiddlewareFailure {
    /// The request itself failed.
    Reqwest(RequestFailure),
    /// A stage of the pipeline failed.
    Middleware,
}

/// The failures of a run.
#[derive(Debug, Clone, Copy, PartialEq, Eq, Structural)]
pub enum Error {
    /// A request failed inside the request pipeline.
    ReqwestMiddleware(MiddlewareFailure),
    /// A request failed.
    Reqwest(RequestFailure),
    /// The progress channel is closed.
    Sender,
    /// A file could not be read or written.
    IO,
    /// An answer is not the JSON that was expected.
    Json,
    /// A task ended without a result.
    Join,
    /// A page could not be rendered.
    Handlebars,
    /// A token payload is not valid base64.
    Base64Decode,
    /// A token payload could not be decrypted.
    Rsa,
    /// A byte stream stood still for too long.
    StreamStuck,
    /// The atomic file has failed before and takes no more operations.
    AtomicFilePoisoned,
    /// The atomic file could not be moved to its destination.
    AtomicFileWrite,
    /// A post's body could not be rewritten.
    Rewriting,
    /// A search pattern could not be compiled.
    Pattern,
    /// A body names somebody for whom no alias was collected.
    UnknownName,
}

/// Tells whether a refused status may be answered differently next time:
/// every status but the client errors, and of those 408 and 429.
pub open spec fn status_is_retryable(status: u16) -> bool {
    !(400 <= status <= 499) || status == 408 || status == 429
}

/// Tells whether a failed request is worth another try.
pub open spec fn request_is_retryable(e: RequestFailure) -> bool {
    e.timeout || e.connect || e.request || match e.status {
        Some(status) => status_is_retryable(status),
        None => false,
    }
}

/// Tells whether a failure is transient: a failed request that is worth
/// another try, a failed file operation, or a stalled stream.
pub open spec fn is_transient(e: Error) -> bool {
    match e {
        Error::ReqwestMiddleware(MiddlewareFailure::Reqwest(f)) => request_is_retryable(f),
        Error::Reqwest(f) => request_is_retryable(f),
        Error::IO => true,
        Error::StreamStuck => true,
        _ => false,
    }
}

/// Tells whether a failed request is worth another try.
pub fn classify_reqwest_error(e: &RequestFailure) -> (retry: bool)
    ensures
        retry == request_is_retryable(*e),
{
    e.timeout || e.connect || e.request || match e.status {
        Some(status) => !(400 <= status && status <= 499) || status == 408 || status == 429,
        None => false,
    }
}

impl Error {
    /// Tells whether the operation that failed with this error should be
    /// tried again; the number of attempts so far does not matter.
    pub fn should_retry(&self, attempts: u32) -> (retry: bool)
        ensures
            retry == is_transient(*self),
    {
        match self {
            Error::ReqwestMiddleware(MiddlewareFailure::Reqwest(f)) => classify_reqwest_error(f),
            Error::Reqwest(f) => classify_reqwest_error(f),
            Error::IO => true,
            Error::StreamStuck => true,
            _ => false,
        }
    }

    /// The line of text that names each failure.
    pub open spec fn spec_message(self) -> Seq<char> {
        match self {
            Error::ReqwestMiddleware(_) => "reqwest_middleware error"@,
            Error::Reqwest(_) => "reqwest error"@,
            Error::Sender => "channel closed"@,
            Error::IO => "io error"@,
            Error::Json => "json error"@,
            Error::Join => "join error"@,
            Error::Handlebars => "handlebars render error"@,
            Error::Base64Decode => "base64 decode error"@,
            Error::Rsa => "rsa error"@,
            Error::StreamStuck => "bytes stream stuck"@,
            Error::AtomicFilePoisoned => "atomic file poisoned"@,
            Error::AtomicFileWrite => "atomic file write error"@,
            Error::Rewriting => "rewriting error"@,
            Error::Pattern => "pattern error"@,
            Error::UnknownName => "unknown name"@,
        }
    }

    /// A line of text that names the failure.
    pub fn message(&self) -> (s: String)
        ensures
            s@ == self.spec_message(),
    {
        match self {
            Error::ReqwestMiddleware(_) => "reqwest_middleware error".to_string(),
            Error::Reqwest(_) => "reqwest error".to_string(),
            Error::Sender => "channel closed".to_string(),
            Error::IO => "io error".to_string(),
            Error::Json => "json error".to_string(),
            Error::Join => "join error".to_string(),
            Error::Handlebars => "handlebars render error".to_string(),
            Error::Base64Decode => "base64 decode error".to_string(),
            Error::Rsa => "rsa error".to_string(),
            Error::StreamStuck => "bytes stream stuck".to_string(),
            Error::AtomicFilePoisoned => "atomic file poisoned".to_string(),
            Error::AtomicFileWrite => "atomic file write error".to_string(),
            Error::Rewriting => "rewriting error".to_string(),
            Error::Pattern => "pattern error".to_string(),
            Error::UnknownName => "unknown name".to_string(),
        }
    }
}

} // verus!
