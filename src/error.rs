//! The one error type of the library: a message and whether a retry may help.

use vstd::prelude::*;

verus! {

/// A failure to process a submission. `retry` tells the caller whether the
/// same operation may succeed when attempted again later.
#[derive(Debug)]
pub struct Error {
    pub message: String,
    pub retry: bool,
}

impl Error {
    pub fn new(message: &str, retry: bool) -> (r: Error)
        ensures
            r.message@ == message@,
            r.retry == retry,
    {
        Error { message: message.to_string(), retry }
    }

    /// A failure of the transport itself (network, timeout): retryable.
    pub fn transport(message: String) -> (r: Error)
        ensures
            r.message == message,
            r.retry,
    {
        Error { message, retry: true }
    }

    /// Whether this error is `message` with the retry flag `retry`.
    pub open spec fn is(&self, message: Seq<char>, retry: bool) -> bool {
        self.message@ == message && self.retry == retry
    }
}

pub open spec fn server_error_prefix() -> Seq<char> {
    "got server error: "@
}

/// The error for an HTTP answer with status `status`, shown as `shown`: a
/// 5xx status is a retryable failure, any other lets the caller go on.
pub fn server_error(status: u16, shown: &str) -> (r: Option<Error>)
    ensures
        r is Some <==> 500 <= status <= 599,
        r matches Some(e) ==> e.message@ == server_error_prefix() + shown@ && e.retry,
{
    if 500 <= status && status <= 599 {
        let mut message = "got server error: ".to_string();
        message.append(shown);
        Some(Error { message, retry: true })
    } else {
        None
    }
}

} // verus!
