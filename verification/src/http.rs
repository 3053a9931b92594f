use vstd::prelude::*;

verus! {

/// `400 Bad Request`
pub const BAD_REQUEST: u16 = 400;
/// `403 Forbidden`
pub const FORBIDDEN: u16 = 403;
/// `404 Not Found`
pub const NOT_FOUND: u16 = 404;
/// `409 Conflict`
pub const CONFLICT: u16 = 409;
/// `429 Too Many Requests`
pub const TOO_MANY_REQUESTS: u16 = 429;
/// `500 Internal Server Error`, the status of an error that names none.
pub const INTERNAL_SERVER_ERROR: u16 = 500;
/// `502 Bad Gateway`
pub const BAD_GATEWAY: u16 = 502;

/// An error answered to the client: an HTTP status and a message.
#[derive(Debug)]
pub struct HttpError {
    pub status: u16,
    pub message: String,
}

impl HttpError {
    /// The error has this status and this message.
    pub open spec fn is(self, status: u16, message: Seq<char>) -> bool {
        self.status == status && self.message@ == message
    }

    /// Builds the error answered with `message` and `status`.
    pub fn new(message: &str, status: u16) -> (e: HttpError)
        ensures
            e.is(status, message@),
    {
        HttpError { status, message: String::from_str(message) }
    }
}

} // verus!
