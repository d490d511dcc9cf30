//! The response that the core itself can produce.

use vstd::prelude::*;

verus! {

/// A complete response: a status code and a body of text.
pub struct Response {
    pub status: u16,
    pub body: String,
}

impl Response {
    /// A response with the given status and body.
    pub fn new(status: u16, body: &str) -> (response: Response)
        ensures
            response.status == status,
            response.body@ == body@,
    {
        Response { status, body: body.to_owned() }
    }
}

} // verus!
