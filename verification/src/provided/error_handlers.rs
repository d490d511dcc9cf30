//! The three fallback responses.

use crate::response::Response;
use vstd::prelude::*;

verus! {

/// The fallback responses by kind.
#[derive(Clone, Copy, Debug, PartialEq, Eq, Structural)]
pub enum Provided {
    /// No router knows the path.
    NotFound,
    /// The path is known, the method is not.
    MethodNotAllowed,
    /// A fault was caught while the request was served.
    InternalServerError,
}

impl Provided {
    /// The status code of this fallback.
    pub open spec fn status(self) -> u16 {
        match self {
            Provided::NotFound => 404,
            Provided::MethodNotAllowed => 405,
            Provided::InternalServerError => 500,
        }
    }

    /// The body of this fallback.
    pub open spec fn body(self) -> Seq<char> {
        match self {
            Provided::NotFound => "not found\n"@,
            Provided::MethodNotAllowed => "method not allowed\n"@,
            Provided::InternalServerError => "internal server error\n"@,
        }
    }

    /// The response of this fallback.
    pub fn response(self) -> (response: Response)
        ensures
            response.status == self.status(),
            response.body@ == self.body(),
    {
        match self {
            Provided::NotFound => not_found(),
            Provided::MethodNotAllowed => method_not_allowed(),
            Provided::InternalServerError => internal_server_error(),
        }
    }
}

/// The response to a path that no router resolves.
pub fn not_found() -> (response: Response)
    ensures
        response.status == 404,
        response.body@ == "not found\n"@,
{
    Response::new(404, "not found\n")
}

/// The response to a method that the resolved path does not offer.
pub fn method_not_allowed() -> (response: Response)
    ensures
        response.status == 405,
        response.body@ == "method not allowed\n"@,
{
    Response::new(405, "method not allowed\n")
}

/// The response to a fault. It takes nothing of the request: after a fault
/// the request's state cannot be relied on.
pub fn internal_server_error() -> (response: Response)
    ensures
        response.status == 500,
        response.body@ == "internal server error\n"@,
{
    Response::new(500, "internal server error\n")
}

} // verus!
