//! The request as the core sees it.

use uuid::Uuid;
use vstd::prelude::*;

verus! {

/// One incoming request. `head` is whatever the transport delivered with it;
/// the core carries it along and never looks inside.
pub struct Request<T> {
    /// Tells this request from every other one.
    pub id: u128,
    /// The method's name, as the transport spells it.
    pub method: String,
    /// The path, without query.
    pub path: String,
    pub head: T,
    /// The capture groups of the pattern that matched the path, in order. It
    /// is empty unless a pattern route serves the request.
    pub path_params: Vec<String>,
}

/// What every identifier of a new request has: the version and variant bits
/// of a random UUID.
pub open spec fn is_random_id(id: u128) -> bool {
    (id >> 76) & 0xf == 4 && (id >> 62) & 0x3 == 2
}

/// Draws a random UUID with `Uuid::new_v4` and gives it as a number. Trusted:
/// the version is 4 and the variant is the RFC's, which is all that holds of
/// every draw. The draw itself fails only where the operating system has no
/// random bytes to give.
#[verifier::external_body]
fn fresh_id() -> (id: u128)
    ensures
        is_random_id(id),
{
    Uuid::new_v4().as_u128()
}

impl<T> Request<T> {
    /// A request with a fresh identifier and no path parameters.
    pub fn new(method: String, path: String, head: T) -> (request: Request<T>)
        ensures
            is_random_id(request.id),
            request.method == method,
            request.path == path,
            request.head == head,
            request.path_params@ == Seq::<String>::empty(),
    {
        Request::with_id(fresh_id(), method, path, head)
    }

    /// A request with the identifier `id` and no path parameters.
    pub fn with_id(id: u128, method: String, path: String, head: T) -> (request: Request<T>)
        ensures
            request.id == id,
            request.method == method,
            request.path == path,
            request.head == head,
            request.path_params@ == Seq::<String>::empty(),
    {
        Request { id, method, path, head, path_params: Vec::new() }
    }

    /// The same request with `path_params` in place of its path parameters.
    pub fn with_path_params(self, path_params: Vec<String>) -> (request: Request<T>)
        ensures
            request.id == self.id,
            request.method == self.method,
            request.path == self.path,
            request.head == self.head,
            request.path_params == path_params,
    {
        Request {
            id: self.id,
            method: self.method,
            path: self.path,
            head: self.head,
            path_params,
        }
    }
}

} // verus!
