//! What a handler hands to the transport: a status code and a text.

use vstd::prelude::*;

verus! {

/// The request was carried out.
pub const OK: u16 = 200;

/// The request came from an origin that is not allowed.
pub const FORBIDDEN: u16 = 403;

/// No route matches the request.
pub const NOT_FOUND: u16 = 404;

/// The store or the range resolver refused the request.
pub const RANGE_NOT_SATISFIABLE: u16 = 416;

/// The body of the request could not be read.
pub const UNPROCESSABLE_ENTITY: u16 = 422;

/// A status code with the text that goes with it.
#[derive(Debug, PartialEq, Eq)]
pub struct Response {
    pub status: u16,
    pub body: String,
}

/// A [`Response`] as a plain mathematical value.
pub struct ResponseView {
    pub status: u16,
    pub body: Seq<char>,
}

impl View for Response {
    type V = ResponseView;

    open spec fn view(&self) -> ResponseView {
        ResponseView { status: self.status, body: self.body@ }
    }
}

impl Response {
    /// The response that confirms a request with the words `body`.
    pub fn confirm(body: &str) -> (response: Response)
        ensures
            response@ == (ResponseView { status: OK, body: body@ }),
    {
        Response { status: OK, body: body.to_owned() }
    }
}

} // verus!
