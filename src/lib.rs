//! HTTP/1.1 message layer: validated headers, status codes, request parsing
//! and response serialization.

pub mod buffer;
pub mod form;
pub mod headers;
pub mod query;
pub mod request;
pub mod response;
pub mod status;
pub mod uri;
pub mod wire_lemmas;

pub use form::{FileEntry, FormCache, FormValue};
pub use headers::{HeaderError, HeaderName, HeaderValue, Headers, CONTENT_LENGTH, CONTENT_TYPE};
pub use query::{QueryCache, QueryValue};
pub use request::{parse_request, Method, Request, RequestError};
pub use response::{Response, ResponseBuilder, ResponseError};
pub use status::{StatusCode, StatusCodeError};

use vstd::prelude::*;

verus! {

/// Integer sum.
pub fn add1(a: i32, b: i32) -> (r: i32)
    requires
        i32::MIN <= a + b <= i32::MAX,
    ensures
        r == a + b,
{
    a + b
}

} // verus!
