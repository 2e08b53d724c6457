use vstd::prelude::*;
use vstd::utf8::encode_utf8;

use crate::buffer::{bytes_content, bytes_from_vec, bytes_slice, empty_bytes};
use crate::headers::{header_name_ok, header_value_ok, HeaderError, Headers};
use crate::status::{reason_of, StatusCode};

verus! {

broadcast use vstd::string::group_string_axioms;

/// An HTTP response.
#[derive(Debug)]
pub struct Response {
    pub status: StatusCode,
    /// (major, minor)
    pub version: (u8, u8),
    pub headers: Headers,
    pub body: bytes::Bytes,
}

#[derive(Debug)]
pub enum ResponseError {
    HeaderError(HeaderError),
    /// A failure of the output sink, with its message.
    IoError(String),
}

/// The decimal digits of `n`, as ASCII bytes.
pub open spec fn decimal(n: nat) -> Seq<u8>
    decreases n,
{
    if n < 10 {
        seq![(48 + n) as u8]
    } else {
        decimal(n / 10) + seq![(48 + n % 10) as u8]
    }
}

/// `HTTP/{major}.{minor} {code} {reason}` and CRLF.
pub open spec fn status_line(version: (u8, u8), code: u16) -> Seq<u8> {
    encode_utf8("HTTP/"@) + decimal(version.0 as nat) + encode_utf8("."@) + decimal(version.1 as nat)
        + encode_utf8(" "@) + decimal(code as nat) + encode_utf8(" "@) + encode_utf8(reason_of(code))
        + encode_utf8("\r\n"@)
}

/// `{name}: {value}` and CRLF.
pub open spec fn header_line(e: (Seq<char>, Seq<char>)) -> Seq<u8> {
    encode_utf8(e.0) + encode_utf8(": "@) + encode_utf8(e.1) + encode_utf8("\r\n"@)
}

/// One line per pair, in order.
pub open spec fn header_block(e: Seq<(Seq<char>, Seq<char>)>) -> Seq<u8>
    decreases e.len(),
{
    if e.len() == 0 {
        Seq::empty()
    } else {
        header_block(e.drop_last()) + header_line(e.last())
    }
}

/// The wire form of a response: status line, header lines, a blank line, the body.
pub open spec fn wire(r: Response) -> Seq<u8> {
    status_line(r.version, r.status.value()) + header_block(r.headers.entries()) + encode_utf8(
        "\r\n"@,
    ) + bytes_content(r.body)
}

fn push_text(out: &mut Vec<u8>, s: &str)
    ensures
        final(out)@ == old(out)@ + encode_utf8(s@),
{
    out.extend_from_slice(s.as_bytes());
}

fn push_decimal(out: &mut Vec<u8>, n: u16)
    ensures
        final(out)@ == old(out)@ + decimal(n as nat),
    decreases n,
{
    if n >= 10 {
        push_decimal(out, n / 10);
    }
    let d: u8 = 48 + (n % 10) as u8;
    out.push(d);
    proof {
        if n >= 10 {
            assert(final(out)@ =~= old(out)@ + decimal(n as nat));
        } else {
            assert(final(out)@ =~= old(out)@ + decimal(n as nat));
        }
    }
}

impl Response {
    /// A version 1.1 response.
    pub fn new(status: StatusCode, headers: Headers, body: bytes::Bytes) -> (r: Response)
        ensures
            r.status == status,
            r.version == (1u8, 1u8),
            r.headers == headers,
            r.body == body,
    {
        Response { status, version: (1, 1), headers, body }
    }

    /// The response in wire form.
    pub fn to_bytes(&self) -> (r: Result<bytes::Bytes, ResponseError>)
        ensures
            r matches Ok(b) && bytes_content(b) == wire(*self),
    {
        let mut out: Vec<u8> = Vec::new();
        push_text(&mut out, "HTTP/");
        push_decimal(&mut out, self.version.0 as u16);
        push_text(&mut out, ".");
        push_decimal(&mut out, self.version.1 as u16);
        push_text(&mut out, " ");
        push_decimal(&mut out, self.status.code());
        push_text(&mut out, " ");
        push_text(&mut out, self.status.reason_phrase());
        push_text(&mut out, "\r\n");
        assert(out@ =~= status_line(self.version, self.status.value()));
        let entries = self.headers.iter();
        let ghost e = self.headers.entries();
        let mut i: usize = 0;
        while i < entries.len()
            invariant
                0 <= i <= entries.len(),
                entries@.map_values(|p: (crate::headers::HeaderName, crate::headers::HeaderValue)| (p.0@, p.1@)) == e,
                out@ == status_line(self.version, self.status.value()) + header_block(e.take(i as int)),
            decreases entries.len() - i,
        {
            let ghost before = out@;
            push_text(&mut out, entries[i].0.as_str());
            push_text(&mut out, ": ");
            push_text(&mut out, entries[i].1.as_str());
            push_text(&mut out, "\r\n");
            assert(e.take(i + 1).drop_last() =~= e.take(i as int));
            assert(e[i as int] == (entries@[i as int].0@, entries@[i as int].1@));
            assert(out@ =~= before + header_line(e[i as int]));
            i += 1;
        }
        assert(e.take(i as int) =~= e);
        push_text(&mut out, "\r\n");
        out.extend_from_slice(bytes_slice(&self.body));
        assert(out@ =~= wire(*self));
        Ok(bytes_from_vec(out))
    }
}

/// Accumulates a status, headers and a body, then yields a `Response`.
#[derive(Debug)]
pub struct ResponseBuilder {
    status: StatusCode,
    headers: Headers,
    body: Option<bytes::Bytes>,
}

impl ResponseBuilder {
    pub closed spec fn status_of(&self) -> StatusCode {
        self.status
    }

    pub closed spec fn headers_of(&self) -> Headers {
        self.headers
    }

    pub closed spec fn body_of(&self) -> Option<bytes::Bytes> {
        self.body
    }

    pub open spec fn wf(&self) -> bool {
        self.headers_of().wf()
    }

    /// Status 200, no headers, no body.
    pub fn new() -> (r: ResponseBuilder)
        ensures
            r.wf(),
            r.status_of().value() == 200,
            r.headers_of()@ == Map::<Seq<char>, Seq<char>>::empty(),
            r.body_of() is None,
    {
        ResponseBuilder { status: StatusCode::OK(), headers: Headers::new(), body: None }
    }

    /// Sets the status.
    pub fn status(self, status: StatusCode) -> (r: ResponseBuilder)
        ensures
            r.status_of() == status,
            r.headers_of() == self.headers_of(),
            r.body_of() == self.body_of(),
    {
        let mut b = self;
        b.status = status;
        b
    }

    /// Adds a header; an invalid name or value is left out and nothing else changes.
    pub fn header(self, name: &str, value: &str) -> (r: ResponseBuilder)
        requires
            self.wf(),
        ensures
            r.wf(),
            r.status_of() == self.status_of(),
            r.body_of() == self.body_of(),
            header_name_ok(name@) && header_value_ok(value@) ==> r.headers_of()@
                == self.headers_of()@.insert(name@, value@),
            !(header_name_ok(name@) && header_value_ok(value@)) ==> r.headers_of()
                == self.headers_of(),
    {
        let mut b = self;
        let _ = b.headers.insert(name, value);
        b
    }

    /// Sets the body.
    pub fn body(self, body: bytes::Bytes) -> (r: ResponseBuilder)
        ensures
            r.status_of() == self.status_of(),
            r.headers_of() == self.headers_of(),
            r.body_of() == Some(body),
    {
        let mut b = self;
        b.body = Some(body);
        b
    }

    /// The response, version 1.1, with an empty body if none was set.
    pub fn build(self) -> (r: Response)
        ensures
            r.status == self.status_of(),
            r.version == (1u8, 1u8),
            r.headers == self.headers_of(),
            bytes_content(r.body) == match self.body_of() {
                Some(b) => bytes_content(b),
                None => Seq::<u8>::empty(),
            },
    {
        let body = match self.body {
            Some(b) => b,
            None => empty_bytes(),
        };
        Response::new(self.status, self.headers, body)
    }
}

impl Default for ResponseBuilder {
    fn default() -> (r: ResponseBuilder)
        ensures
            r.wf(),
            r.status_of().value() == 200,
            r.headers_of()@ == Map::<Seq<char>, Seq<char>>::empty(),
            r.body_of() is None,
    {
        ResponseBuilder::new()
    }
}

} // verus!
