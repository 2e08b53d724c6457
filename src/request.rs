use vstd::prelude::*;
use vstd::utf8::{decode_utf8, encode_utf8, valid_utf8};

use crate::buffer::{bytes_content, bytes_copied, empty_bytes};
use crate::headers::{header_name_ok, header_value_ok, map_of, HeaderError, Headers};

verus! {

broadcast use vstd::string::group_string_axioms;

/// The nine standard request methods.
#[derive(Debug, Clone, Copy, PartialEq, Eq, Structural)]
pub enum Method {
    GET,
    POST,
    PUT,
    DELETE,
    HEAD,
    OPTIONS,
    PATCH,
    CONNECT,
    TRACE,
}

/// The canonical (upper-case) name of a method.
pub open spec fn method_name(m: Method) -> Seq<char> {
    match m {
        Method::GET => "GET"@,
        Method::POST => "POST"@,
        Method::PUT => "PUT"@,
        Method::DELETE => "DELETE"@,
        Method::HEAD => "HEAD"@,
        Method::OPTIONS => "OPTIONS"@,
        Method::PATCH => "PATCH"@,
        Method::CONNECT => "CONNECT"@,
        Method::TRACE => "TRACE"@,
    }
}

/// The method whose canonical name is exactly `s`.
pub open spec fn method_named(s: Seq<char>) -> Option<Method> {
    if s == "GET"@ {
        Some(Method::GET)
    } else if s == "POST"@ {
        Some(Method::POST)
    } else if s == "PUT"@ {
        Some(Method::PUT)
    } else if s == "DELETE"@ {
        Some(Method::DELETE)
    } else if s == "HEAD"@ {
        Some(Method::HEAD)
    } else if s == "OPTIONS"@ {
        Some(Method::OPTIONS)
    } else if s == "PATCH"@ {
        Some(Method::PATCH)
    } else if s == "CONNECT"@ {
        Some(Method::CONNECT)
    } else if s == "TRACE"@ {
        Some(Method::TRACE)
    } else {
        None
    }
}

/// What `str::to_uppercase` makes of a string.
pub uninterp spec fn upper_of(s: Seq<char>) -> Seq<char>;

/// Relies on `str::to_uppercase`: the Unicode upper-case form, a function of the text alone.
#[verifier::external_body]
fn uppercase(s: &str) -> (r: String)
    ensures
        r@ == upper_of(s@),
{
    s.to_uppercase()
}

/// Exact text comparison through the UTF-8 bytes, which determine the characters.
fn same_text(a: &str, b: &str) -> (r: bool)
    ensures
        r == (a@ == b@),
{
    let x = a.as_bytes();
    let y = b.as_bytes();
    proof {
        vstd::utf8::encode_utf8_decode_utf8(a@);
        vstd::utf8::encode_utf8_decode_utf8(b@);
    }
    if x.len() != y.len() {
        return false;
    }
    let mut i: usize = 0;
    while i < x.len()
        invariant
            x@.len() == y@.len(),
            x@ == encode_utf8(a@),
            y@ == encode_utf8(b@),
            0 <= i <= x@.len(),
            forall|j: int| 0 <= j < i ==> x@[j] == y@[j],
        decreases x.len() - i,
    {
        if x[i] != y[i] {
            return false;
        }
        i += 1;
    }
    assert(x@ =~= y@);
    true
}

impl Method {
    /// The method whose canonical upper-case name is `name`, if any.
    pub fn from_canonical(name: &str) -> (r: Option<Method>)
        ensures
            r == method_named(name@),
    {
        if same_text(name, "GET") {
            Some(Method::GET)
        } else if same_text(name, "POST") {
            Some(Method::POST)
        } else if same_text(name, "PUT") {
            Some(Method::PUT)
        } else if same_text(name, "DELETE") {
            Some(Method::DELETE)
        } else if same_text(name, "HEAD") {
            Some(Method::HEAD)
        } else if same_text(name, "OPTIONS") {
            Some(Method::OPTIONS)
        } else if same_text(name, "PATCH") {
            Some(Method::PATCH)
        } else if same_text(name, "CONNECT") {
            Some(Method::CONNECT)
        } else if same_text(name, "TRACE") {
            Some(Method::TRACE)
        } else {
            None
        }
    }

    /// Matches a method token case-insensitively against the nine methods.
    pub fn from_str(s: &str) -> (r: Result<Method, RequestError>)
        ensures
            method_named(upper_of(s@)) matches Some(m) ==> r == Ok::<Method, RequestError>(m),
            method_named(upper_of(s@)) is None ==> (r matches Err(RequestError::InvalidMethod(t))
                && t@ == s@),
    {
        let upper = uppercase(s);
        match Method::from_canonical(upper.as_str()) {
            Some(m) => Ok(m),
            None => Err(RequestError::InvalidMethod(s.to_owned())),
        }
    }

    /// The canonical name.
    pub fn as_str(&self) -> (r: &'static str)
        ensures
            r@ == method_name(*self),
    {
        match self {
            Method::GET => "GET",
            Method::POST => "POST",
            Method::PUT => "PUT",
            Method::DELETE => "DELETE",
            Method::HEAD => "HEAD",
            Method::OPTIONS => "OPTIONS",
            Method::PATCH => "PATCH",
            Method::CONNECT => "CONNECT",
            Method::TRACE => "TRACE",
        }
    }
}

#[derive(Debug)]
pub enum RequestError {
    InvalidMethod(String),
    InvalidRequest,
    HeaderError(HeaderError),
    ParseError(String),
}

/// The kind of a request error, with its text as plain characters.
pub enum RequestFault {
    InvalidMethod(Seq<char>),
    InvalidRequest,
    HeaderName(Seq<char>),
    HeaderValue,
    Parse(Seq<char>),
}

pub open spec fn fault_of(e: RequestError) -> RequestFault {
    match e {
        RequestError::InvalidMethod(t) => RequestFault::InvalidMethod(t@),
        RequestError::InvalidRequest => RequestFault::InvalidRequest,
        RequestError::HeaderError(HeaderError::InvalidName(n)) => RequestFault::HeaderName(n@),
        RequestError::HeaderError(HeaderError::InvalidValue) => RequestFault::HeaderValue,
        RequestError::ParseError(m) => RequestFault::Parse(m@),
    }
}

/// A parsed HTTP request.
#[derive(Debug)]
pub struct Request {
    pub method: Method,
    /// The request target, as it stood in the request line.
    pub uri: String,
    /// (major, minor)
    pub version: (u8, u8),
    pub headers: Headers,
    /// Whatever followed the head in the input.
    pub body: bytes::Bytes,
}

impl Request {
    /// A request with version 1.1.
    pub fn new(method: Method, uri: String, headers: Headers, body: bytes::Bytes) -> (r: Request)
        ensures
            r.method == method,
            r.uri == uri,
            r.version == (1u8, 1u8),
            r.headers == headers,
            r.body == body,
    {
        Request { method, uri, version: (1, 1), headers, body }
    }
}

/// One header line of a scanned head: its name and the raw bytes of its value.
#[derive(Debug)]
pub struct RawHeader {
    pub name: String,
    pub value: Vec<u8>,
}

/// A complete request head as the scanner found it; `len` is where the body starts.
#[derive(Debug)]
pub struct RawHead {
    pub method: Option<String>,
    pub path: Option<String>,
    pub version: Option<u8>,
    pub headers: Vec<RawHeader>,
    pub len: usize,
}

/// The scanner's answer on a buffer.
#[derive(Debug)]
pub enum HeadScan {
    Complete(RawHead),
    Partial,
    Invalid(String),
}

/// `RawHead` over plain values.
pub struct HeadModel {
    pub method: Option<Seq<char>>,
    pub path: Option<Seq<char>>,
    pub version: Option<u8>,
    pub headers: Seq<(Seq<char>, Seq<u8>)>,
    pub len: nat,
}

/// `HeadScan` over plain values.
pub enum ScanModel {
    Complete(HeadModel),
    Partial,
    Invalid(Seq<char>),
}

pub open spec fn text_of(s: Option<String>) -> Option<Seq<char>> {
    match s {
        Some(t) => Some(t@),
        None => None,
    }
}

impl View for RawHead {
    type V = HeadModel;

    open spec fn view(&self) -> HeadModel {
        HeadModel {
            method: text_of(self.method),
            path: text_of(self.path),
            version: self.version,
            headers: self.headers@.map_values(|h: RawHeader| (h.name@, h.value@)),
            len: self.len as nat,
        }
    }
}

impl View for HeadScan {
    type V = ScanModel;

    open spec fn view(&self) -> ScanModel {
        match self {
            HeadScan::Complete(h) => ScanModel::Complete(h@),
            HeadScan::Partial => ScanModel::Partial,
            HeadScan::Invalid(m) => ScanModel::Invalid(m@),
        }
    }
}

/// What `httparse::Request::parse` reports on `data` with `max_headers` header slots.
pub uninterp spec fn scan_head(data: Seq<u8>, max_headers: usize) -> ScanModel;

/// Relies on `httparse::Request::parse`, given `max_headers` header slots: the
/// outcome depends on the bytes and the slot count alone. Fields are copied out.
#[verifier::external_body]
fn scan_request_head(data: &[u8], max_headers: usize) -> (r: HeadScan)
    ensures
        r@ == scan_head(data@, max_headers),
{
    let mut slots = vec![httparse::EMPTY_HEADER; max_headers];
    let mut req = httparse::Request::new(&mut slots);
    match req.parse(data) {
        Ok(httparse::Status::Complete(len)) => HeadScan::Complete(RawHead {
            method: req.method.map(String::from),
            path: req.path.map(String::from),
            version: req.version,
            headers: req.headers.iter().map(|h| RawHeader { name: h.name.to_string(), value: h.value.to_vec() }).collect(),
            len,
        }),
        Ok(httparse::Status::Partial) => HeadScan::Partial,
        Err(e) => HeadScan::Invalid(e.to_string()),
    }
}

/// Relies on `std::str::from_utf8`: it accepts exactly the well-formed UTF-8 and decodes it.
#[verifier::external_body]
fn utf8_text<'a>(b: &'a [u8]) -> (r: Option<&'a str>)
    ensures
        r is Some <==> valid_utf8(b@),
        r matches Some(s) ==> s@ == decode_utf8(b@),
{
    std::str::from_utf8(b).ok()
}

/// The error that one header line raises, in the order the checks run.
pub open spec fn line_fault(l: (Seq<char>, Seq<u8>)) -> Option<RequestFault> {
    if !valid_utf8(l.1) {
        Some(RequestFault::Parse("Invalid header value encoding"@))
    } else if !header_name_ok(l.0) {
        Some(RequestFault::HeaderName(l.0))
    } else if !header_value_ok(decode_utf8(l.1)) {
        Some(RequestFault::HeaderValue)
    } else {
        None
    }
}

/// The error of the first faulty line, if any.
pub open spec fn lines_fault(ls: Seq<(Seq<char>, Seq<u8>)>) -> Option<RequestFault>
    decreases ls.len(),
{
    if ls.len() == 0 {
        None
    } else if lines_fault(ls.drop_last()) is Some {
        lines_fault(ls.drop_last())
    } else {
        line_fault(ls.last())
    }
}

/// The header lines with their values decoded.
pub open spec fn decoded(ls: Seq<(Seq<char>, Seq<u8>)>) -> Seq<(Seq<char>, Seq<char>)> {
    ls.map_values(|l: (Seq<char>, Seq<u8>)| (l.0, decode_utf8(l.1)))
}

/// The error that building a request from this scan reports, or `None` when it succeeds.
pub open spec fn scan_fault(scan: ScanModel) -> Option<RequestFault> {
    match scan {
        ScanModel::Partial => Some(RequestFault::Parse("Incomplete request"@)),
        ScanModel::Invalid(m) => Some(RequestFault::Parse(m)),
        ScanModel::Complete(h) => {
            if h.method is None {
                Some(RequestFault::Parse("Missing method"@))
            } else if method_named(upper_of(h.method->0)) is None {
                Some(RequestFault::InvalidMethod(h.method->0))
            } else if h.path is None {
                Some(RequestFault::Parse("Missing URI"@))
            } else if h.version is None {
                Some(RequestFault::Parse("Missing version"@))
            } else {
                lines_fault(h.headers)
            }
        },
    }
}

/// The bytes after the head, or nothing when the head fills the input.
pub open spec fn body_after(data: Seq<u8>, len: nat) -> Seq<u8> {
    if len < data.len() {
        data.subrange(len as int, data.len() as int)
    } else {
        Seq::empty()
    }
}

/// The request that a successfully scanned head describes.
pub open spec fn request_matches(req: Request, h: HeadModel, data: Seq<u8>) -> bool {
    &&& method_named(upper_of(h.method->0)) == Some(req.method)
    &&& req.uri@ == h.path->0
    &&& req.version == (1u8, if h.version->0 == 1 { 1u8 } else { 0u8 })
    &&& req.headers.wf()
    &&& req.headers@ == map_of(decoded(h.headers))
    &&& bytes_content(req.body) == body_after(data, h.len)
}

proof fn lemma_fault_prefix(ls: Seq<(Seq<char>, Seq<u8>)>, k: int)
    requires
        0 <= k <= ls.len(),
        lines_fault(ls.take(k)) is Some,
    ensures
        lines_fault(ls) == lines_fault(ls.take(k)),
    decreases ls.len(),
{
    if k < ls.len() {
        assert(ls.drop_last().take(k) =~= ls.take(k));
        lemma_fault_prefix(ls.drop_last(), k);
    } else {
        assert(ls.take(k) =~= ls);
    }
}

/// Builds a request from the scanner's answer; the body is what follows the head in `data`.
pub fn request_from_scan(scan: HeadScan, data: &[u8]) -> (r: Result<Request, RequestError>)
    ensures
        r is Err <==> scan_fault(scan@) is Some,
        r matches Err(e) ==> scan_fault(scan@) == Some(fault_of(e)),
        r matches Ok(req) ==> request_matches(req, scan@->Complete_0, data@),
{
    let head = match scan {
        HeadScan::Complete(h) => h,
        HeadScan::Partial => {
            return Err(RequestError::ParseError("Incomplete request".to_owned()));
        },
        HeadScan::Invalid(m) => {
            return Err(RequestError::ParseError(m));
        },
    };
    let ghost hv = head@;
    let RawHead { method, path, version, headers, len } = head;
    let method = match method {
        Some(m) => m,
        None => {
            return Err(RequestError::ParseError("Missing method".to_owned()));
        },
    };
    let method = match Method::from_str(method.as_str()) {
        Ok(m) => m,
        Err(e) => {
            return Err(e);
        },
    };
    let uri = match path {
        Some(p) => p,
        None => {
            return Err(RequestError::ParseError("Missing URI".to_owned()));
        },
    };
    let version = match version {
        Some(v) => v,
        None => {
            return Err(RequestError::ParseError("Missing version".to_owned()));
        },
    };
    let version: (u8, u8) = (1, if version == 1 { 1 } else { 0 });
    let ghost ls = hv.headers;
    assert(scan_fault(scan@) == lines_fault(ls));
    let mut fields = Headers::new();
    let mut i: usize = 0;
    while i < headers.len()
        invariant
            0 <= i <= headers.len(),
            ls == headers@.map_values(|h: RawHeader| (h.name@, h.value@)),
            fields.wf(),
            fields@ == map_of(decoded(ls.take(i as int))),
            lines_fault(ls.take(i as int)) is None,
            scan_fault(scan@) == lines_fault(ls),
        decreases headers.len() - i,
    {
        let line = &headers[i];
        let ghost l = ls[i as int];
        assert(l == (line.name@, line.value@));
        assert(ls.take(i + 1).drop_last() =~= ls.take(i as int));
        assert(ls.take(i + 1).last() == l);
        let value = match utf8_text(line.value.as_slice()) {
            Some(v) => v,
            None => {
                proof {
                    lemma_fault_prefix(ls, i + 1);
                }
                return Err(RequestError::ParseError("Invalid header value encoding".to_owned()));
            },
        };
        match fields.insert(line.name.as_str(), value) {
            Ok(()) => {},
            Err(e) => {
                proof {
                    lemma_fault_prefix(ls, i + 1);
                }
                return Err(RequestError::HeaderError(e));
            },
        }
        assert(decoded(ls.take(i + 1)).drop_last() =~= decoded(ls.take(i as int)));
        i += 1;
    }
    assert(ls.take(i as int) =~= ls);
    let body = if len < data.len() {
        bytes_copied(&data[len..data.len()])
    } else {
        empty_bytes()
    };
    Ok(Request { method, uri, version, headers: fields, body })
}

/// Headers beyond this count make a request head fail to parse.
pub const MAX_HEADERS: usize = 64;

/// Parses a request from a buffer holding its head and, after it, its body.
pub fn parse_request(data: &[u8]) -> (r: Result<Request, RequestError>)
    ensures
        r is Err <==> scan_fault(scan_head(data@, MAX_HEADERS)) is Some,
        r matches Err(e) ==> scan_fault(scan_head(data@, MAX_HEADERS)) == Some(fault_of(e)),
        r matches Ok(req) ==> request_matches(req, scan_head(data@, MAX_HEADERS)->Complete_0, data@),
{
    let scan = scan_request_head(data, MAX_HEADERS);
    request_from_scan(scan, data)
}

} // verus!
