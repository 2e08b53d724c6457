use vstd::prelude::*;
use vstd::string::StringExecFns;

verus! {

/// A numeric HTTP status code. Values built by this module always lie in
/// 100..=599; the reason phrase is looked up when asked for, not stored.
#[derive(Debug, Clone, Copy, PartialEq, Eq, Structural)]
pub struct StatusCode(u16);

#[derive(Debug)]
pub enum StatusCodeError {
    InvalidStatusCode(u16),
}

/// The codes that `StatusCode::new` accepts.
pub open spec fn valid_status(code: u16) -> bool {
    100 <= code <= 599
}

/// The canonical reason phrase of a code, "Unknown" for codes not in the table.
pub open spec fn reason_of(code: u16) -> Seq<char> {
    match code {
        100 => "Continue"@,
        101 => "Switching Protocols"@,
        102 => "Processing"@,
        103 => "Early Hints"@,
        200 => "OK"@,
        201 => "Created"@,
        202 => "Accepted"@,
        203 => "Non-Authoritative Information"@,
        204 => "No Content"@,
        205 => "Reset Content"@,
        206 => "Partial Content"@,
        300 => "Multiple Choices"@,
        301 => "Moved Permanently"@,
        302 => "Found"@,
        303 => "See Other"@,
        304 => "Not Modified"@,
        307 => "Temporary Redirect"@,
        308 => "Permanent Redirect"@,
        400 => "Bad Request"@,
        401 => "Unauthorized"@,
        402 => "Payment Required"@,
        403 => "Forbidden"@,
        404 => "Not Found"@,
        405 => "Method Not Allowed"@,
        406 => "Not Acceptable"@,
        408 => "Request Timeout"@,
        409 => "Conflict"@,
        410 => "Gone"@,
        422 => "Unprocessable Entity"@,
        429 => "Too Many Requests"@,
        500 => "Internal Server Error"@,
        501 => "Not Implemented"@,
        502 => "Bad Gateway"@,
        503 => "Service Unavailable"@,
        504 => "Gateway Timeout"@,
        505 => "HTTP Version Not Supported"@,
        _ => "Unknown"@,
    }
}

/// The character of a decimal digit.
pub open spec fn digit_char(d: nat) -> char {
    (48 + d) as u8 as char
}

/// The decimal digits of `n`.
pub open spec fn decimal_text(n: nat) -> Seq<char>
    decreases n,
{
    if n < 10 {
        seq![digit_char(n)]
    } else {
        decimal_text(n / 10).push(digit_char(n % 10))
    }
}

fn digit_str(d: u16) -> (r: &'static str)
    requires
        d < 10,
    ensures
        r@ == seq![digit_char(d as nat)],
{
    proof {
        reveal_strlit("0");
        reveal_strlit("1");
        reveal_strlit("2");
        reveal_strlit("3");
        reveal_strlit("4");
        reveal_strlit("5");
        reveal_strlit("6");
        reveal_strlit("7");
        reveal_strlit("8");
        reveal_strlit("9");
    }
    let r = match d {
        0 => "0",
        1 => "1",
        2 => "2",
        3 => "3",
        4 => "4",
        5 => "5",
        6 => "6",
        7 => "7",
        8 => "8",
        _ => "9",
    };
    assert(r@ =~= seq![digit_char(d as nat)]);
    r
}

fn append_decimal(out: &mut String, n: u16)
    ensures
        final(out)@ == old(out)@ + decimal_text(n as nat),
    decreases n,
{
    if n >= 10 {
        append_decimal(out, n / 10);
    }
    out.append(digit_str(n % 10));
    assert(final(out)@ =~= old(out)@ + decimal_text(n as nat));
}

impl StatusCode {
    /// The numeric value held.
    pub closed spec fn value(self) -> u16 {
        self.0
    }

    /// A status code in the accepted range.
    pub open spec fn wf(self) -> bool {
        valid_status(self.value())
    }

    /// Creates a status code; fails exactly when `code` is outside 100..=599.
    pub fn new(code: u16) -> (r: Result<Self, StatusCodeError>)
        ensures
            valid_status(code) <==> r is Ok,
            r matches Ok(s) ==> s.value() == code && s.wf(),
            r matches Err(StatusCodeError::InvalidStatusCode(c)) ==> c == code,
    {
        if code < 100 || code > 599 {
            return Err(StatusCodeError::InvalidStatusCode(code));
        }
        Ok(StatusCode(code))
    }

    /// The numeric status code.
    pub fn code(&self) -> (r: u16)
        ensures
            r == self.value(),
    {
        self.0
    }

    /// The reason phrase for this code ("Unknown" for codes outside the table).
    pub fn reason_phrase(&self) -> (r: &'static str)
        ensures
            r@ == reason_of(self.value()),
    {
        match self.0 {
            100 => "Continue",
            101 => "Switching Protocols",
            102 => "Processing",
            103 => "Early Hints",
            200 => "OK",
            201 => "Created",
            202 => "Accepted",
            203 => "Non-Authoritative Information",
            204 => "No Content",
            205 => "Reset Content",
            206 => "Partial Content",
            300 => "Multiple Choices",
            301 => "Moved Permanently",
            302 => "Found",
            303 => "See Other",
            304 => "Not Modified",
            307 => "Temporary Redirect",
            308 => "Permanent Redirect",
            400 => "Bad Request",
            401 => "Unauthorized",
            402 => "Payment Required",
            403 => "Forbidden",
            404 => "Not Found",
            405 => "Method Not Allowed",
            406 => "Not Acceptable",
            408 => "Request Timeout",
            409 => "Conflict",
            410 => "Gone",
            422 => "Unprocessable Entity",
            429 => "Too Many Requests",
            500 => "Internal Server Error",
            501 => "Not Implemented",
            502 => "Bad Gateway",
            503 => "Service Unavailable",
            504 => "Gateway Timeout",
            505 => "HTTP Version Not Supported",
            _ => "Unknown",
        }
    }

    /// The code and its reason phrase, as in `404 Not Found`.
    pub fn to_string(&self) -> (r: String)
        ensures
            r@ == decimal_text(self.value() as nat) + " "@ + reason_of(self.value()),
    {
        let mut out = String::new();
        append_decimal(&mut out, self.0);
        out.append(" ");
        out.append(self.reason_phrase());
        assert(out@ =~= decimal_text(self.value() as nat) + " "@ + reason_of(self.value()));
        out
    }

    /// 100..=199
    pub fn is_informational(&self) -> (r: bool)
        ensures
            r == (100 <= self.value() < 200),
    {
        self.0 >= 100 && self.0 < 200
    }

    /// 200..=299
    pub fn is_success(&self) -> (r: bool)
        ensures
            r == (200 <= self.value() < 300),
    {
        self.0 >= 200 && self.0 < 300
    }

    /// 300..=399
    pub fn is_redirection(&self) -> (r: bool)
        ensures
            r == (300 <= self.value() < 400),
    {
        self.0 >= 300 && self.0 < 400
    }

    /// 400..=499
    pub fn is_client_error(&self) -> (r: bool)
        ensures
            r == (400 <= self.value() < 500),
    {
        self.0 >= 400 && self.0 < 500
    }

    /// 500..=599
    pub fn is_server_error(&self) -> (r: bool)
        ensures
            r == (500 <= self.value() < 600),
    {
        self.0 >= 500 && self.0 < 600
    }

    /// 400..=599: a client or a server error.
    pub fn is_error(&self) -> (r: bool)
        ensures
            r == (400 <= self.value() < 600),
    {
        self.0 >= 400 && self.0 < 600
    }

    /// 100 Continue
    #[allow(non_snake_case)]
    pub fn CONTINUE() -> (r: StatusCode)
        ensures
            r.value() == 100,
            r.wf(),
    {
        StatusCode(100)
    }

    /// 101 Switching Protocols
    #[allow(non_snake_case)]
    pub fn SWITCHING_PROTOCOLS() -> (r: StatusCode)
        ensures
            r.value() == 101,
            r.wf(),
    {
        StatusCode(101)
    }

    /// 102 Processing
    #[allow(non_snake_case)]
    pub fn PROCESSING() -> (r: StatusCode)
        ensures
            r.value() == 102,
            r.wf(),
    {
        StatusCode(102)
    }

    /// 103 Early Hints
    #[allow(non_snake_case)]
    pub fn EARLY_HINTS() -> (r: StatusCode)
        ensures
            r.value() == 103,
            r.wf(),
    {
        StatusCode(103)
    }

    /// 200 OK
    #[allow(non_snake_case)]
    pub fn OK() -> (r: StatusCode)
        ensures
            r.value() == 200,
            r.wf(),
    {
        StatusCode(200)
    }

    /// 201 Created
    #[allow(non_snake_case)]
    pub fn CREATED() -> (r: StatusCode)
        ensures
            r.value() == 201,
            r.wf(),
    {
        StatusCode(201)
    }

    /// 202 Accepted
    #[allow(non_snake_case)]
    pub fn ACCEPTED() -> (r: StatusCode)
        ensures
            r.value() == 202,
            r.wf(),
    {
        StatusCode(202)
    }

    /// 203 Non-Authoritative Information
    #[allow(non_snake_case)]
    pub fn NON_AUTHORITATIVE_INFORMATION() -> (r: StatusCode)
        ensures
            r.value() == 203,
            r.wf(),
    {
        StatusCode(203)
    }

    /// 204 No Content
    #[allow(non_snake_case)]
    pub fn NO_CONTENT() -> (r: StatusCode)
        ensures
            r.value() == 204,
            r.wf(),
    {
        StatusCode(204)
    }

    /// 205 Reset Content
    #[allow(non_snake_case)]
    pub fn RESET_CONTENT() -> (r: StatusCode)
        ensures
            r.value() == 205,
            r.wf(),
    {
        StatusCode(205)
    }

    /// 206 Partial Content
    #[allow(non_snake_case)]
    pub fn PARTIAL_CONTENT() -> (r: StatusCode)
        ensures
            r.value() == 206,
            r.wf(),
    {
        StatusCode(206)
    }

    /// 300 Multiple Choices
    #[allow(non_snake_case)]
    pub fn MULTIPLE_CHOICES() -> (r: StatusCode)
        ensures
            r.value() == 300,
            r.wf(),
    {
        StatusCode(300)
    }

    /// 301 Moved Permanently
    #[allow(non_snake_case)]
    pub fn MOVED_PERMANENTLY() -> (r: StatusCode)
        ensures
            r.value() == 301,
            r.wf(),
    {
        StatusCode(301)
    }

    /// 302 Found
    #[allow(non_snake_case)]
    pub fn FOUND() -> (r: StatusCode)
        ensures
            r.value() == 302,
            r.wf(),
    {
        StatusCode(302)
    }

    /// 303 See Other
    #[allow(non_snake_case)]
    pub fn SEE_OTHER() -> (r: StatusCode)
        ensures
            r.value() == 303,
            r.wf(),
    {
        StatusCode(303)
    }

    /// 304 Not Modified
    #[allow(non_snake_case)]
    pub fn NOT_MODIFIED() -> (r: StatusCode)
        ensures
            r.value() == 304,
            r.wf(),
    {
        StatusCode(304)
    }

    /// 307 Temporary Redirect
    #[allow(non_snake_case)]
    pub fn TEMPORARY_REDIRECT() -> (r: StatusCode)
        ensures
            r.value() == 307,
            r.wf(),
    {
        StatusCode(307)
    }

    /// 308 Permanent Redirect
    #[allow(non_snake_case)]
    pub fn PERMANENT_REDIRECT() -> (r: StatusCode)
        ensures
            r.value() == 308,
            r.wf(),
    {
        StatusCode(308)
    }

    /// 400 Bad Request
    #[allow(non_snake_case)]
    pub fn BAD_REQUEST() -> (r: StatusCode)
        ensures
            r.value() == 400,
            r.wf(),
    {
        StatusCode(400)
    }

    /// 401 Unauthorized
    #[allow(non_snake_case)]
    pub fn UNAUTHORIZED() -> (r: StatusCode)
        ensures
            r.value() == 401,
            r.wf(),
    {
        StatusCode(401)
    }

    /// 402 Payment Required
    #[allow(non_snake_case)]
    pub fn PAYMENT_REQUIRED() -> (r: StatusCode)
        ensures
            r.value() == 402,
            r.wf(),
    {
        StatusCode(402)
    }

    /// 403 Forbidden
    #[allow(non_snake_case)]
    pub fn FORBIDDEN() -> (r: StatusCode)
        ensures
            r.value() == 403,
            r.wf(),
    {
        StatusCode(403)
    }

    /// 404 Not Found
    #[allow(non_snake_case)]
    pub fn NOT_FOUND() -> (r: StatusCode)
        ensures
            r.value() == 404,
            r.wf(),
    {
        StatusCode(404)
    }

    /// 405 Method Not Allowed
    #[allow(non_snake_case)]
    pub fn METHOD_NOT_ALLOWED() -> (r: StatusCode)
        ensures
            r.value() == 405,
            r.wf(),
    {
        StatusCode(405)
    }

    /// 406 Not Acceptable
    #[allow(non_snake_case)]
    pub fn NOT_ACCEPTABLE() -> (r: StatusCode)
        ensures
            r.value() == 406,
            r.wf(),
    {
        StatusCode(406)
    }

    /// 408 Request Timeout
    #[allow(non_snake_case)]
    pub fn REQUEST_TIMEOUT() -> (r: StatusCode)
        ensures
            r.value() == 408,
            r.wf(),
    {
        StatusCode(408)
    }

    /// 409 Conflict
    #[allow(non_snake_case)]
    pub fn CONFLICT() -> (r: StatusCode)
        ensures
            r.value() == 409,
            r.wf(),
    {
        StatusCode(409)
    }

    /// 410 Gone
    #[allow(non_snake_case)]
    pub fn GONE() -> (r: StatusCode)
        ensures
            r.value() == 410,
            r.wf(),
    {
        StatusCode(410)
    }

    /// 422 Unprocessable Entity
    #[allow(non_snake_case)]
    pub fn UNPROCESSABLE_ENTITY() -> (r: StatusCode)
        ensures
            r.value() == 422,
            r.wf(),
    {
        StatusCode(422)
    }

    /// 429 Too Many Requests
    #[allow(non_snake_case)]
    pub fn TOO_MANY_REQUESTS() -> (r: StatusCode)
        ensures
            r.value() == 429,
            r.wf(),
    {
        StatusCode(429)
    }

    /// 500 Internal Server Error
    #[allow(non_snake_case)]
    pub fn INTERNAL_SERVER_ERROR() -> (r: StatusCode)
        ensures
            r.value() == 500,
            r.wf(),
    {
        StatusCode(500)
    }

    /// 501 Not Implemented
    #[allow(non_snake_case)]
    pub fn NOT_IMPLEMENTED() -> (r: StatusCode)
        ensures
            r.value() == 501,
            r.wf(),
    {
        StatusCode(501)
    }

    /// 502 Bad Gateway
    #[allow(non_snake_case)]
    pub fn BAD_GATEWAY() -> (r: StatusCode)
        ensures
            r.value() == 502,
            r.wf(),
    {
        StatusCode(502)
    }

    /// 503 Service Unavailable
    #[allow(non_snake_case)]
    pub fn SERVICE_UNAVAILABLE() -> (r: StatusCode)
        ensures
            r.value() == 503,
            r.wf(),
    {
        StatusCode(503)
    }

    /// 504 Gateway Timeout
    #[allow(non_snake_case)]
    pub fn GATEWAY_TIMEOUT() -> (r: StatusCode)
        ensures
            r.value() == 504,
            r.wf(),
    {
        StatusCode(504)
    }

    /// 505 HTTP Version Not Supported
    #[allow(non_snake_case)]
    pub fn HTTP_VERSION_NOT_SUPPORTED() -> (r: StatusCode)
        ensures
            r.value() == 505,
            r.wf(),
    {
        StatusCode(505)
    }
}

/// `is_error` is the union of the client and server error classes, and the
/// five classes split the valid range without overlap.
pub proof fn lemma_status_classes(s: StatusCode)
    requires
        s.wf(),
    ensures
        (400 <= s.value() < 600) == ((400 <= s.value() < 500) || (500 <= s.value() < 600)),
        (100 <= s.value() < 200) || (200 <= s.value() < 300) || (300 <= s.value() < 400)
            || (400 <= s.value() < 500) || (500 <= s.value() < 600),
{
}

} // verus!
