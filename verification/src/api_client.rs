//! The client of the API: what it asks, and what it makes of the answers.

use vstd::prelude::*;

use crate::text::{decimal_of, trimmed_end_of};
#[allow(unused_imports)]
use crate::text::{decimal, opt_text, trim_end_of};

verus! {

/// Where the API is, unless told otherwise.
pub const DEFAULT_API_BASE: &'static str = "http://127.0.0.1:5523";

/// The seconds that a request may take: longer than the API itself takes for one at most,
/// so that its own answer arrives.
pub const DEFAULT_REQUEST_TIMEOUT_SECS: u64 = 15;

/// The seconds that asking for the host's status may take.
pub const HOST_STATUS_TIMEOUT_SECS: u64 = 3;

/// What a request can fail at.
#[derive(Debug)]
pub enum ApiError {
    /// There was no answer, or none that could be understood.
    Unreachable(String),
    /// The answer was no success.
    Http { status: u16, body: String },
}

/// [`ApiError`] as contracts speak of it.
pub enum Refused {
    Unreachable(Seq<char>),
    Http { status: u16, body: Seq<char> },
}

impl View for ApiError {
    type V = Refused;

    open spec fn view(&self) -> Refused {
        match self {
            ApiError::Unreachable(why) => Refused::Unreachable(why@),
            ApiError::Http { status, body } => Refused::Http { status: *status, body: body@ },
        }
    }
}

impl Refused {
    /// The error in one line.
    pub open spec fn message(self) -> Seq<char> {
        match self {
            Refused::Unreachable(why) => "unreachable: "@ + why,
            Refused::Http { status, body } => "HTTP "@ + decimal(status as nat) + ": "@ + body,
        }
    }
}

impl ApiError {
    /// The error in one line.
    pub fn message(&self) -> (r: String)
        ensures
            r@ == self@.message(),
    {
        match self {
            ApiError::Unreachable(why) => "unreachable: ".to_owned().concat(why),
            ApiError::Http { status, body } => "HTTP ".to_owned().concat(
                &decimal_of(*status as u64),
            ).concat(": ").concat(body),
        }
    }
}

/// Where the API is: as the flag says, else as the variable says, else the default. There is
/// no slash at its end.
pub open spec fn api_base(flag: Option<Seq<char>>, variable: Option<Seq<char>>) -> Seq<char> {
    match (flag, variable) {
        (Some(flag), _) => trim_end_of(flag, '/'),
        (None, Some(value)) if value.len() > 0 => trim_end_of(value, '/'),
        _ => DEFAULT_API_BASE@,
    }
}

/// Where the API is; `variable` is the value of `FIRECRAB_API`.
pub fn resolve_api_base(flag: Option<&str>, variable: Option<&str>) -> (r: String)
    ensures
        r@ == api_base(opt_text(flag), opt_text(variable)),
{
    if let Some(flag) = flag {
        return trimmed_end_of(flag, '/');
    }
    if let Some(value) = variable {
        if !value.is_empty() {
            return trimmed_end_of(value, '/');
        }
    }
    DEFAULT_API_BASE.to_owned()
}

/// Wherever the API is, there is no slash at the end of its address.
pub proof fn a_base_ends_without_a_slash(flag: Option<Seq<char>>, variable: Option<Seq<char>>)
    ensures
        api_base(flag, variable).len() > 0 ==> api_base(flag, variable).last() != '/',
{
    reveal_strlit("http://127.0.0.1:5523");
    assert(DEFAULT_API_BASE@.last() == '3');
    if let Some(flag) = flag {
        trimmed_has_no_slash(flag);
    } else if let Some(value) = variable {
        trimmed_has_no_slash(value);
    }
}

proof fn trimmed_has_no_slash(text: Seq<char>)
    ensures
        trim_end_of(text, '/').len() > 0 ==> trim_end_of(text, '/').last() != '/',
    decreases text.len(),
{
    if text.len() > 0 && text.last() == '/' {
        trimmed_has_no_slash(text.drop_last());
    }
}

/// A request.
#[derive(Debug, PartialEq, Eq)]
pub struct HttpRequest {
    pub method: &'static str,
    pub url: String,
    pub timeout_secs: u64,
}

/// Whether a request is of that method, to that path below a base, within that time.
pub open spec fn asks(
    request: HttpRequest,
    method: Seq<char>,
    base: Seq<char>,
    path: Seq<char>,
    timeout_secs: u64,
) -> bool {
    request.method@ == method && request.url@ == base + path && request.timeout_secs == timeout_secs
}

/// A client of the API.
#[derive(Debug)]
pub struct ApiClient {
    base: String,
}

impl ApiClient {
    /// Where the API is.
    pub closed spec fn base(self) -> Seq<char> {
        self.base@
    }

    /// A client of the API at that address, which is taken as it is.
    pub fn new(base: String) -> (r: Self)
        ensures
            r.base() == base@,
    {
        ApiClient { base }
    }

    /// Where the API is.
    pub fn base_url(&self) -> (r: &str)
        ensures
            r@ == self.base(),
    {
        &self.base
    }

    fn request(&self, method: &'static str, path: &str, timeout_secs: u64) -> (r: HttpRequest)
        ensures
            asks(r, method@, self.base(), path@, timeout_secs),
    {
        HttpRequest { method, url: self.base.clone().concat(path), timeout_secs }
    }

    /// Asks for the host's status, for a short time.
    pub fn get_host_status(&self) -> (r: HttpRequest)
        ensures
            asks(r, "GET"@, self.base(), "/api/host"@, HOST_STATUS_TIMEOUT_SECS),
    {
        self.request("GET", "/api/host", HOST_STATUS_TIMEOUT_SECS)
    }

    /// Reads something.
    pub fn get(&self, path: &str) -> (r: HttpRequest)
        ensures
            asks(r, "GET"@, self.base(), path@, DEFAULT_REQUEST_TIMEOUT_SECS),
    {
        self.request("GET", path, DEFAULT_REQUEST_TIMEOUT_SECS)
    }

    /// Reads something by a query, which whoever sends the request adds.
    pub fn get_query(&self, path: &str) -> (r: HttpRequest)
        ensures
            asks(r, "GET"@, self.base(), path@, DEFAULT_REQUEST_TIMEOUT_SECS),
    {
        self.request("GET", path, DEFAULT_REQUEST_TIMEOUT_SECS)
    }

    /// Has something done; a body is added by whoever sends the request.
    pub fn post(&self, path: &str) -> (r: HttpRequest)
        ensures
            asks(r, "POST"@, self.base(), path@, DEFAULT_REQUEST_TIMEOUT_SECS),
    {
        self.request("POST", path, DEFAULT_REQUEST_TIMEOUT_SECS)
    }

    /// Has something done that needs no body.
    pub fn post_empty(&self, path: &str) -> (r: HttpRequest)
        ensures
            asks(r, "POST"@, self.base(), path@, DEFAULT_REQUEST_TIMEOUT_SECS),
    {
        self.request("POST", path, DEFAULT_REQUEST_TIMEOUT_SECS)
    }

    /// Removes something.
    pub fn delete(&self, path: &str) -> (r: HttpRequest)
        ensures
            asks(r, "DELETE"@, self.base(), path@, DEFAULT_REQUEST_TIMEOUT_SECS),
    {
        self.request("DELETE", path, DEFAULT_REQUEST_TIMEOUT_SECS)
    }
}

/// What an answer without its body comes to: a success, or what was refused. The body of an
/// answer that is no success is kept as it came.
pub open spec fn answered(status: u16, body: Result<Seq<char>, Seq<char>>) -> Result<(), Refused> {
    if 200 <= status < 300 {
        Ok(())
    } else {
        match body {
            Ok(body) => Err(Refused::Http { status, body }),
            Err(why) => Err(Refused::Unreachable(why)),
        }
    }
}

/// What an answer comes to. `body` is its body where it is no success, or why that could
/// not be read.
pub fn ensure_success(status: u16, body: Result<String, String>) -> (r: Result<(), ApiError>)
    ensures
        (match r {
            Ok(_) => Ok::<(), Refused>(()),
            Err(e) => Err(e@),
        }) == answered(
            status,
            match body {
                Ok(body) => Ok(body@),
                Err(why) => Err(why@),
            },
        ),
{
    if 200 <= status && status < 300 {
        return Ok(());
    }
    match body {
        Ok(body) => Err(ApiError::Http { status, body }),
        Err(why) => Err(ApiError::Unreachable(why)),
    }
}

/// What a success comes to, by what its body was understood as.
pub fn decode_json<T>(decoded: Result<T, String>) -> (r: Result<T, ApiError>)
    ensures
        match decoded {
            Ok(value) => r == Ok::<T, ApiError>(value),
            Err(why) => r is Err && r->Err_0@ == Refused::Unreachable(
                "bad response body: "@ + why@,
            ),
        },
{
    match decoded {
        Ok(value) => Ok(value),
        Err(why) => Err(
            ApiError::Unreachable("bad response body: ".to_owned().concat(&why)),
        ),
    }
}

} // verus!
