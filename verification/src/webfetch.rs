//! Fetching a web page: the checks on the URL and the limits, and the
//! results reported for each failure. Sending the request is the
//! application's part.

use vstd::prelude::*;
use vstd::utf8::encode_utf8;
use crate::params::{missing_param_message, str_param, uint_param, ToolParams};
use crate::text::{byte_len, decimal, decimal_chars, owned, push_all, push_str, string_from};
use crate::tools::ToolResult;
use crate::urls::{parse_url, url_parse_of};

verus! {

/// Fetches web pages over HTTP or HTTPS.
pub struct WebFetchTool;

/// A checked fetch: the URL, the time limit in seconds and the size limit.
pub struct FetchRequest {
    pub url: String,
    pub timeout_seconds: u64,
    pub max_size_mb: u64,
    pub max_size_bytes: u64,
}

/// Bytes in a megabyte.
pub const MEGABYTE: u64 = 1048576;

/// The time limit of a fetch, 30 seconds by default.
pub open spec fn fetch_timeout(params: ToolParams) -> u64 {
    match uint_param(params.entries@, "timeout_seconds"@) {
        Some(t) => t,
        None => 30,
    }
}

/// The size limit of a fetch in megabytes, 10 by default.
pub open spec fn fetch_max_mb(params: ToolParams) -> u64 {
    match uint_param(params.entries@, "max_size_mb"@) {
        Some(m) => m,
        None => 10,
    }
}

/// What a fetch with `params` becomes: `Ok(Ok(..))` when it may go ahead,
/// `Ok(Err(message))` for a result reported to the model (a bad URL),
/// `Err(message)` for a failed call (no URL).
pub open spec fn fetch_check(params: ToolParams) -> Result<Result<Seq<char>, Seq<char>>, Seq<char>> {
    match str_param(params.entries@, "url"@) {
        None => Err(missing_param_message("url"@)),
        Some(u) => match url_parse_of(u) {
            Err(e) => Ok(Err("Malformed URL: "@ + e)),
            Ok((scheme, _)) => if scheme != "http"@ && scheme != "https"@ {
                Ok(Err("Invalid URL scheme '"@ + scheme + "': must be http or https"@))
            } else {
                Ok(Ok(u))
            },
        },
    }
}

/// The error of a response of `size` bytes over `max_mb` megabytes.
pub open spec fn too_large_message(size: nat, max_mb: nat) -> Seq<char> {
    "Response too large: "@ + decimal(size / (MEGABYTE as nat)) + " MB exceeds maximum of "@
        + decimal(max_mb) + " MB"@
}

/// How a request failed before any response.
#[derive(Debug, Clone, Copy, PartialEq, Eq, Structural)]
pub enum NetworkFailure {
    Timeout,
    Connect,
    Request,
    Other,
}

/// One entry of the `headers` object of a call: its name, its value when
/// that is a JSON string, and the value's debug rendering for messages.
pub struct HeaderEntry {
    pub name: String,
    pub value: Option<String>,
    pub value_debug: String,
}

/// A character that may stand in a header name (an HTTP token character;
/// upper-case letters are accepted and lower-cased).
pub open spec fn header_name_char(c: char) -> bool {
    ('a' <= c <= 'z') || ('A' <= c <= 'Z') || ('0' <= c <= '9') || c == '!' || c == '#' || c == '$'
        || c == '%' || c == '&' || c == '\'' || c == '*' || c == '+' || c == '-' || c == '.'
        || c == '^' || c == '_' || c == '`' || c == '|' || c == '~'
}

/// A header name that `HeaderName::try_from` accepts: 1 to 65,535
/// characters, each a token character.
pub open spec fn valid_header_name(name: Seq<char>) -> bool {
    1 <= name.len() <= 65535 && forall|k: int| 0 <= k < name.len() ==> header_name_char(#[trigger] name[k])
}

/// A header value that `HeaderValue::from_str` accepts: no control
/// character but the tab, and no DEL.
pub open spec fn valid_header_value(value: Seq<char>) -> bool {
    forall|k: int|
        0 <= k < value.len() ==> (#[trigger] value[k] == '\t' || (value[k] as u32 >= 32 && value[k] as u32 != 127))
}

/// The message of the error for a header name that is not valid, or `None`.
pub open spec fn header_name_error_of(name: Seq<char>) -> Option<Seq<char>> {
    if valid_header_name(name) {
        None
    } else {
        Some("invalid HTTP header name"@)
    }
}

/// The message of the error for a header value that is not valid, or
/// `None`.
pub open spec fn header_value_error_of(value: Seq<char>) -> Option<Seq<char>> {
    if valid_header_value(value) {
        None
    } else {
        Some("failed to parse header value"@)
    }
}

/// Checks a header name with `reqwest::header::HeaderName::try_from` (the
/// `http` crate's `HeaderName::from_bytes`) and renders its error, whose
/// text is constant (see `header_name_error_of`).
#[verifier::external_body]
fn header_name_error(name: &str) -> (r: Option<String>)
    ensures
        match r {
            Some(m) => header_name_error_of(name@) == Some(m@),
            None => header_name_error_of(name@) is None,
        },
{
    reqwest::header::HeaderName::try_from(name).err().map(|e| e.to_string())
}

/// Checks a header value with `reqwest::header::HeaderValue::from_str`
/// and renders its error, whose text is constant (see
/// `header_value_error_of`).
#[verifier::external_body]
fn header_value_error(value: &str) -> (r: Option<String>)
    ensures
        match r {
            Some(m) => header_value_error_of(value@) == Some(m@),
            None => header_value_error_of(value@) is None,
        },
{
    reqwest::header::HeaderValue::from_str(value).err().map(|e| e.to_string())
}

/// What is wrong with a header entry, if anything: an invalid name, a
/// value that is not a string, or an invalid value.
pub open spec fn header_entry_problem(e: HeaderEntry) -> Option<Seq<char>> {
    match header_name_error_of(e.name@) {
        Some(m) => Some("Invalid header name '"@ + e.name@ + "': "@ + m),
        None => match e.value {
            None => Some("Header value for '"@ + e.name@ + "' must be a string, got: "@ + e.value_debug@),
            Some(v) => match header_value_error_of(v@) {
                Some(m) => Some("Invalid header value for '"@ + e.name@ + "': "@ + m),
                None => None,
            },
        },
    }
}

/// The problem of the first faulty entry among the first `n`, if any.
pub open spec fn headers_problem(es: Seq<HeaderEntry>, n: int) -> Option<Seq<char>>
    decreases n,
{
    if n <= 0 || n > es.len() {
        None
    } else {
        match headers_problem(es, n - 1) {
            Some(p) => Some(p),
            None => header_entry_problem(es[n - 1]),
        }
    }
}

/// The headers of well-formed entries, as name and value.
pub open spec fn header_pairs(es: Seq<HeaderEntry>) -> Seq<(Seq<char>, Seq<char>)> {
    es.map_values(|e: HeaderEntry| (e.name@, e.value->0@))
}

fn error_result(m: Vec<char>) -> (r: ToolResult)
    ensures
        r.content@ == m@,
        r.is_error,
{
    ToolResult { content: string_from(m.as_slice()), is_error: true }
}

/// Once an entry is faulty, every longer prefix has a problem too.
proof fn lemma_problem_persists(es: Seq<HeaderEntry>, n: int)
    requires
        0 < n <= es.len(),
        headers_problem(es, n) is Some,
    ensures
        headers_problem(es, es.len() as int) == headers_problem(es, n),
    decreases es.len() - n,
{
    if n < es.len() {
        lemma_problem_persists(es, n + 1);
    }
}

impl WebFetchTool {
    pub fn new() -> (r: WebFetchTool) {
        WebFetchTool
    }

    /// Checks the URL of a fetch with `params` (see `fetch_check`): the URL
    /// when the fetch may go ahead, the result reported to the model for a
    /// bad URL, or the error of a call without a URL.
    pub fn check_url(params: &ToolParams) -> (r: Result<Result<String, ToolResult>, String>)
        ensures
            match fetch_check(*params) {
                Err(m) => r is Err && r->Err_0@ == m,
                Ok(Err(m)) => r is Ok && r->Ok_0 is Err && r->Ok_0->Err_0.is_error
                    && r->Ok_0->Err_0.content@ == m,
                Ok(Ok(u)) => r is Ok && r->Ok_0 is Ok && r->Ok_0->Ok_0@ == u,
            },
    {
        let url = match params.require_str("url") {
            Ok(u) => u,
            Err(e) => return Err(e),
        };
        let parts = match parse_url(url.as_str()) {
            Err(e) => {
                let mut m: Vec<char> = Vec::new();
                push_str(&mut m, "Malformed URL: ");
                push_str(&mut m, e.as_str());
                return Ok(Err(error_result(m)));
            },
            Ok(p) => p,
        };
        let s = parts.scheme.as_str();
        if !crate::text::str_eq(s, "http") && !crate::text::str_eq(s, "https") {
            let mut m: Vec<char> = Vec::new();
            push_str(&mut m, "Invalid URL scheme '");
            push_str(&mut m, s);
            push_str(&mut m, "': must be http or https");
            return Ok(Err(error_result(m)));
        }
        Ok(Ok(url))
    }

    /// Checks a fetch with `params` (see `fetch_check`); the size limit in
    /// bytes is the limit in megabytes times 1,048,576. The limit is only
    /// computed for an accepted URL, and then must fit in a `u64`.
    pub fn request(params: &ToolParams) -> (r: Result<Result<FetchRequest, ToolResult>, String>)
        requires
            (fetch_check(*params) matches Ok(Ok(_))) ==> fetch_max_mb(*params) * MEGABYTE <= u64::MAX,
        ensures
            match fetch_check(*params) {
                Err(m) => r is Err && r->Err_0@ == m,
                Ok(Err(m)) => r is Ok && r->Ok_0 is Err && r->Ok_0->Err_0.is_error
                    && r->Ok_0->Err_0.content@ == m,
                Ok(Ok(u)) => r is Ok && r->Ok_0 is Ok && r->Ok_0->Ok_0.url@ == u
                    && r->Ok_0->Ok_0.timeout_seconds == fetch_timeout(*params)
                    && r->Ok_0->Ok_0.max_size_mb == fetch_max_mb(*params)
                    && r->Ok_0->Ok_0.max_size_bytes == fetch_max_mb(*params) * MEGABYTE,
            },
    {
        let url = match Self::check_url(params) {
            Err(e) => return Err(e),
            Ok(Err(reported)) => return Ok(Err(reported)),
            Ok(Ok(u)) => u,
        };
        let timeout_seconds = match params.get_u64("timeout_seconds") {
            Some(t) => t,
            None => 30,
        };
        let max_size_mb = match params.get_u64("max_size_mb") {
            Some(m) => m,
            None => 10,
        };
        Ok(Ok(FetchRequest { url, timeout_seconds, max_size_mb, max_size_bytes: max_size_mb * MEGABYTE }))
    }

    /// `request`, when the size limit in bytes fits in a `u64`; `None`
    /// when the URL is accepted but the limit does not fit (where
    /// computing it would overflow).
    pub fn checked_request(params: &ToolParams) -> (r: Option<Result<Result<FetchRequest, ToolResult>, String>>)
        ensures
            r is None <==> ((fetch_check(*params) matches Ok(Ok(_))) && fetch_max_mb(*params)
                * MEGABYTE > u64::MAX),
            r matches Some(x) ==> match fetch_check(*params) {
                Err(m) => x is Err && x->Err_0@ == m,
                Ok(Err(m)) => x is Ok && x->Ok_0 is Err && x->Ok_0->Err_0.is_error
                    && x->Ok_0->Err_0.content@ == m,
                Ok(Ok(u)) => x is Ok && x->Ok_0 is Ok && x->Ok_0->Ok_0.url@ == u
                    && x->Ok_0->Ok_0.timeout_seconds == fetch_timeout(*params)
                    && x->Ok_0->Ok_0.max_size_mb == fetch_max_mb(*params)
                    && x->Ok_0->Ok_0.max_size_bytes == fetch_max_mb(*params) * MEGABYTE,
            },
    {
        let accepted = match Self::check_url(params) {
            Ok(Ok(_)) => true,
            _ => false,
        };
        let max_size_mb = match params.get_u64("max_size_mb") {
            Some(m) => m,
            None => 10,
        };
        if accepted && max_size_mb > u64::MAX / MEGABYTE {
            return None;
        }
        Some(Self::request(params))
    }

    /// The result of a request that failed before any response.
    pub fn network_error(timeout_seconds: u64, failure: NetworkFailure, detail: &str) -> (r: ToolResult)
        ensures
            r.is_error,
            r.content@ == match failure {
                NetworkFailure::Timeout => "Request timed out after "@ + decimal(timeout_seconds as nat)
                    + " seconds"@,
                NetworkFailure::Connect => "Connection failed: "@ + detail@,
                NetworkFailure::Request => "Invalid request: "@ + detail@,
                NetworkFailure::Other => "Network error: "@ + detail@,
            },
    {
        let mut m: Vec<char> = Vec::new();
        match failure {
            NetworkFailure::Timeout => {
                push_str(&mut m, "Request timed out after ");
                let d = decimal_chars(timeout_seconds);
                push_all(&mut m, d.as_slice());
                push_str(&mut m, " seconds");
            },
            NetworkFailure::Connect => {
                push_str(&mut m, "Connection failed: ");
                push_str(&mut m, detail);
            },
            NetworkFailure::Request => {
                push_str(&mut m, "Invalid request: ");
                push_str(&mut m, detail);
            },
            NetworkFailure::Other => {
                push_str(&mut m, "Network error: ");
                push_str(&mut m, detail);
            },
        }
        error_result(m)
    }

    /// The result of a response with an unsuccessful status.
    pub fn http_error(status: u16, reason: Option<&str>) -> (r: ToolResult)
        ensures
            r.is_error,
            r.content@ == "HTTP error "@ + decimal(status as nat) + ": "@ + match reason {
                Some(t) => t@,
                None => "Unknown error"@,
            },
    {
        let mut m: Vec<char> = Vec::new();
        push_str(&mut m, "HTTP error ");
        let d = decimal_chars(status as u64);
        push_all(&mut m, d.as_slice());
        push_str(&mut m, ": ");
        match reason {
            Some(t) => push_str(&mut m, t),
            None => push_str(&mut m, "Unknown error"),
        }
        error_result(m)
    }

    /// The error when a response of `size` bytes is over the limit of `req`,
    /// `None` when it is not (a declared length is checked before reading
    /// the body, the body's own length after).
    pub fn size_check(req: &FetchRequest, size: u64) -> (r: Option<ToolResult>)
        ensures
            size > req.max_size_bytes ==> r is Some && r->0.is_error && r->0.content@
                == too_large_message(size as nat, req.max_size_mb as nat),
            size <= req.max_size_bytes ==> r is None,
    {
        if size > req.max_size_bytes {
            let mut m: Vec<char> = Vec::new();
            push_str(&mut m, "Response too large: ");
            let d = decimal_chars(size / MEGABYTE);
            push_all(&mut m, d.as_slice());
            push_str(&mut m, " MB exceeds maximum of ");
            let e = decimal_chars(req.max_size_mb);
            push_all(&mut m, e.as_slice());
            push_str(&mut m, " MB");
            return Some(error_result(m));
        }
        None
    }

    /// What a fetched `body` reports: the body, or the size error when it
    /// is over the limit (its length counted in bytes).
    pub fn body_result(req: &FetchRequest, body: String) -> (r: ToolResult)
        ensures
            encode_utf8(body@).len() > req.max_size_bytes ==> r.is_error && r.content@
                == too_large_message(encode_utf8(body@).len(), req.max_size_mb as nat),
            encode_utf8(body@).len() <= req.max_size_bytes ==> !r.is_error && r.content@ == body@,
    {
        let n = byte_len(body.as_str());
        match Self::size_check(req, n as u64) {
            Some(e) => e,
            None => ToolResult { content: body, is_error: false },
        }
    }

    /// The headers to send, in the order of `entries`; the first faulty
    /// entry fails the call (see `header_entry_problem`).
    pub fn parse_headers(entries: &Vec<HeaderEntry>) -> (r: Result<Vec<(String, String)>, String>)
        ensures
            match headers_problem(entries@, entries@.len() as int) {
                Some(p) => r matches Err(m) && m@ == p,
                None => r matches Ok(v) && v@.map_values(|h: (String, String)| (h.0@, h.1@))
                    == header_pairs(entries@),
            },
    {
        let ghost es = entries@;
        let mut out: Vec<(String, String)> = Vec::new();
        let mut i: usize = 0;
        while i < entries.len()
            invariant
                i <= es.len(),
                es == entries@,
                headers_problem(es, i as int) is None,
                out@.map_values(|h: (String, String)| (h.0@, h.1@)) == header_pairs(es.take(i as int)),
            decreases es.len() - i,
        {
            let e = &entries[i];
            let name = e.name.as_str();
            if let Some(m) = header_name_error(name) {
                let mut t: Vec<char> = Vec::new();
                push_str(&mut t, "Invalid header name '");
                push_str(&mut t, name);
                push_str(&mut t, "': ");
                push_str(&mut t, m.as_str());
                proof { lemma_problem_persists(es, i as int + 1); }
                return Err(string_from(t.as_slice()));
            }
            let value = match &e.value {
                None => {
                    let mut t: Vec<char> = Vec::new();
                    push_str(&mut t, "Header value for '");
                    push_str(&mut t, name);
                    push_str(&mut t, "' must be a string, got: ");
                    push_str(&mut t, e.value_debug.as_str());
                    proof { lemma_problem_persists(es, i as int + 1); }
                    return Err(string_from(t.as_slice()));
                },
                Some(v) => v,
            };
            if let Some(m) = header_value_error(value.as_str()) {
                let mut t: Vec<char> = Vec::new();
                push_str(&mut t, "Invalid header value for '");
                push_str(&mut t, name);
                push_str(&mut t, "': ");
                push_str(&mut t, m.as_str());
                proof { lemma_problem_persists(es, i as int + 1); }
                return Err(string_from(t.as_slice()));
            }
            let ghost before = out@;
            out.push((owned(name), owned(value.as_str())));
            assert(es.take(i + 1) =~= es.take(i as int).push(es[i as int]));
            assert(out@.map_values(|h: (String, String)| (h.0@, h.1@)) =~= before.map_values(
                |h: (String, String)| (h.0@, h.1@),
            ).push((e.name@, value@)));
            i = i + 1;
        }
        assert(es.take(es.len() as int) =~= es);
        Ok(out)
    }

    /// The result when the body cannot be read.
    pub fn body_error(detail: &str) -> (r: ToolResult)
        ensures
            r.is_error,
            r.content@ == "Failed to read response body: "@ + detail@,
    {
        let mut m: Vec<char> = Vec::new();
        push_str(&mut m, "Failed to read response body: ");
        push_str(&mut m, detail);
        error_result(m)
    }
}

/// Only http and https URLs are fetched, and the URL fetched is the one
/// given; a call without a URL fails.
pub proof fn law_only_web_urls_fetched(params: ToolParams)
    ensures
        fetch_check(params) matches Ok(Ok(u)) ==> str_param(params.entries@, "url"@) == Some(u)
            && url_parse_of(u) is Ok && (url_parse_of(u)->Ok_0.0 == "http"@ || url_parse_of(u)->Ok_0.0
            == "https"@),
        str_param(params.entries@, "url"@) is None ==> fetch_check(params) is Err,
        str_param(params.entries@, "url"@) is Some ==> fetch_check(params) is Ok,
{
}

} // verus!
