//! The failures of the proxy, and what a client is told of them.

use crate::text::joined;
use vstd::prelude::*;

verus! {

/// Why a request, or the start of the proxy, failed. Where a failure comes from
/// elsewhere, it is held as the text that describes it.
#[derive(Debug, Clone)]
pub enum ProxyError {
    /// The configuration file could not be read.
    ConfigRead { path: String, source: String },
    /// The configuration file is not in the expected form.
    ConfigParse { path: String, source: String },
    /// The configuration holds a value that cannot be used.
    ConfigValidation(String),
    /// Reading or writing failed.
    Io(String),
    /// The metadata store failed.
    Sqlite(String),
    /// A peer broke the HTTP protocol, or went away.
    Http(String),
    /// The request cannot be served as it stands.
    BadRequest(String),
    /// The policy refuses the destination.
    PolicyDenied(String),
    /// The destination could not be reached.
    UpstreamConnect(String),
    /// The request body is larger than allowed.
    RequestBodyTooLarge,
    /// Something took too long.
    Timeout,
    /// The proxy itself is at fault.
    Internal,
}

/// The answer to a request that failed.
#[derive(Debug, Clone)]
pub struct ErrorResponse {
    pub status: u16,
    pub body: String,
}

impl ProxyError {
    /// The HTTP status that the failure is answered with.
    pub open spec fn status(self) -> u16 {
        match self {
            ProxyError::BadRequest(_) => 400,
            ProxyError::PolicyDenied(_) => 403,
            ProxyError::RequestBodyTooLarge => 413,
            ProxyError::UpstreamConnect(_) => 502,
            ProxyError::Timeout => 504,
            _ => 500,
        }
    }

    /// The failure in words.
    pub open spec fn words(self) -> Seq<char> {
        match self {
            ProxyError::ConfigRead { path, source } => "config read failed for "@ + path@ + ": "@
                + source@,
            ProxyError::ConfigParse { path, source } => "config parse failed for "@ + path@ + ": "@
                + source@,
            ProxyError::ConfigValidation(m) => "config validation failed: "@ + m@,
            ProxyError::Io(m) => "io error: "@ + m@,
            ProxyError::Sqlite(m) => "sqlite error: "@ + m@,
            ProxyError::Http(m) => "http error: "@ + m@,
            ProxyError::BadRequest(m) => "bad request: "@ + m@,
            ProxyError::PolicyDenied(m) => "policy denied: "@ + m@,
            ProxyError::UpstreamConnect(m) => "upstream connect failed: "@ + m@,
            ProxyError::RequestBodyTooLarge => "request body too large"@,
            ProxyError::Timeout => "timeout"@,
            ProxyError::Internal => "internal error"@,
        }
    }

    /// The HTTP status that the failure is answered with.
    pub fn status_code(&self) -> (r: u16)
        ensures
            r == self.status(),
    {
        match self {
            ProxyError::BadRequest(_) => 400,
            ProxyError::PolicyDenied(_) => 403,
            ProxyError::RequestBodyTooLarge => 413,
            ProxyError::UpstreamConnect(_) => 502,
            ProxyError::Timeout => 504,
            ProxyError::ConfigRead { .. } => 500,
            ProxyError::ConfigParse { .. } => 500,
            ProxyError::ConfigValidation(_) => 500,
            ProxyError::Io(_) => 500,
            ProxyError::Sqlite(_) => 500,
            ProxyError::Http(_) => 500,
            ProxyError::Internal => 500,
        }
    }

    /// The failure in words.
    pub fn to_string(&self) -> (r: String)
        ensures
            r@ == self.words(),
    {
        match self {
            ProxyError::ConfigRead { path, source } => {
                with_path("config read failed for ", path, source)
            },
            ProxyError::ConfigParse { path, source } => {
                with_path("config parse failed for ", path, source)
            },
            ProxyError::ConfigValidation(m) => joined("config validation failed: ", m),
            ProxyError::Io(m) => joined("io error: ", m),
            ProxyError::Sqlite(m) => joined("sqlite error: ", m),
            ProxyError::Http(m) => joined("http error: ", m),
            ProxyError::BadRequest(m) => joined("bad request: ", m),
            ProxyError::PolicyDenied(m) => joined("policy denied: ", m),
            ProxyError::UpstreamConnect(m) => joined("upstream connect failed: ", m),
            ProxyError::RequestBodyTooLarge => String::from_str("request body too large"),
            ProxyError::Timeout => String::from_str("timeout"),
            ProxyError::Internal => String::from_str("internal error"),
        }
    }

    /// The answer to a request that failed in this way: its status, and the
    /// failure in words.
    pub fn to_response(&self) -> (r: ErrorResponse)
        ensures
            r.status == self.status(),
            r.body@ == self.words(),
    {
        ErrorResponse { status: self.status_code(), body: self.to_string() }
    }
}

fn with_path(what: &str, path: &str, source: &str) -> (r: String)
    ensures
        r@ == what@ + path@ + ": "@ + source@,
{
    let mut r = joined(what, path);
    r.append(": ");
    r.append(source);
    r
}

/// Every failure is answered with an error status: the client's fault with one
/// of the 4xx, any other with one of the 5xx.
pub proof fn failures_are_answered_with_an_error_status(e: ProxyError)
    ensures
        400 <= e.status() < 600,
        e.status() < 500 <==> e is BadRequest || e is PolicyDenied || e is RequestBodyTooLarge,
{
}

/// What a client is told of a failure: words of its own for each, and the whole of the text
/// that came with it.
pub proof fn what_a_client_is_told(path: String, source: String, m: String)
    ensures
        (ProxyError::ConfigRead { path, source }).words() == "config read failed for "@ + path@
            + ": "@ + source@,
        (ProxyError::ConfigParse { path, source }).words() == "config parse failed for "@ + path@
            + ": "@ + source@,
        ProxyError::ConfigValidation(m).words() == "config validation failed: "@ + m@,
        ProxyError::Io(m).words() == "io error: "@ + m@,
        ProxyError::Sqlite(m).words() == "sqlite error: "@ + m@,
        ProxyError::Http(m).words() == "http error: "@ + m@,
        ProxyError::BadRequest(m).words() == "bad request: "@ + m@,
        ProxyError::PolicyDenied(m).words() == "policy denied: "@ + m@,
        ProxyError::UpstreamConnect(m).words() == "upstream connect failed: "@ + m@,
        ProxyError::RequestBodyTooLarge.words() == "request body too large"@,
        ProxyError::Timeout.words() == "timeout"@,
        ProxyError::Internal.words() == "internal error"@,
{
}

/// Which status a failure is answered with, whatever text came with it.
pub proof fn which_status_a_failure_has(e: ProxyError)
    ensures
        e is BadRequest <==> e.status() == 400,
        e is PolicyDenied <==> e.status() == 403,
        e is RequestBodyTooLarge <==> e.status() == 413,
        e is UpstreamConnect <==> e.status() == 502,
        e is Timeout <==> e.status() == 504,
        e is ConfigRead || e is ConfigParse || e is ConfigValidation || e is Io || e is Sqlite
            || e is Http || e is Internal <==> e.status() == 500,
{
}

} // verus!
