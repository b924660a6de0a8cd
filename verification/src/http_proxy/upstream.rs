//! Where a request goes, and the form in which it goes there.

use crate::errors::ProxyError;
use crate::header_map::{
    header_contents, header_insert, header_value_accepted, is_header_value, HeaderContents,
    ROOM_FOR_NAMES,
};
use crate::headers::known_names_are_names;
use crate::text::{chars_of, decimal, decimal_text, joined, lower, same_ignoring_case};
use hyper::{HeaderMap, Uri};
use vstd::prelude::*;
use vstd::utf8::encode_utf8;

verus! {

/// The head of a request.
#[derive(Debug)]
pub struct RequestHead {
    pub method: String,
    pub uri: String,
    pub headers: HeaderMap,
}

/// The server that a request is passed on to.
#[derive(Debug, Clone)]
pub struct UpstreamTarget {
    pub host: String,
    pub port: u16,
    pub authority: String,
}

// ---------------------------------------------------------------------------
// The parts of a URI
// ---------------------------------------------------------------------------

/// The authority of a URI: as it is written, and the host and port in it.
#[derive(Debug, Clone)]
pub struct AuthorityParts {
    pub text: String,
    pub host: String,
    pub port: Option<u16>,
}

/// The parts of a URI.
#[derive(Debug, Clone)]
pub struct UriParts {
    pub scheme: Option<String>,
    pub authority: Option<AuthorityParts>,
    pub path_and_query: Option<String>,
}

/// The authority of a URI.
#[verifier::ext_equal]
pub struct AuthorityView {
    pub text: Seq<char>,
    pub host: Seq<char>,
    pub port: Option<u16>,
}

/// The parts of a URI.
#[verifier::ext_equal]
pub struct UriView {
    pub scheme: Option<Seq<char>>,
    pub authority: Option<AuthorityView>,
    pub path_and_query: Option<Seq<char>>,
}

impl View for AuthorityParts {
    type V = AuthorityView;

    open spec fn view(&self) -> AuthorityView {
        AuthorityView { text: self.text@, host: self.host@, port: self.port }
    }
}

impl View for UriParts {
    type V = UriView;

    open spec fn view(&self) -> UriView {
        UriView {
            scheme: match self.scheme {
                Some(s) => Some(s@),
                None => None,
            },
            authority: match self.authority {
                Some(a) => Some(a@),
                None => None,
            },
            path_and_query: match self.path_and_query {
                Some(p) => Some(p@),
                None => None,
            },
        }
    }
}

/// The parts that the `http` crate finds in a URI, if it takes the text for one.
pub uninterp spec fn uri_parts(text: Seq<char>) -> Option<UriView>;

/// The URI that the `http` crate makes of a path and query alone, if it takes
/// them for such.
pub uninterp spec fn origin_form(path_and_query: Seq<char>) -> Option<Seq<char>>;

/// `Uri::from_str`, with the scheme, the authority, its host and port, and the
/// path and query of the URI.
#[verifier::external_body]
pub(crate) fn parse_uri(text: &str) -> (r: Option<UriParts>)
    ensures
        r is Some <==> uri_parts(text@) is Some,
        r matches Some(parts) ==> uri_parts(text@) == Some(parts@),
{
    let uri = text.parse::<Uri>().ok()?;
    Some(UriParts {
        scheme: uri.scheme_str().map(str::to_string),
        authority: uri.authority().map(|a| AuthorityParts {
            text: a.as_str().to_string(),
            host: a.host().to_string(),
            port: a.port_u16(),
        }),
        path_and_query: uri.path_and_query().map(|p| p.as_str().to_string()),
    })
}

/// `uri::Builder::build` with a path and query and nothing else, as text.
#[verifier::external_body]
fn build_origin_form(path_and_query: &str) -> (r: Option<String>)
    ensures
        r is Some <==> origin_form(path_and_query@) is Some,
        r matches Some(text) ==> origin_form(path_and_query@) == Some(text@),
{
    Uri::builder().path_and_query(path_and_query).build().ok().map(|uri| uri.to_string())
}

// ---------------------------------------------------------------------------
// The target of a request in absolute form
// ---------------------------------------------------------------------------

/// A server, and the path and query to ask it for.
#[verifier::ext_equal]
pub struct TargetView {
    pub host: Seq<char>,
    pub port: u16,
    pub authority: Seq<char>,
    pub path_and_query: Seq<char>,
}

/// What a URI in absolute form asks for, or why it cannot be served: it has to
/// be an `http` URI with an authority. The port is 80 and the path `/` where the
/// URI leaves them out.
pub open spec fn target_in(uri: UriView) -> Result<TargetView, Seq<char>> {
    match uri.scheme {
        None => Err("missing scheme"@),
        Some(scheme) => if lower(scheme) != lower("http"@) {
            Err("unsupported scheme: "@ + scheme)
        } else {
            match uri.authority {
                None => Err("missing authority"@),
                Some(authority) => Ok(
                    TargetView {
                        host: authority.host,
                        port: match authority.port {
                            Some(port) => port,
                            None => 80,
                        },
                        authority: authority.text,
                        path_and_query: match uri.path_and_query {
                            Some(p) => p,
                            None => "/"@,
                        },
                    },
                ),
            }
        },
    }
}

/// What the text of a URI asks for, or why it cannot be served.
pub open spec fn target_of(text: Seq<char>) -> Result<TargetView, Seq<char>> {
    match uri_parts(text) {
        Some(uri) => target_in(uri),
        None => Err("invalid uri"@),
    }
}

pub(crate) fn bad_request<T>(why: &str) -> (r: Result<T, ProxyError>)
    ensures
        r matches Err(ProxyError::BadRequest(m)) && m@ == why@,
{
    Err(ProxyError::BadRequest(String::from_str(why)))
}

/// The server that a URI in absolute form names, and the path and query to ask
/// it for.
pub fn absolute_target(uri: &UriParts) -> (r: Result<(UpstreamTarget, String), ProxyError>)
    ensures
        match target_in(uri@) {
            Ok(t) => r matches Ok(found) && found.0.host@ == t.host && found.0.port == t.port
                && found.0.authority@ == t.authority && found.1@ == t.path_and_query,
            Err(m) => r matches Err(ProxyError::BadRequest(text)) && text@ == m,
        },
{
    let scheme = match &uri.scheme {
        Some(scheme) => scheme,
        None => {
            return bad_request("missing scheme");
        },
    };
    if !same_ignoring_case(&chars_of(scheme.as_str()), "http") {
        return Err(ProxyError::BadRequest(joined("unsupported scheme: ", scheme.as_str())));
    }
    let authority = match &uri.authority {
        Some(authority) => authority,
        None => {
            return bad_request("missing authority");
        },
    };
    let path_and_query = match &uri.path_and_query {
        Some(p) => p.clone(),
        None => String::from_str("/"),
    };
    let port = match authority.port {
        Some(port) => port,
        None => 80,
    };
    Ok(
        (
            UpstreamTarget {
                host: authority.host.clone(),
                port,
                authority: authority.text.clone(),
            },
            path_and_query,
        ),
    )
}

/// The headers with `Host` set to the authority.
pub open spec fn with_host(c: HeaderContents, authority: Seq<char>) -> HeaderContents {
    c.insert("host"@, seq![encode_utf8(authority)])
}

/// Whether `after` and `r` are what becomes of a request in absolute form. The
/// URI becomes the path and query alone, and `Host` names the server. A request
/// that cannot be served stays as it is, unless all that is wrong with it is its
/// authority. Where the headers have no room for `Host`, which takes thousands of
/// names, the proxy is at fault.
pub open spec fn is_rewritten(
    before: RequestHead,
    after: RequestHead,
    r: Result<UpstreamTarget, ProxyError>,
) -> bool {
    &&& after.method == before.method
    &&& match target_of(before.uri@) {
        Err(m) => {
            &&& r matches Err(ProxyError::BadRequest(text)) && text@ == m
            &&& after == before
        },
        Ok(t) => match origin_form(t.path_and_query) {
            None => {
                &&& r matches Err(ProxyError::BadRequest(text)) && text@ == "invalid path"@
                &&& after == before
            },
            Some(uri) => {
                &&& after.uri@ == uri
                &&& if !is_header_value(t.authority) {
                    &&& r matches Err(ProxyError::BadRequest(text)) && text@ == "invalid host"@
                    &&& after.headers == before.headers
                } else {
                    match r {
                        Ok(found) => {
                            &&& found.host@ == t.host
                            &&& found.port == t.port
                            &&& found.authority@ == t.authority
                            &&& header_contents(after.headers) == with_host(
                                header_contents(before.headers),
                                t.authority,
                            )
                        },
                        Err(e) => {
                            &&& e is Internal
                            &&& header_contents(before.headers).len() >= ROOM_FOR_NAMES
                            &&& header_contents(after.headers) == header_contents(before.headers)
                        },
                    }
                }
            },
        },
    }
}

/// Turns a request in absolute form into the one to send to the server it names,
/// and says which server that is.
pub fn rewrite_absolute_form(req: &mut RequestHead) -> (r: Result<UpstreamTarget, ProxyError>)
    ensures
        is_rewritten(*old(req), *final(req), r),
{
    let parts = match parse_uri(req.uri.as_str()) {
        Some(parts) => parts,
        None => {
            return bad_request("invalid uri");
        },
    };
    let (target, path_and_query) = match absolute_target(&parts) {
        Ok(found) => found,
        Err(e) => {
            return Err(e);
        },
    };
    let uri = match build_origin_form(path_and_query.as_str()) {
        Some(uri) => uri,
        None => {
            return bad_request("invalid path");
        },
    };
    req.uri = uri;
    if !header_value_accepted(target.authority.as_str()) {
        return bad_request("invalid host");
    }
    proof {
        known_names_are_names();
    }
    if !header_insert(&mut req.headers, "host", target.authority.as_str()) {
        return Err(ProxyError::Internal);
    }
    Ok(target)
}

/// A host and a port, with a colon between them.
pub open spec fn address_of(host: Seq<char>, port: u16) -> Seq<char> {
    host + ":"@ + decimal(port as nat)
}

/// A host and a port, with a colon between them.
pub fn address(host: &str, port: u16) -> (r: String)
    ensures
        r@ == address_of(host@, port),
{
    let mut r = joined(host, ":");
    r.append(decimal_text(port as u64).as_str());
    r
}

/// A request that is passed on is one for a plain `http` server; a request for
/// anything else is refused.
pub proof fn only_http_is_passed_on(uri: UriView)
    ensures
        target_in(uri) is Ok <==> uri.scheme is Some && lower(uri.scheme->0) == lower("http"@)
            && uri.authority is Some,
        uri.scheme matches Some(scheme) && lower(scheme) != lower("http"@) ==> target_in(uri)
            is Err,
{
}

} // verus!
