//! Where a CONNECT tunnel leads, and how long it stays open.

use crate::errors::ProxyError;
use crate::http_proxy::upstream::{
    address, address_of, bad_request, parse_uri, uri_parts, UriParts, UriView,
};
use crate::policy::{PolicyEngine, Rules};
use vstd::prelude::*;

verus! {

/// The far end of a tunnel.
#[derive(Debug, Clone)]
pub struct TunnelTarget {
    pub host: String,
    pub port: u16,
    pub address: String,
}

/// The host and port that a CONNECT request names, or why there are none: it has
/// to give both.
pub open spec fn tunnel_end(uri: UriView) -> Result<(Seq<char>, u16), Seq<char>> {
    match uri.authority {
        None => Err("missing authority"@),
        Some(authority) => match authority.port {
            None => Err("missing port"@),
            Some(port) => Ok((authority.host, port)),
        },
    }
}

/// Whether `r` answers a CONNECT request for the host and port, or the reason
/// why there are none: the far end if the rules let it through.
pub open spec fn is_tunnel_answer(
    r: Result<TunnelTarget, ProxyError>,
    end: Result<(Seq<char>, u16), Seq<char>>,
    rules: Rules,
) -> bool {
    match end {
        Err(m) => r matches Err(ProxyError::BadRequest(text)) && text@ == m,
        Ok((host, port)) => match rules.refusal(host, port) {
            Some(m) => r matches Err(ProxyError::PolicyDenied(text)) && text@ == m,
            None => r matches Ok(target) && target.host@ == host && target.port == port
                && target.address@ == address_of(host, port),
        },
    }
}

/// The far end of the tunnel that a CONNECT request to the URI asks for.
pub fn tunnel_to(uri: &UriParts, policy: &PolicyEngine) -> (r: Result<TunnelTarget, ProxyError>)
    ensures
        is_tunnel_answer(r, tunnel_end(uri@), policy@),
{
    let authority = match &uri.authority {
        Some(authority) => authority,
        None => {
            return bad_request("missing authority");
        },
    };
    let port = match authority.port {
        Some(port) => port,
        None => {
            return bad_request("missing port");
        },
    };
    match policy.check(authority.host.as_str(), port) {
        Ok(()) => Ok(
            TunnelTarget {
                host: authority.host.clone(),
                port,
                address: address(authority.host.as_str(), port),
            },
        ),
        Err(e) => Err(e),
    }
}

/// The far end of the tunnel that a CONNECT request asks for, given the text of
/// its URI.
pub fn connect_target(uri: &str, policy: &PolicyEngine) -> (r: Result<TunnelTarget, ProxyError>)
    ensures
        is_tunnel_answer(
            r,
            match uri_parts(uri@) {
                Some(parts) => tunnel_end(parts),
                None => Err("invalid uri"@),
            },
            policy@,
        ),
{
    match parse_uri(uri) {
        Some(parts) => tunnel_to(&parts, policy),
        None => bad_request("invalid uri"),
    }
}

/// How long a tunnel over which nothing came for `quiet_ms` may stay quiet before it
/// is closed, if it is allowed to be quiet for `limit_ms`; none if it is to be closed
/// now.
pub open spec fn quiet_time_left(quiet_ms: u64, limit_ms: u64) -> Option<u64> {
    if quiet_ms >= limit_ms {
        None
    } else {
        Some((limit_ms - quiet_ms) as u64)
    }
}

/// How long a quiet tunnel may stay open, if it may.
pub fn idle_time_left(quiet_ms: u64, limit_ms: u64) -> (r: Option<u64>)
    ensures
        r == quiet_time_left(quiet_ms, limit_ms),
{
    if quiet_ms >= limit_ms {
        None
    } else {
        Some(limit_ms - quiet_ms)
    }
}

} // verus!
