//! Where a request goes and what is done with its response, in terms of what the client
//! and the server sent.

use crate::cache::{key_of, pairs};
use crate::config::CacheConfig;
use crate::connect_tunnel::{is_tunnel_answer, quiet_time_left, tunnel_end, TunnelTarget};
use crate::errors::ProxyError;
use crate::header_map::{header_contents, is_header_value, values_under, HeaderContents};
use crate::http_proxy::cache_pipeline::{
    cached_headers, cached_status, final_place, object_name, temp_place, CachedReply,
};
use crate::http_proxy::headers::{content_length, control_in, expiry, is_storage_of};
use crate::http_proxy::upstream::{
    address_of, is_rewritten, origin_form, target_in, target_of, uri_parts, with_host,
    AuthorityView, RequestHead, TargetView, UpstreamTarget, UriParts, UriView,
};
use crate::http_proxy::{
    announces_too_much, is_answer_from_cache, is_begun, is_planned, verdict, Exchange, PassReason,
    ResponsePlan, Verdict,
};
use crate::policy::Rules;
use crate::text::{decimal, lower, number};
use crate::text_laws::how_a_number_is_written;
use vstd::prelude::*;
use vstd::utf8::encode_utf8;

verus! {

// ---------------------------------------------------------------------------
// Targets
// ---------------------------------------------------------------------------

/// The server of a request is asked for the whole path and query of the request, at the
/// host and port that the URI names; the port is 80 and the path `/` where it names none.
pub proof fn what_the_server_is_asked_for(uri: UriView, authority: AuthorityView)
    requires
        uri.scheme is Some,
        lower(uri.scheme->0) == lower("http"@),
        uri.authority == Some(authority),
    ensures
        ({
            let t = target_in(uri)->Ok_0;
            &&& target_in(uri) is Ok
            &&& t.host == authority.host
            &&& t.authority == authority.text
            &&& authority.port matches Some(port) ==> t.port == port
            &&& authority.port is None ==> t.port == 80
            &&& uri.path_and_query matches Some(p) ==> t.path_and_query == p
            &&& uri.path_and_query is None ==> t.path_and_query == "/"@
        }),
{
}

/// A request is refused with the reason: no scheme, another scheme than `http`, which is
/// named, or no authority, in this order.
pub proof fn why_a_request_has_no_server(uri: UriView)
    ensures
        uri.scheme is None ==> target_in(uri) == Err::<TargetView, Seq<char>>("missing scheme"@),
        uri.scheme matches Some(scheme) && lower(scheme) != lower("http"@) ==> target_in(uri)
            == Err::<TargetView, Seq<char>>("unsupported scheme: "@ + uri.scheme->0),
        uri.scheme matches Some(scheme) && lower(scheme) == lower("http"@) && uri.authority is None
            ==> target_in(uri) == Err::<TargetView, Seq<char>>("missing authority"@),
{
}

/// What is sent to the server: the request of the client with the path and query of its
/// URI, as it is, and with `Host` naming the server. The method and every other header
/// stay, and the server is the one that the URI names.
pub proof fn what_is_sent_to_the_server(
    before: RequestHead,
    after: RequestHead,
    target: UpstreamTarget,
    authority: AuthorityView,
    path_and_query: Seq<char>,
    name: Seq<char>,
)
    requires
        is_rewritten(before, after, Ok(target)),
        uri_parts(before.uri@) is Some,
        uri_parts(before.uri@)->0.authority == Some(authority),
        uri_parts(before.uri@)->0.path_and_query == Some(path_and_query),
    ensures
        after.method@ == before.method@,
        origin_form(path_and_query) == Some(after.uri@),
        target.host@ == authority.host,
        target.authority@ == authority.text,
        authority.port matches Some(port) ==> target.port == port,
        authority.port is None ==> target.port == 80,
        values_under(header_contents(after.headers), "host"@) == seq![
            encode_utf8(authority.text),
        ],
        name != "host"@ ==> values_under(header_contents(after.headers), name) == values_under(
            header_contents(before.headers),
            name,
        ),
{
}

/// A request that names an `http` server is never refused for its form, if the path and
/// the authority can be written in a request.
pub proof fn a_request_that_can_be_sent_is_sent(
    before: RequestHead,
    after: RequestHead,
    r: Result<UpstreamTarget, ProxyError>,
    authority: AuthorityView,
    path_and_query: Seq<char>,
)
    requires
        is_rewritten(before, after, r),
        uri_parts(before.uri@) is Some,
        uri_parts(before.uri@)->0.scheme is Some,
        lower(uri_parts(before.uri@)->0.scheme->0) == lower("http"@),
        uri_parts(before.uri@)->0.authority == Some(authority),
        uri_parts(before.uri@)->0.path_and_query == Some(path_and_query),
        origin_form(path_and_query) is Some,
        is_header_value(authority.text),
        header_contents(before.headers).len() < 6554,
    ensures
        r is Ok,
{
}

/// `Host` is replaced, and every other header stays.
pub proof fn only_host_is_replaced(c: HeaderContents, authority: Seq<char>, name: Seq<char>)
    ensures
        values_under(with_host(c, authority), "host"@) == seq![encode_utf8(authority)],
        name != "host"@ ==> values_under(with_host(c, authority), name) == values_under(c, name),
        name != "host"@ ==> (with_host(c, authority).contains_key(name) <==> c.contains_key(name)),
{
}

/// An address is the host, a colon, and the port in base ten, so that the number behind
/// the last colon is the port.
pub proof fn an_address_names_host_and_port(host: Seq<char>, port: u16)
    ensures
        ({
            let a = address_of(host, port);
            let n = host.len() as int;
            &&& a.len() > n + 1
            &&& a.take(n) == host
            &&& a[n] == ':'
            &&& number(a.skip(n + 1)) == Some(port as nat)
            &&& a[n + 1] != '+'
            &&& !a.skip(n + 1).contains(':')
            &&& port > 0 ==> a[n + 1] != '0'
        }),
{
    reveal_strlit(":");
    let a = address_of(host, port);
    let digits = decimal(port as nat);
    how_a_number_is_written(port as nat);
    assert(a.take(host.len() as int) =~= host);
    assert(a.skip(host.len() as int + 1) =~= digits);
    assert(a[host.len() as int + 1] == digits[0]);
}

// ---------------------------------------------------------------------------
// Tunnels
// ---------------------------------------------------------------------------

/// A tunnel leads to the host and port that the client names, and to no other; its
/// address is that host, a colon, and that port, which is read back from it.
pub proof fn a_tunnel_leads_where_it_was_asked_to(
    uri: UriView,
    authority: AuthorityView,
    rules: Rules,
    r: Result<TunnelTarget, ProxyError>,
)
    requires
        is_tunnel_answer(r, tunnel_end(uri), rules),
        uri.authority == Some(authority),
    ensures
        r matches Ok(target) ==> {
            let n = authority.host.len() as int;
            &&& authority.port == Some(target.port)
            &&& target.host@ == authority.host
            &&& rules.refusal(authority.host, target.port) is None
            &&& target.address@.take(n) == authority.host
            &&& target.address@[n] == ':'
            &&& number(target.address@.skip(n + 1)) == Some(target.port as nat)
            &&& !target.address@.skip(n + 1).contains(':')
        },
        authority.port matches Some(port) && rules.refusal(authority.host, port) is None ==> r
            is Ok,
{
    if r is Ok {
        an_address_names_host_and_port(authority.host, r->Ok_0.port);
    }
}

/// Why there is no tunnel: the request names no authority, or no port, or the rules refuse
/// the destination for the reason that is given.
pub proof fn why_there_is_no_tunnel(
    uri: UriView,
    rules: Rules,
    r: Result<TunnelTarget, ProxyError>,
)
    requires
        is_tunnel_answer(r, tunnel_end(uri), rules),
        r is Err,
    ensures
        uri.authority is None ==> r->Err_0.words() == "bad request: "@ + "missing authority"@,
        uri.authority is Some && uri.authority->0.port is None ==> r->Err_0.words()
            == "bad request: "@ + "missing port"@,
        uri.authority is Some && uri.authority->0.port is Some ==> {
            let refusal = rules.refusal(uri.authority->0.host, uri.authority->0.port->0);
            refusal is Some && r->Err_0.words() == "policy denied: "@ + refusal->0
        },
{
}

/// A tunnel may be quiet up to its limit and no longer: the time that is left and the time
/// that went by make up the limit.
pub proof fn how_long_a_tunnel_may_be_quiet(quiet_ms: u64, limit_ms: u64)
    ensures
        quiet_time_left(quiet_ms, limit_ms) is None <==> quiet_ms >= limit_ms,
        quiet_time_left(quiet_ms, limit_ms) matches Some(left) ==> left > 0 && quiet_ms + left
            == limit_ms,
{
}

// ---------------------------------------------------------------------------
// Requests
// ---------------------------------------------------------------------------

/// A request that is taken up keeps the method and the URI that the client sent, which the
/// cache goes by, and is known to ask for a part exactly if it has a `Range` header.
pub proof fn what_is_remembered_of_a_request(
    before: RequestHead,
    after: RequestHead,
    rules: Rules,
    x: Exchange,
)
    requires
        is_begun(before, after, rules, Ok(x)),
    ensures
        x.method@ == before.method@,
        x.url@ == before.uri@,
        x.range_requested <==> header_contents(before.headers).contains_key("range"@),
        is_rewritten(before, after, Ok(x.target)),
        rules.refusal(x.target.host@, x.target.port) is None,
        target_of(before.uri@) is Ok,
        x.target.host@ == target_of(before.uri@)->Ok_0.host,
        x.target.port == target_of(before.uri@)->Ok_0.port,
{
}

/// A request to a server that the rules let through is taken up, unless it cannot be
/// rewritten.
pub proof fn what_the_rules_let_through_is_taken_up(
    before: RequestHead,
    after: RequestHead,
    rules: Rules,
    r: Result<Exchange, ProxyError>,
)
    requires
        is_begun(before, after, rules, r),
        target_of(before.uri@) is Ok,
        origin_form(target_of(before.uri@)->Ok_0.path_and_query) is Some,
        is_header_value(target_of(before.uri@)->Ok_0.authority),
        header_contents(before.headers).len() < 6554,
        rules.refusal(target_of(before.uri@)->Ok_0.host, target_of(before.uri@)->Ok_0.port) is None,
    ensures
        r is Ok,
{
}

/// A request announces too long a body exactly if it announces a length above the limit.
pub proof fn which_bodies_are_announced_too_long(c: HeaderContents, max: u64)
    ensures
        announces_too_much(c, max) <==> content_length(c) is Some && content_length(c)->0 > max,
{
}

// ---------------------------------------------------------------------------
// Replies from the cache
// ---------------------------------------------------------------------------

/// The entry that was found answers the request: with its status, which is 200 where it is
/// none of three digits, with its headers, and with its body, which HEAD does not get.
pub proof fn what_a_reply_from_the_cache_is(
    x: Exchange,
    entry: crate::cache::CacheEntry,
    r: Option<CachedReply>,
)
    requires
        is_answer_from_cache(x, Some(entry), r),
    ensures
        r matches Some(reply) ==> {
            &&& 100 <= entry.status <= 999 ==> reply.status == entry.status
            &&& !(100 <= entry.status <= 999) ==> reply.status == 200
            &&& x.method@ == "HEAD"@ ==> reply.body is Empty
            &&& x.method@ != "HEAD"@ ==> entry.body_path is Some && reply.body is File
                && reply.body->File_0@ == entry.body_path->0@
            &&& header_contents(reply.headers) == cached_headers(x.method@, entry@)
        },
        x.method@ == "HEAD"@ || entry.body_path is Some ==> r is Some
            || crate::http_proxy::cache_pipeline::headers_set(entry@.headers).len() >= 6554,
{
}

/// Nothing is answered from the cache that was not found there.
pub proof fn no_reply_without_an_entry(x: Exchange, r: Option<CachedReply>)
    requires
        is_answer_from_cache(x, None, r),
    ensures
        r is None,
{
}

/// A status of three digits is replayed as it is, any other as 200.
pub proof fn which_status_is_replayed(status: u16)
    ensures
        100 <= status <= 999 ==> cached_status(status) == status,
        status < 100 || status > 999 ==> cached_status(status) == 200,
{
}

// ---------------------------------------------------------------------------
// Responses
// ---------------------------------------------------------------------------

/// Whether a response may be kept at all: the cache is on, the whole of it was asked for by
/// GET or HEAD, it is a success and not a part, and it expires after it came.
pub open spec fn may_be_kept(
    x: Exchange,
    cache_enabled: bool,
    status: u16,
    c: HeaderContents,
    config: CacheConfig,
    now: i64,
) -> bool {
    &&& cache_enabled
    &&& x.method@ == "GET"@ || x.method@ == "HEAD"@
    &&& !x.range_requested
    &&& status != 206
    &&& 200 <= status <= 299
    &&& expiry(c, config.ttl_seconds, now) is Some
    &&& expiry(c, config.ttl_seconds, now)->0 > now
}

/// Exactly what may be kept is kept. Of an answer to HEAD it is the head. A body is kept
/// unless it announces more than the limit, announces no length where one is demanded,
/// nothing can be held for the writer, or it is being written already. It is kept until it
/// expires.
pub proof fn exactly_what_may_be_kept_is_kept(
    x: Exchange,
    cache_enabled: bool,
    status: u16,
    c: HeaderContents,
    config: CacheConfig,
    now: i64,
    busy: bool,
)
    ensures
        ({
            let v = verdict(x, cache_enabled, status, c, config, now, busy);
            let expires_at = expiry(c, config.ttl_seconds, now);
            let length = content_length(c);
            let limit = config.cache_max_object_size_bytes;
            let may = may_be_kept(x, cache_enabled, status, c, config, now);
            let too_long = limit != 0 && length is Some && length->0 > limit;
            let unmeasured = config.cache_require_content_length && length is None;
            &&& v is KeepHead <==> may && x.method@ == "HEAD"@
            &&& v matches Verdict::KeepHead { expires_at: at } ==> expires_at == Some(at)
            &&& v is KeepBody <==> may && x.method@ == "GET"@ && !too_long && !unmeasured
                && config.cache_channel_capacity_chunks != 0 && !busy
            &&& v matches Verdict::KeepBody { expires_at: at, content_length: l } ==> expires_at
                == Some(at) && l == length
        }),
{
    reveal_strlit("GET");
    reveal_strlit("HEAD");
    assert("GET"@.len() != "HEAD"@.len());
}

/// Why a response is only passed on: the first reason of the list that holds.
pub proof fn why_a_response_is_only_passed_on(
    x: Exchange,
    cache_enabled: bool,
    status: u16,
    c: HeaderContents,
    config: CacheConfig,
    now: i64,
    busy: bool,
)
    requires
        cache_enabled,
        x.method@ == "GET"@,
    ensures
        ({
            let v = verdict(x, cache_enabled, status, c, config, now, busy);
            let at = expiry(c, config.ttl_seconds, now);
            let length = content_length(c);
            let limit = config.cache_max_object_size_bytes;
            &&& x.range_requested <==> v == Verdict::Pass(PassReason::RangeRequested)
            &&& !x.range_requested && status == 206 <==> v == Verdict::Pass(
                PassReason::PartialContent,
            )
            &&& !x.range_requested && status != 206 && at is None <==> v == Verdict::Pass(
                PassReason::Forbidden,
            )
            &&& v == Verdict::Pass(PassReason::NotFresh) ==> at is Some && (at->0 <= now || status
                < 200 || status > 299)
            &&& v == Verdict::Pass(PassReason::TooLarge) ==> length is Some && length->0 > limit
                && limit != 0
            &&& v == Verdict::Pass(PassReason::NoLength) ==> length is None
            &&& v == Verdict::Pass(PassReason::NoCapacity)
                ==> config.cache_channel_capacity_chunks == 0
            &&& v == Verdict::Pass(PassReason::BeingWritten) ==> busy
            &&& v != Verdict::Pass(PassReason::NotCached)
        }),
{
    reveal_strlit("GET");
    reveal_strlit("HEAD");
    assert("GET"@.len() != "HEAD"@.len());
}

/// What the cache is given of a response: the method and URI of the request and the key
/// made of them, the status and the headers of the response, and the times. Of a head
/// there is no body; a body is kept under the name for its key, and its writer holds it to
/// the announced length and to the limits that are configured.
pub proof fn what_the_cache_is_given(
    plan: ResponsePlan,
    before: Set<Seq<char>>,
    after: Set<Seq<char>>,
    x: Exchange,
    cache_enabled: bool,
    status: u16,
    c: HeaderContents,
    config: CacheConfig,
    cache_dir: Seq<char>,
    now: i64,
)
    requires
        is_planned(plan, before, after, x, cache_enabled, status, c, config, cache_dir, now),
    ensures
        plan matches ResponsePlan::StoreHead(e) ==> {
            &&& e.key@ == key_of(x.method@, x.url@)
            &&& e.method@ == x.method@
            &&& e.url@ == x.url@
            &&& e.status == status
            &&& is_storage_of(pairs(e.headers@), c)
            &&& e.body_path is None
            &&& e.body_size == 0
            &&& e.created_at == now
            &&& expiry(c, config.ttl_seconds, now) == Some(e.expires_at)
            &&& after == before
            &&& x.method@ == "HEAD"@
        },
        plan matches ResponsePlan::Stream(s) ==> {
            let key = key_of(x.method@, x.url@);
            &&& s.plan.key@ == key
            &&& s.plan.method@ == x.method@
            &&& s.plan.url@ == x.url@
            &&& s.plan.status == status
            &&& is_storage_of(pairs(s.plan.headers@), c)
            &&& s.plan.body_path@ == final_place(cache_dir, object_name(key))
            &&& exists|token: Seq<char>|
                s.temp_path@ == #[trigger] temp_place(cache_dir, object_name(key), token)
            &&& s.plan.created_at == now
            &&& expiry(c, config.ttl_seconds, now) == Some(s.plan.expires_at)
            &&& s.plan.content_length == content_length(c)
            &&& s.plan.max_object_size_bytes == config.cache_max_object_size_bytes
            &&& s.plan.require_content_length == config.cache_require_content_length
            &&& s.plan.writer_delay_ms == config.cache_writer_delay_ms
            &&& s.channel_capacity_chunks == config.cache_channel_capacity_chunks
            &&& s.permit@ == key
            &&& !before.contains(key)
            &&& after == before.insert(key)
            &&& x.method@ == "GET"@
        },
        plan is PassOn ==> after == before,
{
    let busy = before.contains(key_of(x.method@, x.url@));
    exactly_what_may_be_kept_is_kept(x, cache_enabled, status, c, config, now, busy);
}

/// The plan is to keep a response exactly where it may be kept.
pub proof fn what_may_be_kept_is_planned_for(
    plan: ResponsePlan,
    before: Set<Seq<char>>,
    after: Set<Seq<char>>,
    x: Exchange,
    status: u16,
    c: HeaderContents,
    config: CacheConfig,
    cache_dir: Seq<char>,
    now: i64,
)
    requires
        is_planned(plan, before, after, x, true, status, c, config, cache_dir, now),
        may_be_kept(x, true, status, c, config, now),
    ensures
        x.method@ == "HEAD"@ ==> plan is StoreHead,
        x.method@ == "GET"@ && !before.contains(key_of(x.method@, x.url@))
            && config.cache_channel_capacity_chunks != 0 && content_length(c) is Some && (
        config.cache_max_object_size_bytes == 0 || content_length(c)->0
            <= config.cache_max_object_size_bytes) ==> plan is Stream,
{
    let busy = before.contains(key_of(x.method@, x.url@));
    exactly_what_may_be_kept_is_kept(x, true, status, c, config, now, busy);
}

/// What says `no-store` or `no-cache` is never kept, whatever else it says.
pub proof fn what_is_forbidden_is_not_kept(
    x: Exchange,
    cache_enabled: bool,
    status: u16,
    c: HeaderContents,
    config: CacheConfig,
    now: i64,
    busy: bool,
)
    requires
        control_in(c) is Some,
        control_in(c)->0.no_store || control_in(c)->0.no_cache,
    ensures
        verdict(x, cache_enabled, status, c, config, now, busy) is Pass,
{
}

/// What is said of a URI is what its parts hold, each of them whole.
pub proof fn what_is_seen_of_a_uri(uri: UriParts)
    ensures
        uri.scheme is None <==> uri@.scheme is None,
        uri.scheme is Some ==> uri@.scheme->0 == uri.scheme->0@,
        uri.path_and_query is None <==> uri@.path_and_query is None,
        uri.path_and_query is Some ==> uri@.path_and_query->0 == uri.path_and_query->0@,
        uri.authority is None <==> uri@.authority is None,
        uri.authority is Some ==> {
            let a = uri@.authority->0;
            &&& a.text == uri.authority->0.text@
            &&& a.host == uri.authority->0.host@
            &&& a.port == uri.authority->0.port
        },
{
}

} // verus!
