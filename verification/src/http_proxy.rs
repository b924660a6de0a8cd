//! Forwarding a plain HTTP request, through the cache where that is possible.

use crate::cache::{cache_key, key_of, now_unix, pairs, CacheEntry, CacheStoreRequest, EntryView};
use crate::config::CacheConfig;
use crate::errors::ProxyError;
use crate::header_map::{
    header_contents, header_first, values_under, HeaderContents, ROOM_FOR_NAMES,
};
use crate::headers::{known_names_are_names, passed_on, strip_hop_by_hop};
use crate::policy::{PolicyEngine, Rules};
use crate::text::same;
use cache_pipeline::{
    cached_headers, cached_response, cached_status, final_place, headers_set, object_name,
    object_paths, temp_place, try_acquire_cache_write, CacheWriteLocks, CacheWritePermit,
    CachedBody, CachedReply,
};
use cache_writer::WritePlan;
use headers::{
    content_length, expiry, expiry_at, headers_for_storage, is_storage_of, parse_content_length,
};
use hyper::HeaderMap;
use upstream::{is_rewritten, rewrite_absolute_form, target_of, RequestHead, UpstreamTarget};
use vstd::prelude::*;

pub mod cache_pipeline;
pub mod cache_writer;
pub mod discard;
pub mod forward_laws;
pub mod headers;
pub mod replay;
pub mod reply_laws;
pub mod tee_body;
pub mod upstream;

verus! {

// ---------------------------------------------------------------------------
// The request
// ---------------------------------------------------------------------------

/// A request that is being served: its method and URI as the client sent them,
/// whether it asks for a part of the response only, and where it goes.
#[derive(Debug, Clone)]
pub struct Exchange {
    pub method: String,
    pub url: String,
    pub range_requested: bool,
    pub target: UpstreamTarget,
}

/// Whether `after` and `r` are what becomes of a request that arrives: it is
/// rewritten for the server it names, if the rules let that server through.
pub open spec fn is_begun(
    before: RequestHead,
    after: RequestHead,
    rules: Rules,
    r: Result<Exchange, ProxyError>,
) -> bool {
    match r {
        Ok(x) => {
            &&& is_rewritten(before, after, Ok(x.target))
            &&& rules.refusal(x.target.host@, x.target.port) is None
            &&& x.method@ == before.method@
            &&& x.url@ == before.uri@
            &&& x.range_requested == header_contents(before.headers).contains_key("range"@)
        },
        Err(e) => {
            ||| is_rewritten(before, after, Err(e))
            ||| exists|target: UpstreamTarget|
                #![trigger rules.refusal(target.host@, target.port)]
                {
                    &&& is_rewritten(before, after, Ok(target))
                    &&& rules.refusal(target.host@, target.port) matches Some(m)
                    &&& e matches ProxyError::PolicyDenied(text)
                    &&& text@ == m
                }
        },
    }
}

/// Takes up a request: finds the server it names, sees that the rules let it
/// through, and rewrites the request for it.
pub fn begin(req: &mut RequestHead, policy: &PolicyEngine) -> (r: Result<Exchange, ProxyError>)
    ensures
        is_begun(*old(req), *final(req), policy@, r),
{
    proof {
        known_names_are_names();
    }
    let method = req.method.clone();
    let url = req.uri.clone();
    let range_requested = header_first(&req.headers, "range").is_some();
    let target = match rewrite_absolute_form(req) {
        Ok(target) => target,
        Err(e) => {
            return Err(e);
        },
    };
    match policy.check(target.host.as_str(), target.port) {
        Ok(()) => Ok(Exchange { method, url, range_requested, target }),
        Err(e) => Err(e),
    }
}

/// A request to a server that the rules do not let through is answered with 403
/// and the reason.
pub proof fn what_a_refused_request_is_answered(
    before: RequestHead,
    after: RequestHead,
    rules: Rules,
    r: Result<Exchange, ProxyError>,
    target: UpstreamTarget,
    reason: Seq<char>,
)
    requires
        is_begun(before, after, rules, r),
        is_rewritten(before, after, Ok(target)),
        rules.refusal(target.host@, target.port) == Some(reason),
        header_contents(before.headers).len() < ROOM_FOR_NAMES,
    ensures
        r is Err,
        r->Err_0.status() == 403,
        r->Err_0.words() == "policy denied: "@ + reason,
{
}

/// A request that is not for a plain `http` server is answered with 400.
pub proof fn what_an_unservable_request_is_answered(
    before: RequestHead,
    after: RequestHead,
    rules: Rules,
    r: Result<Exchange, ProxyError>,
)
    requires
        is_begun(before, after, rules, r),
        target_of(before.uri@) is Err,
    ensures
        r is Err,
        r->Err_0.status() == 400,
        after == before,
{
}

/// What is sent on is for a server that the rules let through.
pub proof fn only_what_the_rules_let_through_is_sent(
    before: RequestHead,
    after: RequestHead,
    rules: Rules,
    r: Result<Exchange, ProxyError>,
)
    requires
        is_begun(before, after, rules, r),
        r is Ok,
    ensures
        ({
            let t = target_of(before.uri@)->Ok_0;
            &&& target_of(before.uri@) is Ok
            &&& rules.refusal(t.host, t.port) is None
            &&& values_under(header_contents(after.headers), "host"@) == seq![
                vstd::utf8::encode_utf8(t.authority),
            ]
        }),
{
}

/// Whether responses to the method are cached.
pub open spec fn is_cached_method(method: Seq<char>) -> bool {
    method == "GET"@ || method == "HEAD"@
}

/// Whether the cache is asked for the response: not for a part of one.
pub open spec fn is_asked_of_cache(x: Exchange, cache_enabled: bool) -> bool {
    cache_enabled && is_cached_method(x.method@) && !x.range_requested
}

/// Whether `r` is the answer from the cache, given the entry that it found. There
/// is one unless there is no entry, the entry has no body where one is asked for,
/// or its headers have more names than a collection is sure to hold.
pub open spec fn is_answer_from_cache(
    x: Exchange,
    found: Option<CacheEntry>,
    r: Option<CachedReply>,
) -> bool {
    match r {
        Some(reply) => {
            &&& found matches Some(entry)
            &&& reply.status == cached_status(entry.status)
            &&& header_contents(reply.headers) == cached_headers(x.method@, entry@)
            &&& if x.method@ == "HEAD"@ {
                reply.body is Empty
            } else {
                entry.body_path matches Some(path) && reply.body matches CachedBody::File(file)
                    && file@ == path@
            }
        },
        None => {
            ||| found is None
            ||| x.method@ != "HEAD"@ && found->0.body_path is None
            ||| headers_set(found->0@.headers).len() >= ROOM_FOR_NAMES
        },
    }
}

impl Exchange {
    /// Whether the method is one whose responses are cached.
    fn has_cached_method(&self) -> (r: bool)
        ensures
            r == is_cached_method(self.method@),
    {
        same(self.method.as_str(), "GET") || same(self.method.as_str(), "HEAD")
    }

    /// Whether the cache is asked for the response: not for a part of one.
    pub fn asks_cache(&self, cache_enabled: bool) -> (r: bool)
        ensures
            r <==> is_asked_of_cache(*self, cache_enabled),
            r <==> cache_enabled && is_cached_method(self.method@) && !self.range_requested,
    {
        cache_enabled && self.has_cached_method() && !self.range_requested
    }

    /// The answer from the cache, given the entry that it found. Where the entry
    /// cannot be used the request goes to the server, as if there were none.
    pub fn answer_from_cache(&self, found: &Option<CacheEntry>) -> (r: Option<CachedReply>)
        ensures
            is_answer_from_cache(*self, *found, r),
    {
        match found {
            Some(entry) => match cached_response(self.method.as_str(), entry) {
                Ok(reply) => Some(reply),
                Err(_) => None,
            },
            None => None,
        }
    }
}

// ---------------------------------------------------------------------------
// The body of the request
// ---------------------------------------------------------------------------

/// A body that may not be longer than `max_bytes`, of which `seen_bytes` have
/// come.
#[derive(Debug)]
pub struct LimitedBody<B> {
    pub inner: B,
    pub max_bytes: u64,
    pub seen_bytes: u64,
}

/// The bytes that have come, after `len` more; the count stops at the end of its
/// range.
pub open spec fn seen_after(seen: u64, len: u64) -> u64 {
    if seen + len > u64::MAX {
        u64::MAX
    } else {
        (seen + len) as u64
    }
}

/// Whether a body of which so many bytes have come is refused.
pub open spec fn is_refused(seen: u64, max_bytes: u64) -> bool {
    seen > max_bytes
}

impl<B> LimitedBody<B> {
    /// A body of which nothing has come yet.
    pub fn new(inner: B, max_bytes: u64) -> (r: Self)
        ensures
            r == (LimitedBody { inner, max_bytes, seen_bytes: 0 }),
    {
        LimitedBody { inner, max_bytes, seen_bytes: 0 }
    }

    /// Counts `len` bytes more, and refuses them if they are too many.
    pub fn note_data(&mut self, len: u64) -> (r: Result<(), ProxyError>)
        ensures
            final(self).inner == old(self).inner,
            final(self).max_bytes == old(self).max_bytes,
            final(self).seen_bytes == seen_after(old(self).seen_bytes, len),
            r is Err <==> is_refused(
                seen_after(old(self).seen_bytes, len),
                old(self).max_bytes,
            ),
            if final(self).seen_bytes > old(self).max_bytes {
                r matches Err(e) && e is RequestBodyTooLarge
            } else {
                r is Ok
            },
    {
        self.seen_bytes = self.seen_bytes.saturating_add(len);
        if self.seen_bytes > self.max_bytes {
            return Err(ProxyError::RequestBodyTooLarge);
        }
        Ok(())
    }
}

/// Whether the headers announce a body longer than `max`.
pub open spec fn announces_too_much(c: HeaderContents, max: u64) -> bool {
    content_length(c) matches Some(n) && n > max
}

/// Limits the body of a request, or refuses the request if it announces a body
/// that is too long.
pub fn wrap_limited_request_body<B>(
    req: &RequestHead,
    body: B,
    max_request_body_bytes: u64,
) -> (r: Result<LimitedBody<B>, ProxyError>)
    ensures
        if announces_too_much(header_contents(req.headers), max_request_body_bytes) {
            r matches Err(e) && e is RequestBodyTooLarge
        } else {
            r matches Ok(b) && b == (LimitedBody {
                inner: body,
                max_bytes: max_request_body_bytes,
                seen_bytes: 0,
            })
        },
{
    if let Some(length) = parse_content_length(&req.headers) {
        if length > max_request_body_bytes {
            return Err(ProxyError::RequestBodyTooLarge);
        }
    }
    Ok(LimitedBody::new(body, max_request_body_bytes))
}

/// Makes a request ready to be sent: the headers that concern this connection
/// alone go, and the body is limited.
pub fn prepare_forward<B>(
    req: &mut RequestHead,
    body: B,
    max_request_body_bytes: u64,
) -> (r: Result<LimitedBody<B>, ProxyError>)
    ensures
        final(req).method == old(req).method,
        final(req).uri == old(req).uri,
        header_contents(final(req).headers) == passed_on(header_contents(old(req).headers)),
        if announces_too_much(
            passed_on(header_contents(old(req).headers)),
            max_request_body_bytes,
        ) {
            r matches Err(e) && e is RequestBodyTooLarge
        } else {
            r matches Ok(b) && b == (LimitedBody {
                inner: body,
                max_bytes: max_request_body_bytes,
                seen_bytes: 0,
            })
        },
{
    strip_hop_by_hop(&mut req.headers);
    wrap_limited_request_body(req, body, max_request_body_bytes)
}

/// The bytes that have come when parts of these lengths have.
pub open spec fn seen_after_all(lens: Seq<u64>) -> u64
    decreases lens.len(),
{
    if lens.len() == 0 {
        0
    } else {
        seen_after(seen_after_all(lens.drop_last()), lens.last())
    }
}

proof fn what_has_been_seen(lens: Seq<u64>)
    ensures
        seen_after_all(lens) == if cache_writer::sum(lens) > u64::MAX {
            u64::MAX as nat
        } else {
            cache_writer::sum(lens)
        },
    decreases lens.len(),
{
    if lens.len() > 0 {
        what_has_been_seen(lens.drop_last());
    }
}

/// A body passes exactly as long as it is within the limit: the part that makes
/// it too long is refused, and none before. The greatest limit there is lets
/// every body pass.
pub proof fn a_body_passes_up_to_its_limit(lens: Seq<u64>, max: u64)
    ensures
        cache_writer::sum(lens) <= max ==> seen_after_all(lens) <= max,
        max < u64::MAX && seen_after_all(lens) <= max ==> cache_writer::sum(lens) <= max,
        max == u64::MAX ==> seen_after_all(lens) <= max,
{
    what_has_been_seen(lens);
}

// ---------------------------------------------------------------------------
// The response
// ---------------------------------------------------------------------------

/// Why a response is passed on without being kept.
#[derive(Debug, Clone, Copy, PartialEq, Eq, Structural)]
pub enum PassReason {
    /// There is no cache, or the method is not one that it is for.
    NotCached,
    /// A part of the response was asked for.
    RangeRequested,
    /// The response is a part of one.
    PartialContent,
    /// Its headers forbid it.
    Forbidden,
    /// It has expired already, or is not a success.
    NotFresh,
    /// It announces a body that is too long.
    TooLarge,
    /// It announces no length, and one is demanded.
    NoLength,
    /// Nothing can be held for the writer.
    NoCapacity,
    /// The same response is being written already.
    BeingWritten,
}

/// What becomes of a response.
#[derive(Debug, Clone, Copy, PartialEq, Eq, Structural)]
pub enum Verdict {
    /// It is passed on.
    Pass(PassReason),
    /// It is passed on, and its head is kept until the time.
    KeepHead { expires_at: i64 },
    /// It is passed on while it is written to the cache, to be kept until the
    /// time.
    KeepBody { expires_at: i64, content_length: Option<u64> },
}

/// What becomes of a response that comes at `now`, with its status and headers,
/// when `busy` says whether the same response is being written.
pub open spec fn verdict(
    x: Exchange,
    cache_enabled: bool,
    status: u16,
    c: HeaderContents,
    config: CacheConfig,
    now: i64,
    busy: bool,
) -> Verdict {
    let length = content_length(c);
    if !cache_enabled || !is_cached_method(x.method@) {
        Verdict::Pass(PassReason::NotCached)
    } else if x.range_requested {
        Verdict::Pass(PassReason::RangeRequested)
    } else if status == 206 {
        Verdict::Pass(PassReason::PartialContent)
    } else {
        match expiry(c, config.ttl_seconds, now) {
            None => Verdict::Pass(PassReason::Forbidden),
            Some(expires_at) => if expires_at <= now || !(200 <= status < 300) {
                Verdict::Pass(PassReason::NotFresh)
            } else if x.method@ == "HEAD"@ {
                Verdict::KeepHead { expires_at }
            } else if config.cache_max_object_size_bytes > 0 && announces_too_much(
                c,
                config.cache_max_object_size_bytes,
            ) {
                Verdict::Pass(PassReason::TooLarge)
            } else if config.cache_require_content_length && length is None {
                Verdict::Pass(PassReason::NoLength)
            } else if config.cache_channel_capacity_chunks == 0 {
                Verdict::Pass(PassReason::NoCapacity)
            } else if busy {
                Verdict::Pass(PassReason::BeingWritten)
            } else {
                Verdict::KeepBody { expires_at, content_length: length }
            },
        }
    }
}

/// A response that is to be written to the cache: what is to be kept, where it
/// is written to, how many parts of it may wait for the writer, and the right to
/// write it.
pub struct StreamPlan {
    pub plan: WritePlan,
    pub temp_path: String,
    pub channel_capacity_chunks: usize,
    pub permit: CacheWritePermit,
}

/// What is to be done with a response besides passing it on.
pub enum ResponsePlan {
    /// Nothing.
    PassOn(PassReason),
    /// The entry is to be stored.
    StoreHead(CacheStoreRequest),
    /// The body is to be written.
    Stream(StreamPlan),
}

/// Whether the plan is to write the response to the request, as the cache
/// directory and the limits have it.
pub open spec fn is_stream_plan(
    s: StreamPlan,
    x: Exchange,
    status: u16,
    c: HeaderContents,
    config: CacheConfig,
    cache_dir: Seq<char>,
    now: i64,
    expires_at: i64,
) -> bool {
    let key = key_of(x.method@, x.url@);
    &&& s.plan.key@ == key
    &&& s.plan.method@ == x.method@
    &&& s.plan.url@ == x.url@
    &&& s.plan.status == status
    &&& is_storage_of(pairs(s.plan.headers@), c)
    &&& s.plan.body_path@ == final_place(cache_dir, object_name(key))
    &&& s.plan.created_at == now
    &&& s.plan.expires_at == expires_at
    &&& s.plan.content_length == content_length(c)
    &&& s.plan.max_object_size_bytes == config.cache_max_object_size_bytes
    &&& s.plan.require_content_length == config.cache_require_content_length
    &&& s.plan.writer_delay_ms == config.cache_writer_delay_ms
    &&& exists|token: Seq<char>|
        s.temp_path@ == #[trigger] temp_place(cache_dir, object_name(key), token)
    &&& s.channel_capacity_chunks == config.cache_channel_capacity_chunks
    &&& s.permit@ == key
}

/// Whether the request is to keep the head of the response.
pub open spec fn is_head_request(
    e: EntryView,
    x: Exchange,
    status: u16,
    c: HeaderContents,
    now: i64,
    expires_at: i64,
) -> bool {
    &&& is_storage_of(e.headers, c)
    &&& e == EntryView {
        key: key_of(x.method@, x.url@),
        method: x.method@,
        url: x.url@,
        status,
        headers: e.headers,
        body_path: None,
        body_size: 0,
        created_at: now,
        expires_at,
        last_access: now,
    }
}

/// Whether the plan carries out the verdict.
pub open spec fn carries_out(
    plan: ResponsePlan,
    v: Verdict,
    x: Exchange,
    status: u16,
    c: HeaderContents,
    config: CacheConfig,
    cache_dir: Seq<char>,
    now: i64,
) -> bool {
    match v {
        Verdict::Pass(reason) => plan == ResponsePlan::PassOn(reason),
        Verdict::KeepHead { expires_at } => plan matches ResponsePlan::StoreHead(request)
            && is_head_request(request@, x, status, c, now, expires_at),
        Verdict::KeepBody { expires_at, content_length } => plan matches ResponsePlan::Stream(s)
            && is_stream_plan(s, x, status, c, config, cache_dir, now, expires_at),
    }
}

/// Whether the plan is what is to be done with a response that comes at `now`,
/// and `after` the keys whose responses are being written then.
pub open spec fn is_planned(
    plan: ResponsePlan,
    before: Set<Seq<char>>,
    after: Set<Seq<char>>,
    x: Exchange,
    cache_enabled: bool,
    status: u16,
    c: HeaderContents,
    config: CacheConfig,
    cache_dir: Seq<char>,
    now: i64,
) -> bool {
    let key = key_of(x.method@, x.url@);
    let v = verdict(x, cache_enabled, status, c, config, now, before.contains(key));
    &&& carries_out(plan, v, x, status, c, config, cache_dir, now)
    &&& after == if v is KeepBody {
        before.insert(key)
    } else {
        before
    }
}

impl Exchange {
    fn keep_head(
        &self,
        status: u16,
        headers: &HeaderMap,
        now: i64,
        expires_at: i64,
    ) -> (r: CacheStoreRequest)
        ensures
            is_head_request(r@, *self, status, header_contents(*headers), now, expires_at),
    {
        CacheStoreRequest {
            key: cache_key(self.method.as_str(), self.url.as_str()),
            method: self.method.clone(),
            url: self.url.clone(),
            status,
            headers: headers_for_storage(headers),
            body_path: None,
            body_size: 0,
            created_at: now,
            expires_at,
        }
    }

    /// What is to be done with the response that comes at `now`: whether it is
    /// kept, and how. To write it, the right to do so is taken from `locks`.
    pub fn plan_response_at(
        &self,
        cache_enabled: bool,
        status: u16,
        headers: &HeaderMap,
        config: &CacheConfig,
        cache_dir: &str,
        now: i64,
        locks: &mut CacheWriteLocks,
    ) -> (r: ResponsePlan)
        ensures
            is_planned(
                r,
                old(locks)@,
                final(locks)@,
                *self,
                cache_enabled,
                status,
                header_contents(*headers),
                *config,
                cache_dir@,
                now,
            ),
    {
        if !cache_enabled || !self.has_cached_method() {
            return ResponsePlan::PassOn(PassReason::NotCached);
        }
        if self.range_requested {
            return ResponsePlan::PassOn(PassReason::RangeRequested);
        }
        if status == 206 {
            return ResponsePlan::PassOn(PassReason::PartialContent);
        }
        let expires_at = match expiry_at(headers, config.ttl_seconds, now) {
            Some(expires_at) => expires_at,
            None => {
                return ResponsePlan::PassOn(PassReason::Forbidden);
            },
        };
        if expires_at <= now || !(200 <= status && status < 300) {
            return ResponsePlan::PassOn(PassReason::NotFresh);
        }
        if same(self.method.as_str(), "HEAD") {
            return ResponsePlan::StoreHead(self.keep_head(status, headers, now, expires_at));
        }
        let content_length = parse_content_length(headers);
        if let Some(length) = content_length {
            if config.cache_max_object_size_bytes > 0 && length
                > config.cache_max_object_size_bytes {
                return ResponsePlan::PassOn(PassReason::TooLarge);
            }
        }
        if config.cache_require_content_length && content_length.is_none() {
            return ResponsePlan::PassOn(PassReason::NoLength);
        }
        if config.cache_channel_capacity_chunks == 0 {
            return ResponsePlan::PassOn(PassReason::NoCapacity);
        }
        let key = cache_key(self.method.as_str(), self.url.as_str());
        let permit = match try_acquire_cache_write(locks, key.as_str()) {
            Some(permit) => permit,
            None => {
                return ResponsePlan::PassOn(PassReason::BeingWritten);
            },
        };
        let paths = object_paths(cache_dir, key.as_str());
        let plan = WritePlan {
            key,
            method: self.method.clone(),
            url: self.url.clone(),
            status,
            headers: headers_for_storage(headers),
            body_path: paths.final_path,
            created_at: now,
            expires_at,
            content_length,
            max_object_size_bytes: config.cache_max_object_size_bytes,
            require_content_length: config.cache_require_content_length,
            writer_delay_ms: config.cache_writer_delay_ms,
        };
        ResponsePlan::Stream(
            StreamPlan {
                plan,
                temp_path: paths.temp_path,
                channel_capacity_chunks: config.cache_channel_capacity_chunks,
                permit,
            },
        )
    }

    /// What is to be done with the response that comes now.
    pub fn plan_response(
        &self,
        cache_enabled: bool,
        status: u16,
        headers: &HeaderMap,
        config: &CacheConfig,
        cache_dir: &str,
        locks: &mut CacheWriteLocks,
    ) -> (r: ResponsePlan)
        ensures
            exists|now: i64| #[trigger]
                is_planned(
                    r,
                    old(locks)@,
                    final(locks)@,
                    *self,
                    cache_enabled,
                    status,
                    header_contents(*headers),
                    *config,
                    cache_dir@,
                    now,
                ),
    {
        let now = now_unix();
        self.plan_response_at(cache_enabled, status, headers, config, cache_dir, now, locks)
    }
}

/// What is kept is a fresh success in answer to GET or HEAD, whole, that its
/// headers do not forbid to keep, and it expires within the time to live.
pub proof fn only_what_may_be_cached_is_kept(
    x: Exchange,
    cache_enabled: bool,
    status: u16,
    c: HeaderContents,
    config: CacheConfig,
    now: i64,
    busy: bool,
)
    requires
        !(verdict(x, cache_enabled, status, c, config, now, busy) is Pass),
    ensures
        ({
            let v = verdict(x, cache_enabled, status, c, config, now, busy);
            let expires_at = match v {
                Verdict::KeepHead { expires_at } => expires_at,
                Verdict::KeepBody { expires_at, .. } => expires_at,
                Verdict::Pass(_) => now,
            };
            &&& cache_enabled
            &&& x.method@ == "GET"@ || x.method@ == "HEAD"@
            &&& !x.range_requested
            &&& 200 <= status < 300
            &&& status != 206
            &&& headers::control_in(c) matches Some(control) ==> !control.no_store
                && !control.no_cache
            &&& now < expires_at <= crate::numbers::bounded_sum(
                now,
                crate::numbers::signed(config.ttl_seconds),
            )
        }),
{
    headers::the_earliest_limit_counts(
        headers::control_in(c),
        headers::expires_in(c),
        config.ttl_seconds,
        now,
    );
}

/// A response is written by one writer at a time: while one has the right to, no
/// plan is to write it.
pub proof fn a_response_is_written_once_at_a_time(
    x: Exchange,
    cache_enabled: bool,
    status: u16,
    c: HeaderContents,
    config: CacheConfig,
    now: i64,
    held: Set<Seq<char>>,
)
    requires
        held.contains(key_of(x.method@, x.url@)),
    ensures
        !(verdict(
            x,
            cache_enabled,
            status,
            c,
            config,
            now,
            held.contains(key_of(x.method@, x.url@)),
        ) is KeepBody),
{
}

/// The count of what has come is exact as long as it can be held, and never falls.
pub proof fn how_bytes_are_counted(seen: u64, len: u64)
    ensures
        seen + len <= 0xffff_ffff_ffff_ffff ==> seen_after(seen, len) == seen + len,
        seen + len > 0xffff_ffff_ffff_ffff ==> seen_after(seen, len) == 0xffff_ffff_ffff_ffff,
        seen_after_all(Seq::empty()) == 0,
{
}

/// Only responses to GET and HEAD are cached, both written in capitals.
pub proof fn which_methods_are_cached(method: Seq<char>)
    ensures
        is_cached_method(method) <==> method == seq!['G', 'E', 'T'] || method == seq![
            'H',
            'E',
            'A',
            'D',
        ],
{
    reveal_strlit("GET");
    reveal_strlit("HEAD");
    assert("GET"@ =~= seq!['G', 'E', 'T']);
    assert("HEAD"@ =~= seq!['H', 'E', 'A', 'D']);
}

/// A body is refused as soon as more has come than is allowed, in however many parts, and
/// not before. The greatest limit there is refuses no body.
pub proof fn when_a_body_is_refused(lens: Seq<u64>, max: u64)
    ensures
        max < u64::MAX ==> (is_refused(seen_after_all(lens), max) <==> cache_writer::sum(lens)
            > max),
        max == u64::MAX ==> !is_refused(seen_after_all(lens), max),
{
    what_has_been_seen(lens);
}

/// The cache is asked for every response that it could have kept, and for none to another
/// method than GET and HEAD or to a request for a part.
pub proof fn the_cache_is_asked_for_what_it_may_keep(
    x: Exchange,
    cache_enabled: bool,
    status: u16,
    c: HeaderContents,
    config: CacheConfig,
    now: i64,
    busy: bool,
)
    ensures
        !(verdict(x, cache_enabled, status, c, config, now, busy) is Pass) ==> is_asked_of_cache(
            x,
            cache_enabled,
        ),
        is_asked_of_cache(x, cache_enabled) ==> cache_enabled && !x.range_requested && (x.method@
            == "GET"@ || x.method@ == "HEAD"@),
        cache_enabled && !x.range_requested && (x.method@ == "GET"@ || x.method@ == "HEAD"@)
            ==> is_asked_of_cache(x, cache_enabled),
{
}

} // verus!
