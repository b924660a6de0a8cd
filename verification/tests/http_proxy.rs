use httpcache::cache::CacheEntry;
use httpcache::config::{CacheConfig, PolicyConfig};
use httpcache::errors::ProxyError;
use httpcache::http_proxy::cache_pipeline::{
    cached_response, hash_key, object_paths, paths_for, try_acquire_cache_write, CacheWriteLocks,
    CachedBody,
};
use httpcache::http_proxy::upstream::RequestHead;
use httpcache::http_proxy::{
    begin, prepare_forward, wrap_limited_request_body, Exchange, LimitedBody, PassReason,
    ResponsePlan,
};
use httpcache::policy::PolicyEngine;
use hyper::header::HeaderValue;
use hyper::HeaderMap;

fn headers(list: &[(&'static str, &str)]) -> HeaderMap {
    let mut map = HeaderMap::new();
    for (name, value) in list {
        map.append(*name, HeaderValue::from_str(value).unwrap());
    }
    map
}

fn head(method: &str, uri: &str, list: &[(&'static str, &str)]) -> RequestHead {
    RequestHead { method: method.to_string(), uri: uri.to_string(), headers: headers(list) }
}

fn open_policy() -> PolicyEngine {
    PolicyEngine::new(&PolicyConfig {
        allowed_domains: vec!["*".to_string()],
        denied_domains: vec!["denied.test".to_string()],
        allowed_ports: vec![],
        denied_ports: vec![],
    })
}

fn exchange(method: &str, uri: &str, list: &[(&'static str, &str)]) -> Exchange {
    begin(&mut head(method, uri, list), &open_policy()).unwrap()
}

fn entry(headers: &[(&str, &str)], body_path: Option<&str>, body_size: u64) -> CacheEntry {
    CacheEntry {
        key: "GET http://a.test/".to_string(),
        method: "GET".to_string(),
        url: "http://a.test/".to_string(),
        status: 203,
        headers: headers.iter().map(|(a, b)| (a.to_string(), b.to_string())).collect(),
        body_path: body_path.map(|path| path.to_string()),
        body_size,
        created_at: 0,
        expires_at: 10,
        last_access: 0,
    }
}

// Requests

#[test]
fn http_proxy_forwards_origin_form() {
    let mut req = head("GET", "http://127.0.0.1:9/hello?name=test", &[]);
    let x = begin(&mut req, &open_policy()).unwrap();
    assert_eq!(req.uri, "/hello?name=test");
    assert_eq!(req.headers.get("host").unwrap(), "127.0.0.1:9");
    assert_eq!(x.url, "http://127.0.0.1:9/hello?name=test");
    assert_eq!(x.method, "GET");
    assert!(!x.range_requested);
    assert_eq!((x.target.host.as_str(), x.target.port), ("127.0.0.1", 9));
}

#[test]
fn refused_requests_are_answered_with_403() {
    let err = begin(&mut head("GET", "http://denied.test/", &[]), &open_policy()).unwrap_err();
    assert!(matches!(err, ProxyError::PolicyDenied(_)));
    assert_eq!(err.to_response().status, 403);
    assert_eq!(err.to_response().body, "policy denied: domain denied: denied.test");
}

#[test]
fn requests_without_a_server_are_answered_with_400() {
    let mut req = head("GET", "/x", &[]);
    let err = begin(&mut req, &open_policy()).unwrap_err();
    assert_eq!(err.to_response().status, 400);
    assert_eq!(req.uri, "/x");
}

#[test]
fn the_cache_is_asked_for_whole_responses_only() {
    let x = exchange("GET", "http://a.test/", &[]);
    assert!(x.asks_cache(true));
    assert!(!x.asks_cache(false));
    assert!(exchange("HEAD", "http://a.test/", &[]).asks_cache(true));
    assert!(!exchange("POST", "http://a.test/", &[]).asks_cache(true));
    assert!(!exchange("GET", "http://a.test/", &[("range", "bytes=0-99")]).asks_cache(true));
}

#[test]
fn wrap_limited_request_body_rejects_large_content_length() {
    let req = head("POST", "http://example.com/upload", &[("content-length", "11")]);

    let err = wrap_limited_request_body(&req, "hello world", 10).unwrap_err();
    assert!(matches!(err, ProxyError::RequestBodyTooLarge));
    assert!(wrap_limited_request_body(&req, "hello world", 11).is_ok());
}

#[test]
fn limited_body_allows_small_payloads() {
    let mut body = LimitedBody::new("ok", 8);
    assert!(body.note_data(body.inner.len() as u64).is_ok());
    assert_eq!(body.inner, "ok");
}

#[test]
fn limited_body_rejects_payloads_that_exceed_limit() {
    let mut body = LimitedBody::new(vec![b'x'; 16], 8);
    let result = body.note_data(body.inner.len() as u64);
    assert!(matches!(result, Err(ProxyError::RequestBodyTooLarge)));
}

#[test]
fn limited_body_handles_empty_payloads() {
    let mut body = LimitedBody::new((), 1);
    assert_eq!((body.seen_bytes, body.max_bytes), (0, 1));
    assert!(body.note_data(0).is_ok());
    assert_eq!(body.seen_bytes, 0);
}

#[test]
fn a_body_passes_up_to_the_limit() {
    let mut body = LimitedBody::new((), 10);
    assert!(body.note_data(4).is_ok());
    assert!(body.note_data(6).is_ok());
    assert!(body.note_data(0).is_ok());
    assert!(body.note_data(1).is_err());

    let mut body = LimitedBody::new((), u64::MAX);
    assert!(body.note_data(u64::MAX).is_ok());
    assert!(body.note_data(1).is_ok());
}

#[test]
fn what_is_forwarded_is_stripped_first() {
    let mut req = head(
        "POST",
        "/",
        &[("connection", "content-length"), ("content-length", "11"), ("proxy-authorization", "x"), ("x", "y")],
    );
    let body = prepare_forward(&mut req, (), 10).unwrap();
    assert_eq!(body.max_bytes, 10);
    assert_eq!(req.headers.len(), 1);
    assert_eq!(req.headers.get("x").unwrap(), "y");

    let mut req = head("POST", "/", &[("content-length", "11")]);
    assert!(matches!(prepare_forward(&mut req, (), 10), Err(ProxyError::RequestBodyTooLarge)));
}

// Replies from the cache

#[test]
fn a_reply_has_the_stored_headers_and_the_length_of_the_body() {
    let reply = cached_response(
        "GET",
        &entry(
            &[
                ("content-type", "text/plain"),
                ("X-One", "1"),
                ("x-one", "2"),
                ("bad name", "x"),
                ("x-bad", "a\nb"),
                ("connection", "close"),
                ("content-length", "99"),
            ],
            Some(".cache/objects/b"),
            11,
        ),
    )
    .unwrap();
    assert_eq!(reply.status, 203);
    assert_eq!(reply.headers.len(), 3);
    assert_eq!(reply.headers.get("content-type").unwrap(), "text/plain");
    assert_eq!(reply.headers.get("x-one").unwrap(), "2");
    assert_eq!(reply.headers.get("content-length").unwrap(), "11");
    match reply.body {
        CachedBody::File(path) => assert_eq!(path, ".cache/objects/b"),
        CachedBody::Empty => panic!("no body"),
    }
}

#[test]
fn head_cache_replays_without_upstream_round_trip() {
    let reply = cached_response("HEAD", &entry(&[("content-length", "4096")], None, 0)).unwrap();
    assert!(matches!(reply.body, CachedBody::Empty));
    assert_eq!(reply.headers.get("content-length").unwrap(), "4096");

    let reply = cached_response("HEAD", &entry(&[], None, 0)).unwrap();
    assert_eq!(reply.headers.get("content-length").unwrap(), "0");
}

#[test]
fn an_entry_without_a_body_answers_head_only() {
    assert!(matches!(cached_response("GET", &entry(&[], None, 0)), Err(ProxyError::Internal)));
    let x = exchange("GET", "http://a.test/", &[]);
    assert!(x.answer_from_cache(&Some(entry(&[], None, 0))).is_none());
    assert!(x.answer_from_cache(&None).is_none());
    assert!(x.answer_from_cache(&Some(entry(&[], Some("b"), 0))).is_some());
}

#[test]
fn an_odd_status_becomes_200() {
    let mut stored = entry(&[], Some("b"), 0);
    stored.status = 99;
    assert_eq!(cached_response("GET", &stored).unwrap().status, 200);
    stored.status = 1000;
    assert_eq!(cached_response("GET", &stored).unwrap().status, 200);
    stored.status = 999;
    assert_eq!(cached_response("GET", &stored).unwrap().status, 999);
}

#[test]
fn thousands_of_headers_are_replayed() {
    let names: Vec<String> = (0..6000).map(|n| format!("x-{}", n)).collect();
    let list: Vec<(&str, &str)> = names.iter().map(|name| (name.as_str(), "v")).collect();
    let reply = cached_response("GET", &entry(&list, Some("b"), 0)).unwrap();
    assert_eq!(reply.headers.len(), 6001);
}

#[test]
fn the_same_name_counts_once() {
    let list: Vec<(&str, &str)> = (0..7000).map(|_| ("x-same", "v")).collect();
    let reply = cached_response("GET", &entry(&list, Some("b"), 3)).unwrap();
    assert_eq!(reply.headers.len(), 2);
    assert_eq!(reply.headers.get("x-same").unwrap(), "v");
}

// Where bodies are kept

#[test]
fn a_key_is_hashed() {
    assert_eq!(
        hash_key("abc"),
        "ba7816bf8f01cfea414140de5dae2223b00361a396177a9cb410ff61f20015ad"
    );
    assert_eq!(
        hash_key(""),
        "e3b0c44298fc1c149afbf4c8996fb92427ae41e4649b934ca495991b7852b855"
    );
}

#[test]
fn a_body_is_kept_under_its_hash() {
    let paths = paths_for(".cache", "00ff", "t");
    assert_eq!(paths.final_path, ".cache/objects/00ff");
    assert_eq!(paths.temp_path, ".cache/objects/00ff.tmp-t");

    let one = object_paths(".cache", "abc");
    let two = object_paths(".cache", "abc");
    assert_eq!(one.final_path, format!(".cache/objects/{}", hash_key("abc")));
    assert_eq!(one.final_path, two.final_path);
    assert!(one.temp_path.starts_with(&format!("{}.tmp-", one.final_path)));
    assert_ne!(one.temp_path, two.temp_path);
}

#[test]
fn a_response_has_one_writer() {
    let mut locks = CacheWriteLocks::new();
    let one = try_acquire_cache_write(&mut locks, "a").unwrap();
    assert_eq!(one.key(), "a");
    assert!(try_acquire_cache_write(&mut locks, "a").is_none());
    let two = try_acquire_cache_write(&mut locks, "b").unwrap();
    locks.release(one);
    assert!(try_acquire_cache_write(&mut locks, "b").is_none());
    assert!(try_acquire_cache_write(&mut locks, "a").is_some());
    locks.release(two);
    assert!(try_acquire_cache_write(&mut locks, "b").is_some());
}

// Responses

fn plan(
    x: &Exchange,
    status: u16,
    list: &[(&'static str, &str)],
    config: &CacheConfig,
) -> ResponsePlan {
    let mut locks = CacheWriteLocks::new();
    x.plan_response_at(true, status, &headers(list), config, ".cache", 1_000, &mut locks)
}

fn reason(plan: ResponsePlan) -> PassReason {
    match plan {
        ResponsePlan::PassOn(reason) => reason,
        ResponsePlan::StoreHead(_) => panic!("the head is kept"),
        ResponsePlan::Stream(_) => panic!("the body is kept"),
    }
}

#[test]
fn a_good_response_is_written() {
    let x = exchange("GET", "http://a.test/x", &[]);
    let config = CacheConfig { cache_writer_delay_ms: 3, ..CacheConfig::default() };
    match plan(&x, 200, &[("content-length", "5"), ("cache-control", "max-age=60")], &config) {
        ResponsePlan::Stream(stream) => {
            assert_eq!(stream.plan.key, "GET http://a.test/x");
            assert_eq!(stream.plan.method, "GET");
            assert_eq!(stream.plan.url, "http://a.test/x");
            assert_eq!(stream.plan.status, 200);
            assert_eq!(stream.plan.headers.len(), 2);
            assert_eq!(
                stream.plan.body_path,
                format!(".cache/objects/{}", hash_key("GET http://a.test/x"))
            );
            assert!(stream.temp_path.starts_with(&stream.plan.body_path));
            assert_eq!(stream.plan.created_at, 1_000);
            assert_eq!(stream.plan.expires_at, 1_060);
            assert_eq!(stream.plan.content_length, Some(5));
            assert_eq!(stream.plan.max_object_size_bytes, 1_073_741_824);
            assert!(stream.plan.require_content_length);
            assert_eq!(stream.plan.writer_delay_ms, 3);
            assert_eq!(stream.channel_capacity_chunks, 64);
            assert_eq!(stream.permit.key(), "GET http://a.test/x");
        }
        _ => panic!("the body is not kept"),
    }
}

#[test]
fn the_head_of_a_response_is_kept() {
    let x = exchange("HEAD", "http://a.test/x", &[]);
    match plan(&x, 204, &[("content-length", "4096")], &CacheConfig::default()) {
        ResponsePlan::StoreHead(request) => {
            assert_eq!(request.key, "HEAD http://a.test/x");
            assert_eq!(request.status, 204);
            assert_eq!(
                request.headers,
                vec![("content-length".to_string(), "4096".to_string())]
            );
            assert!(request.body_path.is_none());
            assert_eq!(request.body_size, 0);
            assert_eq!((request.created_at, request.expires_at), (1_000, 1_300));
        }
        _ => panic!("the head is not kept"),
    }
}

#[test]
fn range_responses_are_not_cached() {
    let config = CacheConfig::default();
    let x = exchange("GET", "http://a.test/", &[("range", "bytes=0-99")]);
    assert_eq!(reason(plan(&x, 206, &[("content-length", "100")], &config)), PassReason::RangeRequested);
    let x = exchange("GET", "http://a.test/", &[]);
    assert_eq!(reason(plan(&x, 206, &[("content-length", "100")], &config)), PassReason::PartialContent);
}

#[test]
fn some_responses_are_only_passed_on() {
    let config = CacheConfig::default();
    let x = exchange("GET", "http://a.test/", &[]);
    let length = ("content-length", "5");
    assert_eq!(
        reason(plan(&x, 200, &[length, ("cache-control", "no-store")], &config)),
        PassReason::Forbidden
    );
    assert_eq!(
        reason(plan(&x, 200, &[length, ("cache-control", "max-age=0")], &config)),
        PassReason::NotFresh
    );
    assert_eq!(reason(plan(&x, 404, &[length], &config)), PassReason::NotFresh);
    assert_eq!(
        reason(plan(&x, 200, &[("content-length", "1073741825")], &config)),
        PassReason::TooLarge
    );
    assert_eq!(reason(plan(&x, 200, &[], &config)), PassReason::NoLength);
    let narrow = CacheConfig { cache_channel_capacity_chunks: 0, ..CacheConfig::default() };
    assert_eq!(reason(plan(&x, 200, &[length], &narrow)), PassReason::NoCapacity);
    let post = exchange("POST", "http://a.test/", &[]);
    assert_eq!(reason(plan(&post, 200, &[length], &config)), PassReason::NotCached);
    let lax = CacheConfig {
        cache_require_content_length: false,
        cache_max_object_size_bytes: 0,
        ..CacheConfig::default()
    };
    assert!(matches!(plan(&x, 200, &[], &lax), ResponsePlan::Stream(_)));
    assert!(matches!(
        plan(&x, 200, &[("content-length", "99999999999")], &lax),
        ResponsePlan::Stream(_)
    ));
}

#[test]
fn nothing_is_kept_without_a_cache() {
    let x = exchange("GET", "http://a.test/", &[]);
    let mut locks = CacheWriteLocks::new();
    let map = headers(&[("content-length", "5")]);
    let config = CacheConfig::default();
    let planned = x.plan_response_at(false, 200, &map, &config, ".", 1_000, &mut locks);
    assert_eq!(reason(planned), PassReason::NotCached);
}

#[test]
fn a_response_is_written_once_at_a_time() {
    let x = exchange("GET", "http://a.test/", &[]);
    let mut locks = CacheWriteLocks::new();
    let map = headers(&[("content-length", "5")]);
    let config = CacheConfig::default();
    let first = x.plan_response(true, 200, &map, &config, ".cache", &mut locks);
    let second = x.plan_response(true, 200, &map, &config, ".cache", &mut locks);
    assert_eq!(reason(second), PassReason::BeingWritten);
    match first {
        ResponsePlan::Stream(stream) => locks.release(stream.permit),
        _ => panic!("the body is not kept"),
    }
    let third = x.plan_response(true, 200, &map, &config, ".cache", &mut locks);
    assert!(matches!(third, ResponsePlan::Stream(_)));
}
