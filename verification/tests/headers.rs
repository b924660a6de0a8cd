use httpcache::cache::{cache_objects_dir, parse_cache_control, path_join, CacheControl};
use httpcache::headers::strip_hop_by_hop;
use httpcache::http_proxy::headers::{
    compute_expiry, expiry_at, expiry_from, headers_for_storage, parse_content_length,
};
use hyper::header::{HeaderValue, HOST};
use hyper::HeaderMap;

fn headers(list: &[(&'static str, &str)]) -> HeaderMap {
    let mut map = HeaderMap::new();
    for (name, value) in list {
        map.append(*name, HeaderValue::from_str(value).unwrap());
    }
    map
}

#[test]
fn strip_hop_by_hop_headers() {
    let mut headers = HeaderMap::new();
    headers.insert("Connection", HeaderValue::from_static("keep-alive, upgrade"));
    headers.insert("Keep-Alive", HeaderValue::from_static("timeout=5"));
    headers.insert("Upgrade", HeaderValue::from_static("websocket"));
    headers.insert("Proxy-Authorization", HeaderValue::from_static("token"));
    headers.insert(HOST, HeaderValue::from_static("example.com"));

    strip_hop_by_hop(&mut headers);

    assert!(headers.get("connection").is_none());
    assert!(headers.get("keep-alive").is_none());
    assert!(headers.get("upgrade").is_none());
    assert!(headers.get("proxy-authorization").is_none());
    assert!(headers.get(HOST).is_some());
}

#[test]
fn what_connection_lists_is_stripped() {
    let mut map = headers(&[
        ("connection", "X-One , x-two,,"),
        ("x-one", "1"),
        ("x-two", "2"),
        ("x-two", "22"),
        ("x-three", "3"),
        ("te", "trailers"),
        ("trailer", "x"),
        ("transfer-encoding", "chunked"),
        ("proxy-connection", "close"),
    ]);
    strip_hop_by_hop(&mut map);
    assert_eq!(map.len(), 1);
    assert_eq!(map.get("x-three").unwrap(), "3");

    let before = map.clone();
    strip_hop_by_hop(&mut map);
    assert_eq!(map, before);
}

#[test]
fn connection_may_list_what_is_no_name() {
    let mut map = headers(&[("connection", "\"x\", a b, :, x-one"), ("x-one", "1"), ("x", "2")]);
    strip_hop_by_hop(&mut map);
    assert_eq!(map.len(), 1);
    assert_eq!(map.get("x").unwrap(), "2");
}

#[test]
fn headers_are_stored_as_text() {
    let mut map = headers(&[
        ("content-type", "text/plain"),
        ("set-cookie", "a=1"),
        ("set-cookie", "b=2"),
        ("connection", "close"),
        ("proxy-authorization", "secret"),
    ]);
    map.insert("x-raw", HeaderValue::from_bytes(b"\xff").unwrap());
    let mut stored = headers_for_storage(&map);
    stored.sort();
    let pair = |a: &str, b: &str| (a.to_string(), b.to_string());
    assert_eq!(
        stored,
        vec![
            pair("content-type", "text/plain"),
            pair("set-cookie", "a=1"),
            pair("set-cookie", "b=2"),
        ]
    );
}

#[test]
fn the_announced_length_is_read() {
    assert_eq!(parse_content_length(&headers(&[("content-length", "11")])), Some(11));
    assert_eq!(parse_content_length(&headers(&[("content-length", "11 ")])), None);
    assert_eq!(parse_content_length(&headers(&[("content-length", "x")])), None);
    assert_eq!(parse_content_length(&headers(&[])), None);
}

#[test]
fn cache_control_parsing() {
    let control = parse_cache_control("max-age=60, no-cache");
    assert_eq!(control.max_age, Some(60));
    assert!(control.no_cache);
    assert!(!control.no_store);
}

#[test]
fn cache_control_is_lenient() {
    let control = parse_cache_control("NO-STORE ,max-age=1,  max-age=20 , max-age=x, public");
    assert_eq!(control, CacheControl { no_store: true, no_cache: false, max_age: Some(20) });
    let control = parse_cache_control("Max-Age=5");
    assert_eq!(control.max_age, None);
    let control = parse_cache_control("");
    assert_eq!(control, CacheControl { no_store: false, no_cache: false, max_age: None });
}

#[test]
fn the_time_to_live_counts_alone() {
    assert_eq!(expiry_at(&headers(&[]), 300, 1_000), Some(1_300));
    assert_eq!(expiry_at(&headers(&[]), 300, i64::MAX - 1), Some(i64::MAX));
}

#[test]
fn the_earliest_of_the_limits_counts() {
    let map = headers(&[("cache-control", "max-age=60")]);
    assert_eq!(expiry_at(&map, 300, 1_000), Some(1_060));
    assert_eq!(expiry_at(&map, 30, 1_000), Some(1_030));

    // 784111777 seconds after the start of 1970.
    let map = headers(&[("expires", "Sun, 06 Nov 1994 08:49:37 GMT")]);
    assert_eq!(expiry_at(&map, 300, 784_111_700), Some(784_111_777));
    assert_eq!(expiry_at(&map, 30, 784_111_700), Some(784_111_730));
    let map = headers(&[("expires", "0")]);
    assert_eq!(expiry_at(&map, 300, 1_000), Some(1_300));
}

#[test]
fn what_must_not_be_cached_does_not_expire() {
    assert_eq!(expiry_at(&headers(&[("cache-control", "no-store")]), 300, 0), None);
    assert_eq!(expiry_at(&headers(&[("cache-control", "a, No-Cache")]), 300, 0), None);
}

#[test]
fn expiry_goes_by_what_the_headers_say() {
    let control = CacheControl { no_store: false, no_cache: false, max_age: Some(5) };
    assert_eq!(expiry_from(Some(control), Some(1_003), 300, 1_000), Some(1_003));
    assert_eq!(expiry_from(Some(control), None, 300, 1_000), Some(1_005));
    assert_eq!(expiry_from(None, Some(7), 300, 1_000), Some(7));
    let control = CacheControl { no_store: true, no_cache: false, max_age: Some(5) };
    assert_eq!(expiry_from(Some(control), None, 300, 1_000), None);
}

#[test]
fn the_clock_is_used_for_what_comes_now() {
    let before = httpcache::cache::now_unix();
    let at = compute_expiry(&headers(&[]), 300).unwrap();
    let after = httpcache::cache::now_unix();
    assert!(before + 300 <= at && at <= after + 300);
    assert!(before > 1_600_000_000);
}

#[test]
fn paths_are_joined() {
    assert_eq!(cache_objects_dir(".cache"), ".cache/objects");
    assert_eq!(cache_objects_dir("/x/"), "/x/objects");
    assert_eq!(path_join("", "a"), "a");
    assert_eq!(path_join("a", "/b"), "/b");
}
