use httpcache::errors::ProxyError;
use httpcache::http_proxy::upstream::{
    absolute_target, address, rewrite_absolute_form, AuthorityParts, RequestHead, UriParts,
};
use hyper::header::HOST;
use hyper::HeaderMap;

fn get(uri: &str) -> RequestHead {
    RequestHead { method: "GET".to_string(), uri: uri.to_string(), headers: HeaderMap::new() }
}

#[test]
fn http_proxy_rewrites_absolute_form() {
    let mut req = get("http://example.com/a?b=c");
    let target = rewrite_absolute_form(&mut req).unwrap();

    assert_eq!(target.host, "example.com");
    assert_eq!(target.port, 80);
    assert_eq!(req.uri.to_string(), "/a?b=c");
    assert_eq!(req.headers.get(HOST).unwrap(), "example.com");
}

#[test]
fn upstream_rewrites_absolute_form() {
    let mut req = get("http://example.com/a?b=c");
    let target = rewrite_absolute_form(&mut req).unwrap();

    assert_eq!(target.host, "example.com");
    assert_eq!(target.port, 80);
    assert_eq!(req.uri.to_string(), "/a?b=c");
    assert_eq!(req.headers.get(HOST).unwrap(), "example.com");
    assert_eq!(req.method, "GET");
}

#[test]
fn preserves_explicit_port_in_host_header() {
    let mut req = get("http://example.com:8080/");

    let target = rewrite_absolute_form(&mut req).unwrap();

    assert_eq!(target.port, 8080);
    assert_eq!(target.authority, "example.com:8080");
    assert_eq!(req.headers.get(HOST).unwrap(), "example.com:8080");
}

#[test]
fn rejects_non_http_schemes() {
    let mut req = get("https://example.com/asset");

    let err = rewrite_absolute_form(&mut req).unwrap_err();
    assert!(err.to_string().contains("unsupported scheme"));
    assert_eq!(err.to_string(), "bad request: unsupported scheme: https");
    assert_eq!(req.uri, "https://example.com/asset");
}

#[test]
fn defaults_to_root_path_when_missing_path_and_query() {
    let mut req = get("http://example.com");

    let target = rewrite_absolute_form(&mut req).unwrap();
    assert_eq!(target.host, "example.com");
    assert_eq!(req.uri.to_string(), "/");
}

#[test]
fn the_old_host_is_replaced() {
    let mut req = get("HTTP://Example.com/");
    req.headers.append(HOST, "one.test".parse().unwrap());
    req.headers.append(HOST, "two.test".parse().unwrap());
    rewrite_absolute_form(&mut req).unwrap();
    let hosts: Vec<_> = req.headers.get_all(HOST).iter().collect();
    assert_eq!(hosts, vec!["Example.com"]);
}

#[test]
fn requests_that_name_no_server_are_refused() {
    let message = |uri: &str| match rewrite_absolute_form(&mut get(uri)) {
        Err(ProxyError::BadRequest(m)) => m,
        other => panic!("{:?}", other),
    };
    assert_eq!(message("/a"), "missing scheme");
    assert_eq!(message("example.com:80"), "missing scheme");
    assert_eq!(message("http://a b/"), "invalid uri");
}

#[test]
fn an_authority_is_needed() {
    let mut uri = UriParts {
        scheme: Some("http".to_string()),
        authority: None,
        path_and_query: None,
    };
    match absolute_target(&uri) {
        Err(ProxyError::BadRequest(m)) => assert_eq!(m, "missing authority"),
        other => panic!("{:?}", other),
    }
    uri.authority = Some(AuthorityParts {
        text: "h:1".to_string(),
        host: "h".to_string(),
        port: Some(1),
    });
    let (target, path) = absolute_target(&uri).unwrap();
    assert_eq!((target.host.as_str(), target.port, target.authority.as_str()), ("h", 1, "h:1"));
    assert_eq!(path, "/");
}

#[test]
fn an_address_is_host_and_port() {
    assert_eq!(address("example.com", 80), "example.com:80");
    assert_eq!(address("[::1]", 65535), "[::1]:65535");
}
