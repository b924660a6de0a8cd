use httpcache::errors::ProxyError;

fn text(s: &str) -> String {
    s.to_string()
}

#[test]
fn each_failure_has_its_words_and_status() {
    let all = vec![
        (
            ProxyError::ConfigRead { path: text("a.toml"), source: text("gone") },
            500,
            "config read failed for a.toml: gone",
        ),
        (
            ProxyError::ConfigParse { path: text("a.toml"), source: text("odd") },
            500,
            "config parse failed for a.toml: odd",
        ),
        (ProxyError::ConfigValidation(text("x")), 500, "config validation failed: x"),
        (ProxyError::Io(text("x")), 500, "io error: x"),
        (ProxyError::Sqlite(text("x")), 500, "sqlite error: x"),
        (ProxyError::Http(text("x")), 500, "http error: x"),
        (ProxyError::BadRequest(text("x")), 400, "bad request: x"),
        (ProxyError::PolicyDenied(text("x")), 403, "policy denied: x"),
        (ProxyError::UpstreamConnect(text("x")), 502, "upstream connect failed: x"),
        (ProxyError::RequestBodyTooLarge, 413, "request body too large"),
        (ProxyError::Timeout, 504, "timeout"),
        (ProxyError::Internal, 500, "internal error"),
    ];
    for (failure, status, words) in all {
        assert_eq!(failure.status_code(), status);
        assert_eq!(failure.to_string(), words);
        let answer = failure.to_response();
        assert_eq!(answer.status, status);
        assert_eq!(answer.body, words);
    }
}
