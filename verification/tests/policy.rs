use httpcache::config::PolicyConfig;
use httpcache::connect_tunnel::{connect_target, idle_time_left, tunnel_to};
use httpcache::errors::ProxyError;
use httpcache::http_proxy::upstream::{AuthorityParts, UriParts};
use httpcache::policy::{domain_matches, PolicyEngine};

fn rules(allowed: &[&str], denied: &[&str], allowed_ports: &[u16], denied_ports: &[u16]) -> PolicyEngine {
    PolicyEngine::new(&PolicyConfig {
        allowed_domains: allowed.iter().map(|s| s.to_string()).collect(),
        denied_domains: denied.iter().map(|s| s.to_string()).collect(),
        allowed_ports: allowed_ports.to_vec(),
        denied_ports: denied_ports.to_vec(),
    })
}

fn refusal(engine: &PolicyEngine, host: &str, port: u16) -> String {
    match engine.check(host, port) {
        Err(ProxyError::PolicyDenied(reason)) => reason,
        other => panic!("{:?}", other),
    }
}

#[test]
fn domain_matching_supports_wildcards() {
    assert!(domain_matches("*", "example.com"));
    assert!(domain_matches("example.com", "example.com"));
    assert!(!domain_matches("example.com", "api.example.com"));
    assert!(domain_matches("*.example.com", "api.example.com"));
    assert!(!domain_matches("*.example.com", "example.com"));
}

#[test]
fn a_wildcard_needs_a_label() {
    assert!(!domain_matches("*.example.com", ".example.com"));
    assert!(!domain_matches("*.example.com", "badexample.com"));
    assert!(domain_matches("*.example.com", "a.b.example.com"));
    assert!(!domain_matches("", "example.com"));
}

#[test]
fn empty_lists_allow_everything() {
    let engine = rules(&[], &[], &[], &[]);
    assert!(engine.check("example.com", 1).is_ok());
}

#[test]
fn what_is_denied_comes_first() {
    let engine = rules(&["*"], &["*.Bad.test"], &[80, 443], &[443]);
    assert!(engine.check("good.test", 80).is_ok());
    assert_eq!(refusal(&engine, "X.BAD.test", 80), "domain denied: x.bad.test");
    assert_eq!(refusal(&engine, "good.test", 443), "port denied: 443");
    assert_eq!(refusal(&engine, "good.test", 8080), "port not allowed: 8080");
}

#[test]
fn what_is_not_listed_is_not_allowed() {
    let engine = rules(&["Example.com"], &[], &[], &[]);
    assert!(engine.check("EXAMPLE.COM", 80).is_ok());
    assert_eq!(refusal(&engine, "Other.test", 80), "domain not allowed: other.test");
}

#[test]
fn a_refusal_is_answered_with_403() {
    let engine = rules(&[], &["*"], &[], &[]);
    let answer = engine.check("example.com", 80).unwrap_err().to_response();
    assert_eq!(answer.status, 403);
    assert_eq!(answer.body, "policy denied: domain denied: example.com");
}

#[test]
fn a_tunnel_leads_to_host_and_port() {
    let engine = rules(&["*"], &[], &[443], &[]);
    let target = connect_target("example.com:443", &engine).unwrap();
    assert_eq!(target.host, "example.com");
    assert_eq!(target.port, 443);
    assert_eq!(target.address, "example.com:443");
}

#[test]
fn a_tunnel_needs_host_and_port() {
    let engine = rules(&["*"], &[], &[443], &[]);
    let message = |uri: &str| match connect_target(uri, &engine) {
        Err(ProxyError::BadRequest(m)) => m,
        other => panic!("{:?}", other),
    };
    assert_eq!(message("/path"), "missing authority");
    assert_eq!(message("example.com"), "missing port");
    assert_eq!(message("http://exa mple"), "invalid uri");
}

#[test]
fn a_tunnel_obeys_the_rules() {
    let engine = rules(&["*"], &[], &[443], &[]);
    let uri = UriParts {
        scheme: None,
        authority: Some(AuthorityParts {
            text: "example.com:22".to_string(),
            host: "example.com".to_string(),
            port: Some(22),
        }),
        path_and_query: None,
    };
    match tunnel_to(&uri, &engine) {
        Err(ProxyError::PolicyDenied(m)) => assert_eq!(m, "port not allowed: 22"),
        other => panic!("{:?}", other),
    }
}

#[test]
fn a_quiet_tunnel_is_closed_at_its_limit() {
    assert_eq!(idle_time_left(0, 60_000), Some(60_000));
    assert_eq!(idle_time_left(59_999, 60_000), Some(1));
    assert_eq!(idle_time_left(60_000, 60_000), None);
    assert_eq!(idle_time_left(u64::MAX, 60_000), None);
}
