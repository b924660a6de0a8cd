//! Which destinations the proxy may reach.

use crate::config::{has_port, PolicyConfig};
use crate::errors::ProxyError;
use crate::text::{
    chars_of, decimal, decimal_text, ends_with, joined, lower, same, starts_with, string_texts,
    sub_chars, to_lower,
};
use vstd::prelude::*;

verus! {

/// Whether the pattern covers the domain: `*` covers every domain, `*.x` every
/// domain that has something before `.x`, and any other pattern itself.
pub open spec fn covers(pattern: Seq<char>, domain: Seq<char>) -> bool {
    ||| pattern == "*"@
    ||| if "*."@.is_prefix_of(pattern) {
        let suffix = "."@ + pattern.skip(2);
        suffix.is_suffix_of(domain) && domain.len() > suffix.len()
    } else {
        pattern == domain
    }
}

/// Whether the pattern covers the domain.
pub fn domain_matches(pattern: &str, domain: &str) -> (r: bool)
    ensures
        r == covers(pattern@, domain@),
{
    if same(pattern, "*") {
        return true;
    }
    let p = chars_of(pattern);
    if starts_with(&p, "*.") {
        proof {
            reveal_strlit("*.");
            reveal_strlit(".");
        }
        let suffix = sub_chars(&p, 1, p.len());
        assert(suffix@ =~= "."@ + pattern@.skip(2)) by {
            assert(p@[1] == "*."@[1]);
        }
        let d = chars_of(domain);
        return ends_with(&d, &suffix) && d.len() > suffix.len();
    }
    same(pattern, domain)
}

/// The lists that a policy goes by. Domain patterns are in small letters.
#[verifier::ext_equal]
pub struct Rules {
    pub allowed_domains: Seq<Seq<char>>,
    pub denied_domains: Seq<Seq<char>>,
    pub allowed_ports: Seq<u16>,
    pub denied_ports: Seq<u16>,
}

/// Whether one of the patterns covers the domain.
pub open spec fn any_covers(patterns: Seq<Seq<char>>, domain: Seq<char>) -> bool {
    exists|i: int| 0 <= i < patterns.len() && covers(#[trigger] patterns[i], domain)
}

/// Texts with their ASCII capital letters made small.
pub open spec fn all_lower(s: Seq<Seq<char>>) -> Seq<Seq<char>> {
    Seq::new(s.len(), |i: int| lower(s[i]))
}

impl Rules {
    /// Why the destination is refused, or none. The domain is looked at first,
    /// and what is denied before what is allowed.
    pub open spec fn refusal(self, host: Seq<char>, port: u16) -> Option<Seq<char>> {
        let host = lower(host);
        if any_covers(self.denied_domains, host) {
            Some("domain denied: "@ + host)
        } else if self.allowed_domains.len() > 0 && !any_covers(self.allowed_domains, host) {
            Some("domain not allowed: "@ + host)
        } else if self.denied_ports.contains(port) {
            Some("port denied: "@ + decimal(port as nat))
        } else if self.allowed_ports.len() > 0 && !self.allowed_ports.contains(port) {
            Some("port not allowed: "@ + decimal(port as nat))
        } else {
            None
        }
    }
}

/// The rules that a configuration sets.
pub open spec fn configured_rules(config: PolicyConfig) -> Rules {
    Rules {
        allowed_domains: all_lower(string_texts(config.allowed_domains@)),
        denied_domains: all_lower(string_texts(config.denied_domains@)),
        allowed_ports: config.allowed_ports@,
        denied_ports: config.denied_ports@,
    }
}

/// The rules in force.
#[derive(Debug, Clone)]
pub struct PolicyEngine {
    allowed_domains: Vec<String>,
    denied_domains: Vec<String>,
    allowed_ports: Vec<u16>,
    denied_ports: Vec<u16>,
}

impl View for PolicyEngine {
    type V = Rules;

    closed spec fn view(&self) -> Rules {
        Rules {
            allowed_domains: string_texts(self.allowed_domains@),
            denied_domains: string_texts(self.denied_domains@),
            allowed_ports: self.allowed_ports@,
            denied_ports: self.denied_ports@,
        }
    }
}

fn lower_all(v: &Vec<String>) -> (r: Vec<String>)
    ensures
        string_texts(r@) == all_lower(string_texts(v@)),
{
    let mut r: Vec<String> = Vec::new();
    let mut i: usize = 0;
    while i < v.len()
        invariant
            i <= v.len(),
            r@.len() == i,
            forall|j: int| 0 <= j < i ==> (#[trigger] r@[j])@ == lower(v@[j]@),
        decreases v.len() - i,
    {
        r.push(to_lower(v[i].as_str()));
        i += 1;
    }
    assert(string_texts(r@) =~= all_lower(string_texts(v@)));
    r
}

fn any_matches(patterns: &Vec<String>, domain: &str) -> (r: bool)
    ensures
        r == any_covers(string_texts(patterns@), domain@),
{
    let ghost all = string_texts(patterns@);
    let mut i: usize = 0;
    while i < patterns.len()
        invariant
            i <= patterns.len(),
            all == string_texts(patterns@),
            forall|j: int| 0 <= j < i ==> !covers(#[trigger] all[j], domain@),
        decreases patterns.len() - i,
    {
        assert(all[i as int] == patterns@[i as int]@);
        if domain_matches(patterns[i].as_str(), domain) {
            return true;
        }
        i += 1;
    }
    false
}

fn copy_ports(ports: &Vec<u16>) -> (r: Vec<u16>)
    ensures
        r@ == ports@,
{
    let mut r: Vec<u16> = Vec::new();
    let mut i: usize = 0;
    while i < ports.len()
        invariant
            i <= ports.len(),
            r@ == ports@.take(i as int),
        decreases ports.len() - i,
    {
        r.push(ports[i]);
        i += 1;
        assert(ports@.take(i as int) =~= ports@.take(i - 1).push(ports@[i - 1]));
    }
    assert(ports@.take(i as int) =~= ports@);
    r
}

fn refused(why: &str, what: &str) -> (r: Result<(), ProxyError>)
    ensures
        r matches Err(ProxyError::PolicyDenied(m)) && m@ == why@ + what@,
{
    Err(ProxyError::PolicyDenied(joined(why, what)))
}

impl PolicyEngine {
    /// The rules that a configuration sets.
    pub fn new(config: &PolicyConfig) -> (r: Self)
        ensures
            r@ == configured_rules(*config),
    {
        PolicyEngine {
            allowed_domains: lower_all(&config.allowed_domains),
            denied_domains: lower_all(&config.denied_domains),
            allowed_ports: copy_ports(&config.allowed_ports),
            denied_ports: copy_ports(&config.denied_ports),
        }
    }

    /// Refuses a destination that the rules do not let through.
    pub fn check(&self, host: &str, port: u16) -> (r: Result<(), ProxyError>)
        ensures
            match self@.refusal(host@, port) {
                None => r is Ok,
                Some(m) => r matches Err(ProxyError::PolicyDenied(t)) && t@ == m,
            },
    {
        let host = to_lower(host);
        if any_matches(&self.denied_domains, host.as_str()) {
            return refused("domain denied: ", host.as_str());
        }
        if self.allowed_domains.len() > 0 && !any_matches(&self.allowed_domains, host.as_str()) {
            return refused("domain not allowed: ", host.as_str());
        }
        if has_port(&self.denied_ports, port) {
            return refused("port denied: ", decimal_text(port as u64).as_str());
        }
        if self.allowed_ports.len() > 0 && !has_port(&self.allowed_ports, port) {
            return refused("port not allowed: ", decimal_text(port as u64).as_str());
        }
        Ok(())
    }
}

/// A destination is let through exactly if no denied pattern covers it, an
/// allowed pattern does or there are none, its port is not denied, and its port
/// is allowed or none are listed.
pub proof fn what_the_rules_let_through(rules: Rules, host: Seq<char>, port: u16)
    ensures
        rules.refusal(host, port) is None <==> {
            &&& !any_covers(rules.denied_domains, lower(host))
            &&& rules.allowed_domains.len() > 0 ==> any_covers(rules.allowed_domains, lower(host))
            &&& !rules.denied_ports.contains(port)
            &&& rules.allowed_ports.len() > 0 ==> rules.allowed_ports.contains(port)
        },
{
}

/// A denied domain or port is refused though it is allowed as well.
pub proof fn what_is_denied_is_refused(rules: Rules, host: Seq<char>, port: u16)
    requires
        any_covers(rules.denied_domains, lower(host)) || rules.denied_ports.contains(port),
    ensures
        rules.refusal(host, port) is Some,
{
}

/// The case of a host name makes no difference.
pub proof fn the_case_of_a_host_is_ignored(rules: Rules, a: Seq<char>, b: Seq<char>, port: u16)
    requires
        lower(a) == lower(b),
    ensures
        rules.refusal(a, port) == rules.refusal(b, port),
{
}

/// A wildcard covers what stands under its domain, and not the domain itself.
pub proof fn a_wildcard_covers_subdomains_only(domain: Seq<char>, label: Seq<char>)
    requires
        label.len() > 0,
    ensures
        covers("*."@ + domain, label + "."@ + domain),
        !covers("*."@ + domain, domain),
{
    reveal_strlit("*.");
    reveal_strlit("*");
    reveal_strlit(".");
    let pattern = "*."@ + domain;
    let below = label + "."@ + domain;
    let suffix = "."@ + pattern.skip(2);
    assert(pattern.skip(2) =~= domain);
    assert(pattern.take(2) =~= "*."@);
    assert("*."@.is_prefix_of(pattern));
    assert(below.skip(below.len() - suffix.len()) =~= suffix);
    assert(suffix.is_suffix_of(below));
    assert(pattern.len() >= 2);
}

} // verus!
