//! What a configuration comes to, in terms of what is written in it: whether it is
//! refused, what is warned of, and which destinations it lets through.

use crate::config::{overlap, port_items, port_list, Config, EnvMode, PolicyConfig};
use crate::policy::{configured_rules, covers};
use crate::text::{decimal, lower, trim};
use crate::text_laws::{
    all_space, a_trimmed_text_stays, what_trimming_takes_off,
    white_space_around_a_text_is_not_seen,
};
use vstd::prelude::*;

verus! {

// ---------------------------------------------------------------------------
// Validation
// ---------------------------------------------------------------------------

proof fn what_is_blank(s: Seq<char>)
    ensures
        trim(s).len() == 0 <==> all_space(s),
{
    let ends = what_trimming_takes_off(s);
    if trim(s).len() == 0 {
        assert forall|i: int| 0 <= i < s.len() implies crate::text::is_space(#[trigger] s[i]) by {
            if i < ends.0.len() {
                assert(ends.0[i] == s[i]);
            } else {
                assert(ends.1[i - ends.0.len()] == s[i]);
            }
        }
    }
    if all_space(s) {
        let none = Seq::<char>::empty();
        white_space_around_a_text_is_not_seen(s, none, none);
        assert(s + none + none =~= s);
        a_trimmed_text_stays(none);
    }
}

/// Whether some header to be redacted has a name of white space only.
pub open spec fn has_a_blank_name(c: Config) -> bool {
    exists|i: int|
        0 <= i < c.logging.redact_headers@.len() && all_space(
            (#[trigger] c.logging.redact_headers@[i])@,
        )
}

/// A configuration is refused exactly for a blank name among the headers to be
/// redacted, a limit of zero, or a cache that keeps nothing for any time. Of several
/// reasons the first in this order is given.
pub proof fn what_a_configuration_is_refused_for(c: Config)
    ensures
        c.problem() is None <==> {
            &&& !has_a_blank_name(c)
            &&& c.limits.max_header_bytes != 0
            &&& c.limits.max_connections != 0
            &&& c.limits.connect_timeout_ms != 0
            &&& c.limits.idle_timeout_ms != 0
            &&& !c.caching.enabled || c.caching.ttl_seconds != 0
        },
        has_a_blank_name(c) ==> c.problem() == Some(
            "logging.redact_headers cannot contain empty header names"@,
        ),
        !has_a_blank_name(c) ==> {
            let l = c.limits;
            &&& l.max_header_bytes == 0 ==> c.problem() == Some(
                "limits.max_header_bytes must be greater than 0"@,
            )
            &&& l.max_header_bytes != 0 && l.max_connections == 0 ==> c.problem() == Some(
                "limits.max_connections must be greater than 0"@,
            )
            &&& l.max_header_bytes != 0 && l.max_connections != 0 && l.connect_timeout_ms == 0
                ==> c.problem() == Some("limits.connect_timeout_ms must be greater than 0"@)
            &&& l.max_header_bytes != 0 && l.max_connections != 0 && l.connect_timeout_ms != 0
                && l.idle_timeout_ms == 0 ==> c.problem() == Some(
                "limits.idle_timeout_ms must be greater than 0"@,
            )
            &&& l.max_header_bytes != 0 && l.max_connections != 0 && l.connect_timeout_ms != 0
                && l.idle_timeout_ms != 0 && c.caching.enabled && c.caching.ttl_seconds == 0
                ==> c.problem() == Some(
                "caching.ttl_seconds must be greater than 0 when caching is enabled"@,
            )
        },
{
    let names = c.logging.redact_headers@;
    assert(c.logging.redacts_a_blank_name() <==> has_a_blank_name(c)) by {
        if has_a_blank_name(c) {
            let i = choose|i: int| 0 <= i < names.len() && all_space((#[trigger] names[i])@);
            what_is_blank(names[i]@);
            assert(trim(names[i]@).len() == 0);
        }
        if c.logging.redacts_a_blank_name() {
            let i = choose|i: int| 0 <= i < names.len() && trim((#[trigger] names[i])@).len() == 0;
            what_is_blank(names[i]@);
            assert(all_space(names[i]@));
        }
    }
}

// ---------------------------------------------------------------------------
// Warnings
// ---------------------------------------------------------------------------


/// Whether a port is in both lists.
pub open spec fn some_port_is_in_both(c: Config) -> bool {
    exists|port: u16| #[trigger]
        c.policy.allowed_ports@.contains(port) && c.policy.denied_ports@.contains(port)
}

/// There is a warning for each odd thing, one and no more, in a fixed order: a cache
/// that development mode clears, a cache that writes nothing, a cache without a limit,
/// and ports that are allowed and denied, which are named.
pub proof fn what_is_warned_of(c: Config)
    ensures
        ({
            let cleared = c.caching.enabled && c.env.mode == EnvMode::Dev;
            let idle = c.caching.enabled && c.caching.cache_channel_capacity_chunks == 0;
            let endless = c.caching.enabled && c.caching.max_entries == 0;
            let both = some_port_is_in_both(c);
            let w = c.warnings();
            let a: int = if cleared {
                1
            } else {
                0
            };
            let b: int = if idle {
                a + 1
            } else {
                a
            };
            let d: int = if endless {
                b + 1
            } else {
                b
            };
            &&& w.len() == if both {
                d + 1
            } else {
                d
            }
            &&& cleared ==> w[0]
                == "dev mode clears .cache on startup, so cached objects are not persistent across restarts"@
            &&& idle ==> w[a]
                == "caching is enabled but cache_channel_capacity_chunks is 0, so cache writes will be skipped"@
            &&& endless ==> w[b]
                == "caching is enabled but max_entries is 0, so no SQLite LRU eviction limit is enforced"@
            &&& both ==> w[d]
                == "policy.allowed_ports and policy.denied_ports overlap; denied ports win: "@
                + port_list(overlap(c.policy.allowed_ports@, c.policy.denied_ports@))
        }),
{
    let allowed = c.policy.allowed_ports@;
    let denied = c.policy.denied_ports@;
    let ports = overlap(allowed, denied);
    assert(ports.len() > 0 <==> some_port_is_in_both(c)) by {
        if ports.len() > 0 {
            crate::config::the_overlap_is_what_both_lists_hold(allowed, denied, ports[0]);
            assert(ports.contains(ports[0]));
        }
        if some_port_is_in_both(c) {
            let port = choose|port: u16| #[trigger]
                allowed.contains(port) && denied.contains(port);
            crate::config::the_overlap_is_what_both_lists_hold(allowed, denied, port);
        }
    }
}

/// The ports in both lists are named in the order of the allowed ones, as often as they
/// are allowed.
pub proof fn the_overlap_goes_by_the_allowed_ports(
    first: Seq<u16>,
    second: Seq<u16>,
    denied: Seq<u16>,
    port: u16,
)
    ensures
        overlap(first + second, denied) == overlap(first, denied) + overlap(second, denied),
        denied.contains(port) ==> overlap(seq![port], denied) == seq![port],
        !denied.contains(port) ==> overlap(seq![port], denied) == Seq::<u16>::empty(),
    decreases second.len(),
{
    let one = seq![port];
    assert(one.drop_last() =~= Seq::<u16>::empty());
    assert(overlap(one.drop_last(), denied) =~= Seq::<u16>::empty());
    assert(Seq::<u16>::empty().push(port) =~= one);
    if second.len() == 0 {
        assert(first + second =~= first);
        assert(overlap(first, denied) + overlap(second, denied) =~= overlap(first, denied));
    } else {
        the_overlap_goes_by_the_allowed_ports(first, second.drop_last(), denied, port);
        assert((first + second).drop_last() =~= first + second.drop_last());
        assert(overlap(first + second, denied) =~= overlap(first, denied) + overlap(
            second,
            denied,
        ));
    }
}

/// A list of ports is written between brackets, each port in base ten, with a comma and
/// a space between two.
pub proof fn how_ports_are_listed(ports: Seq<u16>, port: u16)
    ensures
        port_list(ports) == seq!['['] + port_items(ports) + seq![']'],
        port_items(Seq::<u16>::empty()) == Seq::<char>::empty(),
        port_items(seq![port]) == decimal(port as nat),
        ports.len() > 0 ==> port_items(ports.push(port)) == port_items(ports) + seq![',', ' ']
            + decimal(port as nat),
{
    reveal_strlit("[");
    reveal_strlit("]");
    reveal_strlit(", ");
    assert("["@ =~= seq!['[']);
    assert("]"@ =~= seq![']']);
    assert(", "@ =~= seq![',', ' ']);
    assert(ports.push(port).drop_last() =~= ports);
}

// ---------------------------------------------------------------------------
// Policy
// ---------------------------------------------------------------------------

/// Whether a pattern of the list, in small letters, covers the host.
pub open spec fn a_pattern_covers(patterns: Seq<String>, host: Seq<char>) -> bool {
    exists|i: int| 0 <= i < patterns.len() && covers(lower((#[trigger] patterns[i])@), lower(host))
}

proof fn the_configured_patterns_cover(patterns: Seq<String>, host: Seq<char>)
    ensures
        crate::policy::any_covers(
            crate::policy::all_lower(crate::text::string_texts(patterns)),
            lower(host),
        ) <==> a_pattern_covers(patterns, host),
{
    let all = crate::policy::all_lower(crate::text::string_texts(patterns));
    if a_pattern_covers(patterns, host) {
        let i = choose|i: int|
            0 <= i < patterns.len() && covers(lower((#[trigger] patterns[i])@), lower(host));
        assert(all[i] == lower(patterns[i]@));
    }
    if crate::policy::any_covers(all, lower(host)) {
        let i = choose|i: int| 0 <= i < all.len() && covers(#[trigger] all[i], lower(host));
        assert(all[i] == lower(patterns[i]@));
        assert(covers(lower(patterns[i]@), lower(host)));
    }
}

/// Every pattern and every port that is configured counts. A destination is refused by
/// the rules exactly if some denied pattern covers the host, there are allowed patterns
/// and none of them does, the port is denied, or there are allowed ports and it is none
/// of them. The reason names the host in small letters, or the port.
pub proof fn what_a_configuration_lets_through(config: PolicyConfig, host: Seq<char>, port: u16)
    ensures
        ({
            let r = configured_rules(config).refusal(host, port);
            let denied = a_pattern_covers(config.denied_domains@, host);
            let unlisted = config.allowed_domains@.len() > 0 && !a_pattern_covers(
                config.allowed_domains@,
                host,
            );
            let denied_port = exists|i: int|
                0 <= i < config.denied_ports@.len() && #[trigger] config.denied_ports@[i] == port;
            let unlisted_port = config.allowed_ports@.len() > 0 && forall|i: int|
                0 <= i < config.allowed_ports@.len() ==> #[trigger] config.allowed_ports@[i]
                    != port;
            &&& r is Some <==> denied || unlisted || denied_port || unlisted_port
            &&& denied ==> r == Some("domain denied: "@ + lower(host))
            &&& !denied && unlisted ==> r == Some("domain not allowed: "@ + lower(host))
            &&& !denied && !unlisted && denied_port ==> r == Some(
                "port denied: "@ + decimal(port as nat),
            )
            &&& !denied && !unlisted && !denied_port && unlisted_port ==> r == Some(
                "port not allowed: "@ + decimal(port as nat),
            )
        }),
{
    the_configured_patterns_cover(config.denied_domains@, host);
    the_configured_patterns_cover(config.allowed_domains@, host);
    let rules = configured_rules(config);
    assert(rules.denied_ports.contains(port) <==> exists|i: int|
        0 <= i < config.denied_ports@.len() && #[trigger] config.denied_ports@[i] == port);
    assert(rules.allowed_ports.contains(port) <==> exists|i: int|
        0 <= i < config.allowed_ports@.len() && #[trigger] config.allowed_ports@[i] == port);
}

/// A host that any of the denied patterns covers is refused, whatever else is
/// configured; and a host that is let through is covered by one of the allowed patterns,
/// if there are any.
pub proof fn each_configured_pattern_counts(
    config: PolicyConfig,
    host: Seq<char>,
    port: u16,
    i: int,
)
    ensures
        0 <= i < config.denied_domains@.len() && covers(
            lower(config.denied_domains@[i]@),
            lower(host),
        ) ==> configured_rules(config).refusal(host, port) is Some,
        0 <= i < config.denied_ports@.len() && config.denied_ports@[i] == port
            ==> configured_rules(config).refusal(host, port) is Some,
        configured_rules(config).denied_domains.len() == config.denied_domains@.len(),
        configured_rules(config).allowed_domains.len() == config.allowed_domains@.len(),
        configured_rules(config).denied_ports == config.denied_ports@,
        configured_rules(config).allowed_ports == config.allowed_ports@,
        0 <= i < config.denied_domains@.len() ==> configured_rules(config).denied_domains[i]
            == lower(config.denied_domains@[i]@),
        0 <= i < config.allowed_domains@.len() ==> configured_rules(config).allowed_domains[i]
            == lower(config.allowed_domains@[i]@),
{
    what_a_configuration_lets_through(config, host, port);
    let patterns = config.denied_domains@;
    if 0 <= i < patterns.len() && covers(lower(patterns[i]@), lower(host)) {
        assert(a_pattern_covers(patterns, host));
    }
}

/// What a pattern covers. A star alone covers every domain. A star and a dot before a
/// name cover what has a label, a dot and the name, the label being anything but empty.
/// Any other pattern covers itself.
pub proof fn what_a_pattern_covers(pattern: Seq<char>, name: Seq<char>, domain: Seq<char>)
    ensures
        covers(seq!['*'], domain),
        covers(seq!['*', '.'] + name, domain) <==> exists|label: Seq<char>|
            label.len() > 0 && domain == #[trigger] (label + seq!['.'] + name),
        pattern != seq!['*'] && !(pattern.len() >= 2 && pattern[0] == '*' && pattern[1] == '.')
            ==> (covers(pattern, domain) <==> pattern == domain),
{
    reveal_strlit("*");
    reveal_strlit("*.");
    reveal_strlit(".");
    assert("*"@ =~= seq!['*']);
    assert("."@ =~= seq!['.']);
    assert("*."@ =~= seq!['*', '.']);
    let wild = seq!['*', '.'] + name;
    assert(wild.skip(2) =~= name);
    assert(wild.take(2) =~= "*."@);
    assert("*."@.is_prefix_of(wild));
    assert(wild.len() >= 2);
    let suffix = seq!['.'] + name;
    if covers(wild, domain) {
        let label = domain.take(domain.len() - suffix.len());
        let rest = domain.skip(domain.len() - suffix.len());
        assert("."@ + wild.skip(2) =~= suffix);
        assert(rest =~= suffix);
        assert(domain =~= label + rest);
        assert(label + suffix =~= label + seq!['.'] + name);
    }
    if exists|label: Seq<char>|
        label.len() > 0 && domain == #[trigger] (label + seq!['.'] + name) {
        let label = choose|label: Seq<char>|
            label.len() > 0 && domain == #[trigger] (label + seq!['.'] + name);
        assert(domain.skip(domain.len() - suffix.len()) =~= suffix);
        assert(suffix.is_suffix_of(domain));
    }
    if "*."@.is_prefix_of(pattern) {
        assert(pattern[0] == "*."@[0]);
        assert(pattern[1] == "*."@[1]);
    }
}

} // verus!
