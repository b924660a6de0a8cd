//! The configuration of the proxy: defaults, validation and warnings.

use crate::errors::ProxyError;
use crate::text::{decimal, decimal_text, is_blank, string_texts, trim};
use vstd::prelude::*;

verus! {

/// The whole configuration, one section per concern.
#[derive(Debug, Clone)]
pub struct Config {
    pub env: EnvConfig,
    pub logging: LoggingConfig,
    pub time: TimeConfig,
    pub caching: CacheConfig,
    pub limits: LimitsConfig,
    pub policy: PolicyConfig,
    pub listen: ListenConfig,
}

/// Where the proxy runs.
#[derive(Debug, Clone)]
pub struct EnvConfig {
    pub mode: EnvMode,
}

/// Development or production.
#[derive(Debug, Clone, Copy, PartialEq, Eq, Structural)]
pub enum EnvMode {
    Dev,
    Prod,
}

/// How the proxy logs.
#[derive(Debug, Clone)]
pub struct LoggingConfig {
    pub level: String,
    pub format: LoggingFormat,
    pub request_id: bool,
    pub redact_headers: Vec<String>,
}

/// The form of a log line.
#[derive(Debug, Clone, Copy, PartialEq, Eq, Structural)]
pub enum LoggingFormat {
    Pretty,
    Json,
}

/// How times are shown.
#[derive(Debug, Clone)]
pub struct TimeConfig {
    pub timezone: String,
}

/// What is cached, and for how long. A limit of 0 entries or bytes is no limit.
#[derive(Debug, Clone)]
pub struct CacheConfig {
    pub enabled: bool,
    pub ttl_seconds: u64,
    pub max_entries: usize,
    pub cache_channel_capacity_chunks: usize,
    pub cache_max_object_size_bytes: u64,
    pub cache_require_content_length: bool,
    pub cache_writer_delay_ms: u64,
}

/// How much the proxy takes on.
#[derive(Debug, Clone)]
pub struct LimitsConfig {
    pub max_header_bytes: usize,
    pub max_connections: usize,
    pub per_ip_rps: u32,
    pub connect_timeout_ms: u64,
    pub idle_timeout_ms: u64,
}

/// Which destinations may be reached. An empty list of allowed domains or ports
/// allows all of them.
#[derive(Debug, Clone)]
pub struct PolicyConfig {
    pub allowed_domains: Vec<String>,
    pub denied_domains: Vec<String>,
    pub allowed_ports: Vec<u16>,
    pub denied_ports: Vec<u16>,
}

/// The address that the proxy listens on.
#[derive(Debug, Clone)]
pub struct ListenConfig {
    pub host: String,
    pub port: u16,
}

// ---------------------------------------------------------------------------
// Defaults
// ---------------------------------------------------------------------------

impl EnvConfig {
    /// Development mode.
    pub open spec fn is_default(self) -> bool {
        self.mode == EnvMode::Dev
    }
}

impl LoggingConfig {
    /// Readable lines at level `info`, without credentials and cookies.
    pub open spec fn is_default(self) -> bool {
        &&& self.level@ == "info"@
        &&& self.format == LoggingFormat::Pretty
        &&& self.request_id
        &&& string_texts(self.redact_headers@) == seq![
            "authorization"@,
            "proxy-authorization"@,
            "cookie"@,
            "set-cookie"@,
        ]
    }
}

impl TimeConfig {
    /// Coordinated universal time.
    pub open spec fn is_default(self) -> bool {
        self.timezone@ == "UTC"@
    }
}

impl CacheConfig {
    /// No cache; when it is switched on, five minutes, 1024 entries, and
    /// objects of at most one gibibyte that announce their length.
    pub open spec fn is_default(self) -> bool {
        &&& !self.enabled
        &&& self.ttl_seconds == 300
        &&& self.max_entries == 1024
        &&& self.cache_channel_capacity_chunks == 64
        &&& self.cache_max_object_size_bytes == 1_073_741_824
        &&& self.cache_require_content_length
        &&& self.cache_writer_delay_ms == 0
    }
}

impl LimitsConfig {
    /// 32 KiB of headers, 1024 connections, 50 requests a second per address,
    /// five seconds to connect and a minute of silence.
    pub open spec fn is_default(self) -> bool {
        &&& self.max_header_bytes == 32_768
        &&& self.max_connections == 1024
        &&& self.per_ip_rps == 50
        &&& self.connect_timeout_ms == 5_000
        &&& self.idle_timeout_ms == 60_000
    }
}

impl PolicyConfig {
    /// Every domain, on the ports of HTTP and HTTPS.
    pub open spec fn is_default(self) -> bool {
        &&& string_texts(self.allowed_domains@) == seq!["*"@]
        &&& self.denied_domains@.len() == 0
        &&& self.allowed_ports@ == seq![80u16, 443u16]
        &&& self.denied_ports@.len() == 0
    }
}

impl ListenConfig {
    /// Port 3128 of every interface.
    pub open spec fn is_default(self) -> bool {
        &&& self.host@ == "0.0.0.0"@
        &&& self.port == 3128
    }
}

impl Config {
    /// Every section at its default.
    pub open spec fn is_default(self) -> bool {
        &&& self.env.is_default()
        &&& self.logging.is_default()
        &&& self.time.is_default()
        &&& self.caching.is_default()
        &&& self.limits.is_default()
        &&& self.policy.is_default()
        &&& self.listen.is_default()
    }
}

impl Default for EnvConfig {
    fn default() -> (r: Self)
        ensures
            r.is_default(),
    {
        EnvConfig { mode: EnvMode::Dev }
    }
}

impl Default for LoggingConfig {
    fn default() -> (r: Self)
        ensures
            r.is_default(),
    {
        let mut redact_headers: Vec<String> = Vec::new();
        redact_headers.push(String::from_str("authorization"));
        redact_headers.push(String::from_str("proxy-authorization"));
        redact_headers.push(String::from_str("cookie"));
        redact_headers.push(String::from_str("set-cookie"));
        assert(string_texts(redact_headers@) =~= seq![
            "authorization"@,
            "proxy-authorization"@,
            "cookie"@,
            "set-cookie"@,
        ]);
        LoggingConfig {
            level: String::from_str("info"),
            format: LoggingFormat::Pretty,
            request_id: true,
            redact_headers,
        }
    }
}

impl Default for TimeConfig {
    fn default() -> (r: Self)
        ensures
            r.is_default(),
    {
        TimeConfig { timezone: String::from_str("UTC") }
    }
}

impl Default for CacheConfig {
    fn default() -> (r: Self)
        ensures
            r.is_default(),
    {
        CacheConfig {
            enabled: false,
            ttl_seconds: 300,
            max_entries: 1024,
            cache_channel_capacity_chunks: 64,
            cache_max_object_size_bytes: 1_073_741_824,
            cache_require_content_length: true,
            cache_writer_delay_ms: 0,
        }
    }
}

impl Default for LimitsConfig {
    fn default() -> (r: Self)
        ensures
            r.is_default(),
    {
        LimitsConfig {
            max_header_bytes: 32_768,
            max_connections: 1024,
            per_ip_rps: 50,
            connect_timeout_ms: 5_000,
            idle_timeout_ms: 60_000,
        }
    }
}

impl Default for PolicyConfig {
    fn default() -> (r: Self)
        ensures
            r.is_default(),
    {
        let mut allowed_domains: Vec<String> = Vec::new();
        allowed_domains.push(String::from_str("*"));
        assert(string_texts(allowed_domains@) =~= seq!["*"@]);
        let mut allowed_ports: Vec<u16> = Vec::new();
        allowed_ports.push(80);
        allowed_ports.push(443);
        assert(allowed_ports@ =~= seq![80u16, 443u16]);
        PolicyConfig {
            allowed_domains,
            denied_domains: Vec::new(),
            allowed_ports,
            denied_ports: Vec::new(),
        }
    }
}

impl Default for ListenConfig {
    fn default() -> (r: Self)
        ensures
            r.is_default(),
    {
        ListenConfig { host: String::from_str("0.0.0.0"), port: 3128 }
    }
}

impl Default for Config {
    fn default() -> (r: Self)
        ensures
            r.is_default(),
    {
        Config {
            env: EnvConfig::default(),
            logging: LoggingConfig::default(),
            time: TimeConfig::default(),
            caching: CacheConfig::default(),
            limits: LimitsConfig::default(),
            policy: PolicyConfig::default(),
            listen: ListenConfig::default(),
        }
    }
}

// ---------------------------------------------------------------------------
// Validation
// ---------------------------------------------------------------------------

impl LoggingConfig {
    /// Whether a header to be redacted has a name of white space only.
    pub open spec fn redacts_a_blank_name(self) -> bool {
        exists|i: int|
            0 <= i < self.redact_headers@.len() && trim(
                (#[trigger] self.redact_headers@[i])@,
            ).len() == 0
    }

    fn has_blank_name(&self) -> (r: bool)
        ensures
            r == self.redacts_a_blank_name(),
    {
        let mut i: usize = 0;
        while i < self.redact_headers.len()
            invariant
                i <= self.redact_headers.len(),
                forall|j: int| 0 <= j < i ==> trim((#[trigger] self.redact_headers@[j])@).len() > 0,
            decreases self.redact_headers.len() - i,
        {
            if is_blank(self.redact_headers[i].as_str()) {
                return true;
            }
            i += 1;
        }
        false
    }
}

impl Config {
    /// What makes the configuration unusable; the first of several reasons.
    pub open spec fn problem(self) -> Option<Seq<char>> {
        if self.logging.redacts_a_blank_name() {
            Some("logging.redact_headers cannot contain empty header names"@)
        } else if self.limits.max_header_bytes == 0 {
            Some("limits.max_header_bytes must be greater than 0"@)
        } else if self.limits.max_connections == 0 {
            Some("limits.max_connections must be greater than 0"@)
        } else if self.limits.connect_timeout_ms == 0 {
            Some("limits.connect_timeout_ms must be greater than 0"@)
        } else if self.limits.idle_timeout_ms == 0 {
            Some("limits.idle_timeout_ms must be greater than 0"@)
        } else if self.caching.enabled && self.caching.ttl_seconds == 0 {
            Some("caching.ttl_seconds must be greater than 0 when caching is enabled"@)
        } else {
            None
        }
    }

    /// Refuses a configuration that the proxy cannot run with.
    pub fn validate(&self) -> (r: Result<(), ProxyError>)
        ensures
            match self.problem() {
                None => r is Ok,
                Some(m) => r matches Err(ProxyError::ConfigValidation(t)) && t@ == m,
            },
    {
        if self.logging.has_blank_name() {
            return unusable("logging.redact_headers cannot contain empty header names");
        }
        if self.limits.max_header_bytes == 0 {
            return unusable("limits.max_header_bytes must be greater than 0");
        }
        if self.limits.max_connections == 0 {
            return unusable("limits.max_connections must be greater than 0");
        }
        if self.limits.connect_timeout_ms == 0 {
            return unusable("limits.connect_timeout_ms must be greater than 0");
        }
        if self.limits.idle_timeout_ms == 0 {
            return unusable("limits.idle_timeout_ms must be greater than 0");
        }
        if self.caching.enabled && self.caching.ttl_seconds == 0 {
            return unusable("caching.ttl_seconds must be greater than 0 when caching is enabled");
        }
        Ok(())
    }
}

fn unusable(why: &str) -> (r: Result<(), ProxyError>)
    ensures
        r matches Err(ProxyError::ConfigValidation(t)) && t@ == why@,
{
    Err(ProxyError::ConfigValidation(String::from_str(why)))
}

/// A configuration that passes validation has no limit of zero where zero would
/// stop the proxy, keeps what it caches for some time, and names every header
/// that it redacts.
pub proof fn a_valid_configuration_can_run(c: Config)
    requires
        c.problem() is None,
    ensures
        c.limits.max_header_bytes > 0,
        c.limits.max_connections > 0,
        c.limits.connect_timeout_ms > 0,
        c.limits.idle_timeout_ms > 0,
        c.caching.enabled ==> c.caching.ttl_seconds > 0,
        forall|i: int|
            0 <= i < c.logging.redact_headers@.len() ==> trim(
                (#[trigger] c.logging.redact_headers@[i])@,
            ).len() > 0,
{
}

/// The default configuration passes validation.
pub proof fn the_default_configuration_is_valid(c: Config)
    requires
        c.is_default(),
    ensures
        c.problem() is None,
{
    reveal_strlit("authorization");
    reveal_strlit("proxy-authorization");
    reveal_strlit("cookie");
    reveal_strlit("set-cookie");
    let names = string_texts(c.logging.redact_headers@);
    assert forall|i: int| 0 <= i < names.len() implies trim(#[trigger] names[i]).len() > 0 by {
        assert(names[i].len() > 0);
        assert(crate::text::trim_start(names[i]) == names[i]);
        assert(crate::text::trim_end(names[i]) == names[i]);
    }
    assert forall|i: int| 0 <= i < c.logging.redact_headers@.len() implies trim(
        (#[trigger] c.logging.redact_headers@[i])@,
    ).len() > 0 by {
        assert(names[i] == c.logging.redact_headers@[i]@);
    }
}

// ---------------------------------------------------------------------------
// Warnings
// ---------------------------------------------------------------------------

/// The allowed ports that are denied too, in the order of the allowed ones.
pub open spec fn overlap(allowed: Seq<u16>, denied: Seq<u16>) -> Seq<u16>
    decreases allowed.len(),
{
    if allowed.len() == 0 {
        Seq::empty()
    } else {
        let before = overlap(allowed.drop_last(), denied);
        if denied.contains(allowed.last()) {
            before.push(allowed.last())
        } else {
            before
        }
    }
}

/// Ports in base ten, with a comma and a space between them.
pub open spec fn port_items(ports: Seq<u16>) -> Seq<char>
    decreases ports.len(),
{
    if ports.len() == 0 {
        Seq::empty()
    } else if ports.len() == 1 {
        decimal(ports[0] as nat)
    } else {
        port_items(ports.drop_last()) + ", "@ + decimal(ports.last() as nat)
    }
}

/// A list of ports between square brackets.
pub open spec fn port_list(ports: Seq<u16>) -> Seq<char> {
    "["@ + port_items(ports) + "]"@
}

/// One warning if `holds`, else none.
pub open spec fn warning_if(holds: bool, text: Seq<char>) -> Seq<Seq<char>> {
    if holds {
        seq![text]
    } else {
        Seq::empty()
    }
}

impl Config {
    /// What is odd about the configuration, though the proxy can run with it.
    pub open spec fn warnings(self) -> Seq<Seq<char>> {
        let both = overlap(self.policy.allowed_ports@, self.policy.denied_ports@);
        warning_if(
            self.env.mode == EnvMode::Dev && self.caching.enabled,
            "dev mode clears .cache on startup, so cached objects are not persistent across restarts"@,
        ) + warning_if(
            self.caching.enabled && self.caching.cache_channel_capacity_chunks == 0,
            "caching is enabled but cache_channel_capacity_chunks is 0, so cache writes will be skipped"@,
        ) + warning_if(
            self.caching.enabled && self.caching.max_entries == 0,
            "caching is enabled but max_entries is 0, so no SQLite LRU eviction limit is enforced"@,
        ) + warning_if(
            both.len() > 0,
            "policy.allowed_ports and policy.denied_ports overlap; denied ports win: "@ + port_list(
                both,
            ),
        )
    }

    /// What is odd about the configuration, though the proxy can run with it.
    pub fn startup_warnings(&self) -> (r: Vec<String>)
        ensures
            string_texts(r@) == self.warnings(),
    {
        let mut warnings: Vec<String> = Vec::new();
        if self.env.mode == EnvMode::Dev && self.caching.enabled {
            warnings.push(
                String::from_str(
                    "dev mode clears .cache on startup, so cached objects are not persistent across restarts",
                ),
            );
        }
        if self.caching.enabled && self.caching.cache_channel_capacity_chunks == 0 {
            warnings.push(
                String::from_str(
                    "caching is enabled but cache_channel_capacity_chunks is 0, so cache writes will be skipped",
                ),
            );
        }
        if self.caching.enabled && self.caching.max_entries == 0 {
            warnings.push(
                String::from_str(
                    "caching is enabled but max_entries is 0, so no SQLite LRU eviction limit is enforced",
                ),
            );
        }
        let both = overlapping_ports(&self.policy.allowed_ports, &self.policy.denied_ports);
        if both.len() > 0 {
            let mut warning = String::from_str(
                "policy.allowed_ports and policy.denied_ports overlap; denied ports win: ",
            );
            warning.append(port_list_text(&both).as_str());
            warnings.push(warning);
        }
        assert(string_texts(warnings@) =~= self.warnings());
        warnings
    }
}

/// Whether `port` is among `ports`.
pub fn has_port(ports: &Vec<u16>, port: u16) -> (r: bool)
    ensures
        r == ports@.contains(port),
{
    let mut i: usize = 0;
    while i < ports.len()
        invariant
            i <= ports.len(),
            forall|j: int| 0 <= j < i ==> ports@[j] != port,
        decreases ports.len() - i,
    {
        if ports[i] == port {
            return true;
        }
        i += 1;
    }
    false
}

fn overlapping_ports(allowed: &Vec<u16>, denied: &Vec<u16>) -> (r: Vec<u16>)
    ensures
        r@ == overlap(allowed@, denied@),
{
    let mut both: Vec<u16> = Vec::new();
    let mut i: usize = 0;
    while i < allowed.len()
        invariant
            i <= allowed.len(),
            both@ == overlap(allowed@.take(i as int), denied@),
        decreases allowed.len() - i,
    {
        assert(allowed@.take(i + 1).drop_last() =~= allowed@.take(i as int));
        if has_port(denied, allowed[i]) {
            both.push(allowed[i]);
        }
        i += 1;
    }
    assert(allowed@.take(i as int) =~= allowed@);
    both
}

fn port_list_text(ports: &Vec<u16>) -> (r: String)
    ensures
        r@ == port_list(ports@),
{
    let mut r = String::from_str("[");
    let mut i: usize = 0;
    while i < ports.len()
        invariant
            i <= ports.len(),
            r@ == "["@ + port_items(ports@.take(i as int)),
        decreases ports.len() - i,
    {
        assert(ports@.take(i + 1).drop_last() =~= ports@.take(i as int));
        if i > 0 {
            r.append(", ");
        }
        r.append(decimal_text(ports[i] as u64).as_str());
        i += 1;
        assert(r@ =~= "["@ + port_items(ports@.take(i as int)));
    }
    assert(ports@.take(i as int) =~= ports@);
    r.append("]");
    r
}

/// The ports in both lists are exactly those that the overlap holds.
pub proof fn the_overlap_is_what_both_lists_hold(allowed: Seq<u16>, denied: Seq<u16>, port: u16)
    ensures
        overlap(allowed, denied).contains(port) <==> allowed.contains(port) && denied.contains(
            port,
        ),
    decreases allowed.len(),
{
    if allowed.len() > 0 {
        the_overlap_is_what_both_lists_hold(allowed.drop_last(), denied, port);
        let before = overlap(allowed.drop_last(), denied);
        let now = overlap(allowed, denied);
        if allowed.contains(port) && allowed.last() != port {
            let i = choose|i: int| 0 <= i < allowed.len() && allowed[i] == port;
            assert(allowed.drop_last()[i] == port);
        }
        if before.contains(port) {
            let i = choose|i: int| 0 <= i < before.len() && before[i] == port;
            assert(now[i] == port);
        }
        if allowed.last() == port && denied.contains(port) {
            assert(now[now.len() - 1] == port);
        }
        if now.contains(port) && !before.contains(port) {
            let i = choose|i: int| 0 <= i < now.len() && now[i] == port;
            assert(i == now.len() - 1);
            assert(allowed[allowed.len() - 1] == port);
        }
        if allowed.drop_last().contains(port) {
            let i = choose|i: int|
                0 <= i < allowed.drop_last().len() && allowed.drop_last()[i] == port;
            assert(allowed[i] == port);
        }
    }
}

} // verus!
