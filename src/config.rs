//! The validated configuration and the checks of what this build supports.
use vstd::prelude::*;
use crate::text::{owned, push_str, str_eq};

verus! {

/// Why a configuration could not be used.
#[derive(Clone, Debug)]
pub enum ConfigError {
    Read(String),
    Parse(String),
    SchemaLoad(String),
    SchemaValidation(String),
    UnsupportedConfig(String),
}

impl ConfigError {
    /// Human-readable message of the error.
    pub fn message(&self) -> (r: String)
        ensures
            r@ == config_error_text(self),
    {
        let (prefix, detail) = match self {
            ConfigError::Read(d) => ("read config failed: ", d),
            ConfigError::Parse(d) => ("parse config failed: ", d),
            ConfigError::SchemaLoad(d) => ("schema load failed: ", d),
            ConfigError::SchemaValidation(d) => ("schema validation failed: ", d),
            ConfigError::UnsupportedConfig(d) => ("unsupported config: ", d),
        };
        let mut s = owned(prefix);
        push_str(&mut s, detail.as_str());
        s
    }
}

/// Human-readable message of a configuration error.
pub open spec fn config_error_text(e: &ConfigError) -> Seq<char> {
    match e {
        ConfigError::Read(d) => "read config failed: "@ + d@,
        ConfigError::Parse(d) => "parse config failed: "@ + d@,
        ConfigError::SchemaLoad(d) => "schema load failed: "@ + d@,
        ConfigError::SchemaValidation(d) => "schema validation failed: "@ + d@,
        ConfigError::UnsupportedConfig(d) => "unsupported config: "@ + d@,
    }
}

/// Where the server listens.
#[derive(Clone, Debug)]
pub struct Server {
    pub listen_addr: String,
}

/// Which store backend to use.
#[derive(Clone, Debug)]
pub struct Store {
    pub kind: String,
    pub sqlite_path: Option<String>,
}

/// Settings of the authorization decision cache.
#[derive(Clone, Debug)]
pub struct AuthzCache {
    pub enabled: bool,
    pub ttl_ms: i64,
    pub max_entries: usize,
}

/// Settings of the authorization client.
#[derive(Clone, Debug)]
pub struct Authz {
    pub mode: String,
    pub endpoint: Option<String>,
    pub timeout_ms: i64,
    pub fail_mode: String,
    pub retry_max_attempts: usize,
    pub retry_backoff_ms: u64,
    pub circuit_breaker_failures: u64,
    pub circuit_breaker_open_ms: u64,
    pub cache: AuthzCache,
}

/// Admission limits.
#[derive(Clone, Debug)]
pub struct Gate {
    pub cooldown_ms: u64,
    pub max_queue: usize,
    pub tenant_rate_limit_per_min: usize,
}

/// Settings of the planner; the reply probability is in basis points.
#[derive(Clone, Debug)]
pub struct Planner {
    pub reply_policy: String,
    pub reply_probability_bp: u64,
    pub approval_timeout_ms: u64,
    pub approval_escalation_on_expired: bool,
}

/// Settings of the audit sink.
#[derive(Clone, Debug)]
pub struct Audit {
    pub sink: String,
    pub jsonl_path: String,
    pub include_authz_decision: bool,
    pub immutable_mirror_path: Option<String>,
}

/// The whole configuration.
#[derive(Clone, Debug)]
pub struct Config {
    pub server: Server,
    pub store: Store,
    pub authz: Authz,
    pub gate: Gate,
    pub planner: Planner,
    pub audit: Audit,
}

/// Default number of authorization attempts.
pub fn default_retry_max_attempts() -> (r: usize)
    ensures
        r == 1,
{
    1
}

/// Default pause between authorization attempts.
pub fn default_retry_backoff_ms() -> (r: u64)
    ensures
        r == 0,
{
    0
}

/// Default number of consecutive failures that opens the breaker.
pub fn default_circuit_breaker_failures() -> (r: u64)
    ensures
        r == 5,
{
    5
}

/// Default time the breaker stays open.
pub fn default_circuit_breaker_open_ms() -> (r: u64)
    ensures
        r == 30_000,
{
    30_000
}

/// Default time before an approval request expires: fifteen minutes.
pub fn default_approval_timeout_ms() -> (r: u64)
    ensures
        r == 900_000,
{
    15 * 60 * 1000
}

/// Default for escalating expired approvals.
pub fn default_approval_escalation_on_expired() -> (r: bool)
    ensures
        r,
{
    true
}

/// The text is empty or holds only spaces, tabs and line breaks.
pub open spec fn is_blank(s: Seq<char>) -> bool {
    forall|i: int| 0 <= i < s.len() ==> #[trigger] s[i] == ' ' || s[i] == '\t' || s[i] == '\n' || s[i] == '\r'
}

fn blank(s: &str) -> (r: bool)
    ensures
        r == is_blank(s@),
{
    let n = s.unicode_len();
    let mut i: usize = 0;
    while i < n
        invariant
            n == s@.len(),
            i <= n,
            forall|k: int| 0 <= k < i ==> #[trigger] s@[k] == ' ' || s@[k] == '\t' || s@[k] == '\n' || s@[k] == '\r',
        decreases n - i,
    {
        let c = s.get_char(i);
        if !(c == ' ' || c == '\t' || c == '\n' || c == '\r') {
            return false;
        }
        i = i + 1;
    }
    true
}

/// The first setting this build cannot run with, as a message; none when
/// every setting is supported.
pub open spec fn runtime_problem(cfg: &Config) -> Option<Seq<char>> {
    let kind = cfg.store.kind@;
    if kind != "memory"@ && kind != "sqlite"@ {
        Some("store.type="@ + kind + " is not implemented; supported: memory, sqlite"@)
    } else if kind == "memory"@ && cfg.store.sqlite_path is Some {
        Some("store.sqlite_path is not supported when store.type=memory"@)
    } else if kind == "sqlite"@ && (cfg.store.sqlite_path is None || is_blank(cfg.store.sqlite_path->0@)) {
        Some("store.sqlite_path is required when store.type=sqlite"@)
    } else if cfg.authz.retry_max_attempts == 0 {
        Some("authz.retry_max_attempts must be >= 1"@)
    } else if cfg.authz.circuit_breaker_failures == 0 {
        Some("authz.circuit_breaker_failures must be >= 1"@)
    } else if cfg.authz.circuit_breaker_open_ms == 0 {
        Some("authz.circuit_breaker_open_ms must be >= 1"@)
    } else if cfg.planner.approval_timeout_ms == 0 {
        Some("planner.approval_timeout_ms must be >= 1"@)
    } else if cfg.audit.sink@ != "jsonl"@ {
        Some("audit.sink="@ + cfg.audit.sink@ + " is not implemented; supported: jsonl"@)
    } else {
        None
    }
}

fn unsupported(msg: &str) -> (r: Result<(), ConfigError>)
    ensures
        r is Err && r->Err_0 is UnsupportedConfig && r->Err_0->UnsupportedConfig_0@ == msg@,
{
    Err(ConfigError::UnsupportedConfig(owned(msg)))
}

/// Checks the settings that the schema admits but this build does not run.
pub fn validate_runtime_support(cfg: &Config) -> (r: Result<(), ConfigError>)
    ensures
        match runtime_problem(cfg) {
            None => r is Ok,
            Some(m) => r is Err && r->Err_0 is UnsupportedConfig && r->Err_0->UnsupportedConfig_0@ == m,
        },
{
    let kind = cfg.store.kind.as_str();
    let memory = str_eq(kind, "memory");
    let sqlite = str_eq(kind, "sqlite");
    if !memory && !sqlite {
        let mut m = owned("store.type=");
        push_str(&mut m, kind);
        push_str(&mut m, " is not implemented; supported: memory, sqlite");
        return Err(ConfigError::UnsupportedConfig(m));
    }
    if memory && cfg.store.sqlite_path.is_some() {
        return unsupported("store.sqlite_path is not supported when store.type=memory");
    }
    if sqlite {
        let missing = match &cfg.store.sqlite_path {
            Some(p) => blank(p.as_str()),
            None => true,
        };
        if missing {
            return unsupported("store.sqlite_path is required when store.type=sqlite");
        }
    }
    if cfg.authz.retry_max_attempts == 0 {
        return unsupported("authz.retry_max_attempts must be >= 1");
    }
    if cfg.authz.circuit_breaker_failures == 0 {
        return unsupported("authz.circuit_breaker_failures must be >= 1");
    }
    if cfg.authz.circuit_breaker_open_ms == 0 {
        return unsupported("authz.circuit_breaker_open_ms must be >= 1");
    }
    if cfg.planner.approval_timeout_ms == 0 {
        return unsupported("planner.approval_timeout_ms must be >= 1");
    }
    if !str_eq(cfg.audit.sink.as_str(), "jsonl") {
        let mut m = owned("audit.sink=");
        push_str(&mut m, cfg.audit.sink.as_str());
        push_str(&mut m, " is not implemented; supported: jsonl");
        return Err(ConfigError::UnsupportedConfig(m));
    }
    Ok(())
}

} // verus!
