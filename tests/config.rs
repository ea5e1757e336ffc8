use arbiter::config::{
    default_approval_timeout_ms, default_circuit_breaker_failures, validate_runtime_support, Audit, Authz,
    AuthzCache, Config, ConfigError, Gate, Planner, Server, Store,
};

fn base() -> Config {
    Config {
        server: Server { listen_addr: "127.0.0.1:0".to_string() },
        store: Store { kind: "memory".to_string(), sqlite_path: None },
        authz: Authz {
            mode: "builtin".to_string(),
            endpoint: None,
            timeout_ms: 300,
            fail_mode: "deny".to_string(),
            retry_max_attempts: 1,
            retry_backoff_ms: 0,
            circuit_breaker_failures: 5,
            circuit_breaker_open_ms: 30000,
            cache: AuthzCache { enabled: true, ttl_ms: 30000, max_entries: 100 },
        },
        gate: Gate { cooldown_ms: 3000, max_queue: 10, tenant_rate_limit_per_min: 0 },
        planner: Planner {
            reply_policy: "all".to_string(),
            reply_probability_bp: 0,
            approval_timeout_ms: 900000,
            approval_escalation_on_expired: true,
        },
        audit: Audit {
            sink: "jsonl".to_string(),
            jsonl_path: "./arbiter-audit.jsonl".to_string(),
            include_authz_decision: true,
            immutable_mirror_path: None,
        },
    }
}

#[test]
fn supports_sqlite_store_type_with_path() {
    let mut cfg = base();
    cfg.store.kind = "sqlite".to_string();
    cfg.store.sqlite_path = Some("./a.db".to_string());
    assert!(validate_runtime_support(&cfg).is_ok(), "sqlite config should be accepted");
    assert_eq!(cfg.store.kind, "sqlite");
    assert_eq!(cfg.store.sqlite_path.as_deref(), Some("./a.db"));
}

#[test]
fn rejects_sqlite_path_even_when_memory() {
    let mut cfg = base();
    cfg.store.sqlite_path = Some("./a.db".to_string());
    let err = validate_runtime_support(&cfg).expect_err("expected unsupported config");
    assert!(matches!(
        err,
        ConfigError::SchemaLoad(_) | ConfigError::SchemaValidation(_) | ConfigError::UnsupportedConfig(_)
    ));
}

#[test]
fn rejects_unsupported_audit_sink_at_runtime() {
    let mut cfg = base();
    cfg.audit.sink = "stdout".to_string();
    let err = validate_runtime_support(&cfg).expect_err("expected unsupported config");
    assert!(matches!(err, ConfigError::SchemaValidation(_) | ConfigError::UnsupportedConfig(_)));
    assert_eq!(err.message(), "unsupported config: audit.sink=stdout is not implemented; supported: jsonl");
}

#[test]
fn rejects_zero_limits_and_missing_sqlite_path() {
    let mut cfg = base();
    cfg.authz.retry_max_attempts = 0;
    assert!(validate_runtime_support(&cfg).is_err());
    let mut cfg = base();
    cfg.store.kind = "sqlite".to_string();
    cfg.store.sqlite_path = Some("  ".to_string());
    assert!(validate_runtime_support(&cfg).is_err());
    let mut cfg = base();
    cfg.store.kind = "postgres".to_string();
    assert!(validate_runtime_support(&cfg).is_err());
    assert!(validate_runtime_support(&base()).is_ok());
    assert_eq!(default_approval_timeout_ms(), 900_000);
    assert_eq!(default_circuit_breaker_failures(), 5);
}
