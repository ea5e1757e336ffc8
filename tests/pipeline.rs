use arbiter::audit::{verify_audit_chain, verify_audit_chain_with_mirror, AuditRecord};
use arbiter::authz::{next_attempt, AttemptResult, AttemptStep, AuthzOutcome, AuthzStart};
use arbiter::config::{Audit, Authz, AuthzCache, Config, Gate, Planner, Server, Store};
use arbiter::contracts::{
    Action, ActionResult, ActionType, Actor, ApprovalEvent, AuthZDecision, Event, EventContent,
    GenerationResult, JobCancelRequest, JobStatusEvent, ResponsePlan,
};
use arbiter::json::JsonValue;
use arbiter::pipeline::{Admission, Gateway, GatewayError};

const NOW: i64 = 1_771_000_000_000;

fn test_config() -> Config {
    test_config_with_authz_audit(true)
}

fn test_config_with_authz_audit(include_authz_decision: bool) -> Config {
    Config {
        server: Server { listen_addr: "127.0.0.1:0".to_string() },
        store: Store { kind: "memory".to_string(), sqlite_path: None },
        authz: Authz {
            mode: "builtin".to_string(),
            endpoint: None,
            timeout_ms: 100,
            fail_mode: "deny".to_string(),
            retry_max_attempts: 2,
            retry_backoff_ms: 0,
            circuit_breaker_failures: 3,
            circuit_breaker_open_ms: 3000,
            cache: AuthzCache { enabled: true, ttl_ms: 30000, max_entries: 100 },
        },
        gate: Gate { cooldown_ms: 3000, max_queue: 10, tenant_rate_limit_per_min: 0 },
        planner: Planner {
            reply_policy: "all".to_string(),
            reply_probability_bp: 0,
            approval_timeout_ms: 900000,
            approval_escalation_on_expired: true,
        },
        audit: Audit {
            sink: "jsonl".to_string(),
            jsonl_path: "./arbiter-audit.jsonl".to_string(),
            include_authz_decision,
            immutable_mirror_path: None,
        },
    }
}

fn sample_event(event_id: &str) -> Event {
    Event {
        v: 1,
        event_id: event_id.to_string(),
        tenant_id: "tenant-a".to_string(),
        source: "slack".to_string(),
        room_id: "room-1".to_string(),
        actor: Actor {
            actor_type: "human".to_string(),
            id: "user-1".to_string(),
            roles: vec!["member".to_string()],
            claims: vec![],
        },
        content: EventContent {
            content_type: "text".to_string(),
            text: "hello @arbiter".to_string(),
            reply_to: None,
        },
        ts: "2026-02-13T00:00:00Z".to_string(),
        extensions: vec![],
    }
}

fn with_action(mut e: Event, mode: &str) -> Event {
    e.extensions = vec![("arbiter_action".to_string(), JsonValue::Str(mode.to_string()))];
    e
}

/// Processes an event the way the server does, with an authorization
/// service that answers through `respond` and counts its calls.
fn submit_with(
    g: &mut Gateway,
    e: &Event,
    now: i64,
    respond: &mut dyn FnMut() -> AttemptResult,
    calls: &mut usize,
) -> Result<ResponsePlan, GatewayError> {
    match g.admit_event(e, now) {
        Admission::Done(r) => r,
        Admission::Authorize => {
            let outcome: AuthzOutcome = match g.start_authorization(e, now) {
                AuthzStart::Decided(o) => o,
                AuthzStart::Call { max_attempts, backoff_ms, .. } => {
                    let mut attempt = 0;
                    loop {
                        *calls += 1;
                        match next_attempt(attempt, max_attempts, backoff_ms, respond()) {
                            AttemptStep::Retry { .. } => attempt += 1,
                            AttemptStep::Succeeded(d) => break g.authz.finish_success(e, &d, now),
                            AttemptStep::Failed(reason) => break g.authz.finish_failure(reason, now),
                        }
                    }
                }
            };
            g.complete_event(e, &outcome, now)
        }
    }
}

fn submit(g: &mut Gateway, e: &Event, now: i64) -> Result<ResponsePlan, GatewayError> {
    let mut calls = 0;
    submit_with(g, e, now, &mut || AttemptResult::HttpError, &mut calls)
}

fn first_action(p: &ResponsePlan) -> &Action {
    &p.actions[0]
}

fn payload<'a>(a: &'a Action, key: &str) -> Option<&'a str> {
    a.payload.iter().find(|(k, _)| k == key).map(|(_, v)| v.as_str())
}

fn decision(decision: &str, policy_version: &str) -> AuthZDecision {
    AuthZDecision {
        v: 1,
        decision: decision.to_string(),
        reason_code: "ok".to_string(),
        policy_version: policy_version.to_string(),
        obligations: vec![],
        ttl_ms: 1000,
    }
}

fn external_config(failures: u64, attempts: usize) -> Config {
    let mut cfg = test_config();
    cfg.authz.mode = "external_http".to_string();
    cfg.authz.endpoint = Some("http://127.0.0.1:9/v1/authorize".to_string());
    cfg.authz.fail_mode = "deny".to_string();
    cfg.authz.retry_max_attempts = attempts;
    cfg.authz.circuit_breaker_failures = failures;
    cfg.authz.circuit_breaker_open_ms = 60000;
    cfg
}

#[test]
fn idempotency_same_event_same_plan() {
    let mut g = Gateway::new(&test_config(), String::new());
    let event = sample_event("evt-1");
    let p1 = submit(&mut g, &event, NOW).unwrap();
    let p2 = submit(&mut g, &event, NOW + 10).unwrap();
    assert_eq!(p1, p2);
    assert_eq!(first_action(&p1).action_type, ActionType::RequestGeneration);
    let records = g.audit.take_outbox();
    assert_eq!(records.len(), 2);
    assert_eq!(records[1].result, "idempotency_hit");
}

#[test]
fn idempotent_event_scenario() {
    let mut g = Gateway::new(&test_config(), String::new());
    let mut e = sample_event("e1");
    e.tenant_id = "t".to_string();
    e.room_id = "r".to_string();
    e.actor.id = "u".to_string();
    e.actor.roles = vec![];
    e.content.text = "hi".to_string();
    e.ts = "2026-01-01T00:00:00Z".to_string();
    let p1 = submit(&mut g, &e, NOW).unwrap();
    assert_eq!(p1.actions.len(), 1);
    assert_eq!(first_action(&p1).action_type, ActionType::RequestGeneration);
    let p2 = submit(&mut g, &e, NOW).unwrap();
    assert_eq!(p1, p2);
}

#[test]
fn plans_are_deterministic_across_fresh_stores() {
    let e = sample_event("evt-det");
    let mut g1 = Gateway::new(&test_config(), String::new());
    let mut g2 = Gateway::new(&test_config(), String::new());
    let p1 = submit(&mut g1, &e, NOW).unwrap();
    let p2 = submit(&mut g2, &e, NOW + 123_456).unwrap();
    assert_eq!(p1, p2);
    assert!(p1.plan_id.starts_with("plan_"));
    assert_eq!(p1.plan_id.len(), 5 + 16);
    assert!(first_action(&p1).action_id.starts_with("act_"));
}

#[test]
fn audit_trace_includes_authz_when_enabled() {
    let mut g = Gateway::new(&test_config_with_authz_audit(true), String::new());
    submit(&mut g, &sample_event("evt-audit-enabled"), NOW).unwrap();
    let records = g.audit.take_outbox();
    let trace = records[0].decision_trace.as_ref().unwrap();
    let authz = trace.authz.as_ref().unwrap();
    assert_eq!(authz.result, "allow");
    assert!(trace.planner.is_some());
    let line = arbiter::audit::audit_line(&records[0]);
    assert!(line.contains("\"authz\""));
    assert!(line.contains("\"seed\""));
}

#[test]
fn audit_trace_omits_authz_when_disabled() {
    let mut g = Gateway::new(&test_config_with_authz_audit(false), String::new());
    submit(&mut g, &sample_event("evt-audit-disabled"), NOW).unwrap();
    let records = g.audit.take_outbox();
    let trace = records[0].decision_trace.as_ref().unwrap();
    assert!(trace.authz.is_none());
}

#[test]
fn cooldown_uses_server_time_even_when_event_ts_is_future_or_past() {
    let mut cfg = test_config();
    cfg.gate.cooldown_ms = 60_000;
    let mut g = Gateway::new(&cfg, String::new());
    let plan1 = submit(&mut g, &sample_event("evt-cooldown-1"), NOW).unwrap();
    let gen = GenerationResult {
        v: 1,
        plan_id: plan1.plan_id.clone(),
        action_id: first_action(&plan1).action_id.clone(),
        tenant_id: "tenant-a".to_string(),
        text: "generated".to_string(),
        trace_id: None,
    };
    g.process_generation(&gen, NOW + 1000).unwrap();
    for (event_id, ts) in [
        ("evt-cooldown-future", "2099-01-01T00:00:00Z"),
        ("evt-cooldown-past", "2000-01-01T00:00:00Z"),
    ] {
        let mut event = sample_event(event_id);
        event.ts = ts.to_string();
        let plan = submit(&mut g, &event, NOW + 2000).unwrap();
        assert_eq!(first_action(&plan).action_type, ActionType::DoNothing);
        assert_eq!(payload(first_action(&plan), "reason_code"), Some("gate_cooldown"));
    }
}

#[test]
fn external_authz_invalid_contract_is_denied_in_fail_closed_mode() {
    let mut g = Gateway::new(&external_config(5, 1), String::new());
    let mut calls = 0;
    let plan = submit_with(
        &mut g,
        &sample_event("evt-authz-invalid-contract"),
        NOW,
        &mut || AttemptResult::Decision(decision("allow", "")),
        &mut calls,
    )
    .unwrap();
    assert_eq!(first_action(&plan).action_type, ActionType::DoNothing);
    assert_eq!(payload(first_action(&plan), "reason_code"), Some("authz_contract_invalid_deny"));
}

#[test]
fn external_authz_retries_and_recovers_on_second_attempt() {
    let mut g = Gateway::new(&external_config(5, 2), String::new());
    let mut calls = 0;
    let mut n = 0;
    let plan = submit_with(
        &mut g,
        &sample_event("evt-authz-retry"),
        NOW,
        &mut || {
            n += 1;
            if n == 1 { AttemptResult::HttpError } else { AttemptResult::Decision(decision("allow", "policy:v1")) }
        },
        &mut calls,
    )
    .unwrap();
    assert_eq!(calls, 2);
    assert_ne!(first_action(&plan).action_type, ActionType::DoNothing);
}

#[test]
fn external_authz_circuit_breaker_short_circuits_repeated_failures() {
    let mut g = Gateway::new(&external_config(1, 1), String::new());
    let mut calls = 0;
    let p1 = submit_with(&mut g, &sample_event("evt-authz-cb-1"), NOW, &mut || AttemptResult::HttpError, &mut calls)
        .unwrap();
    assert_eq!(calls, 1);
    assert_eq!(payload(first_action(&p1), "reason_code"), Some("authz_http_error_deny"));
    let p2 = submit_with(&mut g, &sample_event("evt-authz-cb-2"), NOW + 10, &mut || AttemptResult::HttpError, &mut calls)
        .unwrap();
    assert_eq!(calls, 1);
    assert_eq!(payload(first_action(&p2), "reason_code"), Some("authz_circuit_open_deny"));
}

#[test]
fn can_choose_start_agent_job_action_via_extension() {
    let mut g = Gateway::new(&test_config(), String::new());
    let plan = submit(&mut g, &with_action(sample_event("evt-job-mode"), "start_agent_job"), NOW).unwrap();
    assert_eq!(first_action(&plan).action_type, ActionType::StartAgentJob);
    let gen = GenerationResult {
        v: 1,
        plan_id: plan.plan_id.clone(),
        action_id: first_action(&plan).action_id.clone(),
        tenant_id: "tenant-a".to_string(),
        text: "should not execute".to_string(),
        trace_id: None,
    };
    let out = g.process_generation(&gen, NOW).unwrap();
    assert_eq!(payload(first_action(&out), "reason_code"), Some("generation_unknown_action"));
}

#[test]
fn can_choose_request_approval_action_via_extension() {
    let mut g = Gateway::new(&test_config(), String::new());
    let plan = submit(&mut g, &with_action(sample_event("evt-approval-mode"), "request_approval"), NOW).unwrap();
    assert_eq!(plan.actions.len(), 1);
    assert_eq!(first_action(&plan).action_type, ActionType::RequestApproval);
}

#[test]
fn request_approval_plan_contains_timeout_and_id() {
    let mut cfg = test_config();
    cfg.planner.approval_timeout_ms = 60000;
    let mut g = Gateway::new(&cfg, String::new());
    let plan = submit(&mut g, &with_action(sample_event("evt-approval-timeout"), "request_approval"), 0).unwrap();
    let a = first_action(&plan);
    assert_eq!(a.action_type, ActionType::RequestApproval);
    assert_eq!(payload(a, "approval_id"), Some("approval:evt-approval-timeout"));
    assert_eq!(payload(a, "expires_at"), Some("1970-01-01T00:01:00+00:00"));
}

#[test]
fn audit_jsonl_records_are_hash_chained() {
    let mut g = Gateway::new(&test_config(), String::new());
    submit(&mut g, &sample_event("evt-chain-1"), NOW).unwrap();
    submit(&mut g, &sample_event("evt-chain-2"), NOW + 10_000).unwrap();
    let records = g.audit.take_outbox();
    assert_eq!(records.len(), 2);
    assert_eq!(records[0].prev_hash, "");
    assert_eq!(records[1].prev_hash, records[0].record_hash);
    assert_eq!(records[0].record_hash.len(), 64);
    assert_eq!(g.audit.tip, records[1].record_hash);
}

#[test]
fn audit_verify_tool_accepts_valid_chain() {
    let mut g = Gateway::new(&test_config(), String::new());
    submit(&mut g, &sample_event("evt-verify-1"), NOW).unwrap();
    submit(&mut g, &sample_event("evt-verify-2"), NOW + 10_000).unwrap();
    let records = g.audit.take_outbox();
    assert_eq!(verify_audit_chain(&records), Ok("audit chain verified: 2 records".to_string()));
    assert_eq!(
        verify_audit_chain_with_mirror(&records, Some(("mirror.jsonl", &records))),
        Ok("audit chain verified: 2 records (mirror matched: mirror.jsonl)".to_string())
    );
    let short = vec![records[0].clone()];
    assert_eq!(
        verify_audit_chain_with_mirror(&records, Some(("mirror.jsonl", &short))),
        Err("mirror divergence: record count differs (primary=2, mirror=1)".to_string())
    );
}

#[test]
fn audit_chain_tampering_is_detected() {
    let mut g = Gateway::new(&test_config(), String::new());
    submit(&mut g, &sample_event("evt-tamper-1"), NOW).unwrap();
    submit(&mut g, &sample_event("evt-tamper-2"), NOW + 10_000).unwrap();
    let mut records: Vec<AuditRecord> = g.audit.take_outbox();
    records[1].reason_code.push('x');
    assert_eq!(verify_audit_chain(&records), Err("line 2 record_hash mismatch".to_string()));
}

#[test]
fn job_status_event_is_idempotent() {
    let mut g = Gateway::new(&test_config(), String::new());
    let e = JobStatusEvent {
        v: 1,
        event_id: "job-status-evt-1".to_string(),
        tenant_id: "tenant-a".to_string(),
        job_id: "job-1".to_string(),
        status: "started".to_string(),
        ts: "2026-02-14T00:00:00Z".to_string(),
        reason_code: None,
    };
    let p1 = g.process_job_status(&e, NOW).unwrap();
    let p2 = g.process_job_status(&e, NOW).unwrap();
    assert_eq!(p1, p2);
    assert_eq!(payload(first_action(&p1), "reason_code"), Some("job_status_started"));
}

#[test]
fn job_cancel_event_is_idempotent() {
    let mut g = Gateway::new(&test_config(), String::new());
    let e = JobCancelRequest {
        v: 1,
        event_id: "job-cancel-evt-1".to_string(),
        tenant_id: "tenant-a".to_string(),
        job_id: "job-1".to_string(),
        ts: "2026-02-14T00:00:00Z".to_string(),
        reason_code: None,
    };
    let p1 = g.process_job_cancel(&e, NOW).unwrap();
    let p2 = g.process_job_cancel(&e, NOW).unwrap();
    assert_eq!(p1, p2);
    assert_eq!(g.job_state("tenant-a", "job-1").unwrap().status, "cancelled");
}

#[test]
fn cancel_respects_job_state_machine_and_payload() {
    let mut g = Gateway::new(&test_config(), String::new());
    let status = JobStatusEvent {
        v: 1,
        event_id: "js-1".to_string(),
        tenant_id: "tenant-a".to_string(),
        job_id: "job-3".to_string(),
        status: "completed".to_string(),
        ts: "2026-02-14T00:00:00Z".to_string(),
        reason_code: None,
    };
    g.process_job_status(&status, NOW).unwrap();
    let cancel = JobCancelRequest {
        v: 1,
        event_id: "jc-1".to_string(),
        tenant_id: "tenant-a".to_string(),
        job_id: "job-3".to_string(),
        ts: "2026-02-14T00:00:00Z".to_string(),
        reason_code: None,
    };
    assert_eq!(g.process_job_cancel(&cancel, NOW).unwrap_err().code(), "conflict.invalid_transition");
    assert_eq!(g.job_state("tenant-a", "job-3").unwrap().status, "completed");
    let other = JobCancelRequest { job_id: "job-4".to_string(), ..cancel.clone() };
    g.process_job_cancel(&other, NOW).unwrap();
    let changed = JobCancelRequest { reason_code: Some("x".to_string()), ..other };
    assert_eq!(g.process_job_cancel(&changed, NOW).unwrap_err().code(), "conflict.payload_mismatch");
}

#[test]
fn terminal_job_state_rejects_other_status() {
    let mut g = Gateway::new(&test_config(), String::new());
    let mk = |id: &str, status: &str| JobStatusEvent {
        v: 1,
        event_id: id.to_string(),
        tenant_id: "tenant-a".to_string(),
        job_id: "job-2".to_string(),
        status: status.to_string(),
        ts: "2026-02-14T00:00:00Z".to_string(),
        reason_code: None,
    };
    g.process_job_status(&mk("j1", "completed"), NOW).unwrap();
    let err = g.process_job_status(&mk("j2", "started"), NOW).unwrap_err();
    assert_eq!(err.code(), "conflict.invalid_transition");
    assert!(g.process_job_status(&mk("j3", "completed"), NOW).is_ok());
}

#[test]
fn approval_expired_event_sets_escalation_debug_field() {
    let mut g = Gateway::new(&test_config(), String::new());
    let e = ApprovalEvent {
        v: 1,
        event_id: "approval-expired-1".to_string(),
        tenant_id: "tenant-a".to_string(),
        approval_id: "approval:1".to_string(),
        status: "expired".to_string(),
        ts: "2026-02-14T00:00:00Z".to_string(),
        reason_code: None,
    };
    let plan = g.process_approval_event(&e, NOW).unwrap();
    assert_eq!(plan.debug, vec![("escalation".to_string(), "notify_human".to_string())]);
}

#[test]
fn idempotency_conflict_carries_both_hashes() {
    let mut g = Gateway::new(&test_config(), String::new());
    let mut a = sample_event("e3");
    a.content.text = "A".to_string();
    let mut b = sample_event("e3");
    b.content.text = "B".to_string();
    let first = submit(&mut g, &a, NOW).unwrap();
    match submit(&mut g, &b, NOW) {
        Err(GatewayError::PayloadMismatch { existing_hash, incoming_hash }) => {
            assert_eq!(existing_hash.len(), 64);
            assert_eq!(incoming_hash.len(), 64);
            assert_ne!(existing_hash, incoming_hash);
        }
        other => panic!("expected a payload mismatch, got {other:?}"),
    }
    let again = submit(&mut g, &a, NOW).unwrap();
    assert_eq!(first, again);
}

#[test]
fn generating_room_is_locked() {
    let mut g = Gateway::new(&test_config(), String::new());
    submit(&mut g, &sample_event("evt-lock-1"), NOW).unwrap();
    let p = submit(&mut g, &sample_event("evt-lock-2"), NOW + 10_000).unwrap();
    assert_eq!(payload(first_action(&p), "reason_code"), Some("gate_generating_lock"));
}

#[test]
fn invalid_events_are_rejected() {
    let mut g = Gateway::new(&test_config(), String::new());
    let mut e = sample_event("bad");
    e.v = 2;
    assert_eq!(submit(&mut g, &e, NOW), Err(GatewayError::Validation("v must be 1".to_string())));
    let mut e = sample_event("bad");
    e.actor.actor_type = "robot".to_string();
    assert_eq!(submit(&mut g, &e, NOW), Err(GatewayError::Validation("invalid actor.type".to_string())));
    let mut e = sample_event("bad");
    e.ts = "yesterday".to_string();
    assert_eq!(submit(&mut g, &e, NOW), Err(GatewayError::Validation("ts must be RFC3339".to_string())));
    let mut e = sample_event("bad");
    e.source = String::new();
    assert_eq!(submit(&mut g, &e, NOW), Err(GatewayError::Validation("missing required field".to_string())));
}

#[test]
fn action_results_are_recorded_once() {
    let mut g = Gateway::new(&test_config(), String::new());
    let r = ActionResult {
        v: 1,
        plan_id: "plan_x".to_string(),
        action_id: "act_y".to_string(),
        tenant_id: "tenant-a".to_string(),
        status: "succeeded".to_string(),
        ts: "2026-02-14T00:00:00Z".to_string(),
        provider_message_id: None,
        reason_code: None,
        error: None,
    };
    assert!(g.process_action_result(&r, NOW).is_ok());
    assert!(g.process_action_result(&r, NOW).is_ok());
    let stored = g.action_result_state("tenant-a", "plan_x", "act_y").unwrap();
    assert_eq!(stored.status, "succeeded");
    let mut changed = ActionResult { status: "failed".to_string(), ..r };
    changed.reason_code = Some("boom".to_string());
    let err = g.process_action_result(&changed, NOW).unwrap_err();
    assert_eq!(err.code(), "conflict.payload_mismatch");
    assert_eq!(g.action_result_state("tenant-a", "plan_x", "nope").unwrap_err().code(), "not_found");
}

#[test]
fn external_authz_decisions_are_cached_per_actor_and_room() {
    let mut cfg = external_config(5, 1);
    cfg.gate.cooldown_ms = 0;
    cfg.gate.max_queue = 0;
    let mut g = Gateway::new(&cfg, String::new());
    let mut calls = 0;
    let allow = || AttemptResult::Decision(decision("allow", "policy:v1"));
    let job = |id: &str| with_action(sample_event(id), "start_agent_job");
    let p1 = submit_with(&mut g, &job("evt-cache-1"), NOW, &mut { allow }, &mut calls).unwrap();
    assert_eq!(calls, 1);
    assert_eq!(p1.policy_decisions[1].reason_code, "ok");
    let mut other_room = job("evt-cache-2");
    other_room.room_id = "room-2".to_string();
    submit_with(&mut g, &other_room, NOW + 1, &mut { allow }, &mut calls).unwrap();
    assert_eq!(calls, 2);
    let mut same_room = job("evt-cache-3");
    same_room.room_id = "room-2".to_string();
    submit_with(&mut g, &same_room, NOW + 2, &mut { allow }, &mut calls).unwrap();
    assert_eq!(calls, 2);
    submit_with(&mut g, &job("evt-cache-4"), NOW + 5_000, &mut { allow }, &mut calls).unwrap();
    assert_eq!(calls, 3);
}

#[test]
fn fail_modes_shape_the_outcome() {
    let deny = arbiter::authz::on_failure("deny", "authz_http_error");
    assert_eq!((deny.allow, deny.reason_code.as_str(), deny.policy_version), (false, "authz_http_error_deny", None));
    let allow = arbiter::authz::on_failure("allow", "authz_transport_error");
    assert_eq!((allow.allow, allow.reason_code.as_str()), (true, "authz_transport_error_allow"));
    let fb = arbiter::authz::on_failure("fallback_builtin", "authz_unconfigured");
    assert_eq!(fb.reason_code, "authz_unconfigured_fallback_builtin");
    assert_eq!(fb.policy_version.as_deref(), Some("builtin:fallback"));
    assert!(fb.allow);
}

#[test]
fn missing_endpoint_is_unconfigured() {
    let mut cfg = external_config(5, 1);
    cfg.authz.endpoint = None;
    let mut g = Gateway::new(&cfg, String::new());
    let p = submit(&mut g, &sample_event("evt-unconfigured"), NOW).unwrap();
    assert_eq!(payload(first_action(&p), "reason_code"), Some("authz_unconfigured_deny"));
}

#[test]
fn authorization_request_body_is_canonical() {
    let body = arbiter::wire::authz_request_body(&sample_event("evt-body"));
    assert_eq!(
        body,
        "{\"actor\":{\"claims\":{},\"id\":\"user-1\",\"roles\":[\"member\"],\"type\":\"human\"},\"correlation_id\":\"evt-body\",\"request\":{\"action\":\"process_event\",\"context\":{\"event_id\":\"evt-body\"},\"resource\":{\"attributes\":{\"source\":\"slack\"},\"id\":\"room-1\",\"type\":\"room\"}},\"tenant_id\":\"tenant-a\",\"v\":1}"
    );
}

#[test]
fn generation_result_sends_and_frees_the_room() {
    let mut g = Gateway::new(&test_config(), String::new());
    let mut e = sample_event("evt-gen");
    e.content.reply_to = Some("msg-9".to_string());
    let plan = submit(&mut g, &e, NOW).unwrap();
    let gen = GenerationResult {
        v: 1,
        plan_id: plan.plan_id.clone(),
        action_id: first_action(&plan).action_id.clone(),
        tenant_id: "tenant-a".to_string(),
        text: "done".to_string(),
        trace_id: None,
    };
    let out = g.process_generation(&gen, NOW + 5).unwrap();
    assert_eq!(first_action(&out).action_type, ActionType::SendReply);
    assert_eq!(payload(first_action(&out), "text"), Some("done"));
    let room = g.store.get_room("tenant-a:room-1");
    assert!(!room.generating);
    assert_eq!(room.pending_queue_size, 0);
    assert_eq!(room.last_send_at, Some(NOW + 5));
    let bad = GenerationResult { v: 2, ..gen };
    assert_eq!(g.process_generation(&bad, NOW).unwrap_err().code(), "validation_error");
}
