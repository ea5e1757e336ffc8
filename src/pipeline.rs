//! The decision pipeline: idempotency, gate, authorization, planning, state
//! updates and audit, for inbound events and for lifecycle events.
use vstd::prelude::*;
use crate::audit::{AuditChain, AuditRecord, AuthzDecisionTrace, DecisionTrace, PlannerDecisionTrace, StageDecision};
use crate::authz::{breaker_open, builtin_view, cache_key, cache_live, failure_view, AuthzEngine, AuthzOutcome, AuthzSettings, AuthzStart, OutcomeView, outcome_view};
use crate::clock::{format_rfc3339, parse_event_ts, rfc3339_millis, rfc3339_text};
use crate::config::Config;
use crate::contracts::{Event, ResponsePlan, CONTRACT_VERSION};
use crate::digest::{hash_hex, hash_hex_of, is_sha256_hex, is_sha256_hex_text};
use crate::kernel::{
    decide_intent, do_nothing_plan, intent_name_spec, do_nothing_view, evaluate_gate, gate_reason, intent_name, intent_of,
    minute_bucket, request_approval_plan, request_generation_plan, start_agent_job_plan, work_plan_view,
    ApprovalTerms, GateConfig, GateDecision, Intent, PlannerConfig, RoomState,
};
use crate::authz::sat_add;
use crate::contracts::{ActionType, PlanView};
use crate::digest::{planner_basis_points, planner_basis_points_of, planner_seed, planner_seed_of};
use crate::json::JsonValue;
use crate::store::{count_or_zero, event_key, incremented, key2, pending_key, rate_key, room_key, room_or_fresh, MemoryStore, PendingGeneration};
use crate::text::push_str;
use crate::contracts::{ActionResult, ApprovalEvent, GenerationResult, JobCancelRequest, JobStatusEvent};
use crate::kernel::{
    approval_status_known, approval_transition_ok, is_approval_status, is_job_status, is_valid_approval_transition,
    is_valid_job_transition, job_status_known, job_transition_ok, send_plan, send_plan_view,
};
use crate::store::{action_result_store_key, key3, ActionResultIngest, ActionResultRecord, StateEntry};
use crate::wire::{job_cancel_canonical, job_cancel_text, action_result_canonical, action_result_text, approval_canonical, approval_text, job_status_canonical, job_status_text, error_canonical};
use crate::text::{owned, str_eq};
use crate::wire::{authz_request_body, authz_request_text, event_canonical, event_text};

verus! {

/// Why a request was refused.
#[derive(Clone, Debug, PartialEq)]
pub enum GatewayError {
    /// The request breaks the contract; the message says how.
    Validation(String),
    /// The requested state does not exist.
    NotFound(String),
    /// The idempotency key was reused with another payload.
    PayloadMismatch { existing_hash: String, incoming_hash: String },
    /// The status change is not allowed by the state machine.
    InvalidTransition(String),
}

impl GatewayError {
    /// The error code reported to callers.
    pub fn code(&self) -> (r: &'static str)
        ensures
            r@ == match self {
                GatewayError::Validation(_) => "validation_error"@,
                GatewayError::NotFound(_) => "not_found"@,
                GatewayError::PayloadMismatch { .. } => "conflict.payload_mismatch"@,
                GatewayError::InvalidTransition(_) => "conflict.invalid_transition"@,
            },
    {
        match self {
            GatewayError::Validation(_) => "validation_error",
            GatewayError::NotFound(_) => "not_found",
            GatewayError::PayloadMismatch { .. } => "conflict.payload_mismatch",
            GatewayError::InvalidTransition(_) => "conflict.invalid_transition",
        }
    }
}

/// Settings the pipeline reads.
pub struct PipelineSettings {
    pub gate: GateConfig,
    pub planner: PlannerConfig,
    pub approval_timeout_ms: u64,
    pub approval_escalation_on_expired: bool,
    pub include_authz_decision: bool,
}

/// The gateway: settings, state store, authorization client and audit chain.
pub struct Gateway {
    pub settings: PipelineSettings,
    pub store: MemoryStore,
    pub authz: AuthzEngine,
    pub audit: AuditChain,
}

/// First problem with the shape of an event, if any.
pub open spec fn event_problem(e: &Event) -> Option<Seq<char>> {
    if e.v != CONTRACT_VERSION {
        Some("v must be 1"@)
    } else if e.event_id@.len() == 0 || e.tenant_id@.len() == 0 || e.source@.len() == 0
        || e.room_id@.len() == 0 || e.actor.id@.len() == 0 {
        Some("missing required field"@)
    } else if !(e.actor.actor_type@ == "human"@ || e.actor.actor_type@ == "service"@
        || e.actor.actor_type@ == "system"@) {
        Some("invalid actor.type"@)
    } else if e.content.content_type@ != "text"@ {
        Some("content.type must be text"@)
    } else if rfc3339_millis(e.ts@) is None {
        Some("ts must be RFC3339"@)
    } else {
        None
    }
}

/// Fingerprint of an event: hex SHA-256 of its canonical text.
pub open spec fn event_fingerprint(e: &Event) -> Seq<char> {
    hash_hex_of(event_text(e))
}

/// The hash a stored payload stands for: itself when it already is a hex
/// digest, its digest otherwise.
pub open spec fn stored_hash(p: Seq<char>) -> Seq<char> {
    if is_sha256_hex_text(p) { p } else { hash_hex_of(p) }
}

/// A stored payload fingerprint `p` stands for the same payload as
/// `incoming`.
pub open spec fn payload_matches(p: Seq<char>, incoming: Seq<char>) -> bool {
    p == incoming || stored_hash(p) == incoming
}

/// A repeat under `key` carries another payload than the stored one.
pub open spec fn payload_conflict(payloads: Map<Seq<char>, String>, key: Seq<char>, incoming: Seq<char>) -> bool {
    payloads.contains_key(key) && !payload_matches(payloads[key]@, incoming)
}

/// The result is a validation error with message `m`.
pub open spec fn is_validation<T>(r: Result<T, GatewayError>, m: Seq<char>) -> bool {
    r is Err && r->Err_0 is Validation && r->Err_0->Validation_0@ == m
}

/// The gateway's state apart from the audit queue.
pub open spec fn same_state(a: &Gateway, b: &Gateway) -> bool {
    a.settings == b.settings && a.store == b.store && a.authz == b.authz
}

/// Exactly one audit record was appended, with these fields.
pub open spec fn audited(old: &Gateway, new: &Gateway, action: Seq<char>, result: Seq<char>, reason: Seq<char>) -> bool {
    &&& new.audit.outbox@.len() == old.audit.outbox@.len() + 1
    &&& new.audit.outbox@.subrange(0, old.audit.outbox@.len() as int) == old.audit.outbox@
    &&& new.audit.outbox@.last().action@ == action
    &&& new.audit.outbox@.last().result@ == result
    &&& new.audit.outbox@.last().reason_code@ == reason
    &&& new.audit.outbox@.last().prev_hash@ == old.audit.tip@
    &&& new.audit.tip@ == new.audit.outbox@.last().record_hash@
}

/// The last audit record names `correlation` and the plan `plan`.
pub open spec fn audit_ids(g: &Gateway, correlation: Seq<char>, plan: Seq<char>) -> bool {
    &&& g.audit.outbox@.last().correlation_id@ == correlation
    &&& g.audit.outbox@.last().plan_id is Some
    &&& g.audit.outbox@.last().plan_id->0@ == plan
}

/// The last audit record's trace: admission allowed it, the authorization
/// verdict `result` with `reason` when that verdict is recorded, and the
/// planner's choice when `planned`.
pub open spec fn audit_trace(g: &Gateway, event: &Event, result: Seq<char>, reason: Seq<char>, planned: bool) -> bool {
    let t = g.audit.outbox@.last().decision_trace;
    &&& t is Some
    &&& t->0.gate is Some && t->0.gate->0.result@ == "allow"@ && t->0.gate->0.reason_code@ == "gate_allow"@
    &&& (t->0.authz is Some <==> g.settings.include_authz_decision)
    &&& t->0.authz is Some ==> t->0.authz->0.result@ == result && t->0.authz->0.reason_code@ == reason
    &&& (t->0.planner is Some <==> planned)
    &&& planned ==> {
        let p = t->0.planner->0;
        &&& p.reply_policy@ == g.settings.planner.reply_policy@
        &&& p.chosen_intent@ == intent_name_spec(intent_of(event, &g.settings.planner))
        &&& p.seed as nat == planner_seed_of(event.event_id@)
        &&& p.sampled_basis_points as nat == planner_basis_points_of(event.event_id@)
    }
}

/// Outcome of the first phase of processing an event.
#[derive(Debug)]
pub enum Admission {
    /// The event was settled without authorization.
    Done(Result<ResponsePlan, GatewayError>),
    /// The event was admitted; authorize it, then complete it.
    Authorize,
}

/// Checks the shape of an event.
pub fn validate_event(e: &Event) -> (r: Result<(), GatewayError>)
    ensures
        match event_problem(e) {
            None => r is Ok,
            Some(m) => is_validation(r, m),
        },
{
    if e.v != CONTRACT_VERSION {
        return Err(GatewayError::Validation(owned("v must be 1")));
    }
    if e.event_id.as_str().unicode_len() == 0 || e.tenant_id.as_str().unicode_len() == 0
        || e.source.as_str().unicode_len() == 0 || e.room_id.as_str().unicode_len() == 0
        || e.actor.id.as_str().unicode_len() == 0 {
        return Err(GatewayError::Validation(owned("missing required field")));
    }
    let t = e.actor.actor_type.as_str();
    if !(str_eq(t, "human") || str_eq(t, "service") || str_eq(t, "system")) {
        return Err(GatewayError::Validation(owned("invalid actor.type")));
    }
    if !str_eq(e.content.content_type.as_str(), "text") {
        return Err(GatewayError::Validation(owned("content.type must be text")));
    }
    if parse_event_ts(e.ts.as_str()).is_none() {
        return Err(GatewayError::Validation(owned("ts must be RFC3339")));
    }
    Ok(())
}

/// Checks the shape of a plan: current version, identified, not empty.
pub fn validate_response_plan(p: &ResponsePlan) -> (r: Result<(), String>)
    ensures
        r is Ok <==> (p.v == CONTRACT_VERSION && p.plan_id@.len() > 0 && p.tenant_id@.len() > 0
            && p.actions@.len() > 0),
{
    if p.v != CONTRACT_VERSION {
        return Err(owned("response_plan.v must be 1"));
    }
    if p.plan_id.as_str().unicode_len() == 0 || p.tenant_id.as_str().unicode_len() == 0
        || p.actions.len() == 0 {
        return Err(owned("invalid response plan"));
    }
    Ok(())
}

/// Fingerprint of an event.
pub fn fingerprint_event(e: &Event) -> (r: String)
    ensures
        r@ == event_fingerprint(e),
        is_sha256_hex_text(r@),
{
    let text = event_canonical(e);
    hash_hex(text.as_str())
}

fn stored_hash_exec(p: &str) -> (r: String)
    ensures
        r@ == stored_hash(p@),
{
    if is_sha256_hex(p) { owned(p) } else { hash_hex(p) }
}

/// Index of the first entry with key `key`, from `i` on; -1 when none.
pub open spec fn first_key_index(entries: Seq<(String, JsonValue)>, key: Seq<char>, i: int) -> int
    decreases entries.len() - i,
{
    if i < 0 || i >= entries.len() {
        -1
    } else if entries[i].0@ == key {
        i
    } else {
        first_key_index(entries, key, i + 1)
    }
}

/// Plan shape an event asks for through its `arbiter_action` extension;
/// a generation request unless that extension is a text.
pub open spec fn action_mode(extensions: Seq<(String, JsonValue)>) -> Seq<char> {
    let i = first_key_index(extensions, "arbiter_action"@, 0);
    if 0 <= i && extensions[i].1 is Str {
        extensions[i].1->Str_0@
    } else {
        "request_generation"@
    }
}

/// Resubmitting an event whose payload fingerprint was stored under its key
/// is never a conflict: the stored plan is answered again.
pub proof fn resubmission_is_not_conflict(payloads: Map<Seq<char>, String>, key: Seq<char>, incoming: Seq<char>)
    requires
        payloads.contains_key(key),
        payloads[key]@ == incoming,
    ensures
        !payload_conflict(payloads, key, incoming),
{
}

/// A submission under a stored key whose fingerprint differs from the stored
/// fingerprint is a conflict.
pub proof fn differing_payload_conflicts(
    payloads: Map<Seq<char>, String>,
    key: Seq<char>,
    stored: Seq<char>,
    incoming: Seq<char>,
)
    requires
        payloads.contains_key(key),
        payloads[key]@ == stored,
        is_sha256_hex_text(stored),
        stored != incoming,
    ensures
        payload_conflict(payloads, key, incoming),
{
}

/// Against a fresh store admission lets through every event whatever the server
/// time, and the plan chosen for an event does not depend on that time
/// either, except for the expiry written into an approval request.
pub proof fn fresh_processing_is_deterministic(
    event: &Event,
    a: OutcomeView,
    s: &PipelineSettings,
    n1: int,
    n2: int,
)
    requires
        action_mode(event.extensions@) != "request_approval"@,
    ensures
        gate_reason(RoomState { generating: false, pending_queue_size: 0, last_send_at: None }, n1, s.gate, 0)
            == gate_reason(RoomState { generating: false, pending_queue_size: 0, last_send_at: None }, n2, s.gate, 0),
        planned_view(event, a, s, n1) == planned_view(event, a, s, n2),
{
}

/// Plan shape an event asks for.
pub fn requested_action_mode(event: &Event) -> (r: &str)
    ensures
        r@ == action_mode(event.extensions@),
{
    let ghost ext = event.extensions@;
    let mut i: usize = 0;
    while i < event.extensions.len()
        invariant
            ext == event.extensions@,
            i <= ext.len(),
            first_key_index(ext, "arbiter_action"@, 0) == first_key_index(ext, "arbiter_action"@, i as int),
        decreases ext.len() - i,
    {
        if str_eq(event.extensions[i].0.as_str(), "arbiter_action") {
            match &event.extensions[i].1 {
                JsonValue::Str(s) => return s.as_str(),
                _ => {
                    let d = "request_generation";
                    return d;
                },
            }
        }
        i = i + 1;
    }
    "request_generation"
}

/// The plan chosen for an event that was admitted, given the
/// authorization outcome and the server time `now`.
pub open spec fn planned_view(event: &Event, a: OutcomeView, s: &PipelineSettings, now: int) -> PlanView {
    let intent = intent_of(event, &s.planner);
    let mode = action_mode(event.extensions@);
    if !a.0 {
        do_nothing_view(event.tenant_id@, event.room_id@, event.event_id@, a.1)
    } else if intent == Intent::Ignore {
        do_nothing_view(event.tenant_id@, event.room_id@, event.event_id@, "planner_ignore"@)
    } else if mode == "start_agent_job"@ {
        work_plan_view(ActionType::StartAgentJob, event, intent, a.1, None)
    } else if mode == "request_approval"@ {
        work_plan_view(
            ActionType::RequestApproval,
            event,
            intent,
            a.1,
            Some(("approval:"@ + event.event_id@, rfc3339_text(sat_add(now as i64, s.approval_timeout_ms as int) as int))),
        )
    } else {
        work_plan_view(ActionType::RequestGeneration, event, intent, a.1, None)
    }
}

/// Reason recorded for an action result: the reported reason when
/// non-empty, otherwise one named after the status.
pub open spec fn action_result_reason(a: &ActionResult) -> Seq<char> {
    if a.reason_code is Some && a.reason_code->0@.len() > 0 {
        a.reason_code->0@
    } else if a.status@ == "succeeded"@ {
        "action_result_succeeded"@
    } else if a.status@ == "failed"@ {
        "action_result_failed"@
    } else {
        "action_result_skipped"@
    }
}

fn action_result_reason_exec(a: &ActionResult) -> (r: String)
    ensures
        r@ == action_result_reason(a),
{
    if let Some(c) = &a.reason_code {
        if c.as_str().unicode_len() > 0 {
            return c.clone();
        }
    }
    if str_eq(a.status.as_str(), "succeeded") {
        owned("action_result_succeeded")
    } else if str_eq(a.status.as_str(), "failed") {
        owned("action_result_failed")
    } else {
        owned("action_result_skipped")
    }
}

/// The plan asks for a generation.
pub open spec fn asks_generation(p: PlanView) -> bool {
    p.actions.len() > 0 && p.actions[0].action_type == ActionType::RequestGeneration
}

/// One more, stopping at the largest `usize`.
pub open spec fn inc_queue(n: usize) -> usize {
    if n < usize::MAX { (n + 1) as usize } else { n }
}

impl Gateway {
    /// Everything the gateway holds is well formed, and every stored room
    /// is generating exactly when generations are pending.
    pub open spec fn wf(&self) -> bool {
        &&& self.store.wf()
        &&& self.authz.wf()
        &&& forall|k: Seq<char>| #[trigger] self.store.rooms.view().contains_key(k) ==> self.store.rooms.view()[k].wf()
    }

    /// A gateway with an empty store, continuing the audit chain after `tip`.
    pub fn new(cfg: &Config, tip: String) -> (r: Gateway)
        ensures
            r.wf(),
            r.audit.tip == tip,
            r.audit.outbox@.len() == 0,
            r.settings.gate == (GateConfig {
                cooldown_ms: cfg.gate.cooldown_ms,
                max_queue: cfg.gate.max_queue,
                tenant_rate_limit_per_min: cfg.gate.tenant_rate_limit_per_min,
            }),
            r.settings.planner.reply_policy@ == cfg.planner.reply_policy@,
            r.settings.planner.reply_probability_bp == cfg.planner.reply_probability_bp,
            r.settings.approval_timeout_ms == cfg.planner.approval_timeout_ms,
            r.settings.approval_escalation_on_expired == cfg.planner.approval_escalation_on_expired,
            r.settings.include_authz_decision == cfg.audit.include_authz_decision,
            r.authz.settings.external == (cfg.authz.mode@ == "external_http"@),
            r.authz.settings.endpoint == cfg.authz.endpoint,
            r.authz.settings.fail_mode == cfg.authz.fail_mode,
            r.authz.settings.retry_max_attempts == (if cfg.authz.retry_max_attempts == 0 { 1 } else { cfg.authz.retry_max_attempts }),
            r.authz.settings.retry_backoff_ms == cfg.authz.retry_backoff_ms,
            r.authz.settings.circuit_breaker_failures == (if cfg.authz.circuit_breaker_failures == 0 { 1 } else { cfg.authz.circuit_breaker_failures }),
            r.authz.settings.circuit_breaker_open_ms == (if cfg.authz.circuit_breaker_open_ms == 0 { 1 } else { cfg.authz.circuit_breaker_open_ms }),
            r.authz.settings.cache_enabled == cfg.authz.cache.enabled,
            r.authz.settings.cache_ttl_ms == cfg.authz.cache.ttl_ms,
            r.authz.settings.cache_max_entries == cfg.authz.cache.max_entries,
            r.authz.failure_streak == 0,
            r.authz.open_until is None,
            r.authz.cache.view().is_empty(),
            r.store.idempotency.view().is_empty(),
            r.store.event_payloads.view().is_empty(),
            r.store.rooms.view().is_empty(),
            r.store.pending.view().is_empty(),
            r.store.tenant_rate.view().is_empty(),
            r.store.job_states.view().is_empty(),
            r.store.approval_states.view().is_empty(),
            r.store.action_index.view().is_empty(),
            r.store.action_results.view().is_empty(),
    {
        let settings = PipelineSettings {
            gate: GateConfig {
                cooldown_ms: cfg.gate.cooldown_ms,
                max_queue: cfg.gate.max_queue,
                tenant_rate_limit_per_min: cfg.gate.tenant_rate_limit_per_min,
            },
            planner: PlannerConfig {
                reply_policy: cfg.planner.reply_policy.clone(),
                reply_probability_bp: cfg.planner.reply_probability_bp,
            },
            approval_timeout_ms: cfg.planner.approval_timeout_ms,
            approval_escalation_on_expired: cfg.planner.approval_escalation_on_expired,
            include_authz_decision: cfg.audit.include_authz_decision,
        };
        let authz = AuthzEngine::new(AuthzSettings {
            external: str_eq(cfg.authz.mode.as_str(), "external_http"),
            endpoint: match &cfg.authz.endpoint {
                Some(e) => Some(e.clone()),
                None => None,
            },
            fail_mode: cfg.authz.fail_mode.clone(),
            retry_max_attempts: if cfg.authz.retry_max_attempts == 0 { 1 } else { cfg.authz.retry_max_attempts },
            retry_backoff_ms: cfg.authz.retry_backoff_ms,
            circuit_breaker_failures: if cfg.authz.circuit_breaker_failures == 0 { 1 } else { cfg.authz.circuit_breaker_failures },
            circuit_breaker_open_ms: if cfg.authz.circuit_breaker_open_ms == 0 { 1 } else { cfg.authz.circuit_breaker_open_ms },
            cache_enabled: cfg.authz.cache.enabled,
            cache_ttl_ms: cfg.authz.cache.ttl_ms,
            cache_max_entries: cfg.authz.cache.max_entries,
        });
        Gateway { settings, store: MemoryStore::new(), authz, audit: AuditChain::new(tip) }
    }

    fn record(
        &mut self,
        tenant_id: &str,
        correlation_id: &str,
        action: &str,
        result: &str,
        reason: &str,
        plan_id: Option<String>,
        trace: Option<DecisionTrace>,
        now: i64,
    )
        ensures
            same_state(final(self), old(self)),
            audited(old(self), final(self), action@, result@, reason@),
            final(self).audit.outbox@.last().plan_id == plan_id,
            final(self).audit.outbox@.last().tenant_id@ == tenant_id@,
            final(self).audit.outbox@.last().correlation_id@ == correlation_id@,
            final(self).audit.outbox@.last().decision_trace == trace,
            final(self).audit.outbox@.last().ts@ == rfc3339_text(now as int),
    {
        let mut rec = AuditRecord::new(tenant_id, correlation_id, action, result, reason, plan_id, now);
        rec.decision_trace = trace;
        self.audit.append(rec);
    }

    /// First phase of processing an event at server time `now`
    /// (milliseconds): shape check, idempotency check and gate. A repeat is
    /// answered from the store (or refused when its payload differs); a gate
    /// denial yields a stored no-op plan; otherwise the event goes on to
    /// authorization and the state is left as it was.
    pub fn admit_event(&mut self, event: &Event, now: i64) -> (r: Admission)
        requires
            old(self).wf(),
        ensures
            final(self).wf(),
            ({
                let key = key2(event.tenant_id@, event.event_id@);
                let incoming = event_fingerprint(event);
                let idem = old(self).store.idempotency.view();
                let payloads = old(self).store.event_payloads.view();
                let room = room_or_fresh(old(self).store.rooms.view(), key2(event.tenant_id@, event.room_id@));
                let count = count_or_zero(
                    old(self).store.tenant_rate.view(),
                    rate_key(event.tenant_id@, now as int / 60000),
                );
                match event_problem(event) {
                    Some(m) => r is Done && is_validation(r->Done_0, m) && *final(self) == *old(self),
                    None => if idem.contains_key(key) {
                        if payload_conflict(payloads, key, incoming) {
                            &&& r is Done && r->Done_0 is Err && r->Done_0->Err_0 is PayloadMismatch
                            &&& r->Done_0->Err_0->existing_hash@ == stored_hash(payloads[key]@)
                            &&& r->Done_0->Err_0->incoming_hash@ == incoming
                            &&& *final(self) == *old(self)
                        } else {
                            &&& r is Done && r->Done_0 is Ok && r->Done_0->Ok_0@ == idem[key]@
                            &&& same_state(final(self), old(self))
                            &&& audited(old(self), final(self), "process_event"@, "idempotency_hit"@, "idempotency_hit"@)
                            &&& audit_ids(final(self), event.event_id@, idem[key]@.plan_id)
                        }
                    } else {
                        match gate_reason(room, now as int, old(self).settings.gate, count as int) {
                            Some(c) => {
                                &&& r is Done && r->Done_0 is Ok
                                &&& r->Done_0->Ok_0@ == do_nothing_view(event.tenant_id@, event.room_id@, event.event_id@, c)
                                &&& final(self).store.idempotency.view().contains_key(key)
                                &&& final(self).store.idempotency.view()[key]@ == r->Done_0->Ok_0@
                                &&& final(self).store.event_payloads.view()[key]@ == incoming
                    &&& is_sha256_hex_text(final(self).store.event_payloads.view()[key]@)
                                &&& final(self).store.rooms == old(self).store.rooms
                                &&& final(self).store.pending == old(self).store.pending
                                &&& final(self).store.tenant_rate == old(self).store.tenant_rate
                                &&& final(self).settings == old(self).settings
                                &&& final(self).authz == old(self).authz
                                &&& audited(old(self), final(self), "gate"@, "deny"@, c)
                                &&& audit_ids(final(self), event.event_id@, r->Done_0->Ok_0@.plan_id)
                                &&& final(self).audit.outbox@.last().decision_trace is Some
                                &&& final(self).audit.outbox@.last().decision_trace->0.gate is Some
                                &&& final(self).audit.outbox@.last().decision_trace->0.gate->0.result@ == "deny"@
                                &&& final(self).audit.outbox@.last().decision_trace->0.gate->0.reason_code@ == c
                            },
                            None => r is Authorize && *final(self) == *old(self),
                        }
                    },
                }
            }),
    {
        match validate_event(event) {
            Err(e) => return Admission::Done(Err(e)),
            Ok(()) => {},
        }
        let key = event_key(event.tenant_id.as_str(), event.event_id.as_str());
        let incoming = fingerprint_event(event);
        if let Some(existing) = self.store.get_idempotency(key.as_str()) {
            if let Some(payload) = self.store.get_event_payload(key.as_str()) {
                let existing_hash = stored_hash_exec(payload.as_str());
                if !str_eq(payload.as_str(), incoming.as_str()) && !str_eq(existing_hash.as_str(), incoming.as_str()) {
                    return Admission::Done(Err(GatewayError::PayloadMismatch { existing_hash, incoming_hash: incoming }));
                }
            }
            let plan_id = existing.plan_id.clone();
            self.record(
                event.tenant_id.as_str(),
                event.event_id.as_str(),
                "process_event",
                "idempotency_hit",
                "idempotency_hit",
                Some(plan_id),
                None,
                now,
            );
            return Admission::Done(Ok(existing));
        }
        let rkey = room_key(event.tenant_id.as_str(), event.room_id.as_str());
        let bucket = minute_bucket(now);
        let room = self.store.get_room(rkey.as_str());
        let count = self.store.get_tenant_rate_count(event.tenant_id.as_str(), bucket);
        match evaluate_gate(&room, now, &self.settings.gate, count) {
            GateDecision::Allow => Admission::Authorize,
            GateDecision::Deny { reason_code } => {
                let plan = do_nothing_plan(
                    event.tenant_id.as_str(),
                    event.room_id.as_str(),
                    event.event_id.as_str(),
                    reason_code,
                );
                self.store.save_idempotency(key.clone(), &plan);
                self.store.save_event_payload(key.as_str(), incoming.as_str());
                let trace = DecisionTrace {
                    gate: Some(StageDecision { result: owned("deny"), reason_code: owned(reason_code) }),
                    authz: None,
                    planner: None,
                };
                self.record(
                    event.tenant_id.as_str(),
                    event.event_id.as_str(),
                    "gate",
                    "deny",
                    reason_code,
                    Some(plan.plan_id.clone()),
                    Some(trace),
                    now,
                );
                Admission::Done(Ok(plan))
            },
        }
    }

    /// Second phase of processing an event at server time `now`, once
    /// authorization has decided: a denial yields a stored no-op plan; an
    /// allow yields the planned actions, a generation request marks the room
    /// as generating and records the pending generation, the tenant's rate
    /// counter grows, and the plan is stored with the payload fingerprint.
    pub fn complete_event(&mut self, event: &Event, authz: &AuthzOutcome, now: i64) -> (r: Result<ResponsePlan, GatewayError>)
        requires
            old(self).wf(),
        ensures
            final(self).wf(),
            final(self).settings == old(self).settings,
            final(self).authz == old(self).authz,
            ({
                let key = key2(event.tenant_id@, event.event_id@);
                let rkey = key2(event.tenant_id@, event.room_id@);
                let old_room = room_or_fresh(old(self).store.rooms.view(), rkey);
                let rate = rate_key(event.tenant_id@, now as int / 60000);
                match event_problem(event) {
                    Some(m) => is_validation(r, m) && *final(self) == *old(self),
                    None => {
                        &&& r is Ok
                        &&& r->Ok_0@ == planned_view(event, outcome_view(*authz), &old(self).settings, now as int)
                        &&& final(self).store.idempotency.view().contains_key(key)
                        &&& final(self).store.idempotency.view()[key]@ == r->Ok_0@
                        &&& final(self).store.event_payloads.view()[key]@ == event_fingerprint(event)
                        &&& is_sha256_hex_text(final(self).store.event_payloads.view()[key]@)
                        &&& if !authz.allow {
                            &&& final(self).store.rooms == old(self).store.rooms
                            &&& final(self).store.pending == old(self).store.pending
                            &&& final(self).store.tenant_rate == old(self).store.tenant_rate
                            &&& audited(old(self), final(self), "authz"@, "deny"@, authz.reason_code@)
                            &&& audit_ids(final(self), event.event_id@, r->Ok_0@.plan_id)
                            &&& audit_trace(final(self), event, "deny"@, authz.reason_code@, false)
                        } else {
                            &&& final(self).store.tenant_rate.view() == old(self).store.tenant_rate.view().insert(
                                rate,
                                incremented(count_or_zero(old(self).store.tenant_rate.view(), rate)),
                            )
                            &&& asks_generation(r->Ok_0@) ==> {
                                &&& final(self).store.rooms.view() == old(self).store.rooms.view().insert(
                                    rkey,
                                    RoomState {
                                        generating: true,
                                        pending_queue_size: inc_queue(old_room.pending_queue_size),
                                        last_send_at: old_room.last_send_at,
                                    },
                                )
                                &&& final(self).store.pending.view().contains_key(
                                    key2(event.tenant_id@, r->Ok_0@.actions[0].action_id),
                                )
                                &&& ({
                                    let p = final(self).store.pending.view()[key2(event.tenant_id@, r->Ok_0@.actions[0].action_id)];
                                    &&& p.tenant_id@ == event.tenant_id@
                                    &&& p.room_id@ == event.room_id@
                                    &&& p.action_id@ == r->Ok_0@.actions[0].action_id
                                    &&& p.reply_to == event.content.reply_to
                                    &&& p.intent == intent_of(event, &old(self).settings.planner)
                                })
                            }
                            &&& !asks_generation(r->Ok_0@) ==> final(self).store.rooms == old(self).store.rooms
                                && final(self).store.pending == old(self).store.pending
                            &&& audited(
                                old(self),
                                final(self),
                                "process_event"@,
                                "ok"@,
                                r->Ok_0@.actions[0].action_type.name_spec(),
                            )
                            &&& audit_ids(final(self), event.event_id@, r->Ok_0@.plan_id)
                            &&& audit_trace(final(self), event, "allow"@, authz.reason_code@, true)
                        }
                    },
                }
            }),
    {
        match validate_event(event) {
            Err(e) => return Err(e),
            Ok(()) => {},
        }
        let key = event_key(event.tenant_id.as_str(), event.event_id.as_str());
        let incoming = fingerprint_event(event);
        if !authz.allow {
            let plan = do_nothing_plan(
                event.tenant_id.as_str(),
                event.room_id.as_str(),
                event.event_id.as_str(),
                authz.reason_code.as_str(),
            );
            self.store.save_idempotency(key.clone(), &plan);
            self.store.save_event_payload(key.as_str(), incoming.as_str());
            let trace = DecisionTrace {
                gate: Some(StageDecision { result: owned("allow"), reason_code: owned("gate_allow") }),
                authz: if self.settings.include_authz_decision {
                    Some(AuthzDecisionTrace {
                        result: owned("deny"),
                        reason_code: authz.reason_code.clone(),
                        policy_version: match &authz.policy_version {
                            Some(v) => Some(v.clone()),
                            None => None,
                        },
                    })
                } else {
                    None
                },
                planner: None,
            };
            self.record(
                event.tenant_id.as_str(),
                event.event_id.as_str(),
                "authz",
                "deny",
                authz.reason_code.as_str(),
                Some(plan.plan_id.clone()),
                Some(trace),
                now,
            );
            return Ok(plan);
        }
        let intent = decide_intent(event, &self.settings.planner);
        let seed = planner_seed(event.event_id.as_str());
        let bp = planner_basis_points(event.event_id.as_str());
        let plan = match intent {
            Intent::Ignore => do_nothing_plan(
                event.tenant_id.as_str(),
                event.room_id.as_str(),
                event.event_id.as_str(),
                "planner_ignore",
            ),
            _ => {
                let mode = requested_action_mode(event);
                if str_eq(mode, "start_agent_job") {
                    start_agent_job_plan(event, intent, authz.reason_code.as_str())
                } else if str_eq(mode, "request_approval") {
                    let mut approval_id = owned("approval:");
                    push_str(&mut approval_id, event.event_id.as_str());
                    let expires = crate::authz::sat_add_exec(now, self.settings.approval_timeout_ms);
                    let terms = ApprovalTerms { approval_id, expires_at: format_rfc3339(expires) };
                    request_approval_plan(event, intent, authz.reason_code.as_str(), &terms)
                } else {
                    request_generation_plan(event, intent, authz.reason_code.as_str())
                }
            },
        };
        let bucket = minute_bucket(now);
        if plan.actions.len() > 0 && plan.actions[0].action_type == ActionType::RequestGeneration {
            let rkey = room_key(event.tenant_id.as_str(), event.room_id.as_str());
            let mut room = self.store.get_room(rkey.as_str());
            room.generating = true;
            if room.pending_queue_size < usize::MAX {
                room.pending_queue_size = room.pending_queue_size + 1;
            }
            self.store.save_room(rkey.as_str(), &room);
            let action_id = plan.actions[0].action_id.clone();
            let pkey = pending_key(event.tenant_id.as_str(), action_id.as_str());
            self.store.save_pending(
                pkey,
                PendingGeneration {
                    tenant_id: event.tenant_id.clone(),
                    room_id: event.room_id.clone(),
                    action_id,
                    reply_to: match &event.content.reply_to {
                        Some(v) => Some(v.clone()),
                        None => None,
                    },
                    intent,
                },
            );
        }
        self.store.increment_tenant_rate(event.tenant_id.as_str(), bucket);
        self.store.save_idempotency(key.clone(), &plan);
        self.store.save_event_payload(key.as_str(), incoming.as_str());
        let trace = DecisionTrace {
            gate: Some(StageDecision { result: owned("allow"), reason_code: owned("gate_allow") }),
            authz: if self.settings.include_authz_decision {
                Some(AuthzDecisionTrace {
                    result: owned("allow"),
                    reason_code: authz.reason_code.clone(),
                    policy_version: match &authz.policy_version {
                        Some(v) => Some(v.clone()),
                        None => None,
                    },
                })
            } else {
                None
            },
            planner: Some(PlannerDecisionTrace {
                reply_policy: self.settings.planner.reply_policy.clone(),
                chosen_intent: owned(intent_name(intent)),
                seed,
                sampled_basis_points: bp as u16,
            }),
        };
        let name = plan.actions[0].action_type.name();
        self.record(
            event.tenant_id.as_str(),
            event.event_id.as_str(),
            "process_event",
            "ok",
            name,
            Some(plan.plan_id.clone()),
            Some(trace),
            now,
        );
        Ok(plan)
    }

    /// Takes in the text generated for a pending generation at server time
    /// `now`: the pending entry is removed, the room's queue shrinks (not
    /// below zero), `generating` follows the queue, the last send moves to
    /// `now`, and a send plan is returned. An unknown generation yields a
    /// no-op plan.
    pub fn process_generation(&mut self, input: &GenerationResult, now: i64) -> (r: Result<ResponsePlan, GatewayError>)
        requires
            old(self).wf(),
        ensures
            final(self).wf(),
            final(self).settings == old(self).settings,
            final(self).authz == old(self).authz,
            ({
                let pkey = key2(input.tenant_id@, input.action_id@);
                if input.v != CONTRACT_VERSION {
                    is_validation(r, "v must be 1"@) && *final(self) == *old(self)
                } else if input.tenant_id@.len() == 0 || input.plan_id@.len() == 0 || input.action_id@.len() == 0 {
                    is_validation(r, "tenant_id, plan_id, action_id are required"@) && *final(self) == *old(self)
                } else {
                    &&& r is Ok
                    &&& final(self).store.pending.view() == old(self).store.pending.view().remove(pkey)
                    &&& match old(self).store.pending.view().get(pkey) {
                        None => {
                            &&& r->Ok_0@ == do_nothing_view(input.tenant_id@, Seq::empty(), input.action_id@, "generation_unknown_action"@)
                            &&& final(self).store.rooms == old(self).store.rooms
                            &&& audited(old(self), final(self), "generation_result"@, "no_pending_action"@, "generation_unknown_action"@)
                            &&& audit_ids(final(self), input.action_id@, r->Ok_0@.plan_id)
                        },
                        Some(p) => {
                            let rkey = key2(p.tenant_id@, p.room_id@);
                            let old_room = room_or_fresh(old(self).store.rooms.view(), rkey);
                            let left = if old_room.pending_queue_size > 0 { (old_room.pending_queue_size - 1) as usize } else { 0usize };
                            &&& r->Ok_0@ == send_plan_view(p.tenant_id@, p.room_id@, p.action_id@, input.text@, match p.reply_to {
                                Some(t) => Some(t@),
                                None => None,
                            })
                            &&& final(self).store.rooms.view() == old(self).store.rooms.view().insert(
                                rkey,
                                RoomState { generating: left > 0, pending_queue_size: left, last_send_at: Some(now) },
                            )
                            &&& audited(old(self), final(self), "generation_result"@, "ok"@, r->Ok_0@.actions[0].action_type.name_spec())
                            &&& audit_ids(final(self), input.action_id@, r->Ok_0@.plan_id)
                        },
                    }
                }
            }),
    {
        if input.v != CONTRACT_VERSION {
            return Err(GatewayError::Validation(owned("v must be 1")));
        }
        if input.tenant_id.as_str().unicode_len() == 0 || input.plan_id.as_str().unicode_len() == 0
            || input.action_id.as_str().unicode_len() == 0 {
            return Err(GatewayError::Validation(owned("tenant_id, plan_id, action_id are required")));
        }
        let pkey = pending_key(input.tenant_id.as_str(), input.action_id.as_str());
        match self.store.take_pending(pkey.as_str()) {
            None => {
                let plan = do_nothing_plan(input.tenant_id.as_str(), "", input.action_id.as_str(), "generation_unknown_action");
                proof {
                    reveal_strlit("");
                    assert(""@ =~= Seq::<char>::empty());
                }
                self.record(
                    input.tenant_id.as_str(),
                    input.action_id.as_str(),
                    "generation_result",
                    "no_pending_action",
                    "generation_unknown_action",
                    Some(plan.plan_id.clone()),
                    None,
                    now,
                );
                Ok(plan)
            },
            Some(pending) => {
                let rkey = room_key(pending.tenant_id.as_str(), pending.room_id.as_str());
                let mut room = self.store.get_room(rkey.as_str());
                if room.pending_queue_size > 0 {
                    room.pending_queue_size = room.pending_queue_size - 1;
                }
                room.generating = room.pending_queue_size > 0;
                room.last_send_at = Some(now);
                self.store.save_room(rkey.as_str(), &room);
                let plan = send_plan(
                    pending.tenant_id.as_str(),
                    pending.room_id.as_str(),
                    pending.action_id.as_str(),
                    input.text.as_str(),
                    match &pending.reply_to {
                        Some(t) => Some(t.as_str()),
                        None => None,
                    },
                );
                self.store.index_plan_actions(&plan);
                let name = plan.actions[0].action_type.name();
                self.record(
                    input.tenant_id.as_str(),
                    input.action_id.as_str(),
                    "generation_result",
                    "ok",
                    name,
                    Some(plan.plan_id.clone()),
                    None,
                    now,
                );
                Ok(plan)
            },
        }
    }

    /// Records a job's status change at server time `now`: a repeat of an
    /// event is answered from the store (or refused when its payload
    /// differs); a change the state machine forbids is refused; otherwise the
    /// status is stored and a no-op plan with reason `job_status_<status>` is
    /// returned and stored.
    pub fn process_job_status(&mut self, input: &JobStatusEvent, now: i64) -> (r: Result<ResponsePlan, GatewayError>)
        requires
            old(self).wf(),
        ensures
            final(self).wf(),
            final(self).settings == old(self).settings,
            final(self).authz == old(self).authz,
            ({
                let key = key2(input.tenant_id@, input.event_id@);
                let jkey = key2(input.tenant_id@, input.job_id@);
                let incoming = hash_hex_of(job_status_text(input));
                let idem = old(self).store.idempotency.view();
                let payloads = old(self).store.event_payloads.view();
                let jobs = old(self).store.job_states.view();
                if input.v != CONTRACT_VERSION {
                    is_validation(r, "v must be 1"@) && *final(self) == *old(self)
                } else if input.event_id@.len() == 0 || input.tenant_id@.len() == 0 || input.job_id@.len() == 0 {
                    is_validation(r, "event_id, tenant_id, job_id are required"@) && *final(self) == *old(self)
                } else if rfc3339_millis(input.ts@) is None {
                    is_validation(r, "ts must be RFC3339"@) && *final(self) == *old(self)
                } else if !is_job_status(input.status@) {
                    is_validation(r, "invalid job status"@) && *final(self) == *old(self)
                } else if idem.contains_key(key) {
                    *final(self) == *old(self) && if payload_conflict(payloads, key, incoming) {
                        r is Err && r->Err_0 is PayloadMismatch
                    } else {
                        r is Ok && r->Ok_0@ == idem[key]@
                    }
                } else if !job_transition_ok(if jobs.contains_key(jkey) { Some(jobs[jkey].status@) } else { None }, input.status@) {
                    r is Err && r->Err_0 is InvalidTransition && *final(self) == *old(self)
                } else {
                    &&& r is Ok
                    &&& r->Ok_0@ == do_nothing_view(input.tenant_id@, Seq::empty(), input.event_id@, "job_status_"@ + input.status@)
                    &&& final(self).store.job_states.view()[jkey].status@ == input.status@
                    &&& final(self).store.idempotency.view()[key]@ == r->Ok_0@
                    &&& final(self).store.event_payloads.view()[key]@ == incoming
                    &&& is_sha256_hex_text(final(self).store.event_payloads.view()[key]@)
                    &&& audited(old(self), final(self), "job_event"@, "recorded"@, "job_status_"@ + input.status@)
                    &&& audit_ids(final(self), input.event_id@, r->Ok_0@.plan_id)
                }
            }),
    {
        if input.v != CONTRACT_VERSION {
            return Err(GatewayError::Validation(owned("v must be 1")));
        }
        if input.event_id.as_str().unicode_len() == 0 || input.tenant_id.as_str().unicode_len() == 0
            || input.job_id.as_str().unicode_len() == 0 {
            return Err(GatewayError::Validation(owned("event_id, tenant_id, job_id are required")));
        }
        if parse_event_ts(input.ts.as_str()).is_none() {
            return Err(GatewayError::Validation(owned("ts must be RFC3339")));
        }
        if !job_status_known(input.status.as_str()) {
            return Err(GatewayError::Validation(owned("invalid job status")));
        }
        let key = event_key(input.tenant_id.as_str(), input.event_id.as_str());
        let text = job_status_canonical(input);
        let incoming = hash_hex(text.as_str());
        if let Some(existing) = self.store.get_idempotency(key.as_str()) {
            if let Some(payload) = self.store.get_event_payload(key.as_str()) {
                let existing_hash = stored_hash_exec(payload.as_str());
                if !str_eq(payload.as_str(), incoming.as_str()) && !str_eq(existing_hash.as_str(), incoming.as_str()) {
                    return Err(GatewayError::PayloadMismatch { existing_hash, incoming_hash: incoming });
                }
            }
            return Ok(existing);
        }
        let current = self.store.get_job_state(input.tenant_id.as_str(), input.job_id.as_str());
        let allowed = match &current {
            Some(c) => is_valid_job_transition(Some(c.status.as_str()), input.status.as_str()),
            None => is_valid_job_transition(None, input.status.as_str()),
        };
        if !allowed {
            return Err(GatewayError::InvalidTransition(owned("job status transition rejected")));
        }
        let updated_at = format_rfc3339(now);
        self.store.save_job_state(
            input.tenant_id.as_str(),
            input.job_id.as_str(),
            input.status.as_str(),
            match &input.reason_code {
                Some(c) => Some(c.as_str()),
                None => None,
            },
            updated_at.as_str(),
        );
        let mut reason = owned("job_status_");
        push_str(&mut reason, input.status.as_str());
        let plan = do_nothing_plan(input.tenant_id.as_str(), "", input.event_id.as_str(), reason.as_str());
        proof {
            reveal_strlit("");
            assert(""@ =~= Seq::<char>::empty());
        }
        self.store.save_idempotency(key.clone(), &plan);
        self.store.save_event_payload(key.as_str(), incoming.as_str());
        self.record(
            input.tenant_id.as_str(),
            input.event_id.as_str(),
            "job_event",
            "recorded",
            reason.as_str(),
            Some(plan.plan_id.clone()),
            Some(DecisionTrace { gate: None, authz: None, planner: None }),
            now,
        );
        Ok(plan)
    }

    /// Records a request to cancel a job at server time `now`: a repeat of
    /// the request is answered from the store (or refused when its payload
    /// differs); a cancel the job state machine forbids (the job already
    /// completed or failed) is refused; otherwise the job is marked cancelled
    /// and a stored no-op plan with reason `job_cancelled` is returned.
    pub fn process_job_cancel(&mut self, input: &JobCancelRequest, now: i64) -> (r: Result<ResponsePlan, GatewayError>)
        requires
            old(self).wf(),
        ensures
            final(self).wf(),
            final(self).settings == old(self).settings,
            final(self).authz == old(self).authz,
            ({
                let key = key2(input.tenant_id@, input.event_id@);
                let jkey = key2(input.tenant_id@, input.job_id@);
                let incoming = hash_hex_of(job_cancel_text(input));
                let idem = old(self).store.idempotency.view();
                let payloads = old(self).store.event_payloads.view();
                let jobs = old(self).store.job_states.view();
                if input.v != CONTRACT_VERSION {
                    is_validation(r, "v must be 1"@) && *final(self) == *old(self)
                } else if input.event_id@.len() == 0 || input.tenant_id@.len() == 0 || input.job_id@.len() == 0 {
                    is_validation(r, "event_id, tenant_id, job_id are required"@) && *final(self) == *old(self)
                } else if rfc3339_millis(input.ts@) is None {
                    is_validation(r, "ts must be RFC3339"@) && *final(self) == *old(self)
                } else if idem.contains_key(key) {
                    *final(self) == *old(self) && if payload_conflict(payloads, key, incoming) {
                        r is Err && r->Err_0 is PayloadMismatch
                    } else {
                        r is Ok && r->Ok_0@ == idem[key]@
                    }
                } else if !job_transition_ok(if jobs.contains_key(jkey) { Some(jobs[jkey].status@) } else { None }, "cancelled"@) {
                    r is Err && r->Err_0 is InvalidTransition && *final(self) == *old(self)
                } else {
                    &&& r is Ok
                    &&& r->Ok_0@ == do_nothing_view(input.tenant_id@, Seq::empty(), input.event_id@, "job_cancelled"@)
                    &&& final(self).store.job_states.view()[jkey].status@ == "cancelled"@
                    &&& final(self).store.idempotency.view()[key]@ == r->Ok_0@
                    &&& final(self).store.event_payloads.view()[key]@ == incoming
                    &&& is_sha256_hex_text(final(self).store.event_payloads.view()[key]@)
                    &&& audited(old(self), final(self), "job_cancel"@, "recorded"@, "job_cancelled"@)
                    &&& audit_ids(final(self), input.event_id@, r->Ok_0@.plan_id)
                }
            }),
    {
        if input.v != CONTRACT_VERSION {
            return Err(GatewayError::Validation(owned("v must be 1")));
        }
        if input.event_id.as_str().unicode_len() == 0 || input.tenant_id.as_str().unicode_len() == 0
            || input.job_id.as_str().unicode_len() == 0 {
            return Err(GatewayError::Validation(owned("event_id, tenant_id, job_id are required")));
        }
        if parse_event_ts(input.ts.as_str()).is_none() {
            return Err(GatewayError::Validation(owned("ts must be RFC3339")));
        }
        let key = event_key(input.tenant_id.as_str(), input.event_id.as_str());
        let text = job_cancel_canonical(input);
        let incoming = hash_hex(text.as_str());
        if let Some(existing) = self.store.get_idempotency(key.as_str()) {
            if let Some(payload) = self.store.get_event_payload(key.as_str()) {
                let existing_hash = stored_hash_exec(payload.as_str());
                if !str_eq(payload.as_str(), incoming.as_str()) && !str_eq(existing_hash.as_str(), incoming.as_str()) {
                    return Err(GatewayError::PayloadMismatch { existing_hash, incoming_hash: incoming });
                }
            }
            return Ok(existing);
        }
        let current = self.store.get_job_state(input.tenant_id.as_str(), input.job_id.as_str());
        let allowed = match &current {
            Some(c) => is_valid_job_transition(Some(c.status.as_str()), "cancelled"),
            None => is_valid_job_transition(None, "cancelled"),
        };
        if !allowed {
            return Err(GatewayError::InvalidTransition(owned("job cancel rejected")));
        }
        let updated_at = format_rfc3339(now);
        self.store.save_job_state(
            input.tenant_id.as_str(),
            input.job_id.as_str(),
            "cancelled",
            match &input.reason_code {
                Some(c) => Some(c.as_str()),
                None => None,
            },
            updated_at.as_str(),
        );
        let plan = do_nothing_plan(input.tenant_id.as_str(), "", input.event_id.as_str(), "job_cancelled");
        proof {
            reveal_strlit("");
            assert(""@ =~= Seq::<char>::empty());
        }
        self.store.save_idempotency(key.clone(), &plan);
        self.store.save_event_payload(key.as_str(), incoming.as_str());
        self.record(
            input.tenant_id.as_str(),
            input.event_id.as_str(),
            "job_cancel",
            "recorded",
            "job_cancelled",
            Some(plan.plan_id.clone()),
            None,
            now,
        );
        Ok(plan)
    }

    /// Records an approval's status change at server time `now`, like a job
    /// status change; an expiry, when escalation is configured, also sets
    /// `escalation: notify_human` in the plan's debug entries.
    pub fn process_approval_event(&mut self, input: &ApprovalEvent, now: i64) -> (r: Result<ResponsePlan, GatewayError>)
        requires
            old(self).wf(),
        ensures
            final(self).wf(),
            final(self).settings == old(self).settings,
            final(self).authz == old(self).authz,
            ({
                let key = key2(input.tenant_id@, input.event_id@);
                let akey = key2(input.tenant_id@, input.approval_id@);
                let incoming = hash_hex_of(approval_text(input));
                let idem = old(self).store.idempotency.view();
                let payloads = old(self).store.event_payloads.view();
                let approvals = old(self).store.approval_states.view();
                let reason = "approval_"@ + input.status@;
                let base = do_nothing_view(input.tenant_id@, Seq::empty(), input.event_id@, reason);
                if input.v != CONTRACT_VERSION {
                    is_validation(r, "v must be 1"@) && *final(self) == *old(self)
                } else if input.event_id@.len() == 0 || input.tenant_id@.len() == 0 || input.approval_id@.len() == 0 {
                    is_validation(r, "event_id, tenant_id, approval_id are required"@) && *final(self) == *old(self)
                } else if rfc3339_millis(input.ts@) is None {
                    is_validation(r, "ts must be RFC3339"@) && *final(self) == *old(self)
                } else if !is_approval_status(input.status@) {
                    is_validation(r, "invalid approval status"@) && *final(self) == *old(self)
                } else if idem.contains_key(key) {
                    *final(self) == *old(self) && if payload_conflict(payloads, key, incoming) {
                        r is Err && r->Err_0 is PayloadMismatch
                    } else {
                        r is Ok && r->Ok_0@ == idem[key]@
                    }
                } else if !approval_transition_ok(
                    if approvals.contains_key(akey) { Some(approvals[akey].status@) } else { None },
                    input.status@,
                ) {
                    r is Err && r->Err_0 is InvalidTransition && *final(self) == *old(self)
                } else {
                    &&& r is Ok
                    &&& r->Ok_0@ == (if input.status@ == "expired"@ && old(self).settings.approval_escalation_on_expired {
                        PlanView { debug: seq![("escalation"@, "notify_human"@)], ..base }
                    } else {
                        base
                    })
                    &&& final(self).store.approval_states.view()[akey].status@ == input.status@
                    &&& final(self).store.idempotency.view()[key]@ == r->Ok_0@
                    &&& final(self).store.event_payloads.view()[key]@ == incoming
                    &&& is_sha256_hex_text(final(self).store.event_payloads.view()[key]@)
                    &&& audited(old(self), final(self), "approval_event"@, "recorded"@, reason)
                    &&& audit_ids(final(self), input.event_id@, r->Ok_0@.plan_id)
                }
            }),
    {
        if input.v != CONTRACT_VERSION {
            return Err(GatewayError::Validation(owned("v must be 1")));
        }
        if input.event_id.as_str().unicode_len() == 0 || input.tenant_id.as_str().unicode_len() == 0
            || input.approval_id.as_str().unicode_len() == 0 {
            return Err(GatewayError::Validation(owned("event_id, tenant_id, approval_id are required")));
        }
        if parse_event_ts(input.ts.as_str()).is_none() {
            return Err(GatewayError::Validation(owned("ts must be RFC3339")));
        }
        if !approval_status_known(input.status.as_str()) {
            return Err(GatewayError::Validation(owned("invalid approval status")));
        }
        let key = event_key(input.tenant_id.as_str(), input.event_id.as_str());
        let text = approval_canonical(input);
        let incoming = hash_hex(text.as_str());
        if let Some(existing) = self.store.get_idempotency(key.as_str()) {
            if let Some(payload) = self.store.get_event_payload(key.as_str()) {
                let existing_hash = stored_hash_exec(payload.as_str());
                if !str_eq(payload.as_str(), incoming.as_str()) && !str_eq(existing_hash.as_str(), incoming.as_str()) {
                    return Err(GatewayError::PayloadMismatch { existing_hash, incoming_hash: incoming });
                }
            }
            return Ok(existing);
        }
        let current = self.store.get_approval_state(input.tenant_id.as_str(), input.approval_id.as_str());
        let allowed = match &current {
            Some(c) => is_valid_approval_transition(Some(c.status.as_str()), input.status.as_str()),
            None => is_valid_approval_transition(None, input.status.as_str()),
        };
        if !allowed {
            return Err(GatewayError::InvalidTransition(owned("approval status transition rejected")));
        }
        let updated_at = format_rfc3339(now);
        self.store.save_approval_state(
            input.tenant_id.as_str(),
            input.approval_id.as_str(),
            input.status.as_str(),
            match &input.reason_code {
                Some(c) => Some(c.as_str()),
                None => None,
            },
            updated_at.as_str(),
        );
        let mut reason = owned("approval_");
        push_str(&mut reason, input.status.as_str());
        let mut plan = do_nothing_plan(input.tenant_id.as_str(), "", input.event_id.as_str(), reason.as_str());
        proof {
            reveal_strlit("");
            assert(""@ =~= Seq::<char>::empty());
        }
        if str_eq(input.status.as_str(), "expired") && self.settings.approval_escalation_on_expired {
            plan.debug.push((owned("escalation"), owned("notify_human")));
            assert(crate::contracts::entries_view(plan.debug@) =~= seq![("escalation"@, "notify_human"@)]);
        }
        self.store.save_idempotency(key.clone(), &plan);
        self.store.save_event_payload(key.as_str(), incoming.as_str());
        self.record(
            input.tenant_id.as_str(),
            input.event_id.as_str(),
            "approval_event",
            "recorded",
            reason.as_str(),
            Some(plan.plan_id.clone()),
            None,
            now,
        );
        Ok(plan)
    }

    /// Records the outcome of an action at server time `now`, once per
    /// tenant, plan and action: a repeat with the same payload is accepted
    /// again, one with another payload is refused. A newly recorded success
    /// of a send moves the room's last send to `now`.
    pub fn process_action_result(&mut self, input: &ActionResult, now: i64) -> (r: Result<(), GatewayError>)
        requires
            old(self).wf(),
        ensures
            final(self).wf(),
            final(self).settings == old(self).settings,
            final(self).authz == old(self).authz,
            ({
                let key = key3(input.tenant_id@, input.plan_id@, input.action_id@);
                let incoming = hash_hex_of(action_result_text(input));
                let results = old(self).store.action_results.view();
                if input.v != CONTRACT_VERSION {
                    is_validation(r, "v must be 1"@) && *final(self) == *old(self)
                } else if input.tenant_id@.len() == 0 || input.plan_id@.len() == 0 || input.action_id@.len() == 0 {
                    is_validation(r, "tenant_id, plan_id and action_id are required"@) && *final(self) == *old(self)
                } else if rfc3339_millis(input.ts@) is None {
                    is_validation(r, "ts must be RFC3339"@) && *final(self) == *old(self)
                } else if !(input.status@ == "succeeded"@ || input.status@ == "failed"@ || input.status@ == "skipped"@) {
                    is_validation(r, "status must be succeeded, failed, or skipped"@) && *final(self) == *old(self)
                } else if results.contains_key(key) {
                    &&& final(self).store.action_results == old(self).store.action_results
                    &&& final(self).store.rooms == old(self).store.rooms
                    &&& if results[key].payload_json@ == incoming {
                        r is Ok && audited(old(self), final(self), "action_result"@, "idempotency_hit"@, action_result_reason(input))
                    } else {
                        &&& r is Err && r->Err_0 is PayloadMismatch
                        &&& r->Err_0->existing_hash@ == results[key].payload_json@
                        &&& r->Err_0->incoming_hash@ == incoming
                        &&& audited(old(self), final(self), "action_result"@, "rejected"@, "conflict.payload_mismatch"@)
                        &&& audit_ids(final(self), input.action_id@, input.plan_id@)
                    }
                } else {
                    let ctx = old(self).store.action_index.view().get(key2(input.tenant_id@, input.action_id@));
                    &&& r is Ok
                    &&& final(self).store.action_results.view().contains_key(key)
                    &&& final(self).store.action_results.view()[key].payload_json@ == incoming
                    &&& final(self).store.action_results.view()[key].status@ == input.status@
                    &&& if input.status@ == "succeeded"@ && ctx is Some && (ctx->0.action_type@ == "send_message"@
                        || ctx->0.action_type@ == "send_reply"@) {
                        let rkey = key2(input.tenant_id@, ctx->0.room_id@);
                        let old_room = room_or_fresh(old(self).store.rooms.view(), rkey);
                        final(self).store.rooms.view() == old(self).store.rooms.view().insert(
                            rkey,
                            RoomState { last_send_at: Some(now), ..old_room },
                        )
                    } else {
                        final(self).store.rooms == old(self).store.rooms
                    }
                    &&& audited(old(self), final(self), "action_result"@, "recorded"@, action_result_reason(input))
                    &&& audit_ids(final(self), input.action_id@, input.plan_id@)
                }
            }),
    {
        if input.v != CONTRACT_VERSION {
            return Err(GatewayError::Validation(owned("v must be 1")));
        }
        if input.tenant_id.as_str().unicode_len() == 0 || input.plan_id.as_str().unicode_len() == 0
            || input.action_id.as_str().unicode_len() == 0 {
            return Err(GatewayError::Validation(owned("tenant_id, plan_id and action_id are required")));
        }
        if parse_event_ts(input.ts.as_str()).is_none() {
            return Err(GatewayError::Validation(owned("ts must be RFC3339")));
        }
        let st = input.status.as_str();
        if !(str_eq(st, "succeeded") || str_eq(st, "failed") || str_eq(st, "skipped")) {
            return Err(GatewayError::Validation(owned("status must be succeeded, failed, or skipped")));
        }
        let text = action_result_canonical(input);
        let incoming = hash_hex(text.as_str());
        let key = action_result_store_key(input.tenant_id.as_str(), input.plan_id.as_str(), input.action_id.as_str());
        let context = self.store.get_action_context(input.tenant_id.as_str(), input.action_id.as_str());
        let (action_type, room_id) = match context {
            Some(c) => (Some(c.action_type), Some(c.room_id)),
            None => (None, None),
        };
        let record = ActionResultRecord {
            tenant_id: input.tenant_id.clone(),
            plan_id: input.plan_id.clone(),
            action_id: input.action_id.clone(),
            status: input.status.clone(),
            ts: input.ts.clone(),
            provider_message_id: match &input.provider_message_id {
                Some(v) => Some(v.clone()),
                None => None,
            },
            reason_code: match &input.reason_code {
                Some(v) => Some(v.clone()),
                None => None,
            },
            error: match &input.error {
                Some(e) => Some(error_canonical(e)),
                None => None,
            },
            idempotency_key: key,
            payload_json: incoming,
            ingested_at: format_rfc3339(now),
            action_type,
            room_id,
        };
        let existing_hash = match self.store.action_results.get(record.idempotency_key.as_str()) {
            Some(e) => e.payload_json.clone(),
            None => String::new(),
        };
        let incoming_hash = record.payload_json.clone();
        let reason = action_result_reason_exec(input);
        match self.store.ingest_action_result(record) {
            ActionResultIngest::Conflict(code) => {
                self.record(
                    input.tenant_id.as_str(),
                    input.action_id.as_str(),
                    "action_result",
                    "rejected",
                    code.as_str(),
                    Some(input.plan_id.clone()),
                    None,
                    now,
                );
                Err(GatewayError::PayloadMismatch { existing_hash, incoming_hash })
            },
            ActionResultIngest::Duplicate(stored) => {
                self.record(
                    input.tenant_id.as_str(),
                    input.action_id.as_str(),
                    "action_result",
                    "idempotency_hit",
                    reason.as_str(),
                    Some(stored.plan_id),
                    None,
                    now,
                );
                Ok(())
            },
            ActionResultIngest::Inserted(stored) => {
                let is_send = match &stored.action_type {
                    Some(t) => str_eq(t.as_str(), "send_message") || str_eq(t.as_str(), "send_reply"),
                    None => false,
                };
                if str_eq(stored.status.as_str(), "succeeded") && is_send {
                    if let Some(room_id) = &stored.room_id {
                        let rkey = room_key(stored.tenant_id.as_str(), room_id.as_str());
                        let mut room = self.store.get_room(rkey.as_str());
                        room.last_send_at = Some(now);
                        self.store.save_room(rkey.as_str(), &room);
                    }
                }
                self.record(
                    input.tenant_id.as_str(),
                    input.action_id.as_str(),
                    "action_result",
                    "recorded",
                    reason.as_str(),
                    Some(stored.plan_id),
                    None,
                    now,
                );
                Ok(())
            },
        }
    }

    /// The recorded status of a job.
    pub fn job_state(&self, tenant_id: &str, job_id: &str) -> (r: Result<StateEntry, GatewayError>)
        requires
            self.wf(),
        ensures
            tenant_id@.len() == 0 || job_id@.len() == 0 ==> is_validation(r, "tenant_id and job_id are required"@),
            tenant_id@.len() > 0 && job_id@.len() > 0 ==> match self.store.job_states.view().get(key2(tenant_id@, job_id@)) {
                Some(e) => r == Ok::<StateEntry, GatewayError>(e),
                None => r is Err && r->Err_0 is NotFound,
            },
    {
        if tenant_id.unicode_len() == 0 || job_id.unicode_len() == 0 {
            return Err(GatewayError::Validation(owned("tenant_id and job_id are required")));
        }
        match self.store.get_job_state(tenant_id, job_id) {
            Some(e) => Ok(e),
            None => Err(GatewayError::NotFound(owned("job state not found"))),
        }
    }

    /// The recorded status of an approval.
    pub fn approval_state(&self, tenant_id: &str, approval_id: &str) -> (r: Result<StateEntry, GatewayError>)
        requires
            self.wf(),
        ensures
            tenant_id@.len() == 0 || approval_id@.len() == 0 ==> is_validation(r, "tenant_id and approval_id are required"@),
            tenant_id@.len() > 0 && approval_id@.len() > 0 ==> match self.store.approval_states.view().get(key2(tenant_id@, approval_id@)) {
                Some(e) => r == Ok::<StateEntry, GatewayError>(e),
                None => r is Err && r->Err_0 is NotFound,
            },
    {
        if tenant_id.unicode_len() == 0 || approval_id.unicode_len() == 0 {
            return Err(GatewayError::Validation(owned("tenant_id and approval_id are required")));
        }
        match self.store.get_approval_state(tenant_id, approval_id) {
            Some(e) => Ok(e),
            None => Err(GatewayError::NotFound(owned("approval state not found"))),
        }
    }

    /// The recorded result of an action.
    pub fn action_result_state(&self, tenant_id: &str, plan_id: &str, action_id: &str) -> (r: Result<ActionResultRecord, GatewayError>)
        requires
            self.wf(),
        ensures
            tenant_id@.len() == 0 || plan_id@.len() == 0 || action_id@.len() == 0 ==> is_validation(
                r,
                "tenant_id, plan_id, and action_id are required"@,
            ),
            tenant_id@.len() > 0 && plan_id@.len() > 0 && action_id@.len() > 0 ==> match self.store.action_results.view().get(
                key3(tenant_id@, plan_id@, action_id@),
            ) {
                Some(e) => r == Ok::<ActionResultRecord, GatewayError>(e),
                None => r is Err && r->Err_0 is NotFound,
            },
    {
        if tenant_id.unicode_len() == 0 || plan_id.unicode_len() == 0 || action_id.unicode_len() == 0 {
            return Err(GatewayError::Validation(owned("tenant_id, plan_id, and action_id are required")));
        }
        match self.store.get_action_result(tenant_id, plan_id, action_id) {
            Some(e) => Ok(e),
            None => Err(GatewayError::NotFound(owned("action result not found"))),
        }
    }

    /// Starts authorizing an event at server time `now`: either an outcome at
    /// once, or the call the caller must make to the external service.
    pub fn start_authorization(&self, event: &Event, now: i64) -> (r: AuthzStart)
        requires
            self.wf(),
        ensures
            r is Call ==> r->body@ == authz_request_text(event) && !breaker_open(self.authz.open_until, now),
            !self.authz.settings.external ==> r is Decided && outcome_view(r->Decided_0) == builtin_view(),
            self.authz.settings.external && breaker_open(self.authz.open_until, now) ==> r is Decided
                && outcome_view(r->Decided_0) == failure_view(self.authz.settings.fail_mode@, "authz_circuit_open"@),
            self.authz.settings.external && !breaker_open(self.authz.open_until, now) && cache_live(&self.authz, event, now)
                ==> r == AuthzStart::Decided(self.authz.cache.view()[cache_key(event)].outcome),
            r is Call ==> self.authz.settings.endpoint is Some && r->endpoint@ == self.authz.settings.endpoint->0@
                && r->max_attempts == self.authz.settings.retry_max_attempts
                && r->backoff_ms == self.authz.settings.retry_backoff_ms,
            self.authz.settings.external && !breaker_open(self.authz.open_until, now) && !cache_live(&self.authz, event, now)
                ==> (match self.authz.settings.endpoint {
                Some(ep) if ep@.len() > 0 => r is Call,
                _ => r is Decided && outcome_view(r->Decided_0) == failure_view(
                    self.authz.settings.fail_mode@,
                    "authz_unconfigured"@,
                ),
            }),
    {
        let body = authz_request_body(event);
        self.authz.begin(event, now, body)
    }
}

} // verus!
