//! Authorization: the built-in pass-through, and the decisions around an
//! external service (circuit breaker, decision cache, retry policy, fail
//! mode). The network calls themselves are made by the caller, which hands
//! each attempt's outcome back.
use vstd::prelude::*;
use crate::contracts::{AuthZDecision, Event, CONTRACT_VERSION};
use crate::table::Table;
use crate::text::{owned, push_char, push_str, str_eq};

verus! {

/// Allow or deny, with the reason and the policy version that decided it.
#[derive(Clone, Debug, PartialEq)]
pub struct AuthzOutcome {
    pub allow: bool,
    pub reason_code: String,
    pub policy_version: Option<String>,
}

impl AuthzOutcome {
    /// Copy of the outcome.
    pub fn copy(&self) -> (r: AuthzOutcome)
        ensures
            r == *self,
    {
        AuthzOutcome {
            allow: self.allow,
            reason_code: self.reason_code.clone(),
            policy_version: match &self.policy_version {
                Some(v) => Some(v.clone()),
                None => None,
            },
        }
    }
}

/// Spec view of an outcome: allow, reason, policy version.
pub type OutcomeView = (bool, Seq<char>, Option<Seq<char>>);

/// View of an outcome.
pub open spec fn outcome_view(o: AuthzOutcome) -> OutcomeView {
    (o.allow, o.reason_code@, match o.policy_version {
        Some(v) => Some(v@),
        None => None,
    })
}

/// The built-in authorizer's outcome: always allow.
pub open spec fn builtin_view() -> OutcomeView {
    (true, "builtin_allow_all"@, Some("builtin:v0"@))
}

/// The outcome of the built-in authorizer.
pub fn builtin_outcome() -> (r: AuthzOutcome)
    ensures
        outcome_view(r) == builtin_view(),
{
    AuthzOutcome {
        allow: true,
        reason_code: owned("builtin_allow_all"),
        policy_version: Some(owned("builtin:v0")),
    }
}

/// How a failure of the external service is turned into an outcome.
pub open spec fn failure_view(fail_mode: Seq<char>, reason: Seq<char>) -> OutcomeView {
    if fail_mode == "allow"@ {
        (true, reason + "_allow"@, None)
    } else if fail_mode == "fallback_builtin"@ {
        (true, reason + "_fallback_builtin"@, Some("builtin:fallback"@))
    } else {
        (false, reason + "_deny"@, None)
    }
}

/// Converts a failure with reason `reason` into an outcome by the fail mode.
pub fn on_failure(fail_mode: &str, reason: &str) -> (r: AuthzOutcome)
    ensures
        outcome_view(r) == failure_view(fail_mode@, reason@),
{
    let mut code = owned(reason);
    if str_eq(fail_mode, "allow") {
        push_str(&mut code, "_allow");
        AuthzOutcome { allow: true, reason_code: code, policy_version: None }
    } else if str_eq(fail_mode, "fallback_builtin") {
        push_str(&mut code, "_fallback_builtin");
        AuthzOutcome { allow: true, reason_code: code, policy_version: Some(owned("builtin:fallback")) }
    } else {
        push_str(&mut code, "_deny");
        AuthzOutcome { allow: false, reason_code: code, policy_version: None }
    }
}

/// A decision of the external service is usable: right version, a known
/// verdict, and a policy version.
pub open spec fn contract_valid(d: &AuthZDecision) -> bool {
    d.v == CONTRACT_VERSION && (d.decision@ == "allow"@ || d.decision@ == "deny"@)
        && d.policy_version@.len() > 0
}

/// Whether a decision of the external service is usable.
pub fn is_contract_valid(d: &AuthZDecision) -> (r: bool)
    ensures
        r == contract_valid(d),
{
    d.v == CONTRACT_VERSION && (str_eq(d.decision.as_str(), "allow") || str_eq(
        d.decision.as_str(),
        "deny",
    )) && d.policy_version.as_str().unicode_len() > 0
}

/// The outcome a valid decision stands for.
pub open spec fn decision_view(d: &AuthZDecision) -> OutcomeView {
    let allow = d.decision@ == "allow"@;
    (allow, if d.reason_code@.len() == 0 {
        if allow { "authz_allow"@ } else { "authz_deny"@ }
    } else {
        d.reason_code@
    }, Some(d.policy_version@))
}

/// The outcome a valid decision stands for.
pub fn outcome_from_decision(d: &AuthZDecision) -> (r: AuthzOutcome)
    ensures
        outcome_view(r) == decision_view(d),
{
    let allow = str_eq(d.decision.as_str(), "allow");
    let reason = if d.reason_code.as_str().unicode_len() == 0 {
        if allow { owned("authz_allow") } else { owned("authz_deny") }
    } else {
        d.reason_code.clone()
    };
    AuthzOutcome { allow, reason_code: reason, policy_version: Some(d.policy_version.clone()) }
}

/// What one attempt to reach the external service produced.
#[derive(Debug)]
pub enum AttemptResult {
    /// The request could not be sent or no response came back in time.
    TransportError,
    /// The service answered with a status outside 2xx.
    HttpError,
    /// The body was not a decision.
    ParseError,
    /// A decision.
    Decision(AuthZDecision),
}

/// What to do after an attempt.
#[derive(Debug)]
pub enum AttemptStep {
    /// Try again, after sleeping this many milliseconds (none when zero).
    Retry { sleep_ms: u64 },
    /// The call succeeded with this decision.
    Succeeded(AuthZDecision),
    /// The call failed for this reason.
    Failed(&'static str),
}

/// Reason code of a failed attempt.
pub open spec fn attempt_failure(r: &AttemptResult) -> Seq<char> {
    match r {
        AttemptResult::TransportError => "authz_transport_error"@,
        AttemptResult::HttpError => "authz_http_error"@,
        AttemptResult::ParseError => "authz_contract_parse_error"@,
        AttemptResult::Decision(_) => "authz_contract_invalid"@,
    }
}

/// Retry policy: after attempt number `attempt` (from 0) of `max_attempts`,
/// a transport, status or parse failure is retried while attempts remain; an
/// invalid decision is final; a valid one ends the call.
pub fn next_attempt(attempt: usize, max_attempts: usize, backoff_ms: u64, result: AttemptResult) -> (r: AttemptStep)
    requires
        attempt < max_attempts,
    ensures
        match result {
            AttemptResult::Decision(d) => if contract_valid(&d) {
                r == AttemptStep::Succeeded(d)
            } else {
                r is Failed && r->Failed_0@ == "authz_contract_invalid"@
            },
            _ => if attempt + 1 < max_attempts {
                r == AttemptStep::Retry { sleep_ms: backoff_ms }
            } else {
                r is Failed && r->Failed_0@ == attempt_failure(&result)
            },
        },
{
    let reason: &'static str = match &result {
        AttemptResult::TransportError => "authz_transport_error",
        AttemptResult::HttpError => "authz_http_error",
        AttemptResult::ParseError => "authz_contract_parse_error",
        AttemptResult::Decision(_) => "authz_contract_invalid",
    };
    match result {
        AttemptResult::Decision(d) => {
            if is_contract_valid(&d) {
                AttemptStep::Succeeded(d)
            } else {
                AttemptStep::Failed(reason)
            }
        },
        _ => {
            if attempt + 1 < max_attempts {
                AttemptStep::Retry { sleep_ms: backoff_ms }
            } else {
                AttemptStep::Failed(reason)
            }
        },
    }
}

/// A cached outcome and the server time (milliseconds) at which it expires.
pub struct CachedDecision {
    pub outcome: AuthzOutcome,
    pub expires_at: i64,
}

/// Settings of the external authorizer.
pub struct AuthzSettings {
    pub external: bool,
    pub endpoint: Option<String>,
    pub fail_mode: String,
    pub retry_max_attempts: usize,
    pub retry_backoff_ms: u64,
    pub circuit_breaker_failures: u64,
    pub circuit_breaker_open_ms: u64,
    pub cache_enabled: bool,
    pub cache_ttl_ms: i64,
    pub cache_max_entries: usize,
}

/// The first step of authorizing an event.
#[derive(Debug)]
pub enum AuthzStart {
    /// Decided without calling out.
    Decided(AuthzOutcome),
    /// Call the endpoint, at most `max_attempts` times, with this request body.
    Call { endpoint: String, body: String, max_attempts: usize, backoff_ms: u64 },
}

/// `a + b`, stopping at the largest `i64`.
pub open spec fn sat_add(a: i64, b: int) -> i64 {
    if a + b > i64::MAX { i64::MAX } else { (a + b) as i64 }
}

pub(crate) fn sat_add_exec(a: i64, b: u64) -> (r: i64)
    ensures
        r == sat_add(a, b as int),
{
    let s: i128 = a as i128 + b as i128;
    if s > i64::MAX as i128 { i64::MAX } else { s as i64 }
}

/// Cache key of an event: tenant, actor, room and source.
pub open spec fn cache_key(e: &Event) -> Seq<char> {
    e.tenant_id@ + seq![':'] + e.actor.id@ + seq![':'] + e.room_id@ + seq![':'] + e.source@
}

/// A cached outcome for the event is still live at server time `now`.
pub open spec fn cache_live(a: &AuthzEngine, e: &Event, now: i64) -> bool {
    a.settings.cache_enabled && a.cache.view().contains_key(cache_key(e)) && a.cache.view()[cache_key(e)].expires_at > now
}

/// The authorization client and its process-wide state.
pub struct AuthzEngine {
    pub settings: AuthzSettings,
    pub failure_streak: u64,
    /// Server time (milliseconds) until which the breaker is open.
    pub open_until: Option<i64>,
    pub cache: Table<CachedDecision>,
}

/// The breaker is open at server time `now`.
pub open spec fn breaker_open(open_until: Option<i64>, now: i64) -> bool {
    open_until is Some && open_until->0 > now
}

impl AuthzEngine {
    /// The cache is well formed.
    pub open spec fn wf(&self) -> bool {
        self.cache.wf()
    }

    /// A client with a closed breaker and an empty cache.
    pub fn new(settings: AuthzSettings) -> (r: AuthzEngine)
        ensures
            r.wf(),
            r.failure_streak == 0,
            r.open_until is None,
            r.settings == settings,
            r.cache.view() == Map::<Seq<char>, CachedDecision>::empty(),
    {
        AuthzEngine { settings, failure_streak: 0, open_until: None, cache: Table::new() }
    }

    /// First step of authorizing `event` at server time `now`: the built-in
    /// mode allows at once; an open breaker short-circuits to a failure; a live
    /// cache entry is reused; a missing endpoint is a failure; otherwise the
    /// endpoint is to be called with `body`.
    pub fn begin(&self, event: &Event, now: i64, body: String) -> (r: AuthzStart)
        requires
            self.wf(),
        ensures
            !self.settings.external ==> (r is Decided && outcome_view(r->Decided_0) == builtin_view()),
            self.settings.external && breaker_open(self.open_until, now) ==> (r is Decided && outcome_view(
                r->Decided_0,
            ) == failure_view(self.settings.fail_mode@, "authz_circuit_open"@)),
            self.settings.external && !breaker_open(self.open_until, now) && self.settings.cache_enabled
                && self.cache.view().contains_key(cache_key(event)) && self.cache.view()[cache_key(
                event,
            )].expires_at > now ==> r == AuthzStart::Decided(self.cache.view()[cache_key(event)].outcome),
            r is Call ==> self.settings.external && !breaker_open(self.open_until, now)
                && self.settings.endpoint is Some && r->endpoint@ == self.settings.endpoint->0@
                && r->endpoint@.len() > 0 && r->body == body && r->max_attempts
                == self.settings.retry_max_attempts && r->backoff_ms == self.settings.retry_backoff_ms,
            self.settings.external && !breaker_open(self.open_until, now) && !(self.settings.cache_enabled
                && self.cache.view().contains_key(cache_key(event)) && self.cache.view()[cache_key(
                event,
            )].expires_at > now) ==> (match self.settings.endpoint {
                Some(ep) if ep@.len() > 0 => r is Call,
                _ => r is Decided && outcome_view(r->Decided_0) == failure_view(
                    self.settings.fail_mode@,
                    "authz_unconfigured"@,
                ),
            }),
    {
        if !self.settings.external {
            return AuthzStart::Decided(builtin_outcome());
        }
        if let Some(until) = self.open_until {
            if until > now {
                return AuthzStart::Decided(on_failure(self.settings.fail_mode.as_str(), "authz_circuit_open"));
            }
        }
        if self.settings.cache_enabled {
            let key = cache_key_exec(event);
            if let Some(cached) = self.cache.get(key.as_str()) {
                if cached.expires_at > now {
                    return AuthzStart::Decided(cached.outcome.copy());
                }
            }
        }
        match &self.settings.endpoint {
            Some(ep) => {
                if ep.as_str().unicode_len() > 0 {
                    AuthzStart::Call {
                        endpoint: ep.clone(),
                        body,
                        max_attempts: self.settings.retry_max_attempts,
                        backoff_ms: self.settings.retry_backoff_ms,
                    }
                } else {
                    AuthzStart::Decided(on_failure(self.settings.fail_mode.as_str(), "authz_unconfigured"))
                }
            },
            None => AuthzStart::Decided(on_failure(self.settings.fail_mode.as_str(), "authz_unconfigured")),
        }
    }

    /// Last step of a call that failed for `reason` at server time `now`: the
    /// failure streak grows, the breaker opens once it reaches the threshold,
    /// and the fail mode decides the outcome.
    pub fn finish_failure(&mut self, reason: &str, now: i64) -> (r: AuthzOutcome)
        requires
            old(self).wf(),
        ensures
            final(self).wf(),
            outcome_view(r) == failure_view(old(self).settings.fail_mode@, reason@),
            final(self).failure_streak == streak_after_failure(old(self).failure_streak),
            final(self).open_until == (if streak_after_failure(old(self).failure_streak)
                >= old(self).settings.circuit_breaker_failures {
                Some(sat_add(now, old(self).settings.circuit_breaker_open_ms as int))
            } else {
                old(self).open_until
            }),
            final(self).settings == old(self).settings,
            final(self).cache == old(self).cache,
    {
        if self.failure_streak < u64::MAX {
            self.failure_streak = self.failure_streak + 1;
        }
        if self.failure_streak >= self.settings.circuit_breaker_failures {
            self.open_until = Some(sat_add_exec(now, self.settings.circuit_breaker_open_ms));
        }
        on_failure(self.settings.fail_mode.as_str(), reason)
    }

    /// Last step of a call that returned a valid decision at server time
    /// `now`: the breaker closes, and the outcome is cached when caching is on
    /// (the cache is emptied first when full).
    pub fn finish_success(&mut self, event: &Event, decision: &AuthZDecision, now: i64) -> (r: AuthzOutcome)
        requires
            old(self).wf(),
        ensures
            final(self).wf(),
            outcome_view(r) == decision_view(decision),
            final(self).failure_streak == 0,
            final(self).open_until is None,
            final(self).settings == old(self).settings,
            old(self).settings.cache_enabled ==> final(self).cache.view().contains_key(cache_key(event))
                && final(self).cache.view()[cache_key(event)].outcome == r
                && final(self).cache.view()[cache_key(event)].expires_at == cache_expiry(
                now,
                decision.ttl_ms,
                old(self).settings.cache_ttl_ms,
            ) && final(self).cache.view().remove(cache_key(event)) == (if old(self).cache.view().len()
                >= old(self).settings.cache_max_entries {
                Map::<Seq<char>, CachedDecision>::empty()
            } else {
                old(self).cache.view()
            }).remove(cache_key(event)),
            !old(self).settings.cache_enabled ==> final(self).cache == old(self).cache,
    {
        self.failure_streak = 0;
        self.open_until = None;
        let outcome = outcome_from_decision(decision);
        if self.settings.cache_enabled {
            let ttl: i64 = if decision.ttl_ms > 0 && decision.ttl_ms < self.settings.cache_ttl_ms {
                decision.ttl_ms
            } else {
                self.settings.cache_ttl_ms
            };
            let expires_at: i64 = if ttl <= 0 {
                now
            } else {
                sat_add_exec(now, ttl as u64)
            };
            let key = cache_key_exec(event);
            if self.cache.entries().len() >= self.settings.cache_max_entries {
                self.cache = Table::new();
            }
            self.cache.insert(key, CachedDecision { outcome: outcome.copy(), expires_at });
        }
        outcome
    }
}

/// When a decision cached at server time `now` expires: after the smaller of
/// the decision's lifetime and the configured one when the decision gives a
/// positive lifetime, after the configured one otherwise.
pub open spec fn cache_expiry(now: i64, decision_ttl: i64, configured: i64) -> i64 {
    let ttl = if decision_ttl > 0 && decision_ttl < configured { decision_ttl } else { configured };
    if ttl <= 0 { now } else { sat_add(now, ttl as int) }
}

/// The failure streak after one more failure, stopping at the largest `u64`.
pub open spec fn streak_after_failure(s: u64) -> u64 {
    if s < u64::MAX { (s + 1) as u64 } else { s }
}

/// Once a failure brings the streak to the threshold, the breaker is open
/// at every server time before the end of the open period, so `begin`
/// short-circuits there without a call.
pub proof fn breaker_opens_at_threshold(streak: u64, threshold: u64, open_ms: u64, now: i64, later: i64)
    requires
        streak_after_failure(streak) >= threshold,
        now <= later,
        (later as int) < (sat_add(now, open_ms as int) as int),
    ensures
        breaker_open(Some(sat_add(now, open_ms as int)), later),
{
}

fn cache_key_exec(e: &Event) -> (r: String)
    ensures
        r@ == cache_key(e),
{
    let mut k = e.tenant_id.clone();
    push_char(&mut k, ':');
    push_str(&mut k, e.actor.id.as_str());
    push_char(&mut k, ':');
    push_str(&mut k, e.room_id.as_str());
    push_char(&mut k, ':');
    push_str(&mut k, e.source.as_str());
    assert(k@ =~= cache_key(e));
    k
}

} // verus!
