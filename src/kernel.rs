//! Pure decision functions: admission control, the planner, plan assembly and the
//! job and approval state machines.
use vstd::prelude::*;
use crate::contracts::{
    Action, ActionType, ActionView, Entries, Event, PlanView, PolicyDecision,
    PolicyDecisionView, ResponsePlan, CONTRACT_VERSION,
};
use crate::digest::{action_id, action_id_of, plan_id, plan_id_of, planner_basis_points, planner_basis_points_of};
use crate::text::{owned, push_str, str_eq};

verus! {

/// Concurrency state of one room.
#[derive(Clone, Copy, Debug, PartialEq, Eq, Structural)]
pub struct RoomState {
    pub generating: bool,
    pub pending_queue_size: usize,
    /// Server time of the last confirmed send, in milliseconds since the epoch.
    pub last_send_at: Option<i64>,
}

impl RoomState {
    /// The state of a room that has seen nothing.
    pub fn new() -> (r: RoomState)
        ensures
            !r.generating,
            r.pending_queue_size == 0,
            r.last_send_at is None,
    {
        RoomState { generating: false, pending_queue_size: 0, last_send_at: None }
    }

    /// `generating` holds exactly when generations are pending.
    pub open spec fn wf(&self) -> bool {
        self.generating == (self.pending_queue_size >= 1)
    }
}

/// Limits that admission control applies.
#[derive(Clone, Copy, Debug, PartialEq, Eq, Structural)]
pub struct GateConfig {
    pub cooldown_ms: u64,
    pub max_queue: usize,
    pub tenant_rate_limit_per_min: usize,
}

/// Verdict of admission control.
#[derive(Clone, Copy, Debug, PartialEq, Eq)]
pub enum GateDecision {
    Allow,
    Deny { reason_code: &'static str },
}

/// Reason for which admission is denied, if any; rules in order, first match wins.
pub open spec fn gate_reason(room: RoomState, server_now: int, cfg: GateConfig, tenant_count: int) -> Option<Seq<char>> {
    if room.generating {
        Some("gate_generating_lock"@)
    } else if cfg.cooldown_ms > 0 && room.last_send_at is Some && server_now
        - room.last_send_at->0 < cfg.cooldown_ms {
        Some("gate_cooldown"@)
    } else if cfg.max_queue > 0 && room.pending_queue_size >= cfg.max_queue {
        Some("gate_backpressure"@)
    } else if cfg.tenant_rate_limit_per_min > 0 && tenant_count >= cfg.tenant_rate_limit_per_min {
        Some("gate_tenant_rate_limit"@)
    } else {
        None
    }
}

/// Admission decision for an event in `room` at server time `server_now`
/// (milliseconds), with `tenant_count` events already accepted for the tenant
/// in the current minute.
pub fn evaluate_gate(room: &RoomState, server_now: i64, cfg: &GateConfig, tenant_count: usize) -> (r: GateDecision)
    ensures
        match gate_reason(*room, server_now as int, *cfg, tenant_count as int) {
            None => r is Allow,
            Some(code) => r is Deny && r->reason_code@ == code,
        },
{
    if room.generating {
        return GateDecision::Deny { reason_code: "gate_generating_lock" };
    }
    if cfg.cooldown_ms > 0 {
        if let Some(last) = room.last_send_at {
            let elapsed: i128 = server_now as i128 - last as i128;
            if elapsed < cfg.cooldown_ms as i128 {
                return GateDecision::Deny { reason_code: "gate_cooldown" };
            }
        }
    }
    if cfg.max_queue > 0 && room.pending_queue_size >= cfg.max_queue {
        return GateDecision::Deny { reason_code: "gate_backpressure" };
    }
    if cfg.tenant_rate_limit_per_min > 0 && tenant_count >= cfg.tenant_rate_limit_per_min {
        return GateDecision::Deny { reason_code: "gate_tenant_rate_limit" };
    }
    GateDecision::Allow
}

/// What the planner intends for an event.
#[derive(Clone, Copy, Debug, PartialEq, Eq, Structural)]
pub enum Intent {
    Ignore,
    Reply,
    Message,
}

/// Upper-case name of an intent.
pub open spec fn intent_name_spec(i: Intent) -> Seq<char> {
    match i {
        Intent::Ignore => "IGNORE"@,
        Intent::Reply => "REPLY"@,
        Intent::Message => "MESSAGE"@,
    }
}

/// Upper-case name of an intent.
pub fn intent_name(intent: Intent) -> (r: &'static str)
    ensures
        r@ == intent_name_spec(intent),
{
    match intent {
        Intent::Ignore => "IGNORE",
        Intent::Reply => "REPLY",
        Intent::Message => "MESSAGE",
    }
}

/// Planner settings. The reply probability is held in basis points
/// (0 to 10000): an event is sampled when its pseudo-probability in basis
/// points is below it.
#[derive(Debug)]
pub struct PlannerConfig {
    pub reply_policy: String,
    pub reply_probability_bp: u64,
}

/// `c` equals the lower-case ASCII character `p`, ignoring ASCII case.
pub open spec fn ascii_eq_ignore_case(c: char, p: char) -> bool {
    c == p || ('A' <= c && c <= 'Z' && (c as u32) + 32 == (p as u32))
}

/// `pat` (lower case) occurs in `text` at position `i`, ignoring ASCII case.
pub open spec fn matches_at(text: Seq<char>, pat: Seq<char>, i: int) -> bool {
    0 <= i && i + pat.len() <= text.len() && forall|k: int|
        0 <= k < pat.len() ==> ascii_eq_ignore_case(#[trigger] text[i + k], pat[k])
}

/// `text` mentions the gateway.
pub open spec fn mentions_arbiter(text: Seq<char>) -> bool {
    exists|i: int| matches_at(text, "@arbiter"@, i)
}

/// The event carries a non-empty `reply_to`.
pub open spec fn has_reply_to(event: &Event) -> bool {
    event.content.reply_to is Some && event.content.reply_to->0@.len() > 0
}

/// The planner's choice for an event.
pub open spec fn intent_of(event: &Event, cfg: &PlannerConfig) -> Intent {
    let mentioned = mentions_arbiter(event.content.text@);
    let sampled = planner_basis_points_of(event.event_id@) < cfg.reply_probability_bp;
    let policy = cfg.reply_policy@;
    if has_reply_to(event) {
        Intent::Reply
    } else if policy == "all"@ {
        Intent::Message
    } else if policy == "reply_only"@ {
        if mentioned { Intent::Reply } else { Intent::Ignore }
    } else if policy == "mention_first"@ {
        if mentioned { Intent::Reply } else if sampled { Intent::Message } else { Intent::Ignore }
    } else if policy == "probabilistic"@ {
        if sampled { Intent::Message } else { Intent::Ignore }
    } else {
        Intent::Ignore
    }
}

/// Whether `text` mentions the gateway, ignoring ASCII case.
pub fn mentions(text: &str) -> (r: bool)
    ensures
        r == mentions_arbiter(text@),
{
    let pat = "@arbiter";
    proof {
        reveal_strlit("@arbiter");
    }
    let n = text.unicode_len();
    let m = pat.unicode_len();
    if n < m {
        assert forall|i: int| !matches_at(text@, pat@, i) by {}
        return false;
    }
    let mut i: usize = 0;
    while i <= n - m
        invariant
            n == text@.len(),
            m == pat@.len(),
            pat@ == "@arbiter"@,
            m <= n,
            i <= n - m + 1,
            forall|j: int| 0 <= j < i ==> !matches_at(text@, pat@, j),
        decreases n - i,
    {
        let mut k: usize = 0;
        let mut ok = true;
        while k < m
            invariant_except_break
                ok,
            invariant
                n == text@.len(),
                m == pat@.len(),
                i + m <= n,
                k <= m,
                forall|q: int| 0 <= q < k ==> ascii_eq_ignore_case(#[trigger] text@[i + q], pat@[q]),
            ensures
                ok == matches_at(text@, pat@, i as int),
            decreases m - k,
        {
            let c = text.get_char(i + k);
            let p = pat.get_char(k);
            let eq = c == p || ('A' <= c && c <= 'Z' && (c as u32) + 32 == (p as u32));
            if !eq {
                ok = false;
                assert(!ascii_eq_ignore_case(text@[i + k], pat@[k as int]));
                break;
            }
            k = k + 1;
        }
        if ok {
            return true;
        }
        i = i + 1;
    }
    assert forall|j: int| !matches_at(text@, pat@, j) by {
        if 0 <= j < i {
        }
    }
    false
}

/// The planner: chooses an intent from the event and the planner settings.
pub fn decide_intent(event: &Event, cfg: &PlannerConfig) -> (r: Intent)
    ensures
        r == intent_of(event, cfg),
{
    if let Some(reply_to) = &event.content.reply_to {
        if reply_to.as_str().unicode_len() > 0 {
            return Intent::Reply;
        }
    }
    let mentioned = mentions(event.content.text.as_str());
    let policy = cfg.reply_policy.as_str();
    if str_eq(policy, "all") {
        Intent::Message
    } else if str_eq(policy, "reply_only") {
        if mentioned { Intent::Reply } else { Intent::Ignore }
    } else if str_eq(policy, "mention_first") {
        if mentioned {
            Intent::Reply
        } else if planner_basis_points(event.event_id.as_str()) < cfg.reply_probability_bp {
            Intent::Message
        } else {
            Intent::Ignore
        }
    } else if str_eq(policy, "probabilistic") {
        if planner_basis_points(event.event_id.as_str()) < cfg.reply_probability_bp {
            Intent::Message
        } else {
            Intent::Ignore
        }
    } else {
        Intent::Ignore
    }
}

/// View of the plan that does nothing, for the given reason.
pub open spec fn do_nothing_view(tenant_id: Seq<char>, room_id: Seq<char>, event_id: Seq<char>, reason: Seq<char>) -> PlanView {
    let pid = plan_id_of(tenant_id, event_id);
    PlanView {
        v: CONTRACT_VERSION,
        plan_id: pid,
        tenant_id: tenant_id,
        room_id: room_id,
        actions: seq![
            ActionView {
                action_type: ActionType::DoNothing,
                action_id: action_id_of(pid, "do_nothing"@, 0),
                target: Seq::empty(),
                payload: seq![("reason_code"@, reason)],
            },
        ],
        policy_decisions: Seq::empty(),
        debug: Seq::empty(),
    }
}

fn entry(key: &str, value: &str) -> (r: (String, String))
    ensures
        r.0@ == key@,
        r.1@ == value@,
{
    (owned(key), owned(value))
}

fn decision(stage: &str, result: &str, reason_code: &str) -> (r: PolicyDecision)
    ensures
        r@ == (PolicyDecisionView { stage: stage@, result: result@, reason_code: reason_code@ }),
{
    PolicyDecision { stage: owned(stage), result: owned(result), reason_code: owned(reason_code) }
}

/// A plan whose single action does nothing; the reason goes into the payload.
pub fn do_nothing_plan(tenant_id: &str, room_id: &str, event_id: &str, reason: &str) -> (r: ResponsePlan)
    ensures
        r@ == do_nothing_view(tenant_id@, room_id@, event_id@, reason@),
{
    let pid = plan_id(tenant_id, event_id);
    let aid = action_id(pid.as_str(), "do_nothing", 0);
    let mut payload: Vec<(String, String)> = Vec::new();
    payload.push(entry("reason_code", reason));
    let mut actions: Vec<Action> = Vec::new();
    actions.push(Action {
        action_type: ActionType::DoNothing,
        action_id: aid,
        target: Vec::new(),
        payload,
    });
    let r = ResponsePlan {
        v: CONTRACT_VERSION,
        plan_id: pid,
        tenant_id: owned(tenant_id),
        room_id: owned(room_id),
        actions,
        policy_decisions: Vec::new(),
        debug: Vec::new(),
    };
    assert(r@.actions[0].payload =~= do_nothing_view(tenant_id@, room_id@, event_id@, reason@).actions[0].payload);
    assert(r@.actions[0].target =~= Seq::<(Seq<char>, Seq<char>)>::empty());
    assert(r@.actions =~= do_nothing_view(tenant_id@, room_id@, event_id@, reason@).actions);
    assert(r@.debug =~= Seq::<(Seq<char>, Seq<char>)>::empty());
    assert(r@.policy_decisions =~= Seq::<PolicyDecisionView>::empty());
    r
}

/// Extra fields of an approval request: the approval id and its expiry.
pub struct ApprovalTerms {
    pub approval_id: String,
    pub expires_at: String,
}

/// View of the plan that carries out an intent with one action of kind
/// `kind`; an approval request also names the approval and its expiry.
pub open spec fn work_plan_view(
    kind: ActionType,
    event: &Event,
    intent: Intent,
    authz_reason: Seq<char>,
    approval: Option<(Seq<char>, Seq<char>)>,
) -> PlanView {
    let pid = plan_id_of(event.tenant_id@, event.event_id@);
    let base_payload: Entries = seq![
        ("intent"@, intent_name_spec(intent)),
        ("event_id"@, event.event_id@),
        ("text"@, event.content.text@),
    ];
    let base_target: Entries = seq![("room_id"@, event.room_id@)];
    PlanView {
        v: CONTRACT_VERSION,
        plan_id: pid,
        tenant_id: event.tenant_id@,
        room_id: event.room_id@,
        actions: seq![
            ActionView {
                action_type: kind,
                action_id: action_id_of(pid, kind.name_spec(), 0),
                target: match approval {
                    Some(a) => base_target.push(("approval_id"@, a.0)),
                    None => base_target,
                },
                payload: match approval {
                    Some(a) => base_payload.push(("approval_id"@, a.0)).push(("expires_at"@, a.1)),
                    None => base_payload,
                },
            },
        ],
        policy_decisions: seq![
            PolicyDecisionView { stage: "gate"@, result: "allow"@, reason_code: Seq::empty() },
            PolicyDecisionView { stage: "authz"@, result: "allow"@, reason_code: authz_reason },
            PolicyDecisionView { stage: "planner"@, result: "allow"@, reason_code: intent_name_spec(intent) },
        ],
        debug: Seq::empty(),
    }
}

fn work_plan(
    kind: ActionType,
    event: &Event,
    intent: Intent,
    authz_reason: &str,
    approval: Option<&ApprovalTerms>,
) -> (r: ResponsePlan)
    ensures
        r@ == work_plan_view(
            kind,
            event,
            intent,
            authz_reason@,
            match approval {
                Some(a) => Some((a.approval_id@, a.expires_at@)),
                None => None,
            },
        ),
{
    let pid = plan_id(event.tenant_id.as_str(), event.event_id.as_str());
    let aid = action_id(pid.as_str(), kind.name(), 0);
    let mut target: Vec<(String, String)> = Vec::new();
    target.push(entry("room_id", event.room_id.as_str()));
    let mut payload: Vec<(String, String)> = Vec::new();
    payload.push(entry("intent", intent_name(intent)));
    payload.push(entry("event_id", event.event_id.as_str()));
    payload.push(entry("text", event.content.text.as_str()));
    if let Some(a) = approval {
        target.push(entry("approval_id", a.approval_id.as_str()));
        payload.push(entry("approval_id", a.approval_id.as_str()));
        payload.push(entry("expires_at", a.expires_at.as_str()));
    }
    let mut actions: Vec<Action> = Vec::new();
    actions.push(Action { action_type: kind, action_id: aid, target, payload });
    let mut decisions: Vec<PolicyDecision> = Vec::new();
    decisions.push(decision("gate", "allow", ""));
    proof {
        reveal_strlit("");
    }
    decisions.push(decision("authz", "allow", authz_reason));
    decisions.push(decision("planner", "allow", intent_name(intent)));
    let r = ResponsePlan {
        v: CONTRACT_VERSION,
        plan_id: pid,
        tenant_id: event.tenant_id.clone(),
        room_id: event.room_id.clone(),
        actions,
        policy_decisions: decisions,
        debug: Vec::new(),
    };
    let ghost expect = work_plan_view(
        kind,
        event,
        intent,
        authz_reason@,
        match approval {
            Some(a) => Some((a.approval_id@, a.expires_at@)),
            None => None,
        },
    );
    assert(r@.actions[0].target =~= expect.actions[0].target);
    assert(r@.actions[0].payload =~= expect.actions[0].payload);
    assert(r@.actions =~= expect.actions);
    assert(""@ =~= Seq::<char>::empty());
    assert(r@.policy_decisions[0] == expect.policy_decisions[0]);
    assert(r@.policy_decisions =~= expect.policy_decisions);
    assert(r@.debug =~= expect.debug);
    r
}

/// A plan asking for a generation that carries out `intent`.
pub fn request_generation_plan(event: &Event, intent: Intent, authz_reason: &str) -> (r: ResponsePlan)
    ensures
        r@ == work_plan_view(ActionType::RequestGeneration, event, intent, authz_reason@, None),
{
    work_plan(ActionType::RequestGeneration, event, intent, authz_reason, None)
}

/// A plan starting an agent job that carries out `intent`.
pub fn start_agent_job_plan(event: &Event, intent: Intent, authz_reason: &str) -> (r: ResponsePlan)
    ensures
        r@ == work_plan_view(ActionType::StartAgentJob, event, intent, authz_reason@, None),
{
    work_plan(ActionType::StartAgentJob, event, intent, authz_reason, None)
}

/// A plan asking a human to approve `intent`, naming the approval and its expiry.
pub fn request_approval_plan(event: &Event, intent: Intent, authz_reason: &str, terms: &ApprovalTerms) -> (r: ResponsePlan)
    ensures
        r@ == work_plan_view(
            ActionType::RequestApproval,
            event,
            intent,
            authz_reason@,
            Some((terms.approval_id@, terms.expires_at@)),
        ),
{
    work_plan(ActionType::RequestApproval, event, intent, authz_reason, Some(terms))
}

/// View of the plan that sends generated text: a reply when `reply_to` is
/// given, a plain message otherwise.
pub open spec fn send_plan_view(
    tenant_id: Seq<char>,
    room_id: Seq<char>,
    generation_action_id: Seq<char>,
    text: Seq<char>,
    reply_to: Option<Seq<char>>,
) -> PlanView {
    let pid = plan_id_of(tenant_id, "gen:"@ + generation_action_id);
    let kind = if reply_to is Some { ActionType::SendReply } else { ActionType::SendMessage };
    let base_target: Entries = seq![("room_id"@, room_id)];
    PlanView {
        v: CONTRACT_VERSION,
        plan_id: pid,
        tenant_id: tenant_id,
        room_id: room_id,
        actions: seq![
            ActionView {
                action_type: kind,
                action_id: action_id_of(pid, kind.name_spec(), 0),
                target: match reply_to {
                    Some(r) => base_target.push(("reply_to"@, r)),
                    None => base_target,
                },
                payload: seq![("text"@, text), ("source_action_id"@, generation_action_id)],
            },
        ],
        policy_decisions: Seq::empty(),
        debug: Seq::empty(),
    }
}

/// A plan that sends the text generated for `generation_action_id`.
pub fn send_plan(
    tenant_id: &str,
    room_id: &str,
    generation_action_id: &str,
    text: &str,
    reply_to: Option<&str>,
) -> (r: ResponsePlan)
    ensures
        r@ == send_plan_view(
            tenant_id@,
            room_id@,
            generation_action_id@,
            text@,
            match reply_to {
                Some(s) => Some(s@),
                None => None,
            },
        ),
{
    let mut event_id = "gen:".to_owned();
    push_str(&mut event_id, generation_action_id);
    let pid = plan_id(tenant_id, event_id.as_str());
    let kind = if reply_to.is_some() { ActionType::SendReply } else { ActionType::SendMessage };
    let aid = action_id(pid.as_str(), kind.name(), 0);
    let mut target: Vec<(String, String)> = Vec::new();
    target.push(entry("room_id", room_id));
    if let Some(v) = reply_to {
        target.push(entry("reply_to", v));
    }
    let mut payload: Vec<(String, String)> = Vec::new();
    payload.push(entry("text", text));
    payload.push(entry("source_action_id", generation_action_id));
    let mut actions: Vec<Action> = Vec::new();
    actions.push(Action { action_type: kind, action_id: aid, target, payload });
    let r = ResponsePlan {
        v: CONTRACT_VERSION,
        plan_id: pid,
        tenant_id: owned(tenant_id),
        room_id: owned(room_id),
        actions,
        policy_decisions: Vec::new(),
        debug: Vec::new(),
    };
    let ghost expect = send_plan_view(
        tenant_id@,
        room_id@,
        generation_action_id@,
        text@,
        match reply_to {
            Some(s) => Some(s@),
            None => None,
        },
    );
    assert(r@.actions[0].target =~= expect.actions[0].target);
    assert(r@.actions[0].payload =~= expect.actions[0].payload);
    assert(r@.actions =~= expect.actions);
    assert(r@.policy_decisions =~= expect.policy_decisions);
    assert(r@.debug =~= expect.debug);
    r
}

/// `s` is one of the job statuses.
pub open spec fn is_job_status(s: Seq<char>) -> bool {
    s == "started"@ || s == "heartbeat"@ || s == "completed"@ || s == "failed"@ || s == "cancelled"@
}

/// `s` is a terminal job status.
pub open spec fn is_terminal_job_status(s: Seq<char>) -> bool {
    s == "completed"@ || s == "failed"@ || s == "cancelled"@
}

/// Whether a job may move from status `current` (none: no state yet) to `next`.
pub open spec fn job_transition_ok(current: Option<Seq<char>>, next: Seq<char>) -> bool {
    match current {
        None => true,
        Some(c) => if is_terminal_job_status(c) {
            next == c
        } else if c == "started"@ {
            is_job_status(next)
        } else if c == "heartbeat"@ {
            next == "heartbeat"@ || is_terminal_job_status(next)
        } else {
            false
        },
    }
}

/// `s` is one of the approval statuses.
pub open spec fn is_approval_status(s: Seq<char>) -> bool {
    s == "requested"@ || s == "approved"@ || s == "rejected"@ || s == "expired"@
}

/// `s` is a terminal approval status.
pub open spec fn is_terminal_approval_status(s: Seq<char>) -> bool {
    s == "approved"@ || s == "rejected"@ || s == "expired"@
}

/// Whether an approval may move from status `current` to `next`.
pub open spec fn approval_transition_ok(current: Option<Seq<char>>, next: Seq<char>) -> bool {
    match current {
        None => true,
        Some(c) => if is_terminal_approval_status(c) {
            next == c
        } else if c == "requested"@ {
            is_approval_status(next)
        } else {
            false
        },
    }
}

/// Whether `s` is a job status.
pub fn job_status_known(s: &str) -> (r: bool)
    ensures
        r == is_job_status(s@),
{
    str_eq(s, "started") || str_eq(s, "heartbeat") || str_eq(s, "completed") || str_eq(s, "failed")
        || str_eq(s, "cancelled")
}

/// Whether `s` is an approval status.
pub fn approval_status_known(s: &str) -> (r: bool)
    ensures
        r == is_approval_status(s@),
{
    str_eq(s, "requested") || str_eq(s, "approved") || str_eq(s, "rejected") || str_eq(s, "expired")
}

/// Job state machine: whether moving from `current` to `next` is allowed.
pub fn is_valid_job_transition(current: Option<&str>, next: &str) -> (r: bool)
    ensures
        r == job_transition_ok(
            match current {
                Some(c) => Some(c@),
                None => None,
            },
            next@,
        ),
{
    match current {
        None => true,
        Some(c) => {
            if str_eq(c, "completed") || str_eq(c, "failed") || str_eq(c, "cancelled") {
                str_eq(c, next)
            } else if str_eq(c, "started") {
                job_status_known(next)
            } else if str_eq(c, "heartbeat") {
                str_eq(next, "heartbeat") || str_eq(next, "completed") || str_eq(next, "failed")
                    || str_eq(next, "cancelled")
            } else {
                false
            }
        },
    }
}

/// Approval state machine: whether moving from `current` to `next` is allowed.
pub fn is_valid_approval_transition(current: Option<&str>, next: &str) -> (r: bool)
    ensures
        r == approval_transition_ok(
            match current {
                Some(c) => Some(c@),
                None => None,
            },
            next@,
        ),
{
    match current {
        None => true,
        Some(c) => {
            if str_eq(c, "approved") || str_eq(c, "rejected") || str_eq(c, "expired") {
                str_eq(c, next)
            } else if str_eq(c, "requested") {
                approval_status_known(next)
            } else {
                false
            }
        },
    }
}

/// A terminal job status admits only itself, and an approval's terminal
/// status likewise.
pub proof fn terminal_states_absorb(current: Seq<char>, next: Seq<char>)
    ensures
        is_terminal_job_status(current) ==> (job_transition_ok(Some(current), next) <==> next == current),
        is_terminal_approval_status(current) ==> (approval_transition_ok(Some(current), next) <==> next
            == current),
{
}

/// A room that is generating is denied for that reason first, whatever else
/// would also deny it.
pub proof fn generating_lock_comes_first(room: RoomState, server_now: int, cfg: GateConfig, tenant_count: int)
    requires
        room.generating,
    ensures
        gate_reason(room, server_now, cfg, tenant_count) == Some("gate_generating_lock"@),
{
}

/// Within the cooldown after the last send, measured on the server clock, a
/// room that is not generating is denied for cooldown; the event's own
/// timestamp plays no part.
pub proof fn cooldown_measured_on_server_time(room: RoomState, server_now: int, cfg: GateConfig, tenant_count: int)
    requires
        !room.generating,
        cfg.cooldown_ms > 0,
        room.last_send_at is Some,
        server_now - room.last_send_at->0 < cfg.cooldown_ms,
    ensures
        gate_reason(room, server_now, cfg, tenant_count) == Some("gate_cooldown"@),
{
}

/// The minute bucket of a server time given in milliseconds.
pub fn minute_bucket(now_ms: i64) -> (r: i64)
    ensures
        r as int == now_ms as int / 60000,
{
    if now_ms >= 0 {
        now_ms / 60000
    } else {
        -((-(now_ms + 1)) / 60000) - 1
    }
}

} // verus!
