//! The request and response types exchanged with adapters, with their
//! mathematical views.
use vstd::prelude::*;
use crate::json::JsonValue;

verus! {

/// Version of the wire contract that every payload carries.
pub const CONTRACT_VERSION: i32 = 1;

/// Who caused an event.
#[derive(Debug)]
pub struct Actor {
    pub actor_type: String,
    pub id: String,
    pub roles: Vec<String>,
    pub claims: Vec<(String, JsonValue)>,
}

/// What an event says.
#[derive(Clone, Debug, PartialEq)]
pub struct EventContent {
    pub content_type: String,
    pub text: String,
    pub reply_to: Option<String>,
}

/// Something that happened on an adapter's side.
#[derive(Debug)]
pub struct Event {
    pub v: i32,
    pub event_id: String,
    pub tenant_id: String,
    pub source: String,
    pub room_id: String,
    pub actor: Actor,
    pub content: EventContent,
    pub ts: String,
    pub extensions: Vec<(String, JsonValue)>,
}

/// Kind of a planned action.
#[derive(Clone, Copy, Debug, PartialEq, Eq, Structural)]
pub enum ActionType {
    DoNothing,
    RequestGeneration,
    SendMessage,
    SendReply,
    StartAgentJob,
    RequestApproval,
}

impl ActionType {
    /// Wire name of the action kind.
    pub open spec fn name_spec(self) -> Seq<char> {
        match self {
            ActionType::DoNothing => "do_nothing"@,
            ActionType::RequestGeneration => "request_generation"@,
            ActionType::SendMessage => "send_message"@,
            ActionType::SendReply => "send_reply"@,
            ActionType::StartAgentJob => "start_agent_job"@,
            ActionType::RequestApproval => "request_approval"@,
        }
    }

    /// Wire name of the action kind.
    pub fn name(&self) -> (r: &'static str)
        ensures
            r@ == self.name_spec(),
    {
        match self {
            ActionType::DoNothing => "do_nothing",
            ActionType::RequestGeneration => "request_generation",
            ActionType::SendMessage => "send_message",
            ActionType::SendReply => "send_reply",
            ActionType::StartAgentJob => "start_agent_job",
            ActionType::RequestApproval => "request_approval",
        }
    }
}

/// String-valued entries of an object, in order.
pub type Entries = Seq<(Seq<char>, Seq<char>)>;

/// View of string-valued object entries.
pub open spec fn entries_view(e: Seq<(String, String)>) -> Entries {
    e.map_values(|p: (String, String)| (p.0@, p.1@))
}

/// One action of a plan.
#[derive(Clone, Debug, PartialEq)]
pub struct Action {
    pub action_type: ActionType,
    pub action_id: String,
    pub target: Vec<(String, String)>,
    pub payload: Vec<(String, String)>,
}

/// Mathematical view of an action.
pub struct ActionView {
    pub action_type: ActionType,
    pub action_id: Seq<char>,
    pub target: Entries,
    pub payload: Entries,
}

impl View for Action {
    type V = ActionView;

    open spec fn view(&self) -> ActionView {
        ActionView {
            action_type: self.action_type,
            action_id: self.action_id@,
            target: entries_view(self.target@),
            payload: entries_view(self.payload@),
        }
    }
}

/// The verdict of one pipeline stage, as recorded in a plan.
#[derive(Clone, Debug, PartialEq)]
pub struct PolicyDecision {
    pub stage: String,
    pub result: String,
    pub reason_code: String,
}

/// Mathematical view of a stage verdict.
pub struct PolicyDecisionView {
    pub stage: Seq<char>,
    pub result: Seq<char>,
    pub reason_code: Seq<char>,
}

impl View for PolicyDecision {
    type V = PolicyDecisionView;

    open spec fn view(&self) -> PolicyDecisionView {
        PolicyDecisionView {
            stage: self.stage@,
            result: self.result@,
            reason_code: self.reason_code@,
        }
    }
}

/// The ordered actions the gateway intends for one event.
#[derive(Clone, Debug, PartialEq)]
pub struct ResponsePlan {
    pub v: i32,
    pub plan_id: String,
    pub tenant_id: String,
    pub room_id: String,
    pub actions: Vec<Action>,
    pub policy_decisions: Vec<PolicyDecision>,
    pub debug: Vec<(String, String)>,
}

/// Mathematical view of a plan.
pub struct PlanView {
    pub v: i32,
    pub plan_id: Seq<char>,
    pub tenant_id: Seq<char>,
    pub room_id: Seq<char>,
    pub actions: Seq<ActionView>,
    pub policy_decisions: Seq<PolicyDecisionView>,
    pub debug: Entries,
}

impl View for ResponsePlan {
    type V = PlanView;

    open spec fn view(&self) -> PlanView {
        PlanView {
            v: self.v,
            plan_id: self.plan_id@,
            tenant_id: self.tenant_id@,
            room_id: self.room_id@,
            actions: self.actions@.map_values(|a: Action| a@),
            policy_decisions: self.policy_decisions@.map_values(|d: PolicyDecision| d@),
            debug: entries_view(self.debug@),
        }
    }
}

/// Copy of string-valued entries.
pub fn copy_entries(e: &Vec<(String, String)>) -> (r: Vec<(String, String)>)
    ensures
        entries_view(r@) == entries_view(e@),
{
    let mut r: Vec<(String, String)> = Vec::new();
    let mut i: usize = 0;
    while i < e.len()
        invariant
            i <= e@.len(),
            r@.len() == i,
            forall|j: int| 0 <= j < i ==> (#[trigger] r@[j]).0@ == e@[j].0@ && r@[j].1@ == e@[j].1@,
        decreases e@.len() - i,
    {
        r.push((e[i].0.clone(), e[i].1.clone()));
        i = i + 1;
    }
    assert(entries_view(r@) =~= entries_view(e@));
    r
}

impl Action {
    /// Copy of the action.
    pub fn copy(&self) -> (r: Action)
        ensures
            r@ == self@,
    {
        Action {
            action_type: self.action_type,
            action_id: self.action_id.clone(),
            target: copy_entries(&self.target),
            payload: copy_entries(&self.payload),
        }
    }
}

impl PolicyDecision {
    /// Copy of the verdict.
    pub fn copy(&self) -> (r: PolicyDecision)
        ensures
            r@ == self@,
    {
        PolicyDecision {
            stage: self.stage.clone(),
            result: self.result.clone(),
            reason_code: self.reason_code.clone(),
        }
    }
}

impl ResponsePlan {
    /// Copy of the plan.
    pub fn copy(&self) -> (r: ResponsePlan)
        ensures
            r@ == self@,
    {
        let mut actions: Vec<Action> = Vec::new();
        let mut i: usize = 0;
        while i < self.actions.len()
            invariant
                i <= self.actions@.len(),
                actions@.len() == i,
                forall|j: int| 0 <= j < i ==> (#[trigger] actions@[j])@ == self.actions@[j]@,
            decreases self.actions@.len() - i,
        {
            actions.push(self.actions[i].copy());
            i = i + 1;
        }
        let mut decisions: Vec<PolicyDecision> = Vec::new();
        let mut k: usize = 0;
        while k < self.policy_decisions.len()
            invariant
                k <= self.policy_decisions@.len(),
                decisions@.len() == k,
                forall|j: int|
                    0 <= j < k ==> (#[trigger] decisions@[j])@ == self.policy_decisions@[j]@,
            decreases self.policy_decisions@.len() - k,
        {
            decisions.push(self.policy_decisions[k].copy());
            k = k + 1;
        }
        assert(actions@.map_values(|a: Action| a@) =~= self.actions@.map_values(|a: Action| a@));
        assert(decisions@.map_values(|d: PolicyDecision| d@) =~= self.policy_decisions@.map_values(
            |d: PolicyDecision| d@,
        ));
        ResponsePlan {
            v: self.v,
            plan_id: self.plan_id.clone(),
            tenant_id: self.tenant_id.clone(),
            room_id: self.room_id.clone(),
            actions,
            policy_decisions: decisions,
            debug: copy_entries(&self.debug),
        }
    }
}

/// Text produced for a pending generation.
#[derive(Clone, Debug, PartialEq)]
pub struct GenerationResult {
    pub v: i32,
    pub plan_id: String,
    pub action_id: String,
    pub tenant_id: String,
    pub text: String,
    pub trace_id: Option<String>,
}

/// A status change of an agent job.
#[derive(Clone, Debug, PartialEq)]
pub struct JobStatusEvent {
    pub v: i32,
    pub event_id: String,
    pub tenant_id: String,
    pub job_id: String,
    pub status: String,
    pub ts: String,
    pub reason_code: Option<String>,
}

/// A request to cancel an agent job.
#[derive(Clone, Debug, PartialEq)]
pub struct JobCancelRequest {
    pub v: i32,
    pub event_id: String,
    pub tenant_id: String,
    pub job_id: String,
    pub ts: String,
    pub reason_code: Option<String>,
}

/// A status change of a human approval.
#[derive(Clone, Debug, PartialEq)]
pub struct ApprovalEvent {
    pub v: i32,
    pub event_id: String,
    pub tenant_id: String,
    pub approval_id: String,
    pub status: String,
    pub ts: String,
    pub reason_code: Option<String>,
}

/// Error details an adapter reports with a failed action.
#[derive(Debug)]
pub struct ActionResultError {
    pub code: Option<String>,
    pub message: Option<String>,
    pub details: Vec<(String, JsonValue)>,
}

/// Outcome of one planned action, reported by an adapter.
#[derive(Debug)]
pub struct ActionResult {
    pub v: i32,
    pub plan_id: String,
    pub action_id: String,
    pub tenant_id: String,
    pub status: String,
    pub ts: String,
    pub provider_message_id: Option<String>,
    pub reason_code: Option<String>,
    pub error: Option<ActionResultError>,
}

/// Decision returned by an external authorization service.
#[derive(Debug)]
pub struct AuthZDecision {
    pub v: i32,
    pub decision: String,
    pub reason_code: String,
    pub policy_version: String,
    pub obligations: Vec<(String, JsonValue)>,
    pub ttl_ms: i64,
}

} // verus!
