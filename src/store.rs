//! The state store: idempotency results, rooms, pending generations, tenant
//! rate buckets, job and approval states, the action index and action
//! results, each keyed by text.
use vstd::prelude::*;
use crate::contracts::{Action, PlanView, ResponsePlan};
use crate::kernel::{Intent, RoomState};
use crate::table::Table;
use crate::text::{owned, push_char, push_str, str_eq, write_i64};

verus! {

/// `a:b`, the key of a pair.
pub open spec fn key2(a: Seq<char>, b: Seq<char>) -> Seq<char> {
    a + seq![':'] + b
}

/// `a:b:c`, the key of a triple.
pub open spec fn key3(a: Seq<char>, b: Seq<char>, c: Seq<char>) -> Seq<char> {
    a + seq![':'] + b + seq![':'] + c
}

/// Key of a pair of texts, `a:b`.
pub fn pair_key(a: &str, b: &str) -> (r: String)
    ensures
        r@ == key2(a@, b@),
{
    let mut s = owned(a);
    push_char(&mut s, ':');
    push_str(&mut s, b);
    s
}

/// Key of a triple of texts, `a:b:c`.
pub fn triple_key(a: &str, b: &str, c: &str) -> (r: String)
    ensures
        r@ == key3(a@, b@, c@),
{
    let mut s = pair_key(a, b);
    push_char(&mut s, ':');
    push_str(&mut s, c);
    s
}

/// Key of an event: tenant and event id.
pub fn event_key(tenant_id: &str, event_id: &str) -> (r: String)
    ensures
        r@ == key2(tenant_id@, event_id@),
{
    pair_key(tenant_id, event_id)
}

/// Key of a room: tenant and room id.
pub fn room_key(tenant_id: &str, room_id: &str) -> (r: String)
    ensures
        r@ == key2(tenant_id@, room_id@),
{
    pair_key(tenant_id, room_id)
}

/// Key of a pending generation: tenant and action id.
pub fn pending_key(tenant_id: &str, action_id: &str) -> (r: String)
    ensures
        r@ == key2(tenant_id@, action_id@),
{
    pair_key(tenant_id, action_id)
}

/// Key of the action index: tenant and action id.
pub fn action_index_key(tenant_id: &str, action_id: &str) -> (r: String)
    ensures
        r@ == key2(tenant_id@, action_id@),
{
    pair_key(tenant_id, action_id)
}

/// Key of an action result: tenant, plan id and action id.
pub fn action_result_store_key(tenant_id: &str, plan_id: &str, action_id: &str) -> (r: String)
    ensures
        r@ == key3(tenant_id@, plan_id@, action_id@),
{
    triple_key(tenant_id, plan_id, action_id)
}

/// Key of a tenant's rate bucket: tenant and bucket number.
pub open spec fn rate_key(tenant_id: Seq<char>, bucket: int) -> Seq<char> {
    key2(tenant_id, crate::text::int_text(bucket))
}

fn rate_key_exec(tenant_id: &str, bucket: i64) -> (r: String)
    ensures
        r@ == rate_key(tenant_id@, bucket as int),
{
    let mut b = String::new();
    write_i64(&mut b, bucket);
    assert(b@ =~= crate::text::int_text(bucket as int));
    pair_key(tenant_id, b.as_str())
}

fn copy_opt(s: &Option<String>) -> (r: Option<String>)
    ensures
        r == *s,
{
    match s {
        Some(v) => Some(v.clone()),
        None => None,
    }
}

/// A generation the gateway has asked for and not yet received.
#[derive(Clone, Debug, PartialEq)]
pub struct PendingGeneration {
    pub tenant_id: String,
    pub room_id: String,
    pub action_id: String,
    pub reply_to: Option<String>,
    pub intent: Intent,
}

/// Last recorded status of a job or an approval.
#[derive(Clone, Debug, PartialEq)]
pub struct StateEntry {
    pub status: String,
    pub reason_code: Option<String>,
    pub updated_at: String,
}

impl StateEntry {
    /// Copy of the entry.
    pub fn copy(&self) -> (r: StateEntry)
        ensures
            r == *self,
    {
        StateEntry {
            status: self.status.clone(),
            reason_code: copy_opt(&self.reason_code),
            updated_at: self.updated_at.clone(),
        }
    }
}

/// Where an action came from: its plan, its kind and its room.
#[derive(Clone, Debug, PartialEq)]
pub struct ActionContext {
    pub plan_id: String,
    pub action_type: String,
    pub room_id: String,
}

impl ActionContext {
    /// Copy of the context.
    pub fn copy(&self) -> (r: ActionContext)
        ensures
            r == *self,
    {
        ActionContext {
            plan_id: self.plan_id.clone(),
            action_type: self.action_type.clone(),
            room_id: self.room_id.clone(),
        }
    }
}

/// A stored action result. `error` holds the canonical text of the error
/// object, if one was reported.
#[derive(Clone, Debug, PartialEq)]
pub struct ActionResultRecord {
    pub tenant_id: String,
    pub plan_id: String,
    pub action_id: String,
    pub status: String,
    pub ts: String,
    pub provider_message_id: Option<String>,
    pub reason_code: Option<String>,
    pub error: Option<String>,
    pub idempotency_key: String,
    pub payload_json: String,
    pub ingested_at: String,
    pub action_type: Option<String>,
    pub room_id: Option<String>,
}

impl ActionResultRecord {
    /// Copy of the record.
    pub fn copy(&self) -> (r: ActionResultRecord)
        ensures
            r == *self,
    {
        ActionResultRecord {
            tenant_id: self.tenant_id.clone(),
            plan_id: self.plan_id.clone(),
            action_id: self.action_id.clone(),
            status: self.status.clone(),
            ts: self.ts.clone(),
            provider_message_id: copy_opt(&self.provider_message_id),
            reason_code: copy_opt(&self.reason_code),
            error: copy_opt(&self.error),
            idempotency_key: self.idempotency_key.clone(),
            payload_json: self.payload_json.clone(),
            ingested_at: self.ingested_at.clone(),
            action_type: copy_opt(&self.action_type),
            room_id: copy_opt(&self.room_id),
        }
    }
}

/// Outcome of storing an action result.
#[derive(Debug)]
pub enum ActionResultIngest {
    Inserted(ActionResultRecord),
    Duplicate(ActionResultRecord),
    Conflict(String),
}

/// Index entries that storing `plan` adds: one per action, keyed by tenant
/// and action id, for the first `k` actions.
pub open spec fn indexed(
    index: Map<Seq<char>, ActionContext>,
    plan: PlanView,
    k: int,
) -> Map<Seq<char>, (Seq<char>, Seq<char>, Seq<char>)>
    decreases k,
{
    if k <= 0 || k > plan.actions.len() {
        index.map_values(|c: ActionContext| (c.plan_id@, c.action_type@, c.room_id@))
    } else {
        indexed(index, plan, k - 1).insert(
            key2(plan.tenant_id, plan.actions[k - 1].action_id),
            (plan.plan_id, plan.actions[k - 1].action_type.name_spec(), plan.room_id),
        )
    }
}

/// View of the action index.
pub open spec fn index_view(index: Map<Seq<char>, ActionContext>) -> Map<
    Seq<char>,
    (Seq<char>, Seq<char>, Seq<char>),
> {
    index.map_values(|c: ActionContext| (c.plan_id@, c.action_type@, c.room_id@))
}

/// The in-process store.
pub struct MemoryStore {
    pub idempotency: Table<ResponsePlan>,
    pub event_payloads: Table<String>,
    pub rooms: Table<RoomState>,
    pub pending: Table<PendingGeneration>,
    pub tenant_rate: Table<usize>,
    pub job_states: Table<StateEntry>,
    pub approval_states: Table<StateEntry>,
    pub action_index: Table<ActionContext>,
    pub action_results: Table<ActionResultRecord>,
}

impl MemoryStore {
    /// Every table is well formed.
    pub open spec fn wf(&self) -> bool {
        &&& self.idempotency.wf()
        &&& self.event_payloads.wf()
        &&& self.rooms.wf()
        &&& self.pending.wf()
        &&& self.tenant_rate.wf()
        &&& self.job_states.wf()
        &&& self.approval_states.wf()
        &&& self.action_index.wf()
        &&& self.action_results.wf()
    }

    /// An empty store.
    pub fn new() -> (r: MemoryStore)
        ensures
            r.wf(),
            r.idempotency.view() == Map::<Seq<char>, ResponsePlan>::empty(),
            r.event_payloads.view() == Map::<Seq<char>, String>::empty(),
            r.rooms.view() == Map::<Seq<char>, RoomState>::empty(),
            r.pending.view() == Map::<Seq<char>, PendingGeneration>::empty(),
            r.tenant_rate.view() == Map::<Seq<char>, usize>::empty(),
            r.job_states.view() == Map::<Seq<char>, StateEntry>::empty(),
            r.approval_states.view() == Map::<Seq<char>, StateEntry>::empty(),
            r.action_index.view() == Map::<Seq<char>, ActionContext>::empty(),
            r.action_results.view() == Map::<Seq<char>, ActionResultRecord>::empty(),
    {
        MemoryStore {
            idempotency: Table::new(),
            event_payloads: Table::new(),
            rooms: Table::new(),
            pending: Table::new(),
            tenant_rate: Table::new(),
            job_states: Table::new(),
            approval_states: Table::new(),
            action_index: Table::new(),
            action_results: Table::new(),
        }
    }

    /// The plan stored for an event key, if any.
    pub fn get_idempotency(&self, key: &str) -> (r: Option<ResponsePlan>)
        requires
            self.wf(),
        ensures
            match r {
                Some(p) => self.idempotency.view().contains_key(key@) && p@ == self.idempotency.view()[key@]@,
                None => !self.idempotency.view().contains_key(key@),
            },
    {
        match self.idempotency.get(key) {
            Some(p) => Some(p.copy()),
            None => None,
        }
    }

    /// Records each action of `plan` in the action index.
    pub fn index_plan_actions(&mut self, plan: &ResponsePlan)
        requires
            old(self).wf(),
        ensures
            final(self).wf(),
            index_view(final(self).action_index.view()) == indexed(
                old(self).action_index.view(),
                plan@,
                plan@.actions.len() as int,
            ),
            final(self).idempotency == old(self).idempotency,
            final(self).event_payloads == old(self).event_payloads,
            final(self).rooms == old(self).rooms,
            final(self).pending == old(self).pending,
            final(self).tenant_rate == old(self).tenant_rate,
            final(self).job_states == old(self).job_states,
            final(self).approval_states == old(self).approval_states,
            final(self).action_results == old(self).action_results,
    {
        let ghost start = self.action_index.view();
        let mut i: usize = 0;
        while i < plan.actions.len()
            invariant
                self.wf(),
                i <= plan.actions@.len(),
                index_view(self.action_index.view()) == indexed(start, plan@, i as int),
                self.idempotency == old(self).idempotency,
                self.event_payloads == old(self).event_payloads,
                self.rooms == old(self).rooms,
                self.pending == old(self).pending,
                self.tenant_rate == old(self).tenant_rate,
                self.job_states == old(self).job_states,
                self.approval_states == old(self).approval_states,
                self.action_results == old(self).action_results,
            decreases plan.actions@.len() - i,
        {
            let action: &Action = &plan.actions[i];
            let key = action_index_key(plan.tenant_id.as_str(), action.action_id.as_str());
            let ctx = ActionContext {
                plan_id: plan.plan_id.clone(),
                action_type: owned(action.action_type.name()),
                room_id: plan.room_id.clone(),
            };
            let ghost before = self.action_index.view();
            self.action_index.insert(key, ctx);
            proof {
                assert(plan@.actions[i as int] == plan.actions@[i as int]@);
                assert(index_view(self.action_index.view()) =~= index_view(before).insert(
                    key2(plan@.tenant_id, plan@.actions[i as int].action_id),
                    (plan@.plan_id, plan@.actions[i as int].action_type.name_spec(), plan@.room_id),
                ));
            }
            i = i + 1;
        }
    }

    /// Stores the plan for an event key and indexes its actions.
    pub fn save_idempotency(&mut self, key: String, plan: &ResponsePlan)
        requires
            old(self).wf(),
        ensures
            final(self).wf(),
            final(self).idempotency.view().dom() == old(self).idempotency.view().dom().insert(key@),
            final(self).idempotency.view()[key@]@ == plan@,
            forall|k: Seq<char>|
                k != key@ && #[trigger] old(self).idempotency.view().contains_key(k)
                    ==> final(self).idempotency.view()[k] == old(self).idempotency.view()[k],
            index_view(final(self).action_index.view()) == indexed(
                old(self).action_index.view(),
                plan@,
                plan@.actions.len() as int,
            ),
            final(self).event_payloads == old(self).event_payloads,
            final(self).rooms == old(self).rooms,
            final(self).pending == old(self).pending,
            final(self).tenant_rate == old(self).tenant_rate,
            final(self).job_states == old(self).job_states,
            final(self).approval_states == old(self).approval_states,
            final(self).action_results == old(self).action_results,
    {
        let stored = plan.copy();
        self.idempotency.insert(key, stored);
        self.index_plan_actions(plan);
    }

    /// The payload fingerprint stored for an event key, if any.
    pub fn get_event_payload(&self, key: &str) -> (r: Option<String>)
        requires
            self.wf(),
        ensures
            match r {
                Some(p) => self.event_payloads.view().contains_key(key@) && p == self.event_payloads.view()[key@],
                None => !self.event_payloads.view().contains_key(key@),
            },
    {
        match self.event_payloads.get(key) {
            Some(p) => Some(p.clone()),
            None => None,
        }
    }

    /// Stores the payload fingerprint of an event key.
    pub fn save_event_payload(&mut self, key: &str, fingerprint: &str)
        requires
            old(self).wf(),
        ensures
            final(self).wf(),
            final(self).event_payloads.view().dom() == old(self).event_payloads.view().dom().insert(key@),
            final(self).event_payloads.view()[key@]@ == fingerprint@,
            forall|k: Seq<char>|
                k != key@ && #[trigger] old(self).event_payloads.view().contains_key(k)
                    ==> final(self).event_payloads.view()[k] == old(self).event_payloads.view()[k],
            final(self).idempotency == old(self).idempotency,
            final(self).rooms == old(self).rooms,
            final(self).pending == old(self).pending,
            final(self).tenant_rate == old(self).tenant_rate,
            final(self).job_states == old(self).job_states,
            final(self).approval_states == old(self).approval_states,
            final(self).action_index == old(self).action_index,
            final(self).action_results == old(self).action_results,
    {
        let v = owned(fingerprint);
        self.event_payloads.insert(owned(key), v);
    }

    /// The state of a room; a fresh room state when none is stored.
    pub fn get_room(&self, key: &str) -> (r: RoomState)
        requires
            self.wf(),
        ensures
            r == room_or_fresh(self.rooms.view(), key@),
    {
        match self.rooms.get(key) {
            Some(r) => *r,
            None => RoomState::new(),
        }
    }

    /// Stores the state of a room.
    pub fn save_room(&mut self, key: &str, room: &RoomState)
        requires
            old(self).wf(),
        ensures
            final(self).wf(),
            final(self).rooms.view() == old(self).rooms.view().insert(key@, *room),
            final(self).idempotency == old(self).idempotency,
            final(self).event_payloads == old(self).event_payloads,
            final(self).pending == old(self).pending,
            final(self).tenant_rate == old(self).tenant_rate,
            final(self).job_states == old(self).job_states,
            final(self).approval_states == old(self).approval_states,
            final(self).action_index == old(self).action_index,
            final(self).action_results == old(self).action_results,
    {
        self.rooms.insert(owned(key), *room);
    }

    /// Events accepted for a tenant in a minute bucket.
    pub fn get_tenant_rate_count(&self, tenant_id: &str, bucket: i64) -> (r: usize)
        requires
            self.wf(),
        ensures
            r == count_or_zero(self.tenant_rate.view(), rate_key(tenant_id@, bucket as int)),
    {
        let key = rate_key_exec(tenant_id, bucket);
        match self.tenant_rate.get(key.as_str()) {
            Some(c) => *c,
            None => 0,
        }
    }

    /// Counts one more accepted event for a tenant in a minute bucket; the
    /// count stops at the largest `usize`.
    pub fn increment_tenant_rate(&mut self, tenant_id: &str, bucket: i64)
        requires
            old(self).wf(),
        ensures
            final(self).wf(),
            final(self).tenant_rate.view() == old(self).tenant_rate.view().insert(
                rate_key(tenant_id@, bucket as int),
                incremented(count_or_zero(old(self).tenant_rate.view(), rate_key(tenant_id@, bucket as int))),
            ),
            final(self).idempotency == old(self).idempotency,
            final(self).event_payloads == old(self).event_payloads,
            final(self).rooms == old(self).rooms,
            final(self).pending == old(self).pending,
            final(self).job_states == old(self).job_states,
            final(self).approval_states == old(self).approval_states,
            final(self).action_index == old(self).action_index,
            final(self).action_results == old(self).action_results,
    {
        let count = self.get_tenant_rate_count(tenant_id, bucket);
        let next = if count < usize::MAX { count + 1 } else { count };
        let key = rate_key_exec(tenant_id, bucket);
        self.tenant_rate.insert(key, next);
    }

    /// Records a pending generation.
    pub fn save_pending(&mut self, key: String, pending: PendingGeneration)
        requires
            old(self).wf(),
        ensures
            final(self).wf(),
            final(self).pending.view() == old(self).pending.view().insert(key@, pending),
            final(self).idempotency == old(self).idempotency,
            final(self).event_payloads == old(self).event_payloads,
            final(self).rooms == old(self).rooms,
            final(self).tenant_rate == old(self).tenant_rate,
            final(self).job_states == old(self).job_states,
            final(self).approval_states == old(self).approval_states,
            final(self).action_index == old(self).action_index,
            final(self).action_results == old(self).action_results,
    {
        self.pending.insert(key, pending);
    }

    /// Removes and returns a pending generation.
    pub fn take_pending(&mut self, key: &str) -> (r: Option<PendingGeneration>)
        requires
            old(self).wf(),
        ensures
            final(self).wf(),
            final(self).pending.view() == old(self).pending.view().remove(key@),
            match r {
                Some(p) => old(self).pending.view().contains_key(key@) && p == old(self).pending.view()[key@],
                None => !old(self).pending.view().contains_key(key@),
            },
            final(self).idempotency == old(self).idempotency,
            final(self).event_payloads == old(self).event_payloads,
            final(self).rooms == old(self).rooms,
            final(self).tenant_rate == old(self).tenant_rate,
            final(self).job_states == old(self).job_states,
            final(self).approval_states == old(self).approval_states,
            final(self).action_index == old(self).action_index,
            final(self).action_results == old(self).action_results,
    {
        self.pending.remove(key)
    }

    /// Stores the status of a job; `updated_at` is the server time text.
    pub fn save_job_state(&mut self, tenant_id: &str, job_id: &str, status: &str, reason_code: Option<&str>, updated_at: &str)
        requires
            old(self).wf(),
        ensures
            final(self).wf(),
            final(self).job_states.view().dom() == old(self).job_states.view().dom().insert(key2(tenant_id@, job_id@)),
            final(self).job_states.view()[key2(tenant_id@, job_id@)].status@ == status@,
            forall|k: Seq<char>|
                k != key2(tenant_id@, job_id@) && #[trigger] old(self).job_states.view().contains_key(k)
                    ==> final(self).job_states.view()[k] == old(self).job_states.view()[k],
            final(self).idempotency == old(self).idempotency,
            final(self).event_payloads == old(self).event_payloads,
            final(self).rooms == old(self).rooms,
            final(self).pending == old(self).pending,
            final(self).tenant_rate == old(self).tenant_rate,
            final(self).approval_states == old(self).approval_states,
            final(self).action_index == old(self).action_index,
            final(self).action_results == old(self).action_results,
    {
        let entry = StateEntry {
            status: owned(status),
            reason_code: match reason_code {
                Some(r) => Some(owned(r)),
                None => None,
            },
            updated_at: owned(updated_at),
        };
        self.job_states.insert(pair_key(tenant_id, job_id), entry);
    }

    /// Stores the status of an approval; `updated_at` is the server time text.
    pub fn save_approval_state(&mut self, tenant_id: &str, approval_id: &str, status: &str, reason_code: Option<&str>, updated_at: &str)
        requires
            old(self).wf(),
        ensures
            final(self).wf(),
            final(self).approval_states.view().dom() == old(self).approval_states.view().dom().insert(key2(tenant_id@, approval_id@)),
            final(self).approval_states.view()[key2(tenant_id@, approval_id@)].status@ == status@,
            forall|k: Seq<char>|
                k != key2(tenant_id@, approval_id@) && #[trigger] old(self).approval_states.view().contains_key(k)
                    ==> final(self).approval_states.view()[k] == old(self).approval_states.view()[k],
            final(self).idempotency == old(self).idempotency,
            final(self).event_payloads == old(self).event_payloads,
            final(self).rooms == old(self).rooms,
            final(self).pending == old(self).pending,
            final(self).tenant_rate == old(self).tenant_rate,
            final(self).job_states == old(self).job_states,
            final(self).action_index == old(self).action_index,
            final(self).action_results == old(self).action_results,
    {
        let entry = StateEntry {
            status: owned(status),
            reason_code: match reason_code {
                Some(r) => Some(owned(r)),
                None => None,
            },
            updated_at: owned(updated_at),
        };
        self.approval_states.insert(pair_key(tenant_id, approval_id), entry);
    }

    /// The status of a job, if any.
    pub fn get_job_state(&self, tenant_id: &str, job_id: &str) -> (r: Option<StateEntry>)
        requires
            self.wf(),
        ensures
            r == self.job_states.view().get(key2(tenant_id@, job_id@)),
    {
        let key = pair_key(tenant_id, job_id);
        match self.job_states.get(key.as_str()) {
            Some(e) => Some(e.copy()),
            None => None,
        }
    }

    /// The status of an approval, if any.
    pub fn get_approval_state(&self, tenant_id: &str, approval_id: &str) -> (r: Option<StateEntry>)
        requires
            self.wf(),
        ensures
            r == self.approval_states.view().get(key2(tenant_id@, approval_id@)),
    {
        let key = pair_key(tenant_id, approval_id);
        match self.approval_states.get(key.as_str()) {
            Some(e) => Some(e.copy()),
            None => None,
        }
    }

    /// Where an action came from, if it was indexed.
    pub fn get_action_context(&self, tenant_id: &str, action_id: &str) -> (r: Option<ActionContext>)
        requires
            self.wf(),
        ensures
            r == self.action_index.view().get(key2(tenant_id@, action_id@)),
    {
        let key = action_index_key(tenant_id, action_id);
        match self.action_index.get(key.as_str()) {
            Some(c) => Some(c.copy()),
            None => None,
        }
    }

    /// The stored result of an action, if any.
    pub fn get_action_result(&self, tenant_id: &str, plan_id: &str, action_id: &str) -> (r: Option<ActionResultRecord>)
        requires
            self.wf(),
        ensures
            r == self.action_results.view().get(key3(tenant_id@, plan_id@, action_id@)),
    {
        let key = action_result_store_key(tenant_id, plan_id, action_id);
        match self.action_results.get(key.as_str()) {
            Some(c) => Some(c.copy()),
            None => None,
        }
    }

    /// Stores an action result once per idempotency key: a repeat with the
    /// same payload is a duplicate, one with another payload a conflict.
    pub fn ingest_action_result(&mut self, record: ActionResultRecord) -> (r: ActionResultIngest)
        requires
            old(self).wf(),
        ensures
            final(self).wf(),
            match old(self).action_results.view().get(record.idempotency_key@) {
                Some(existing) => final(self).action_results == old(self).action_results && if existing.payload_json@
                    == record.payload_json@ {
                    r == ActionResultIngest::Duplicate(existing)
                } else {
                    r is Conflict && r->Conflict_0@ == "conflict.payload_mismatch"@
                },
                None => r == ActionResultIngest::Inserted(record) && final(self).action_results.view()
                    == old(self).action_results.view().insert(record.idempotency_key@, record).insert(
                    key3(record.tenant_id@, record.plan_id@, record.action_id@),
                    record,
                ),
            },
            final(self).idempotency == old(self).idempotency,
            final(self).event_payloads == old(self).event_payloads,
            final(self).rooms == old(self).rooms,
            final(self).pending == old(self).pending,
            final(self).tenant_rate == old(self).tenant_rate,
            final(self).job_states == old(self).job_states,
            final(self).approval_states == old(self).approval_states,
            final(self).action_index == old(self).action_index,
    {
        match self.action_results.get(record.idempotency_key.as_str()) {
            Some(existing) => {
                if str_eq(existing.payload_json.as_str(), record.payload_json.as_str()) {
                    ActionResultIngest::Duplicate(existing.copy())
                } else {
                    ActionResultIngest::Conflict("conflict.payload_mismatch".to_owned())
                }
            },
            None => {
                let key = action_result_store_key(
                    record.tenant_id.as_str(),
                    record.plan_id.as_str(),
                    record.action_id.as_str(),
                );
                self.action_results.insert(record.idempotency_key.clone(), record.copy());
                let stored = record.copy();
                self.action_results.insert(key, stored);
                ActionResultIngest::Inserted(record)
            },
        }
    }
}

/// The stored room state under `key`, or a fresh one.
pub open spec fn room_or_fresh(rooms: Map<Seq<char>, RoomState>, key: Seq<char>) -> RoomState {
    if rooms.contains_key(key) {
        rooms[key]
    } else {
        RoomState { generating: false, pending_queue_size: 0, last_send_at: None }
    }
}

/// The stored count under `key`, or zero.
pub open spec fn count_or_zero(counts: Map<Seq<char>, usize>, key: Seq<char>) -> usize {
    if counts.contains_key(key) { counts[key] } else { 0 }
}

/// One more, stopping at the largest `usize`.
pub open spec fn incremented(c: usize) -> usize {
    if c < usize::MAX { (c + 1) as usize } else { c }
}

} // verus!
