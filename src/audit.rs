//! The tamper-evident audit log: records chained by hash, each record's hash
//! taken over its canonical text with the hash field empty.
use vstd::prelude::*;
use crate::clock::{format_rfc3339, random_uuid_simple, rfc3339_text};
use crate::digest::{hash_hex, hash_hex_of};
use crate::json::{jcs_text, normal_form, write_number, write_quoted, quoted, JsonNumber};
use crate::text::{int_text, nat_text, owned, push_char, push_str, str_eq, write_u64};

verus! {

/// Verdict of a stage as recorded in the audit trace.
#[derive(Clone, Debug, PartialEq)]
pub struct StageDecision {
    pub result: String,
    pub reason_code: String,
}

/// Authorization verdict as recorded in the audit trace.
#[derive(Clone, Debug, PartialEq)]
pub struct AuthzDecisionTrace {
    pub result: String,
    pub reason_code: String,
    pub policy_version: Option<String>,
}

/// Planner verdict as recorded in the audit trace; the sampled probability
/// is in basis points.
#[derive(Clone, Debug, PartialEq)]
pub struct PlannerDecisionTrace {
    pub reply_policy: String,
    pub chosen_intent: String,
    pub seed: u64,
    pub sampled_basis_points: u16,
}

/// How each stage decided.
#[derive(Clone, Debug, PartialEq)]
pub struct DecisionTrace {
    pub gate: Option<StageDecision>,
    pub authz: Option<AuthzDecisionTrace>,
    pub planner: Option<PlannerDecisionTrace>,
}

/// One audit record.
#[derive(Clone, Debug, PartialEq)]
pub struct AuditRecord {
    pub audit_id: String,
    pub tenant_id: String,
    pub correlation_id: String,
    pub action: String,
    pub result: String,
    pub reason_code: String,
    pub ts: String,
    pub plan_id: Option<String>,
    pub decision_trace: Option<DecisionTrace>,
    pub prev_hash: String,
    pub record_hash: String,
}

/// `"key":value`.
pub open spec fn member(key: Seq<char>, value: Seq<char>) -> Seq<char> {
    quoted(key) + seq![':'] + value
}

/// Texts joined by commas.
pub open spec fn joined(parts: Seq<Seq<char>>) -> Seq<char>
    decreases parts.len(),
{
    if parts.len() == 0 {
        Seq::empty()
    } else if parts.len() == 1 {
        parts[0]
    } else {
        joined(parts.drop_last()) + seq![','] + parts.last()
    }
}

/// A JSON object of the given member texts, in the given order.
pub open spec fn object(parts: Seq<Seq<char>>) -> Seq<char> {
    seq!['{'] + joined(parts) + seq!['}']
}

/// A member when the value is present, nothing otherwise.
pub open spec fn opt_member(key: Seq<char>, value: Option<Seq<char>>) -> Seq<Seq<char>> {
    match value {
        Some(v) => seq![member(key, v)],
        None => Seq::empty(),
    }
}

/// Canonical text of a number given as `m * 10^e`.
pub open spec fn decimal_text(m: int, e: int) -> Seq<char> {
    let (m2, e2) = normal_form(m, e);
    jcs_text(m2, e2)
}

/// Canonical text of a stage verdict.
pub open spec fn stage_text(s: &StageDecision) -> Seq<char> {
    object(seq![member("reason_code"@, quoted(s.reason_code@)), member("result"@, quoted(s.result@))])
}

/// Canonical text of an authorization verdict.
pub open spec fn authz_trace_text(a: &AuthzDecisionTrace) -> Seq<char> {
    object(opt_member("policy_version"@, match a.policy_version {
        Some(p) => Some(quoted(p@)),
        None => None,
    }) + seq![member("reason_code"@, quoted(a.reason_code@)), member("result"@, quoted(a.result@))])
}

/// Canonical text of a planner verdict.
pub open spec fn planner_trace_text(p: &PlannerDecisionTrace) -> Seq<char> {
    object(seq![
        member("chosen_intent"@, quoted(p.chosen_intent@)),
        member("reply_policy"@, quoted(p.reply_policy@)),
        member("sampled_probability"@, decimal_text(p.sampled_basis_points as int, -4)),
        member("seed"@, nat_text(p.seed as nat)),
    ])
}

/// Canonical text of a decision trace.
pub open spec fn trace_text(t: &DecisionTrace) -> Seq<char> {
    object(opt_member("authz"@, match t.authz {
        Some(a) => Some(authz_trace_text(&a)),
        None => None,
    }) + opt_member("gate"@, match t.gate {
        Some(g) => Some(stage_text(&g)),
        None => None,
    }) + opt_member("planner"@, match t.planner {
        Some(p) => Some(planner_trace_text(&p)),
        None => None,
    }))
}

/// Canonical text of a record, with `hash` in place of its record hash.
pub open spec fn record_text_with(r: &AuditRecord, hash: Seq<char>) -> Seq<char> {
    object(seq![
        member("action"@, quoted(r.action@)),
        member("audit_id"@, quoted(r.audit_id@)),
        member("correlation_id"@, quoted(r.correlation_id@)),
    ] + opt_member("decision_trace"@, match r.decision_trace {
        Some(t) => Some(trace_text(&t)),
        None => None,
    }) + opt_member("plan_id"@, match r.plan_id {
        Some(p) => Some(quoted(p@)),
        None => None,
    }) + seq![
        member("prev_hash"@, quoted(r.prev_hash@)),
        member("reason_code"@, quoted(r.reason_code@)),
        member("record_hash"@, quoted(hash)),
        member("result"@, quoted(r.result@)),
        member("tenant_id"@, quoted(r.tenant_id@)),
        member("ts"@, quoted(r.ts@)),
    ])
}

/// The line a record is stored as: its canonical text.
pub open spec fn record_line(r: &AuditRecord) -> Seq<char> {
    record_text_with(r, r.record_hash@)
}

/// The hash a record must carry: the hex SHA-256 of its canonical text with
/// the hash field empty.
pub open spec fn expected_hash(r: &AuditRecord) -> Seq<char> {
    hash_hex_of(record_text_with(r, Seq::empty()))
}

/// Records `0..n` form a valid chain: the first has an empty previous hash,
/// each other links to its predecessor's hash, and each carries its expected
/// hash.
pub open spec fn chain_valid(records: Seq<AuditRecord>) -> bool {
    &&& forall|i: int| 0 <= i < records.len() ==> (#[trigger] records[i]).record_hash@ == expected_hash(&records[i])
    &&& forall|i: int| 0 < i < records.len() ==> (#[trigger] records[i]).prev_hash@ == records[i - 1].record_hash@
    &&& records.len() > 0 ==> records[0].prev_hash@.len() == 0
}

/// Record `i` has the right link.
pub open spec fn link_ok(records: Seq<AuditRecord>, i: int) -> bool {
    if i == 0 {
        records[0].prev_hash@.len() == 0
    } else {
        records[i].prev_hash@ == records[i - 1].record_hash@
    }
}

/// Appends the texts, joined by commas.
pub(crate) fn write_joined(out: &mut String, parts: &Vec<String>)
    ensures
        final(out)@ == old(out)@ + joined(parts@.map_values(|s: String| s@)),
{
    let ghost views = parts@.map_values(|s: String| s@);
    let start = Ghost(out@);
    let mut i: usize = 0;
    while i < parts.len()
        invariant
            i <= parts@.len(),
            views == parts@.map_values(|s: String| s@),
            out@ == start@ + joined(views.subrange(0, i as int)),
        decreases parts@.len() - i,
    {
        if i > 0 {
            push_char(out, ',');
        }
        push_str(out, parts[i].as_str());
        proof {
            let s = views.subrange(0, i + 1);
            assert(s.drop_last() =~= views.subrange(0, i as int));
            if i == 0 {
                assert(joined(views.subrange(0, 0)) =~= Seq::<char>::empty());
                assert(s.len() == 1);
            }
        }
        i = i + 1;
    }
    assert(views.subrange(0, parts@.len() as int) =~= views);
}

/// Appends the member texts, joined by commas, as a JSON object.
fn write_object(out: &mut String, parts: &Vec<String>)
    ensures
        final(out)@ == old(out)@ + object(parts@.map_values(|s: String| s@)),
{
    let start = Ghost(out@);
    push_char(out, '{');
    write_joined(out, parts);
    push_char(out, '}');
    assert(out@ =~= start@ + object(parts@.map_values(|s: String| s@)));
}

pub(crate) fn member_exec(key: &str, value: String) -> (r: String)
    ensures
        r@ == member(key@, value@),
{
    let mut s = String::new();
    write_quoted(&mut s, key);
    push_char(&mut s, ':');
    push_str(&mut s, value.as_str());
    assert(s@ =~= member(key@, value@));
    s
}

pub(crate) fn quoted_exec(s: &str) -> (r: String)
    ensures
        r@ == quoted(s@),
{
    let mut out = String::new();
    write_quoted(&mut out, s);
    assert(out@ =~= quoted(s@));
    out
}

pub(crate) fn object_exec(parts: &Vec<String>) -> (r: String)
    ensures
        r@ == object(parts@.map_values(|s: String| s@)),
{
    let mut out = String::new();
    write_object(&mut out, parts);
    assert(out@ =~= object(parts@.map_values(|s: String| s@)));
    out
}

fn stage_text_exec(s: &StageDecision) -> (r: String)
    ensures
        r@ == stage_text(s),
{
    let mut parts: Vec<String> = Vec::new();
    parts.push(member_exec("reason_code", quoted_exec(s.reason_code.as_str())));
    parts.push(member_exec("result", quoted_exec(s.result.as_str())));
    let r = object_exec(&parts);
    assert(parts@.map_values(|x: String| x@) =~= seq![
        member("reason_code"@, quoted(s.reason_code@)),
        member("result"@, quoted(s.result@)),
    ]);
    r
}

fn authz_trace_text_exec(a: &AuthzDecisionTrace) -> (r: String)
    ensures
        r@ == authz_trace_text(a),
{
    let mut parts: Vec<String> = Vec::new();
    if let Some(p) = &a.policy_version {
        parts.push(member_exec("policy_version", quoted_exec(p.as_str())));
    }
    parts.push(member_exec("reason_code", quoted_exec(a.reason_code.as_str())));
    parts.push(member_exec("result", quoted_exec(a.result.as_str())));
    let r = object_exec(&parts);
    assert(parts@.map_values(|x: String| x@) =~= opt_member("policy_version"@, match a.policy_version {
        Some(p) => Some(quoted(p@)),
        None => None,
    }) + seq![member("reason_code"@, quoted(a.reason_code@)), member("result"@, quoted(a.result@))]);
    r
}

fn planner_trace_text_exec(p: &PlannerDecisionTrace) -> (r: String)
    ensures
        r@ == planner_trace_text(p),
{
    let mut parts: Vec<String> = Vec::new();
    parts.push(member_exec("chosen_intent", quoted_exec(p.chosen_intent.as_str())));
    parts.push(member_exec("reply_policy", quoted_exec(p.reply_policy.as_str())));
    let n = JsonNumber::new(p.sampled_basis_points as i64, -4);
    let mut prob = String::new();
    write_number(&mut prob, &n);
    assert(prob@ =~= decimal_text(p.sampled_basis_points as int, -4));
    parts.push(member_exec("sampled_probability", prob));
    let mut seed = String::new();
    write_u64(&mut seed, p.seed);
    assert(seed@ =~= nat_text(p.seed as nat));
    parts.push(member_exec("seed", seed));
    let r = object_exec(&parts);
    assert(parts@.map_values(|x: String| x@) =~= seq![
        member("chosen_intent"@, quoted(p.chosen_intent@)),
        member("reply_policy"@, quoted(p.reply_policy@)),
        member("sampled_probability"@, decimal_text(p.sampled_basis_points as int, -4)),
        member("seed"@, nat_text(p.seed as nat)),
    ]);
    r
}

fn trace_text_exec(t: &DecisionTrace) -> (r: String)
    ensures
        r@ == trace_text(t),
{
    let mut parts: Vec<String> = Vec::new();
    if let Some(a) = &t.authz {
        parts.push(member_exec("authz", authz_trace_text_exec(a)));
    }
    let ghost p1 = parts@.map_values(|x: String| x@);
    if let Some(g) = &t.gate {
        parts.push(member_exec("gate", stage_text_exec(g)));
    }
    let ghost p2 = parts@.map_values(|x: String| x@);
    if let Some(p) = &t.planner {
        parts.push(member_exec("planner", planner_trace_text_exec(p)));
    }
    let r = object_exec(&parts);
    let ghost a_part = opt_member("authz"@, match &t.authz {
        Some(a) => Some(authz_trace_text(a)),
        None => None,
    });
    let ghost g_part = opt_member("gate"@, match &t.gate {
        Some(g) => Some(stage_text(g)),
        None => None,
    });
    let ghost p_part = opt_member("planner"@, match &t.planner {
        Some(p) => Some(planner_trace_text(p)),
        None => None,
    });
    assert(p1 =~= a_part);
    assert(p2 =~= a_part + g_part);
    assert(parts@.map_values(|x: String| x@) =~= a_part + g_part + p_part);
    r
}

/// Canonical text of `rec` with `hash` as its record hash.
pub fn record_text(rec: &AuditRecord, hash: &str) -> (r: String)
    ensures
        r@ == record_text_with(rec, hash@),
{
    let mut parts: Vec<String> = Vec::new();
    parts.push(member_exec("action", quoted_exec(rec.action.as_str())));
    parts.push(member_exec("audit_id", quoted_exec(rec.audit_id.as_str())));
    parts.push(member_exec("correlation_id", quoted_exec(rec.correlation_id.as_str())));
    let ghost p1 = parts@.map_values(|x: String| x@);
    if let Some(t) = &rec.decision_trace {
        parts.push(member_exec("decision_trace", trace_text_exec(t)));
    }
    let ghost p2 = parts@.map_values(|x: String| x@);
    if let Some(p) = &rec.plan_id {
        parts.push(member_exec("plan_id", quoted_exec(p.as_str())));
    }
    let ghost p3 = parts@.map_values(|x: String| x@);
    parts.push(member_exec("prev_hash", quoted_exec(rec.prev_hash.as_str())));
    parts.push(member_exec("reason_code", quoted_exec(rec.reason_code.as_str())));
    parts.push(member_exec("record_hash", quoted_exec(hash)));
    parts.push(member_exec("result", quoted_exec(rec.result.as_str())));
    parts.push(member_exec("tenant_id", quoted_exec(rec.tenant_id.as_str())));
    parts.push(member_exec("ts", quoted_exec(rec.ts.as_str())));
    let r = object_exec(&parts);
    let ghost head = seq![
        member("action"@, quoted(rec.action@)),
        member("audit_id"@, quoted(rec.audit_id@)),
        member("correlation_id"@, quoted(rec.correlation_id@)),
    ];
    let ghost t_part = opt_member("decision_trace"@, match &rec.decision_trace {
        Some(t) => Some(trace_text(t)),
        None => None,
    });
    let ghost p_part = opt_member("plan_id"@, match &rec.plan_id {
        Some(p) => Some(quoted(p@)),
        None => None,
    });
    let ghost tail = seq![
        member("prev_hash"@, quoted(rec.prev_hash@)),
        member("reason_code"@, quoted(rec.reason_code@)),
        member("record_hash"@, quoted(hash@)),
        member("result"@, quoted(rec.result@)),
        member("tenant_id"@, quoted(rec.tenant_id@)),
        member("ts"@, quoted(rec.ts@)),
    ];
    assert(p1 =~= head);
    assert(p2 =~= head + t_part);
    assert(p3 =~= head + t_part + p_part);
    assert(parts@.map_values(|x: String| x@) =~= head + t_part + p_part + tail);
    r
}

/// The hash `rec` must carry.
pub fn compute_record_hash(rec: &AuditRecord) -> (r: String)
    ensures
        r@ == expected_hash(rec),
{
    let text = record_text(rec, "");
    proof {
        reveal_strlit("");
    }
    assert(""@ =~= Seq::<char>::empty());
    hash_hex(text.as_str())
}

impl AuditRecord {
    /// A record without trace, stamped with a fresh random id and the RFC 3339
    /// text of server time `now`; the hash fields are filled on append.
    pub fn new(
        tenant_id: &str,
        correlation_id: &str,
        action: &str,
        result: &str,
        reason_code: &str,
        plan_id: Option<String>,
        now: i64,
    ) -> (r: AuditRecord)
        ensures
            r.tenant_id@ == tenant_id@,
            r.correlation_id@ == correlation_id@,
            r.action@ == action@,
            r.result@ == result@,
            r.reason_code@ == reason_code@,
            r.plan_id == plan_id,
            r.ts@ == rfc3339_text(now as int),
            r.audit_id@.len() == 38,
            r.decision_trace is None,
            r.prev_hash@.len() == 0,
            r.record_hash@.len() == 0,
    {
        let mut audit_id = owned("audit_");
        let suffix = random_uuid_simple();
        push_str(&mut audit_id, suffix.as_str());
        proof {
            reveal_strlit("audit_");
        }
        AuditRecord {
            audit_id,
            tenant_id: owned(tenant_id),
            correlation_id: owned(correlation_id),
            action: owned(action),
            result: owned(result),
            reason_code: owned(reason_code),
            ts: format_rfc3339(now),
            plan_id,
            decision_trace: None,
            prev_hash: String::new(),
            record_hash: String::new(),
        }
    }
}

/// The head of the audit chain, and the records appended but not yet
/// written out.
pub struct AuditChain {
    /// Hash of the last record; empty before the first.
    pub tip: String,
    pub outbox: Vec<AuditRecord>,
}

impl AuditChain {
    /// A chain continuing after the record whose hash is `tip` (empty for a
    /// new log).
    pub fn new(tip: String) -> (r: AuditChain)
        ensures
            r.tip == tip,
            r.outbox@.len() == 0,
    {
        AuditChain { tip, outbox: Vec::new() }
    }

    /// Links `rec` to the tip, fills its hash, makes it the new tip and
    /// queues it for writing.
    pub fn append(&mut self, rec: AuditRecord)
        ensures
            final(self).outbox@.len() == old(self).outbox@.len() + 1,
            final(self).outbox@.subrange(0, old(self).outbox@.len() as int) == old(self).outbox@,
            ({
                let r = final(self).outbox@.last();
                &&& r.prev_hash@ == old(self).tip@
                &&& r.record_hash@ == expected_hash(&r)
                &&& final(self).tip@ == r.record_hash@
                &&& r.audit_id == rec.audit_id && r.tenant_id == rec.tenant_id
                &&& r.correlation_id == rec.correlation_id && r.action == rec.action
                &&& r.result == rec.result && r.reason_code == rec.reason_code
                &&& r.ts == rec.ts && r.plan_id == rec.plan_id
                &&& r.decision_trace == rec.decision_trace
            }),
    {
        let mut rec = rec;
        rec.prev_hash = self.tip.clone();
        let h = compute_record_hash(&rec);
        rec.record_hash = h.clone();
        self.tip = h;
        self.outbox.push(rec);
    }

    /// Moves the tip back before `unwritten`, records handed out that no sink
    /// took: the next record links to the last one written.
    pub fn rewind(&mut self, unwritten: &Vec<AuditRecord>)
        ensures
            unwritten@.len() > 0 ==> final(self).tip@ == unwritten@[0].prev_hash@,
            unwritten@.len() == 0 ==> final(self).tip == old(self).tip,
            final(self).outbox == old(self).outbox,
    {
        if unwritten.len() > 0 {
            self.tip = unwritten[0].prev_hash.clone();
        }
    }

    /// Hands out the queued records, oldest first, leaving the queue empty.
    pub fn take_outbox(&mut self) -> (r: Vec<AuditRecord>)
        ensures
            r@ == old(self).outbox@,
            final(self).outbox@.len() == 0,
            final(self).tip == old(self).tip,
    {
        let r = self.outbox.split_off(0);
        assert(old(self).outbox@.subrange(0, old(self).outbox@.len() as int) == old(self).outbox@);
        r
    }
}

/// The text a record is written as.
pub fn audit_line(rec: &AuditRecord) -> (r: String)
    ensures
        r@ == record_line(rec),
{
    record_text(rec, rec.record_hash.as_str())
}

/// Record `i` is linked and hashed correctly.
pub open spec fn record_ok(records: Seq<AuditRecord>, i: int) -> bool {
    link_ok(records, i) && records[i].record_hash@ == expected_hash(&records[i])
}

/// Message for the first bad record, at index `i` (line `i + 1`).
pub open spec fn chain_error(records: Seq<AuditRecord>, i: int) -> Seq<char> {
    "line "@ + nat_text((i + 1) as nat) + if !link_ok(records, i) {
        " prev_hash mismatch"@
    } else {
        " record_hash mismatch"@
    }
}

/// Message for a verified chain of `n` records.
pub open spec fn chain_ok_message(n: nat) -> Seq<char> {
    "audit chain verified: "@ + nat_text(n) + " records"@
}

proof fn lemma_chain_valid_iff(records: Seq<AuditRecord>)
    ensures
        chain_valid(records) <==> forall|i: int| 0 <= i < records.len() ==> #[trigger] record_ok(records, i),
{
    if chain_valid(records) {
        assert forall|i: int| 0 <= i < records.len() implies #[trigger] record_ok(records, i) by {
            if i > 0 {
                assert(records[i].prev_hash@ == records[i - 1].record_hash@);
            }
        }
    }
    if forall|i: int| 0 <= i < records.len() ==> #[trigger] record_ok(records, i) {
        assert forall|i: int| 0 <= i < records.len() implies (#[trigger] records[i]).record_hash@
            == expected_hash(&records[i]) by {
            assert(record_ok(records, i));
        }
        assert forall|i: int| 0 < i < records.len() implies (#[trigger] records[i]).prev_hash@
            == records[i - 1].record_hash@ by {
            assert(record_ok(records, i));
        }
        if records.len() > 0 {
            assert(record_ok(records, 0));
        }
    }
}

fn check_chain(records: &Vec<AuditRecord>) -> (r: Option<usize>)
    ensures
        match r {
            None => chain_valid(records@),
            Some(i) => i < records@.len() && !record_ok(records@, i as int) && forall|j: int|
                0 <= j < i ==> #[trigger] record_ok(records@, j),
        },
{
    let mut i: usize = 0;
    while i < records.len()
        invariant
            i <= records@.len(),
            forall|j: int| 0 <= j < i ==> #[trigger] record_ok(records@, j),
        decreases records@.len() - i,
    {
        let rec = &records[i];
        let link = if i == 0 {
            rec.prev_hash.as_str().unicode_len() == 0
        } else {
            str_eq(rec.prev_hash.as_str(), records[i - 1].record_hash.as_str())
        };
        let expected = compute_record_hash(rec);
        let hash_ok = str_eq(rec.record_hash.as_str(), expected.as_str());
        if !(link && hash_ok) {
            return Some(i);
        }
        i = i + 1;
    }
    proof {
        lemma_chain_valid_iff(records@);
    }
    None
}

fn chain_error_exec(records: &Vec<AuditRecord>, i: usize) -> (r: String)
    requires
        i < records@.len(),
    ensures
        r@ == chain_error(records@, i as int),
{
    let n = records.len();
    assert(i < n);
    let mut msg = owned("line ");
    write_u64(&mut msg, (i + 1) as u64);
    let link = if i == 0 {
        records[i].prev_hash.as_str().unicode_len() == 0
    } else {
        str_eq(records[i].prev_hash.as_str(), records[i - 1].record_hash.as_str())
    };
    if !link {
        push_str(&mut msg, " prev_hash mismatch");
    } else {
        push_str(&mut msg, " record_hash mismatch");
    }
    assert(msg@ =~= chain_error(records@, i as int));
    msg
}

fn ok_message(n: usize) -> (r: String)
    ensures
        r@ == chain_ok_message(n as nat),
{
    let mut msg = owned("audit chain verified: ");
    write_u64(&mut msg, n as u64);
    push_str(&mut msg, " records");
    assert(msg@ =~= chain_ok_message(n as nat));
    msg
}

/// Verifies an audit log, given as its records in order: accepted exactly
/// when the chain is valid; otherwise the message names the first bad line.
pub fn verify_audit_chain(records: &Vec<AuditRecord>) -> (r: Result<String, String>)
    ensures
        r is Ok <==> chain_valid(records@),
        r is Ok ==> r->Ok_0@ == chain_ok_message(records@.len()),
        r is Err ==> exists|i: int|
            0 <= i < records@.len() && !record_ok(records@, i) && (forall|j: int|
                0 <= j < i ==> #[trigger] record_ok(records@, j)) && r->Err_0@ == chain_error(
                records@,
                i,
            ),
{
    match check_chain(records) {
        None => Ok(ok_message(records.len())),
        Some(i) => {
            proof {
                lemma_chain_valid_iff(records@);
            }
            Err(chain_error_exec(records, i))
        },
    }
}

/// The mirror holds the same records as the main log: same count, same
/// hashes in the same order.
pub open spec fn mirror_matches(main: Seq<AuditRecord>, mirror: Seq<AuditRecord>) -> bool {
    main.len() == mirror.len() && forall|i: int|
        0 <= i < main.len() ==> (#[trigger] main[i]).record_hash@ == mirror[i].record_hash@
}

fn first_divergence(a: &Vec<AuditRecord>, b: &Vec<AuditRecord>) -> (r: Option<usize>)
    requires
        a@.len() == b@.len(),
    ensures
        r is None <==> mirror_matches(a@, b@),
        r is Some ==> r->0 < a@.len() && a@[r->0 as int].record_hash@ != b@[r->0 as int].record_hash@
            && forall|j: int| 0 <= j < r->0 ==> (#[trigger] a@[j]).record_hash@ == b@[j].record_hash@,
{
    let mut i: usize = 0;
    while i < a.len()
        invariant
            i <= a@.len(),
            a@.len() == b@.len(),
            forall|j: int| 0 <= j < i ==> (#[trigger] a@[j]).record_hash@ == b@[j].record_hash@,
        decreases a@.len() - i,
    {
        if !str_eq(a[i].record_hash.as_str(), b[i].record_hash.as_str()) {
            return Some(i);
        }
        i = i + 1;
    }
    None
}

/// `msg` reports the first bad record of `records`.
pub open spec fn chain_failure(records: Seq<AuditRecord>, msg: Seq<char>) -> bool {
    exists|i: int|
        0 <= i < records.len() && !record_ok(records, i) && (forall|j: int|
            0 <= j < i ==> #[trigger] record_ok(records, j)) && msg == chain_error(records, i)
}

/// Message for a log and its mirror that hold different numbers of records.
pub open spec fn count_divergence(n: nat, k: nat) -> Seq<char> {
    "mirror divergence: record count differs (primary="@ + nat_text(n) + ", mirror="@ + nat_text(k) + ")"@
}

/// Message for the first line `i` (from 0) at which log and mirror differ.
pub open spec fn line_divergence(main: Seq<AuditRecord>, mirror: Seq<AuditRecord>, i: int) -> Seq<char> {
    "mirror divergence at line "@ + nat_text((i + 1) as nat) + ": primary_hash="@ + main[i].record_hash@
        + " mirror_hash="@ + mirror[i].record_hash@
}

/// Verifies an audit log and, when given, its mirror (named by its path):
/// each must be a valid chain on its own, and the mirror must match the log
/// record for record. The first failure found is reported: the log's own
/// chain, then the mirror's, then the record counts, then the first line
/// whose hashes differ.
pub fn verify_audit_chain_with_mirror(records: &Vec<AuditRecord>, mirror: Option<(&str, &Vec<AuditRecord>)>) -> (r: Result<String, String>)
    ensures
        r is Ok <==> chain_valid(records@) && match mirror {
            Some((_, m)) => chain_valid(m@) && mirror_matches(records@, m@),
            None => true,
        },
        !chain_valid(records@) ==> r is Err && chain_failure(records@, r->Err_0@),
        match mirror {
            None => r is Ok ==> r->Ok_0@ == chain_ok_message(records@.len()),
            Some((path, m)) => chain_valid(records@) ==> if !chain_valid(m@) {
                r is Err && chain_failure(m@, r->Err_0@)
            } else if records@.len() != m@.len() {
                r is Err && r->Err_0@ == count_divergence(records@.len(), m@.len())
            } else if !mirror_matches(records@, m@) {
                r is Err && exists|i: int|
                    0 <= i < records@.len() && records@[i].record_hash@ != m@[i].record_hash@ && (forall|j: int|
                        0 <= j < i ==> (#[trigger] records@[j]).record_hash@ == m@[j].record_hash@)
                        && r->Err_0@ == line_divergence(records@, m@, i)
            } else {
                r is Ok && r->Ok_0@ == "audit chain verified: "@ + nat_text(records@.len()) + " records (mirror matched: "@
                    + path@ + ")"@
            },
        },
{
    let main = verify_audit_chain(records);
    match mirror {
        None => main,
        Some((path, m)) => {
            if main.is_err() {
                return main;
            }
            let second = verify_audit_chain(m);
            if second.is_err() {
                return second;
            }
            if records.len() != m.len() {
                let mut msg = owned("mirror divergence: record count differs (primary=");
                write_u64(&mut msg, records.len() as u64);
                push_str(&mut msg, ", mirror=");
                write_u64(&mut msg, m.len() as u64);
                push_str(&mut msg, ")");
                assert(msg@ =~= count_divergence(records@.len(), m@.len()));
                return Err(msg);
            }
            if let Some(i) = first_divergence(records, m) {
                let mut msg = owned("mirror divergence at line ");
                write_u64(&mut msg, (i + 1) as u64);
                push_str(&mut msg, ": primary_hash=");
                push_str(&mut msg, records[i].record_hash.as_str());
                push_str(&mut msg, " mirror_hash=");
                push_str(&mut msg, m[i].record_hash.as_str());
                assert(msg@ =~= line_divergence(records@, m@, i as int));
                return Err(msg);
            }
            let mut msg = owned("audit chain verified: ");
            write_u64(&mut msg, records.len() as u64);
            push_str(&mut msg, " records (mirror matched: ");
            push_str(&mut msg, path);
            push_str(&mut msg, ")");
            Ok(msg)
        },
    }
}

/// A chain stays valid when a record is appended that links to the last
/// hash (the empty text for the first record) and carries its expected hash.
pub proof fn append_keeps_chain_valid(records: Seq<AuditRecord>, rec: AuditRecord)
    requires
        chain_valid(records),
        rec.prev_hash@ == (if records.len() == 0 { Seq::<char>::empty() } else { records.last().record_hash@ }),
        rec.record_hash@ == expected_hash(&rec),
    ensures
        chain_valid(records.push(rec)),
{
    let s = records.push(rec);
    assert forall|i: int| 0 <= i < s.len() implies (#[trigger] s[i]).record_hash@ == expected_hash(&s[i]) by {
        if i < records.len() {
            assert(s[i] == records[i]);
        }
    }
    assert forall|i: int| 0 < i < s.len() implies (#[trigger] s[i]).prev_hash@ == s[i - 1].record_hash@ by {
        if i < records.len() {
            assert(s[i] == records[i]);
            assert(s[i - 1] == records[i - 1]);
        }
    }
}

} // verus!
