//! Canonical texts of the payloads the gateway fingerprints or sends: events,
//! lifecycle events, action results and authorization requests.
use vstd::prelude::*;
use crate::audit::{joined, member, member_exec, object, object_exec, quoted_exec, write_joined};
use crate::contracts::{Actor, ActionResult, JobCancelRequest, ActionResultError, ApprovalEvent, Event, JobStatusEvent, CONTRACT_VERSION};
use crate::json::{canonical, quoted, write_canonical_entries, JsonValue};
use crate::text::{int_text, push_char, write_i64};

verus! {

/// Canonical text of a text array.
pub open spec fn strings_text(items: Seq<String>) -> Seq<char> {
    seq!['['] + joined(items.map_values(|s: String| quoted(s@))) + seq![']']
}

/// Canonical text of an optional text: the quoted text, or `null`.
pub open spec fn opt_text(v: Option<String>) -> Seq<char> {
    match v {
        Some(s) => quoted(s@),
        None => "null"@,
    }
}

/// Canonical text of an actor.
pub open spec fn actor_text(a: &Actor) -> Seq<char> {
    object(seq![
        member("claims"@, canonical(JsonValue::Object(a.claims))),
        member("id"@, quoted(a.id@)),
        member("roles"@, strings_text(a.roles@)),
        member("type"@, quoted(a.actor_type@)),
    ])
}

/// Canonical text of an event: the text its fingerprint is taken over.
pub open spec fn event_text(e: &Event) -> Seq<char> {
    object(seq![
        member("actor"@, actor_text(&e.actor)),
        member("content"@, object(seq![
            member("reply_to"@, opt_text(e.content.reply_to)),
            member("text"@, quoted(e.content.text@)),
            member("type"@, quoted(e.content.content_type@)),
        ])),
        member("event_id"@, quoted(e.event_id@)),
        member("extensions"@, canonical(JsonValue::Object(e.extensions))),
        member("room_id"@, quoted(e.room_id@)),
        member("source"@, quoted(e.source@)),
        member("tenant_id"@, quoted(e.tenant_id@)),
        member("ts"@, quoted(e.ts@)),
        member("v"@, int_text(e.v as int)),
    ])
}

/// Canonical text of a job status event.
pub open spec fn job_status_text(e: &JobStatusEvent) -> Seq<char> {
    object(seq![
        member("event_id"@, quoted(e.event_id@)),
        member("job_id"@, quoted(e.job_id@)),
        member("reason_code"@, opt_text(e.reason_code)),
        member("status"@, quoted(e.status@)),
        member("tenant_id"@, quoted(e.tenant_id@)),
        member("ts"@, quoted(e.ts@)),
        member("v"@, int_text(e.v as int)),
    ])
}

/// Canonical text of a job cancel request.
pub open spec fn job_cancel_text(e: &JobCancelRequest) -> Seq<char> {
    object(seq![
        member("event_id"@, quoted(e.event_id@)),
        member("job_id"@, quoted(e.job_id@)),
        member("reason_code"@, opt_text(e.reason_code)),
        member("tenant_id"@, quoted(e.tenant_id@)),
        member("ts"@, quoted(e.ts@)),
        member("v"@, int_text(e.v as int)),
    ])
}

/// Canonical text of an approval event.
pub open spec fn approval_text(e: &ApprovalEvent) -> Seq<char> {
    object(seq![
        member("approval_id"@, quoted(e.approval_id@)),
        member("event_id"@, quoted(e.event_id@)),
        member("reason_code"@, opt_text(e.reason_code)),
        member("status"@, quoted(e.status@)),
        member("tenant_id"@, quoted(e.tenant_id@)),
        member("ts"@, quoted(e.ts@)),
        member("v"@, int_text(e.v as int)),
    ])
}

/// Canonical text of an action error.
pub open spec fn error_text(e: &ActionResultError) -> Seq<char> {
    object(seq![
        member("code"@, opt_text(e.code)),
        member("details"@, canonical(JsonValue::Object(e.details))),
        member("message"@, opt_text(e.message)),
    ])
}

/// Canonical text of an action result.
pub open spec fn action_result_text(r: &ActionResult) -> Seq<char> {
    object(seq![
        member("action_id"@, quoted(r.action_id@)),
        member("error"@, match r.error {
            Some(e) => error_text(&e),
            None => "null"@,
        }),
        member("plan_id"@, quoted(r.plan_id@)),
        member("provider_message_id"@, opt_text(r.provider_message_id)),
        member("reason_code"@, opt_text(r.reason_code)),
        member("status"@, quoted(r.status@)),
        member("tenant_id"@, quoted(r.tenant_id@)),
        member("ts"@, quoted(r.ts@)),
        member("v"@, int_text(r.v as int)),
    ])
}

/// Body of the request sent to the external authorizer for an event.
pub open spec fn authz_request_text(e: &Event) -> Seq<char> {
    object(seq![
        member("actor"@, actor_text(&e.actor)),
        member("correlation_id"@, quoted(e.event_id@)),
        member("request"@, object(seq![
            member("action"@, quoted("process_event"@)),
            member("context"@, object(seq![member("event_id"@, quoted(e.event_id@))])),
            member("resource"@, object(seq![
                member("attributes"@, object(seq![member("source"@, quoted(e.source@))])),
                member("id"@, quoted(e.room_id@)),
                member("type"@, quoted("room"@)),
            ])),
        ])),
        member("tenant_id"@, quoted(e.tenant_id@)),
        member("v"@, int_text(CONTRACT_VERSION as int)),
    ])
}

fn entries_text(entries: &Vec<(String, JsonValue)>) -> (r: String)
    ensures
        r@ == canonical(JsonValue::Object(*entries)),
{
    let mut s = String::new();
    write_canonical_entries(&mut s, entries);
    assert(s@ =~= canonical(JsonValue::Object(*entries)));
    s
}

fn int_text_exec(v: i32) -> (r: String)
    ensures
        r@ == int_text(v as int),
{
    let mut s = String::new();
    write_i64(&mut s, v as i64);
    assert(s@ =~= int_text(v as int));
    s
}

fn opt_text_exec(v: &Option<String>) -> (r: String)
    ensures
        r@ == opt_text(*v),
{
    match v {
        Some(s) => quoted_exec(s.as_str()),
        None => "null".to_owned(),
    }
}

fn strings_text_exec(items: &Vec<String>) -> (r: String)
    ensures
        r@ == strings_text(items@),
{
    let mut parts: Vec<String> = Vec::new();
    let mut i: usize = 0;
    while i < items.len()
        invariant
            i <= items@.len(),
            parts@.len() == i,
            forall|j: int| 0 <= j < i ==> (#[trigger] parts@[j])@ == quoted(items@[j]@),
        decreases items@.len() - i,
    {
        parts.push(quoted_exec(items[i].as_str()));
        i = i + 1;
    }
    let mut out = String::new();
    push_char(&mut out, '[');
    write_joined(&mut out, &parts);
    push_char(&mut out, ']');
    assert(parts@.map_values(|s: String| s@) =~= items@.map_values(|s: String| quoted(s@)));
    assert(out@ =~= strings_text(items@));
    out
}

fn actor_text_exec(a: &Actor) -> (r: String)
    ensures
        r@ == actor_text(a),
{
    let mut parts: Vec<String> = Vec::new();
    parts.push(member_exec("claims", entries_text(&a.claims)));
    parts.push(member_exec("id", quoted_exec(a.id.as_str())));
    parts.push(member_exec("roles", strings_text_exec(&a.roles)));
    parts.push(member_exec("type", quoted_exec(a.actor_type.as_str())));
    let r = object_exec(&parts);
    assert(parts@.map_values(|s: String| s@) =~= seq![
        member("claims"@, canonical(JsonValue::Object(a.claims))),
        member("id"@, quoted(a.id@)),
        member("roles"@, strings_text(a.roles@)),
        member("type"@, quoted(a.actor_type@)),
    ]);
    r
}

/// Canonical text of an event.
pub fn event_canonical(e: &Event) -> (r: String)
    ensures
        r@ == event_text(e),
{
    let mut content: Vec<String> = Vec::new();
    content.push(member_exec("reply_to", opt_text_exec(&e.content.reply_to)));
    content.push(member_exec("text", quoted_exec(e.content.text.as_str())));
    content.push(member_exec("type", quoted_exec(e.content.content_type.as_str())));
    let content_text = object_exec(&content);
    assert(content@.map_values(|s: String| s@) =~= seq![
        member("reply_to"@, opt_text(e.content.reply_to)),
        member("text"@, quoted(e.content.text@)),
        member("type"@, quoted(e.content.content_type@)),
    ]);
    let mut parts: Vec<String> = Vec::new();
    parts.push(member_exec("actor", actor_text_exec(&e.actor)));
    parts.push(member_exec("content", content_text));
    parts.push(member_exec("event_id", quoted_exec(e.event_id.as_str())));
    parts.push(member_exec("extensions", entries_text(&e.extensions)));
    parts.push(member_exec("room_id", quoted_exec(e.room_id.as_str())));
    parts.push(member_exec("source", quoted_exec(e.source.as_str())));
    parts.push(member_exec("tenant_id", quoted_exec(e.tenant_id.as_str())));
    parts.push(member_exec("ts", quoted_exec(e.ts.as_str())));
    parts.push(member_exec("v", int_text_exec(e.v)));
    let r = object_exec(&parts);
    assert(parts@.map_values(|s: String| s@) =~= seq![
        member("actor"@, actor_text(&e.actor)),
        member("content"@, object(seq![
            member("reply_to"@, opt_text(e.content.reply_to)),
            member("text"@, quoted(e.content.text@)),
            member("type"@, quoted(e.content.content_type@)),
        ])),
        member("event_id"@, quoted(e.event_id@)),
        member("extensions"@, canonical(JsonValue::Object(e.extensions))),
        member("room_id"@, quoted(e.room_id@)),
        member("source"@, quoted(e.source@)),
        member("tenant_id"@, quoted(e.tenant_id@)),
        member("ts"@, quoted(e.ts@)),
        member("v"@, int_text(e.v as int)),
    ]);
    r
}

/// Canonical text of a job status event.
pub fn job_status_canonical(e: &JobStatusEvent) -> (r: String)
    ensures
        r@ == job_status_text(e),
{
    let mut parts: Vec<String> = Vec::new();
    parts.push(member_exec("event_id", quoted_exec(e.event_id.as_str())));
    parts.push(member_exec("job_id", quoted_exec(e.job_id.as_str())));
    parts.push(member_exec("reason_code", opt_text_exec(&e.reason_code)));
    parts.push(member_exec("status", quoted_exec(e.status.as_str())));
    parts.push(member_exec("tenant_id", quoted_exec(e.tenant_id.as_str())));
    parts.push(member_exec("ts", quoted_exec(e.ts.as_str())));
    parts.push(member_exec("v", int_text_exec(e.v)));
    let r = object_exec(&parts);
    assert(parts@.map_values(|s: String| s@) =~= seq![
        member("event_id"@, quoted(e.event_id@)),
        member("job_id"@, quoted(e.job_id@)),
        member("reason_code"@, opt_text(e.reason_code)),
        member("status"@, quoted(e.status@)),
        member("tenant_id"@, quoted(e.tenant_id@)),
        member("ts"@, quoted(e.ts@)),
        member("v"@, int_text(e.v as int)),
    ]);
    r
}

/// Canonical text of a job cancel request.
pub fn job_cancel_canonical(e: &JobCancelRequest) -> (r: String)
    ensures
        r@ == job_cancel_text(e),
{
    let mut parts: Vec<String> = Vec::new();
    parts.push(member_exec("event_id", quoted_exec(e.event_id.as_str())));
    parts.push(member_exec("job_id", quoted_exec(e.job_id.as_str())));
    parts.push(member_exec("reason_code", opt_text_exec(&e.reason_code)));
    parts.push(member_exec("tenant_id", quoted_exec(e.tenant_id.as_str())));
    parts.push(member_exec("ts", quoted_exec(e.ts.as_str())));
    parts.push(member_exec("v", int_text_exec(e.v)));
    let r = object_exec(&parts);
    assert(parts@.map_values(|s: String| s@) =~= seq![
        member("event_id"@, quoted(e.event_id@)),
        member("job_id"@, quoted(e.job_id@)),
        member("reason_code"@, opt_text(e.reason_code)),
        member("tenant_id"@, quoted(e.tenant_id@)),
        member("ts"@, quoted(e.ts@)),
        member("v"@, int_text(e.v as int)),
    ]);
    r
}

/// Canonical text of an approval event.
pub fn approval_canonical(e: &ApprovalEvent) -> (r: String)
    ensures
        r@ == approval_text(e),
{
    let mut parts: Vec<String> = Vec::new();
    parts.push(member_exec("approval_id", quoted_exec(e.approval_id.as_str())));
    parts.push(member_exec("event_id", quoted_exec(e.event_id.as_str())));
    parts.push(member_exec("reason_code", opt_text_exec(&e.reason_code)));
    parts.push(member_exec("status", quoted_exec(e.status.as_str())));
    parts.push(member_exec("tenant_id", quoted_exec(e.tenant_id.as_str())));
    parts.push(member_exec("ts", quoted_exec(e.ts.as_str())));
    parts.push(member_exec("v", int_text_exec(e.v)));
    let r = object_exec(&parts);
    assert(parts@.map_values(|s: String| s@) =~= seq![
        member("approval_id"@, quoted(e.approval_id@)),
        member("event_id"@, quoted(e.event_id@)),
        member("reason_code"@, opt_text(e.reason_code)),
        member("status"@, quoted(e.status@)),
        member("tenant_id"@, quoted(e.tenant_id@)),
        member("ts"@, quoted(e.ts@)),
        member("v"@, int_text(e.v as int)),
    ]);
    r
}

/// Canonical text of an action error.
pub fn error_canonical(e: &ActionResultError) -> (r: String)
    ensures
        r@ == error_text(e),
{
    let mut parts: Vec<String> = Vec::new();
    parts.push(member_exec("code", opt_text_exec(&e.code)));
    parts.push(member_exec("details", entries_text(&e.details)));
    parts.push(member_exec("message", opt_text_exec(&e.message)));
    let r = object_exec(&parts);
    assert(parts@.map_values(|s: String| s@) =~= seq![
        member("code"@, opt_text(e.code)),
        member("details"@, canonical(JsonValue::Object(e.details))),
        member("message"@, opt_text(e.message)),
    ]);
    r
}

/// Canonical text of an action result.
pub fn action_result_canonical(a: &ActionResult) -> (r: String)
    ensures
        r@ == action_result_text(a),
{
    let err = match &a.error {
        Some(e) => error_canonical(e),
        None => "null".to_owned(),
    };
    let mut parts: Vec<String> = Vec::new();
    parts.push(member_exec("action_id", quoted_exec(a.action_id.as_str())));
    parts.push(member_exec("error", err));
    parts.push(member_exec("plan_id", quoted_exec(a.plan_id.as_str())));
    parts.push(member_exec("provider_message_id", opt_text_exec(&a.provider_message_id)));
    parts.push(member_exec("reason_code", opt_text_exec(&a.reason_code)));
    parts.push(member_exec("status", quoted_exec(a.status.as_str())));
    parts.push(member_exec("tenant_id", quoted_exec(a.tenant_id.as_str())));
    parts.push(member_exec("ts", quoted_exec(a.ts.as_str())));
    parts.push(member_exec("v", int_text_exec(a.v)));
    let r = object_exec(&parts);
    assert(parts@.map_values(|s: String| s@) =~= seq![
        member("action_id"@, quoted(a.action_id@)),
        member("error"@, match a.error {
            Some(e) => error_text(&e),
            None => "null"@,
        }),
        member("plan_id"@, quoted(a.plan_id@)),
        member("provider_message_id"@, opt_text(a.provider_message_id)),
        member("reason_code"@, opt_text(a.reason_code)),
        member("status"@, quoted(a.status@)),
        member("tenant_id"@, quoted(a.tenant_id@)),
        member("ts"@, quoted(a.ts@)),
        member("v"@, int_text(a.v as int)),
    ]);
    r
}

/// Body of the request sent to the external authorizer for `e`.
pub fn authz_request_body(e: &Event) -> (r: String)
    ensures
        r@ == authz_request_text(e),
{
    let mut ctx: Vec<String> = Vec::new();
    ctx.push(member_exec("event_id", quoted_exec(e.event_id.as_str())));
    let ctx_text = object_exec(&ctx);
    assert(ctx@.map_values(|s: String| s@) =~= seq![member("event_id"@, quoted(e.event_id@))]);
    let mut attrs: Vec<String> = Vec::new();
    attrs.push(member_exec("source", quoted_exec(e.source.as_str())));
    let attrs_text = object_exec(&attrs);
    assert(attrs@.map_values(|s: String| s@) =~= seq![member("source"@, quoted(e.source@))]);
    let mut res: Vec<String> = Vec::new();
    res.push(member_exec("attributes", attrs_text));
    res.push(member_exec("id", quoted_exec(e.room_id.as_str())));
    res.push(member_exec("type", quoted_exec("room")));
    let res_text = object_exec(&res);
    assert(res@.map_values(|s: String| s@) =~= seq![
        member("attributes"@, object(seq![member("source"@, quoted(e.source@))])),
        member("id"@, quoted(e.room_id@)),
        member("type"@, quoted("room"@)),
    ]);
    let mut req: Vec<String> = Vec::new();
    req.push(member_exec("action", quoted_exec("process_event")));
    req.push(member_exec("context", ctx_text));
    req.push(member_exec("resource", res_text));
    let req_text = object_exec(&req);
    assert(req@.map_values(|s: String| s@) =~= seq![
        member("action"@, quoted("process_event"@)),
        member("context"@, object(seq![member("event_id"@, quoted(e.event_id@))])),
        member("resource"@, object(seq![
            member("attributes"@, object(seq![member("source"@, quoted(e.source@))])),
            member("id"@, quoted(e.room_id@)),
            member("type"@, quoted("room"@)),
        ])),
    ]);
    let mut parts: Vec<String> = Vec::new();
    parts.push(member_exec("actor", actor_text_exec(&e.actor)));
    parts.push(member_exec("correlation_id", quoted_exec(e.event_id.as_str())));
    parts.push(member_exec("request", req_text));
    parts.push(member_exec("tenant_id", quoted_exec(e.tenant_id.as_str())));
    parts.push(member_exec("v", int_text_exec(CONTRACT_VERSION)));
    let r = object_exec(&parts);
    assert(parts@.map_values(|s: String| s@) =~= seq![
        member("actor"@, actor_text(&e.actor)),
        member("correlation_id"@, quoted(e.event_id@)),
        member("request"@, req_text@),
        member("tenant_id"@, quoted(e.tenant_id@)),
        member("v"@, int_text(CONTRACT_VERSION as int)),
    ]);
    r
}

} // verus!
