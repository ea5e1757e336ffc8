use arbiter::contracts::{ActionType, Actor, Event, EventContent, ResponsePlan};
use arbiter::digest::{action_id, hash_hex, is_sha256_hex, plan_id, planner_basis_points, planner_seed};
use arbiter::kernel::{
    decide_intent, do_nothing_plan, evaluate_gate, is_valid_approval_transition, is_valid_job_transition,
    mentions, minute_bucket, send_plan, GateConfig, GateDecision, Intent, PlannerConfig, RoomState,
};
use arbiter::pipeline::validate_response_plan;

fn ev(id: &str) -> Event {
    Event {
        v: 0,
        event_id: id.to_string(),
        tenant_id: "t1".to_string(),
        source: "s".to_string(),
        room_id: "r1".to_string(),
        actor: Actor { actor_type: "human".to_string(), id: "u1".to_string(), roles: vec![], claims: vec![] },
        content: EventContent { content_type: "text".to_string(), text: "hello".to_string(), reply_to: None },
        ts: "2026-01-01T00:00:00Z".to_string(),
        extensions: vec![],
    }
}

#[test]
fn deterministic_intent() {
    let cfg = PlannerConfig { reply_policy: "probabilistic".to_string(), reply_probability_bp: 5000 };
    assert_eq!(decide_intent(&ev("x"), &cfg), decide_intent(&ev("x"), &cfg));
}

#[test]
fn gate_order() {
    let mut room = RoomState::new();
    room.generating = true;
    room.pending_queue_size = 100;
    room.last_send_at = Some(0);
    let cfg = GateConfig { cooldown_ms: 1, max_queue: 1, tenant_rate_limit_per_min: 1 };
    let d = evaluate_gate(&room, 0, &cfg, 100);
    assert_eq!(d, GateDecision::Deny { reason_code: "gate_generating_lock" });
}

#[test]
fn gate_rules_in_order() {
    let cfg = GateConfig { cooldown_ms: 1000, max_queue: 2, tenant_rate_limit_per_min: 3 };
    let mut room = RoomState::new();
    room.last_send_at = Some(10_000);
    assert_eq!(evaluate_gate(&room, 10_500, &cfg, 0), GateDecision::Deny { reason_code: "gate_cooldown" });
    assert_eq!(evaluate_gate(&room, 11_000, &cfg, 0), GateDecision::Allow);
    room.pending_queue_size = 2;
    assert_eq!(evaluate_gate(&room, 11_000, &cfg, 0), GateDecision::Deny { reason_code: "gate_backpressure" });
    room.pending_queue_size = 1;
    assert_eq!(evaluate_gate(&room, 11_000, &cfg, 3), GateDecision::Deny { reason_code: "gate_tenant_rate_limit" });
    assert_eq!(evaluate_gate(&room, 11_000, &cfg, 2), GateDecision::Allow);
}

#[test]
fn planner_policies() {
    let mut e = ev("p1");
    let all = PlannerConfig { reply_policy: "all".to_string(), reply_probability_bp: 0 };
    let reply_only = PlannerConfig { reply_policy: "reply_only".to_string(), reply_probability_bp: 0 };
    let never = PlannerConfig { reply_policy: "probabilistic".to_string(), reply_probability_bp: 0 };
    let always = PlannerConfig { reply_policy: "probabilistic".to_string(), reply_probability_bp: 10000 };
    let other = PlannerConfig { reply_policy: "sometimes".to_string(), reply_probability_bp: 10000 };
    assert_eq!(decide_intent(&e, &all), Intent::Message);
    assert_eq!(decide_intent(&e, &reply_only), Intent::Ignore);
    assert_eq!(decide_intent(&e, &never), Intent::Ignore);
    assert_eq!(decide_intent(&e, &always), Intent::Message);
    assert_eq!(decide_intent(&e, &other), Intent::Ignore);
    e.content.text = "hey @ARBITER please".to_string();
    assert_eq!(decide_intent(&e, &reply_only), Intent::Reply);
    e.content.text = "x".to_string();
    e.content.reply_to = Some("m1".to_string());
    assert_eq!(decide_intent(&e, &never), Intent::Reply);
    e.content.reply_to = Some(String::new());
    assert_eq!(decide_intent(&e, &never), Intent::Ignore);
}

#[test]
fn mention_detection_ignores_ascii_case() {
    assert!(mentions("@Arbiter"));
    assert!(mentions("say hi @arbiterbot"));
    assert!(!mentions("@arbite"));
    assert!(!mentions(""));
}

#[test]
fn identifiers_have_prefix_and_length() {
    let p = plan_id("t", "e1");
    assert!(p.starts_with("plan_"));
    assert_eq!(p.len(), 21);
    assert_eq!(p, plan_id("t", "e1"));
    assert_ne!(p, plan_id("t", "e2"));
    let a = action_id(&p, "request_generation", 0);
    assert!(a.starts_with("act_"));
    assert_eq!(a.len(), 20);
    assert_ne!(a, action_id(&p, "request_generation", 1));
}

#[test]
fn sha256_hex_of_known_input() {
    assert_eq!(hash_hex(""), "e3b0c44298fc1c149afbf4c8996fb92427ae41e4649b934ca495991b7852b855");
    assert_eq!(hash_hex("abc"), "ba7816bf8f01cfea414140de5dae2223b00361a396177a9cb410ff61f20015ad");
    assert!(is_sha256_hex(&hash_hex("abc")));
    assert!(!is_sha256_hex("abc"));
}

#[test]
fn plan_id_is_prefix_of_digest_with_nul_separator() {
    let full = hash_hex("t\0e1");
    assert_eq!(plan_id("t", "e1"), format!("plan_{}", &full[..16]));
    let full = hash_hex("p\0kind\012");
    assert_eq!(action_id("p", "kind", 12), format!("act_{}", &full[..16]));
}

#[test]
fn planner_seed_reads_first_eight_digest_bytes() {
    let full = hash_hex("x");
    let expected = u64::from_str_radix(&full[..16], 16).unwrap();
    assert_eq!(planner_seed("x"), expected);
    assert_eq!(planner_basis_points("x"), expected % 10000);
}

#[test]
fn minute_bucket_floors() {
    assert_eq!(minute_bucket(0), 0);
    assert_eq!(minute_bucket(59_999), 0);
    assert_eq!(minute_bucket(60_000), 1);
    assert_eq!(minute_bucket(-1), -1);
}

#[test]
fn job_and_approval_state_machines() {
    assert!(is_valid_job_transition(None, "completed"));
    assert!(is_valid_job_transition(Some("started"), "heartbeat"));
    assert!(!is_valid_job_transition(Some("heartbeat"), "started"));
    assert!(is_valid_job_transition(Some("completed"), "completed"));
    assert!(!is_valid_job_transition(Some("completed"), "failed"));
    assert!(!is_valid_job_transition(Some("cancelled"), "started"));
    assert!(is_valid_approval_transition(Some("requested"), "approved"));
    assert!(!is_valid_approval_transition(Some("approved"), "rejected"));
    assert!(is_valid_approval_transition(Some("expired"), "expired"));
}

#[test]
fn send_plan_shapes() {
    let p = send_plan("t", "r", "act_1", "hello", Some("m1"));
    assert_eq!(p.actions[0].action_type, ActionType::SendReply);
    assert_eq!(p.plan_id, plan_id("t", "gen:act_1"));
    assert!(p.actions[0].target.contains(&("reply_to".to_string(), "m1".to_string())));
    let q = send_plan("t", "r", "act_1", "hello", None);
    assert_eq!(q.actions[0].action_type, ActionType::SendMessage);
}

#[test]
fn do_nothing_plan_carries_reason() {
    let p = do_nothing_plan("t", "r", "e", "gate_cooldown");
    assert_eq!(p.actions.len(), 1);
    assert_eq!(p.actions[0].payload, vec![("reason_code".to_string(), "gate_cooldown".to_string())]);
    assert_eq!(p.actions[0].action_id, action_id(&p.plan_id, "do_nothing", 0));
}

#[test]
fn validate_response_plan_rejects_empty_actions() {
    let p = ResponsePlan {
        v: 1,
        plan_id: "p".to_string(),
        tenant_id: "t".to_string(),
        room_id: "r".to_string(),
        actions: vec![],
        policy_decisions: vec![],
        debug: vec![],
    };
    assert!(validate_response_plan(&p).is_err());
}
