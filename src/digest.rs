//! SHA-256 digests, fingerprints and the identifiers derived from them.
use vstd::prelude::*;
use sha2::Digest;
use crate::json::{canonical, canonical_ignores_member_order, canonical_json, distinct_keys, members_within, JsonValue};
use crate::text::{byte_hex, hex_prefix, hex_text, nat_text, push_char, push_str, write_u64};

verus! {

/// The SHA-256 digest of the UTF-8 encoding of `s`.
pub uninterp spec fn sha256_of(s: Seq<char>) -> Seq<u8>;

/// Relies on `sha2::Sha256::digest`: the 32-byte SHA-256 digest of the UTF-8
/// bytes of `s`.
#[verifier::external_body]
fn sha256(s: &str) -> (r: Vec<u8>)
    ensures
        r@ == sha256_of(s@),
        r@.len() == 32,
{
    sha2::Sha256::digest(s.as_bytes()).to_vec()
}

/// Lowercase hex SHA-256 of a text.
pub open spec fn hash_hex_of(s: Seq<char>) -> Seq<char> {
    hex_text(sha256_of(s))
}

/// Fingerprint of a JSON value: hex SHA-256 of its canonical text.
pub open spec fn fingerprint_of(v: JsonValue) -> Seq<char> {
    hash_hex_of(canonical(v))
}

/// Hex of the first eight digest bytes of `s`, that is its first sixteen hex digits.
pub open spec fn short_hash(s: Seq<char>) -> Seq<char> {
    hex_text(sha256_of(s).subrange(0, 8))
}

/// `plan_` followed by the short hash of `tenant_id`, a NUL and `event_id`.
pub open spec fn plan_id_of(tenant_id: Seq<char>, event_id: Seq<char>) -> Seq<char> {
    "plan_"@ + short_hash(tenant_id + seq!['\0'] + event_id)
}

/// `act_` followed by the short hash of the plan id, the action kind and the
/// decimal index, separated by NULs.
pub open spec fn action_id_of(plan_id: Seq<char>, kind: Seq<char>, index: nat) -> Seq<char> {
    "act_"@ + short_hash(plan_id + seq!['\0'] + kind + seq!['\0'] + nat_text(index))
}

/// Big-endian unsigned value of a byte sequence.
pub open spec fn be_value(b: Seq<u8>) -> nat
    decreases b.len(),
{
    if b.len() == 0 {
        0
    } else {
        be_value(b.drop_last()) * 256 + b.last() as nat
    }
}

/// Seed of the planner's pseudo-probability: the first eight digest bytes of
/// the event id, big-endian.
pub open spec fn planner_seed_of(event_id: Seq<char>) -> nat {
    be_value(sha256_of(event_id).subrange(0, 8))
}

/// The planner's pseudo-probability in basis points (0 to 9999).
pub open spec fn planner_basis_points_of(event_id: Seq<char>) -> nat {
    planner_seed_of(event_id) % 10000
}

/// Fingerprints do not depend on the order of an object's members: two
/// objects with unique keys holding the same members have the same
/// fingerprint.
pub proof fn fingerprint_ignores_member_order(a: Vec<(String, JsonValue)>, b: Vec<(String, JsonValue)>)
    requires
        a@.len() == b@.len(),
        distinct_keys(a@),
        distinct_keys(b@),
        members_within(a@, b@),
        members_within(b@, a@),
    ensures
        fingerprint_of(JsonValue::Object(a)) == fingerprint_of(JsonValue::Object(b)),
{
    canonical_ignores_member_order(a, b);
}

/// Lowercase hex SHA-256 of `s`.
pub fn hash_hex(s: &str) -> (r: String)
    ensures
        r@ == hash_hex_of(s@),
        is_sha256_hex_text(r@),
{
    let d = sha256(s);
    let r = hex_prefix(&d, 32);
    assert(d@.subrange(0, 32) == d@);
    proof {
        lemma_hex_text_shape(d@);
    }
    r
}

proof fn lemma_hex_text_shape(b: Seq<u8>)
    ensures
        hex_text(b).len() == 2 * b.len(),
        forall|i: int| 0 <= i < hex_text(b).len() ==> is_hex_char(#[trigger] hex_text(b)[i]),
    decreases b.len(),
{
    if b.len() > 0 {
        lemma_hex_text_shape(b.drop_last());
        let h = hex_text(b);
        let p = hex_text(b.drop_last());
        assert(h == p + byte_hex(b.last()));
        assert forall|i: int| 0 <= i < h.len() implies is_hex_char(#[trigger] h[i]) by {
            if i >= p.len() {
                let q = b.last() as int;
                assert(0 <= q / 16 < 16 && 0 <= q % 16 < 16);
            }
        }
    }
}

/// Fingerprint of `v`: lowercase hex SHA-256 of its canonical text.
pub fn fingerprint(v: &JsonValue) -> (r: String)
    ensures
        r@ == fingerprint_of(*v),
{
    let text = canonical_json(v);
    hash_hex(text.as_str())
}

fn short_hash_exec(s: &str) -> (r: String)
    ensures
        r@ == short_hash(s@),
{
    let d = sha256(s);
    hex_prefix(&d, 8)
}

/// Identifier of the plan for event `event_id` of tenant `tenant_id`.
pub fn plan_id(tenant_id: &str, event_id: &str) -> (r: String)
    ensures
        r@ == plan_id_of(tenant_id@, event_id@),
{
    let mut seed = tenant_id.to_owned();
    push_char(&mut seed, '\0');
    push_str(&mut seed, event_id);
    assert(seed@ =~= tenant_id@ + seq!['\0'] + event_id@);
    let h = short_hash_exec(seed.as_str());
    let mut r = "plan_".to_owned();
    push_str(&mut r, h.as_str());
    r
}

/// Identifier of the action of kind `kind` at position `index` of plan `plan_id`.
pub fn action_id(plan_id: &str, kind: &str, index: u64) -> (r: String)
    ensures
        r@ == action_id_of(plan_id@, kind@, index as nat),
{
    let mut seed = plan_id.to_owned();
    push_char(&mut seed, '\0');
    push_str(&mut seed, kind);
    push_char(&mut seed, '\0');
    write_u64(&mut seed, index);
    assert(seed@ =~= plan_id@ + seq!['\0'] + kind@ + seq!['\0'] + nat_text(index as nat));
    let h = short_hash_exec(seed.as_str());
    let mut r = "act_".to_owned();
    push_str(&mut r, h.as_str());
    r
}

/// Power of 256.
pub open spec fn pow256(i: nat) -> nat
    decreases i,
{
    if i == 0 { 1 } else { 256 * pow256((i - 1) as nat) }
}

/// Seed of the planner's pseudo-probability for `event_id`.
pub fn planner_seed(event_id: &str) -> (r: u64)
    ensures
        r as nat == planner_seed_of(event_id@),
{
    let d = sha256(event_id);
    let mut n: u64 = 0;
    let mut i: usize = 0;
    proof {
        reveal_with_fuel(pow256, 9);
    }
    assert(pow256(8) == 0x1_0000_0000_0000_0000);
    while i < 8
        invariant
            d@.len() == 32,
            i <= 8,
            n as nat == be_value(d@.subrange(0, i as int)),
            (n as nat) < pow256(i as nat),
            pow256(8) == 0x1_0000_0000_0000_0000,
        decreases 8 - i,
    {
        let b = d[i];
        proof {
            proof_pow256_mono(i as nat);
            let p = pow256(i as nat);
            assert((n as nat) * 256 + (b as nat) < p * 256) by (nonlinear_arith)
                requires (n as nat) < p, (b as nat) < 256;
            assert(d@.subrange(0, i + 1).drop_last() == d@.subrange(0, i as int));
        }
        n = n * 256 + b as u64;
        i = i + 1;
    }
    n
}

proof fn proof_pow256_mono(i: nat)
    requires
        i < 8,
    ensures
        pow256(i + 1) <= pow256(8),
        pow256(i + 1) == 256 * pow256(i),
    decreases 8 - i,
{
    if i + 1 < 8 {
        proof_pow256_mono(i + 1);
    }
}

/// The planner's pseudo-probability for `event_id`, in basis points.
pub fn planner_basis_points(event_id: &str) -> (r: u64)
    ensures
        r as nat == planner_basis_points_of(event_id@),
        r < 10000,
{
    planner_seed(event_id) % 10000
}

/// `c` is an ASCII hexadecimal digit.
pub open spec fn is_hex_char(c: char) -> bool {
    ('0' <= c && c <= '9') || ('a' <= c && c <= 'f') || ('A' <= c && c <= 'F')
}

/// `s` has the shape of a hex SHA-256 digest: 64 hexadecimal digits.
pub open spec fn is_sha256_hex_text(s: Seq<char>) -> bool {
    s.len() == 64 && forall|i: int| 0 <= i < 64 ==> is_hex_char(#[trigger] s[i])
}

/// Whether `value` has the shape of a hex SHA-256 digest.
pub fn is_sha256_hex(value: &str) -> (r: bool)
    ensures
        r == is_sha256_hex_text(value@),
{
    let n = value.unicode_len();
    if n != 64 {
        return false;
    }
    let mut i: usize = 0;
    while i < 64
        invariant
            n == value@.len(),
            n == 64,
            i <= 64,
            forall|k: int| 0 <= k < i ==> is_hex_char(#[trigger] value@[k]),
        decreases 64 - i,
    {
        let c = value.get_char(i);
        if !(('0' <= c && c <= '9') || ('a' <= c && c <= 'f') || ('A' <= c && c <= 'F')) {
            return false;
        }
        i = i + 1;
    }
    true
}

} // verus!
