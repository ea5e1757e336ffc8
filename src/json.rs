//! JSON values and their canonical text: object keys sorted by code point,
//! no whitespace, numbers in one normal form, strings with the standard
//! escape set.
use vstd::prelude::*;
use crate::text::{hex_char, int_text, nat_text, push_char, push_str, write_i64, write_u64};

verus! {

broadcast use vstd::std_specs::vec::group_vec_axioms;

/// A decimal number `mantissa * 10^exponent`.
#[derive(Clone, Debug, PartialEq)]
pub struct JsonNumber {
    pub mantissa: i64,
    pub exponent: i64,
}

/// Largest exponent magnitude a number may carry; keeps normalisation free of
/// overflow.
pub const MAX_EXPONENT: i64 = 1_000_000_000_000;

/// Normal form of `m * 10^e`: trailing decimal zeros moved into the exponent,
/// and zero written with exponent zero.
pub open spec fn normal_form(m: int, e: int) -> (int, int)
    decreases (if m < 0 { -m } else { m }),
{
    if m == 0 {
        (0, 0)
    } else if m % 10 == 0 {
        normal_form(m / 10, e + 1)
    } else {
        (m, e)
    }
}

proof fn proof_abs_div_lt(m: int)
    requires
        m != 0,
        m % 10 == 0,
    ensures
        (if m / 10 < 0 { -(m / 10) } else { m / 10 }) < (if m < 0 { -m } else { m }),
{
    assert(m == 10 * (m / 10)) by (nonlinear_arith)
        requires m % 10 == 0;
}

impl JsonNumber {
    /// The number is in normal form.
    pub open spec fn wf(&self) -> bool {
        normal_form(self.mantissa as int, self.exponent as int) == (self.mantissa as int, self.exponent as int)
            && -MAX_EXPONENT <= self.exponent <= MAX_EXPONENT
    }

    /// The number `mantissa * 10^exponent`, brought to normal form.
    pub fn new(mantissa: i64, exponent: i64) -> (r: JsonNumber)
        requires
            -MAX_EXPONENT <= exponent <= MAX_EXPONENT - 20,
        ensures
            (r.mantissa as int, r.exponent as int) == normal_form(mantissa as int, exponent as int),
            r.wf(),
    {
        let mut m = mantissa;
        let mut e = exponent;
        if m == 0 {
            return JsonNumber { mantissa: 0, exponent: 0 };
        }
        proof {
            proof_count_monotone(if m < 0 { -(m as int) } else { m as int }, 9223372036854775808);
            reveal_with_fuel(count_le, 20);
        }
        while m % 10 == 0
            invariant
                m != 0,
                normal_form(m as int, e as int) == normal_form(mantissa as int, exponent as int),
                exponent <= e,
                -MAX_EXPONENT <= exponent <= MAX_EXPONENT - 20,
                (e - exponent) <= digits_dropped_bound(m as int),
            decreases (if m < 0 { -(m as int) } else { m as int }),
        {
            proof {
                proof_abs_div_lt(m as int);
                proof_bound_step(m as int);
                proof_count_nonneg(if m < 0 { -(m as int) } else { m as int });
            }
            m = m / 10;
            e = e + 1;
        }
        proof {
            assert(normal_form(m as int, e as int) == (m as int, e as int));
        }
        JsonNumber { mantissa: m, exponent: e }
    }

    /// Canonical text of the number.
    pub open spec fn text(&self) -> Seq<char> {
        jcs_text(self.mantissa as int, self.exponent as int)
    }
}

/// `c` zeros.
pub open spec fn zeros(c: int) -> Seq<char>
    decreases c,
{
    if c <= 0 { Seq::empty() } else { zeros(c - 1).push('0') }
}

/// Text of the positive number with decimal digits `d` (no leading zero)
/// times `10^e`, as ECMAScript writes numbers (the JSON Canonicalization
/// Scheme form): plain decimal while the point falls within 21 digits of
/// the first, exponent form with an explicit sign otherwise.
pub open spec fn jcs_digits_text(d: Seq<char>, e: int) -> Seq<char> {
    let k = d.len() as int;
    let n = k + e;
    if k <= n && n <= 21 {
        d + zeros(n - k)
    } else if 0 < n && n <= 21 {
        d.subrange(0, n) + seq!['.'] + d.subrange(n, k)
    } else if -6 < n && n <= 0 {
        seq!['0', '.'] + zeros(-n) + d
    } else {
        let x = n - 1;
        (if k == 1 { d } else { d.subrange(0, 1) + seq!['.'] + d.subrange(1, k) }) + seq!['e'] + (if x >= 0 {
            seq!['+']
        } else {
            seq!['-']
        }) + nat_text((if x >= 0 { x } else { -x }) as nat)
    }
}

/// Canonical text of `m * 10^e` given in normal form.
pub open spec fn jcs_text(m: int, e: int) -> Seq<char> {
    if m == 0 {
        seq!['0']
    } else if m < 0 {
        seq!['-'] + jcs_digits_text(nat_text((-m) as nat), e)
    } else {
        jcs_digits_text(nat_text(m as nat), e)
    }
}

/// `c` is a decimal digit.
pub open spec fn is_digit(c: char) -> bool {
    '0' <= c && c <= '9'
}

/// Every character of `d` is a decimal digit.
pub open spec fn all_digits(d: Seq<char>) -> bool {
    forall|i: int| 0 <= i < d.len() ==> is_digit(#[trigger] d[i])
}

/// Value of a string of decimal digits.
pub open spec fn digits_value(d: Seq<char>) -> int
    decreases d.len(),
{
    if d.len() == 0 {
        0
    } else {
        digits_value(d.drop_last()) * 10 + ((d.last() as u32) - ('0' as u32))
    }
}

/// Index of the first exponent mark (`e` or `E`) at or after `i`, or -1.
pub open spec fn find_exp(s: Seq<char>, i: int) -> int
    decreases s.len() - i,
{
    if i < 0 || i >= s.len() {
        -1
    } else if s[i] == 'e' || s[i] == 'E' {
        i
    } else {
        find_exp(s, i + 1)
    }
}

/// Index of the first `.` at or after `i`, or -1.
pub open spec fn find_dot(s: Seq<char>, i: int) -> int
    decreases s.len() - i,
{
    if i < 0 || i >= s.len() {
        -1
    } else if s[i] == '.' {
        i
    } else {
        find_dot(s, i + 1)
    }
}

/// The pieces of a number text: sign, integer digits, fraction digits,
/// exponent sign and exponent digits, and which optional parts are present.
pub struct NumberParts {
    pub neg: bool,
    pub ip: Seq<char>,
    pub has_dot: bool,
    pub fp: Seq<char>,
    pub has_e: bool,
    pub xneg: bool,
    pub xd: Seq<char>,
}

/// Splits a number text at its sign, decimal point and exponent mark.
#[verifier::opaque]
pub open spec fn number_parts(s: Seq<char>) -> NumberParts {
    let neg = s.len() > 0 && s[0] == '-';
    let body = if neg { s.subrange(1, s.len() as int) } else { s };
    let e = find_exp(body, 0);
    let m = if e < 0 { body } else { body.subrange(0, e) };
    let x = if e < 0 { Seq::<char>::empty() } else { body.subrange(e + 1, body.len() as int) };
    let dot = find_dot(m, 0);
    let xsign = x.len() > 0 && (x[0] == '-' || x[0] == '+');
    NumberParts {
        neg,
        ip: if dot < 0 { m } else { m.subrange(0, dot) },
        has_dot: dot >= 0,
        fp: if dot < 0 { Seq::<char>::empty() } else { m.subrange(dot + 1, m.len() as int) },
        has_e: e >= 0,
        xneg: xsign && x[0] == '-',
        xd: if xsign { x.subrange(1, x.len() as int) } else { x },
    }
}

/// Mantissa and exponent written by a JSON number text
/// `-?digits(.digits)?([eE][+-]?digits)?`, or none when the text is not one.
pub open spec fn number_value(s: Seq<char>) -> Option<(int, int)> {
    let p = number_parts(s);
    if p.ip.len() == 0 || !all_digits(p.ip) || (p.has_dot && (p.fp.len() == 0 || !all_digits(p.fp)))
        || (p.has_e && (p.xd.len() == 0 || !all_digits(p.xd))) {
        None
    } else {
        let mant = digits_value(p.ip + p.fp);
        let ex = digits_value(p.xd);
        Some((if p.neg { -mant } else { mant }, (if p.xneg { -ex } else { ex }) - p.fp.len()))
    }
}

/// A mantissa and exponent that a `JsonNumber` can hold.
pub open spec fn representable(m: int, e: int) -> bool {
    -i64::MAX <= m <= i64::MAX && -MAX_EXPONENT <= e <= MAX_EXPONENT - 20
}

/// Saturation bound of the digit accumulators.
pub const DIGITS_CAP: u128 = 0x10_0000_0000_0000_0000_0000_0000;

fn scan_digits(text: &str, from: usize, to: usize, start: u128) -> (r: Option<u128>)
    requires
        from <= to <= text@.len(),
        start <= DIGITS_CAP,
    ensures
        match r {
            None => !all_digits(text@.subrange(from as int, to as int)),
            Some(v) => all_digits(text@.subrange(from as int, to as int)) && v as int == capped(
                start as int,
                text@.subrange(from as int, to as int),
            ),
        },
{
    let mut acc = start;
    let mut i = from;
    while i < to
        invariant
            from <= i <= to <= text@.len(),
            acc <= DIGITS_CAP,
            all_digits(text@.subrange(from as int, i as int)),
            acc as int == capped(start as int, text@.subrange(from as int, i as int)),
        decreases to - i,
    {
        let c = text.get_char(i);
        if !('0' <= c && c <= '9') {
            assert(text@.subrange(from as int, to as int)[i - from] == c);
            return None;
        }
        let d = (c as u32 - '0' as u32) as u128;
        let next = acc * 10 + d;
        acc = if next > DIGITS_CAP { DIGITS_CAP } else { next };
        proof {
            let pre = text@.subrange(from as int, i as int);
            let pre1 = text@.subrange(from as int, i + 1);
            assert(pre1.drop_last() == pre);
            assert(pre1.last() == c);
        }
        i = i + 1;
    }
    Some(acc)
}

/// `start` followed by the digits `d`, read in decimal, capped at the
/// accumulator bound.
pub open spec fn capped(start: int, d: Seq<char>) -> int
    decreases d.len(),
{
    if d.len() == 0 {
        start
    } else {
        let v = capped(start, d.drop_last()) * 10 + ((d.last() as u32) - ('0' as u32));
        if v > DIGITS_CAP { DIGITS_CAP as int } else { v }
    }
}

proof fn lemma_capped_concat(start: int, a: Seq<char>, b: Seq<char>)
    ensures
        capped(start, a + b) == capped(capped(start, a), b),
    decreases b.len(),
{
    if b.len() > 0 {
        assert((a + b).drop_last() == a + b.drop_last());
        assert((a + b).last() == b.last());
        lemma_capped_concat(start, a, b.drop_last());
    } else {
        assert(a + b == a);
    }
}

proof fn lemma_capped_value(d: Seq<char>)
    requires
        all_digits(d),
    ensures
        capped(0, d) == (if digits_value(d) > DIGITS_CAP { DIGITS_CAP as int } else { digits_value(d) }),
        digits_value(d) >= 0,
    decreases d.len(),
{
    if d.len() > 0 {
        assert(all_digits(d.drop_last()));
        lemma_capped_value(d.drop_last());
        assert(is_digit(d.last()));
        assert((d.last() as u32) >= ('0' as u32));
    }
}

fn find_mark(text: &str, from: usize, to: usize, dot: bool) -> (r: usize)
    requires
        from <= to <= text@.len(),
    ensures
        from <= r <= to,
        ({
            let s = text@.subrange(from as int, to as int);
            let f = if dot { find_dot(s, 0) } else { find_exp(s, 0) };
            if r == to { f == -1 } else { f == r - from }
        }),
{
    let ghost s = text@.subrange(from as int, to as int);
    let mut i = from;
    while i < to
        invariant
            from <= i <= to <= text@.len(),
            s == text@.subrange(from as int, to as int),
            dot ==> find_dot(s, 0) == find_dot(s, i - from),
            !dot ==> find_exp(s, 0) == find_exp(s, i - from),
        decreases to - i,
    {
        let c = text.get_char(i);
        assert(s[i - from] == c);
        if dot && c == '.' {
            return i;
        }
        if !dot && (c == 'e' || c == 'E') {
            return i;
        }
        i = i + 1;
    }
    i
}

/// Positions of the pieces of a number text: integer digits `b..ip_end`,
/// fraction digits `fp_start..e`, exponent digits `xd_start..n`.
struct Split {
    neg: bool,
    b: usize,
    ip_end: usize,
    has_dot: bool,
    fp_start: usize,
    e: usize,
    has_e: bool,
    xneg: bool,
    xd_start: usize,
    n: usize,
}

fn split_number(text: &str) -> (r: Split)
    ensures
        r.b <= r.ip_end <= r.fp_start <= r.e <= r.xd_start <= r.n == text@.len(),
        !r.has_dot ==> r.fp_start == r.e,
        !r.has_e ==> r.xd_start == r.n,
        number_parts(text@) == (NumberParts {
            neg: r.neg,
            ip: text@.subrange(r.b as int, r.ip_end as int),
            has_dot: r.has_dot,
            fp: text@.subrange(r.fp_start as int, r.e as int),
            has_e: r.has_e,
            xneg: r.xneg,
            xd: text@.subrange(r.xd_start as int, r.n as int),
        }),
{
    proof {
        reveal(number_parts);
    }
    let n = text.unicode_len();
    let neg = n > 0 && text.get_char(0) == '-';
    let b: usize = if neg { 1 } else { 0 };
    let ghost s = text@;
    let ghost body = if neg { s.subrange(1, s.len() as int) } else { s };
    assert(body =~= s.subrange(b as int, n as int));
    let e = find_mark(text, b, n, false);
    let has_e = e < n;
    let ghost m = if !has_e { body } else { body.subrange(0, e - b) };
    assert(m =~= s.subrange(b as int, e as int));
    let d = find_mark(text, b, e, true);
    let has_dot = d < e;
    let fp_start = if has_dot { d + 1 } else { e };
    assert(s.subrange(b as int, d as int) =~= (if !has_dot { m } else { m.subrange(0, d - b) }));
    assert(s.subrange(fp_start as int, e as int) =~= (if !has_dot { Seq::<char>::empty() } else { m.subrange(d - b + 1, m.len() as int) }));
    let x_start = if has_e { e + 1 } else { n };
    let ghost x = s.subrange(x_start as int, n as int);
    assert(x =~= (if !has_e { Seq::<char>::empty() } else { body.subrange(e - b + 1, body.len() as int) }));
    let xsign = x_start < n && (text.get_char(x_start) == '-' || text.get_char(x_start) == '+');
    let xneg = xsign && text.get_char(x_start) == '-';
    let xd_start = if xsign { x_start + 1 } else { x_start };
    assert(s.subrange(xd_start as int, n as int) =~= (if xsign { x.subrange(1, x.len() as int) } else { x }));
    Split { neg, b, ip_end: d, has_dot, fp_start, e, has_e, xneg, xd_start, n }
}

impl JsonNumber {
    /// Reads a JSON number text `-?digits(.digits)?([eE][+-]?digits)?`;
    /// none when the text is not one or its value is out of range.
    pub fn parse(text: &str) -> (r: Option<JsonNumber>)
        ensures
            match number_value(text@) {
                None => r is None,
                Some(v) => if representable(v.0, v.1) {
                    r is Some && (r->0.mantissa as int, r->0.exponent as int) == normal_form(v.0, v.1) && r->0.wf()
                } else {
                    r is None
                },
            },
    {
        let p = split_number(text);
        let ghost ip = text@.subrange(p.b as int, p.ip_end as int);
        let ghost fp = text@.subrange(p.fp_start as int, p.e as int);
        let ghost xd = text@.subrange(p.xd_start as int, p.n as int);
        if p.ip_end == p.b || (p.has_dot && p.fp_start == p.e) || (p.has_e && p.xd_start == p.n) {
            return None;
        }
        let int_part = match scan_digits(text, p.b, p.ip_end, 0) {
            Some(v) => v,
            None => return None,
        };
        let mant = match scan_digits(text, p.fp_start, p.e, int_part) {
            Some(v) => v,
            None => return None,
        };
        let ex = match scan_digits(text, p.xd_start, p.n, 0) {
            Some(v) => v,
            None => return None,
        };
        proof {
            if !p.has_dot {
                assert(fp.len() == 0);
                assert(all_digits(fp));
            }
            if !p.has_e {
                assert(xd.len() == 0);
            }
            lemma_capped_concat(0, ip, fp);
            assert forall|i: int| 0 <= i < (ip + fp).len() implies is_digit(#[trigger] (ip + fp)[i]) by {
                if i < ip.len() {
                    assert((ip + fp)[i] == ip[i]);
                } else {
                    assert((ip + fp)[i] == fp[i - ip.len()]);
                }
            }
            lemma_capped_value(ip + fp);
            lemma_capped_value(xd);
        }
        if mant > i64::MAX as u128 {
            return None;
        }
        let fp_len = (p.e - p.fp_start) as i128;
        let exp: i128 = if p.xneg { -(ex as i128) - fp_len } else { ex as i128 - fp_len };
        if exp < -(MAX_EXPONENT as i128) || exp > (MAX_EXPONENT - 20) as i128 {
            return None;
        }
        let m_signed: i64 = if p.neg { -(mant as i64) } else { mant as i64 };
        Some(JsonNumber::new(m_signed, exp as i64))
    }
}

/// At most this many more trailing zeros can be removed from `m`.
pub open spec fn digits_dropped_bound(m: int) -> int {
    19 - count_le(if m < 0 { -m } else { m })
}

/// Number of decimal digits beyond the first that `a` has, capped at 19.
pub open spec fn count_le(a: int) -> int
    decreases a,
{
    if a < 10 { 0 } else { 1 + count_le(a / 10) }
}

proof fn proof_count_monotone(a: int, b: int)
    requires
        0 <= a <= b,
    ensures
        count_le(a) <= count_le(b),
    decreases b,
{
    if a >= 10 {
        assert(a / 10 <= b / 10) by (nonlinear_arith)
            requires a <= b;
        assert(a / 10 >= 1);
        proof_count_monotone(a / 10, b / 10);
        assert(count_le(a) == 1 + count_le(a / 10));
        assert(count_le(b) == 1 + count_le(b / 10));
    } else {
        proof_count_nonneg(b);
    }
}

proof fn proof_count_nonneg(a: int)
    ensures
        count_le(a) >= 0,
    decreases a,
{
    if a >= 10 {
        proof_count_nonneg(a / 10);
    }
}

proof fn proof_bound_step(m: int)
    requires
        m != 0,
        m % 10 == 0,
        -9223372036854775808 <= m <= 9223372036854775807,
    ensures
        count_le(if m / 10 < 0 { -(m / 10) } else { m / 10 }) + 1 == count_le(if m < 0 { -m } else { m }),
{
    let a = if m < 0 { -m } else { m };
    assert(a == 10 * (m / 10) || a == -10 * (m / 10)) by (nonlinear_arith)
        requires m % 10 == 0, a == (if m < 0 { -m } else { m });
    let b = if m / 10 < 0 { -(m / 10) } else { m / 10 };
    assert(a == 10 * b) by (nonlinear_arith)
        requires a == 10 * (m / 10) || a == -10 * (m / 10), a >= 0, b >= 0,
            b == (if m / 10 < 0 { -(m / 10) } else { m / 10 });
    assert(a >= 10);
    assert(a / 10 == b);
}

/// Numbers that differ only in notation have one normal form: moving a
/// factor ten from the mantissa into the exponent, any number of times,
/// changes nothing (`1.0`, read as `10e-1`, and `1e0` agree).
pub proof fn normal_form_ignores_notation(m: int, e: int, k: nat)
    ensures
        normal_form(m * pow10(k), e - k) == normal_form(m, e),
    decreases k,
{
    if k > 0 {
        let k1 = (k - 1) as nat;
        normal_form_ignores_notation(m, e, k1);
        let big = m * pow10(k);
        assert(big == (m * pow10(k1)) * 10) by (nonlinear_arith)
            requires pow10(k) == 10 * pow10(k1), big == m * pow10(k);
        if m * pow10(k1) == 0 {
            assert(big == 0);
        } else {
            assert(big % 10 == 0);
            assert(big / 10 == m * pow10(k1));
        }
    }
}

/// Power of ten.
pub open spec fn pow10(k: nat) -> int
    decreases k,
{
    if k == 0 { 1 } else { 10 * pow10((k - 1) as nat) }
}

proof fn lemma_key_lt_irreflexive(a: Seq<char>, i: int)
    requires
        0 <= i,
    ensures
        !key_lt_from(a, a, i),
    decreases a.len() - i,
{
    if i < a.len() {
        lemma_key_lt_irreflexive(a, i + 1);
    }
}

proof fn lemma_key_lt_transitive(a: Seq<char>, b: Seq<char>, c: Seq<char>, i: int)
    requires
        0 <= i,
        key_lt_from(a, b, i),
        key_lt_from(b, c, i),
    ensures
        key_lt_from(a, c, i),
    decreases a.len() - i,
{
    if i < a.len() && i < b.len() && i < c.len() && a[i] == b[i] && b[i] == c[i] {
        lemma_key_lt_transitive(a, b, c, i + 1);
    }
}

proof fn lemma_key_lt_total(a: Seq<char>, b: Seq<char>, i: int)
    requires
        0 <= i <= a.len(),
        i <= b.len(),
        a.subrange(0, i) == b.subrange(0, i),
        a != b,
    ensures
        key_lt_from(a, b, i) || key_lt_from(b, a, i),
    decreases a.len() - i,
{
    if i == a.len() && i == b.len() {
        assert(a == a.subrange(0, i));
        assert(b == b.subrange(0, i));
    } else if i < a.len() && i < b.len() {
        if a[i] == b[i] {
            assert(a.subrange(0, i + 1) == a.subrange(0, i).push(a[i]));
            assert(b.subrange(0, i + 1) == b.subrange(0, i).push(b[i]));
            lemma_key_lt_total(a, b, i + 1);
        }
    }
}

proof fn lemma_key_order(a: Seq<char>, b: Seq<char>, c: Seq<char>)
    ensures
        !key_lt(a, a),
        key_lt(a, b) && key_lt(b, c) ==> key_lt(a, c),
        a != b ==> key_lt(a, b) || key_lt(b, a),
{
    lemma_key_lt_irreflexive(a, 0);
    if key_lt(a, b) && key_lt(b, c) {
        lemma_key_lt_transitive(a, b, c, 0);
    }
    if a != b {
        assert(a.subrange(0, 0) == b.subrange(0, 0));
        lemma_key_lt_total(a, b, 0);
    }
}

/// The keys `keys[0..n]` are pairwise different.
pub open spec fn distinct_prefix(keys: Seq<Seq<char>>, n: int) -> bool {
    forall|i: int, j: int| 0 <= i < n && 0 <= j < n && i != j ==> keys[i] != keys[j]
}

proof fn lemma_insert_pos(keys: Seq<Seq<char>>, order: Seq<int>, j: int, p: int)
    requires
        0 <= p <= order.len(),
    ensures
        p <= insert_pos(keys, order, j, p) <= order.len(),
        forall|q: int| p <= q < insert_pos(keys, order, j, p) ==> !key_lt(keys[j], keys[#[trigger] order[q]]),
        insert_pos(keys, order, j, p) < order.len() ==> key_lt(keys[j], keys[order[insert_pos(keys, order, j, p)]]),
    decreases order.len() - p,
{
    if p < order.len() && !key_lt(keys[j], keys[order[p]]) {
        lemma_insert_pos(keys, order, j, p + 1);
    }
}

proof fn lemma_sorted_order(keys: Seq<Seq<char>>, n: int)
    requires
        0 <= n <= keys.len(),
        distinct_prefix(keys, n),
    ensures
        sorted_order(keys, n).len() == n,
        forall|k: int| 0 <= k < n ==> 0 <= #[trigger] sorted_order(keys, n)[k] < n,
        forall|x: int| 0 <= x < n ==> #[trigger] occurs(sorted_order(keys, n), x),
        forall|i: int, j: int|
            0 <= i < j < n ==> key_lt(keys[#[trigger] sorted_order(keys, n)[i]], keys[#[trigger] sorted_order(keys, n)[j]]),
    decreases n,
{
    if n > 0 {
        let m = n - 1;
        assert(distinct_prefix(keys, m));
        lemma_sorted_order(keys, m);
        let o = sorted_order(keys, m);
        let p = insert_pos(keys, o, m, 0);
        lemma_insert_pos(keys, o, m, 0);
        o.insert_ensures(p, m);
        let o2 = o.insert(p, m);
        assert(o2 == sorted_order(keys, n));
        assert forall|q: int| 0 <= q < p implies key_lt(keys[o[q]], keys[m]) by {
            assert(!key_lt(keys[m], keys[o[q]]));
            assert(keys[o[q]] != keys[m]);
            lemma_key_order(keys[o[q]], keys[m], keys[m]);
        }
        assert forall|q: int| p <= q < m implies key_lt(keys[m], keys[#[trigger] o[q]]) by {
            if q > p {
                assert(key_lt(keys[o[p]], keys[o[q]]));
                lemma_key_order(keys[m], keys[o[p]], keys[o[q]]);
            }
        }
        assert forall|i: int, j: int| 0 <= i < j < n implies key_lt(keys[#[trigger] o2[i]], keys[#[trigger] o2[j]]) by {
            if j < p {
                assert(o2[i] == o[i] && o2[j] == o[j]);
            } else if j == p {
                assert(o2[i] == o[i]);
            } else if i < p {
                assert(o2[i] == o[i] && o2[j] == o[j - 1]);
                lemma_key_order(keys[o[i]], keys[m], keys[o[j - 1]]);
            } else if i == p {
                assert(o2[j] == o[j - 1]);
            } else {
                assert(o2[i] == o[i - 1] && o2[j] == o[j - 1]);
            }
        }
        assert forall|k: int| 0 <= k < n implies 0 <= #[trigger] o2[k] < n by {
            if k < p {
                assert(o2[k] == o[k]);
            } else if k > p {
                assert(o2[k] == o[k - 1]);
            }
        }
        assert forall|x: int| 0 <= x < n implies #[trigger] occurs(o2, x) by {
            if x == m {
                assert(o2[p] == m);
            } else {
                assert(occurs(o, x));
                let k0 = choose|k: int| 0 <= k < o.len() && o[k] == x;
                if k0 < p {
                    assert(o2[k0] == x);
                } else {
                    assert(o2[k0 + 1] == x);
                }
            }
        }
    }
}

/// `x` occurs in `o`.
pub open spec fn occurs(o: Seq<int>, x: int) -> bool {
    exists|k: int| 0 <= k < o.len() && o[k] == x
}

/// The pair of `key` and `value` is an element of `s`.
pub open spec fn member_of(s: Seq<(Seq<char>, JsonValue)>, key: Seq<char>, value: JsonValue) -> bool {
    exists|m: int| 0 <= m < s.len() && s[m] == (key, value)
}

/// Entries sorted by key view: strictly increasing keys.
pub open spec fn strictly_sorted(s: Seq<(Seq<char>, JsonValue)>) -> bool {
    forall|i: int, j: int| 0 <= i < j < s.len() ==> key_lt((#[trigger] s[i]).0, (#[trigger] s[j]).0)
}

/// Every element of `s` occurs in `t`.
pub open spec fn covered_by(s: Seq<(Seq<char>, JsonValue)>, t: Seq<(Seq<char>, JsonValue)>) -> bool {
    forall|k: int| 0 <= k < s.len() ==> #[trigger] member_of(t, s[k].0, s[k].1)
}

proof fn lemma_sorted_unique_at(s: Seq<(Seq<char>, JsonValue)>, t: Seq<(Seq<char>, JsonValue)>, k: int)
    requires
        s.len() == t.len(),
        strictly_sorted(s),
        strictly_sorted(t),
        covered_by(s, t),
        covered_by(t, s),
        0 <= k < s.len(),
        forall|j: int| 0 <= j < k ==> s[j] == t[j],
    ensures
        s[k] == t[k],
{
    assert(member_of(t, s[k].0, s[k].1));
    assert(member_of(s, t[k].0, t[k].1));
    let m = choose|m: int| 0 <= m < t.len() && t[m] == (s[k].0, s[k].1);
    let m2 = choose|m2: int| 0 <= m2 < s.len() && s[m2] == (t[k].0, t[k].1);
    lemma_key_order(s[k].0, t[k].0, s[k].0);
    lemma_key_order(t[k].0, s[k].0, t[k].0);
    if m < k {
        assert(s[m] == t[m]);
        assert(key_lt(s[m].0, s[k].0));
    } else if m > k {
        assert(key_lt(t[k].0, t[m].0));
        if m2 < k {
            assert(s[m2] == t[m2]);
            assert(key_lt(t[m2].0, t[k].0));
        } else if m2 > k {
            assert(key_lt(s[k].0, s[m2].0));
            lemma_key_order(s[k].0, t[k].0, s[k].0);
        }
    }
}

proof fn lemma_sorted_unique(s: Seq<(Seq<char>, JsonValue)>, t: Seq<(Seq<char>, JsonValue)>, k: int)
    requires
        s.len() == t.len(),
        strictly_sorted(s),
        strictly_sorted(t),
        covered_by(s, t),
        covered_by(t, s),
        0 <= k <= s.len(),
    ensures
        forall|j: int| 0 <= j < k ==> s[j] == t[j],
    decreases k,
{
    if k > 0 {
        lemma_sorted_unique(s, t, k - 1);
        lemma_sorted_unique_at(s, t, k - 1);
    }
}

/// The members of an object in the canonical order: key view and value.
pub open spec fn sorted_members(entries: Vec<(String, JsonValue)>) -> Seq<(Seq<char>, JsonValue)> {
    sorted_order(entry_keys(entries@), entries.len() as int).map_values(
        |i: int| (entries@[i].0@, entries@[i].1),
    )
}

proof fn lemma_members_text_eq(a: Vec<(String, JsonValue)>, oa: Seq<int>, b: Vec<(String, JsonValue)>, ob: Seq<int>, k: int)
    requires
        0 <= k <= oa.len(),
        oa.len() == ob.len(),
        forall|j: int| 0 <= j < oa.len() ==> 0 <= #[trigger] oa[j] < a.len(),
        forall|j: int| 0 <= j < ob.len() ==> 0 <= #[trigger] ob[j] < b.len(),
        forall|j: int|
            0 <= j < k ==> (#[trigger] a@[oa[j]]).0@ == b@[ob[j]].0@ && a@[oa[j]].1 == b@[ob[j]].1,
    ensures
        members_text(a, oa, k) == members_text(b, ob, k),
    decreases k,
{
    if k > 0 {
        lemma_members_text_eq(a, oa, b, ob, k - 1);
        assert(a@[oa[k - 1]].0@ == b@[ob[k - 1]].0@);
    }
}

/// The entries' keys are pairwise different.
pub open spec fn distinct_keys(entries: Seq<(String, JsonValue)>) -> bool {
    forall|i: int, j: int|
        0 <= i < entries.len() && 0 <= j < entries.len() && i != j ==> (#[trigger] entries[i]).0@
            != (#[trigger] entries[j]).0@
}

/// Every member of `a` (key text and value) is a member of `b`.
pub open spec fn members_within(a: Seq<(String, JsonValue)>, b: Seq<(String, JsonValue)>) -> bool {
    forall|i: int|
        0 <= i < a.len() ==> exists|j: int| 0 <= j < b.len() && b[j].0@ == (#[trigger] a[i]).0@ && b[j].1 == a[i].1
}

proof fn lemma_sorted_members(a: Vec<(String, JsonValue)>)
    requires
        distinct_keys(a@),
    ensures
        sorted_members(a).len() == a@.len(),
        strictly_sorted(sorted_members(a)),
        forall|i: int| 0 <= i < a@.len() ==> #[trigger] member_of(sorted_members(a), a@[i].0@, a@[i].1),
        forall|k: int| 0 <= k < a@.len() ==> exists|i: int|
            0 <= i < a@.len() && #[trigger] sorted_members(a)[k] == (a@[i].0@, a@[i].1),
{
    let keys = entry_keys(a@);
    let n = a@.len() as int;
    assert(distinct_prefix(keys, n)) by {
        assert forall|i: int, j: int| 0 <= i < n && 0 <= j < n && i != j implies keys[i] != keys[j] by {
            assert(keys[i] == a@[i].0@ && keys[j] == a@[j].0@);
        }
    }
    lemma_sorted_order(keys, n);
    let o = sorted_order(keys, n);
    let s = sorted_members(a);
    assert forall|i: int, j: int| 0 <= i < j < s.len() implies key_lt((#[trigger] s[i]).0, (#[trigger] s[j]).0) by {
        assert(key_lt(keys[o[i]], keys[o[j]]));
    }
    assert forall|i: int| 0 <= i < n implies #[trigger] member_of(s, a@[i].0@, a@[i].1) by {
        assert(occurs(o, i));
        let k = choose|k: int| 0 <= k < o.len() && o[k] == i;
        assert(s[k] == (a@[i].0@, a@[i].1));
    }
    assert forall|k: int| 0 <= k < n implies exists|i: int| 0 <= i < n && #[trigger] s[k] == (a@[i].0@, a@[i].1) by {
        assert(0 <= o[k] < n);
    }
}

/// Canonical text does not depend on the order of an object's members:
/// two objects with unique keys holding the same members, in any order,
/// have the same canonical text, hence the same fingerprint.
pub proof fn canonical_ignores_member_order(a: Vec<(String, JsonValue)>, b: Vec<(String, JsonValue)>)
    requires
        a@.len() == b@.len(),
        distinct_keys(a@),
        distinct_keys(b@),
        members_within(a@, b@),
        members_within(b@, a@),
    ensures
        canonical(JsonValue::Object(a)) == canonical(JsonValue::Object(b)),
{
    lemma_sorted_members(a);
    lemma_sorted_members(b);
    let sa = sorted_members(a);
    let sb = sorted_members(b);
    assert forall|k: int| 0 <= k < sa.len() implies #[trigger] member_of(sb, sa[k].0, sa[k].1) by {
        assert(exists|i: int| 0 <= i < a@.len() && #[trigger] sorted_members(a)[k] == (a@[i].0@, a@[i].1));
        let i = choose|i: int| 0 <= i < a@.len() && #[trigger] sorted_members(a)[k] == (a@[i].0@, a@[i].1);
        assert(a@[i] == a@[i]);
        let j = choose|j: int| 0 <= j < b@.len() && b@[j].0@ == a@[i].0@ && b@[j].1 == a@[i].1;
        assert(member_of(sb, b@[j].0@, b@[j].1));
        let m = choose|m: int| 0 <= m < sb.len() && sb[m] == (b@[j].0@, b@[j].1);
        assert(sb[m] == sa[k]);
    }
    assert(covered_by(sa, sb));
    assert forall|k: int| 0 <= k < sb.len() implies #[trigger] member_of(sa, sb[k].0, sb[k].1) by {
        assert(exists|j: int| 0 <= j < b@.len() && #[trigger] sorted_members(b)[k] == (b@[j].0@, b@[j].1));
        let j = choose|j: int| 0 <= j < b@.len() && #[trigger] sorted_members(b)[k] == (b@[j].0@, b@[j].1);
        assert(b@[j] == b@[j]);
        let i = choose|i: int| 0 <= i < a@.len() && a@[i].0@ == b@[j].0@ && a@[i].1 == b@[j].1;
        assert(member_of(sa, a@[i].0@, a@[i].1));
        let m = choose|m: int| 0 <= m < sa.len() && sa[m] == (a@[i].0@, a@[i].1);
        assert(sa[m] == sb[k]);
    }
    assert(covered_by(sb, sa));
    lemma_sorted_unique(sa, sb, sa.len() as int);
    let oa = sorted_order(entry_keys(a@), a@.len() as int);
    let ob = sorted_order(entry_keys(b@), b@.len() as int);
    proof_sorted_order_range(entry_keys(a@), a@.len() as int);
    proof_sorted_order_range(entry_keys(b@), b@.len() as int);
    assert forall|j: int| 0 <= j < oa.len() implies (#[trigger] a@[oa[j]]).0@ == b@[ob[j]].0@ && a@[oa[j]].1
        == b@[ob[j]].1 by {
        assert(sa[j] == sb[j]);
    }
    lemma_members_text_eq(a, oa, b, ob, oa.len() as int);
}

/// A JSON value.
#[derive(Debug)]
pub enum JsonValue {
    Null,
    Bool(bool),
    Number(JsonNumber),
    Str(String),
    Array(Vec<JsonValue>),
    Object(Vec<(String, JsonValue)>),
}

/// Escaped form of one character inside a JSON string literal.
pub open spec fn escape_char(c: char) -> Seq<char> {
    if c == '"' {
        seq!['\\', '"']
    } else if c == '\\' {
        seq!['\\', '\\']
    } else if c == '\n' {
        seq!['\\', 'n']
    } else if c == '\r' {
        seq!['\\', 'r']
    } else if c == '\t' {
        seq!['\\', 't']
    } else if c == '\u{8}' {
        seq!['\\', 'b']
    } else if c == '\u{c}' {
        seq!['\\', 'f']
    } else if (c as u32) < 32 {
        seq!['\\', 'u', '0', '0', hex_char((c as u32) as int / 16), hex_char((c as u32) as int % 16)]
    } else {
        seq![c]
    }
}

/// Escaped body of a JSON string literal.
pub open spec fn escaped(s: Seq<char>) -> Seq<char>
    decreases s.len(),
{
    if s.len() == 0 {
        Seq::empty()
    } else {
        escaped(s.drop_last()) + escape_char(s.last())
    }
}

/// A JSON string literal holding `s`.
pub open spec fn quoted(s: Seq<char>) -> Seq<char> {
    seq!['"'] + escaped(s) + seq!['"']
}

/// `a` sorts before `b` when both are compared by code point from index `i` on.
pub open spec fn key_lt_from(a: Seq<char>, b: Seq<char>, i: int) -> bool
    decreases a.len() - i,
{
    if i < 0 || i >= a.len() {
        0 <= i < b.len()
    } else if i >= b.len() {
        false
    } else if a[i] != b[i] {
        a[i] < b[i]
    } else {
        key_lt_from(a, b, i + 1)
    }
}

/// Code-point lexicographic order on keys.
pub open spec fn key_lt(a: Seq<char>, b: Seq<char>) -> bool {
    key_lt_from(a, b, 0)
}

/// Position in `order` before which index `j` is inserted: the first entry,
/// at or after `p`, whose key sorts after the key of `j`.
pub open spec fn insert_pos(keys: Seq<Seq<char>>, order: Seq<int>, j: int, p: int) -> int
    decreases order.len() - p,
{
    if p < 0 || p >= order.len() {
        order.len() as int
    } else if key_lt(keys[j], keys[order[p]]) {
        p
    } else {
        insert_pos(keys, order, j, p + 1)
    }
}

/// Indices `0..n` of `keys`, stably sorted by key.
pub open spec fn sorted_order(keys: Seq<Seq<char>>, n: int) -> Seq<int>
    decreases n,
{
    if n <= 0 {
        Seq::empty()
    } else {
        let o = sorted_order(keys, n - 1);
        o.insert(insert_pos(keys, o, n - 1, 0), n - 1)
    }
}

/// The keys of an object's entries.
pub open spec fn entry_keys(entries: Seq<(String, JsonValue)>) -> Seq<Seq<char>> {
    entries.map_values(|e: (String, JsonValue)| e.0@)
}

/// Canonical text of a JSON value.
pub open spec fn canonical(v: JsonValue) -> Seq<char>
    decreases v, 0nat,
{
    match v {
        JsonValue::Null => "null"@,
        JsonValue::Bool(b) => if b { "true"@ } else { "false"@ },
        JsonValue::Number(n) => n.text(),
        JsonValue::Str(s) => quoted(s@),
        JsonValue::Array(items) => seq!['['] + items_text(items, items.len() as int) + seq![']'],
        JsonValue::Object(entries) => seq!['{'] + members_text(
            entries,
            sorted_order(entry_keys(entries@), entries.len() as int),
            entries.len() as int,
        ) + seq!['}'],
    }
}

/// Canonical text of `items[0..k]`, separated by commas.
pub open spec fn items_text(items: Vec<JsonValue>, k: int) -> Seq<char>
    decreases items, k,
{
    if k <= 0 || k > items.len() {
        Seq::empty()
    } else {
        items_text(items, k - 1) + (if k > 1 { seq![','] } else { Seq::empty() }) + canonical(
            items@[k - 1],
        )
    }
}

/// Canonical text of the members `entries[order[0]], ..., entries[order[k-1]]`.
pub open spec fn members_text(entries: Vec<(String, JsonValue)>, order: Seq<int>, k: int) -> Seq<
    char,
>
    decreases entries, k,
{
    if k <= 0 || k > order.len() {
        Seq::empty()
    } else {
        let j = order[k - 1];
        members_text(entries, order, k - 1) + (if k > 1 { seq![','] } else { Seq::empty() }) + (
        if 0 <= j < entries.len() {
            quoted(entries@[j].0@) + seq![':'] + canonical(entries@[j].1)
        } else {
            Seq::empty()
        })
    }
}

fn hex_digit(d: u32) -> (c: char)
    requires
        d < 16,
    ensures
        c == hex_char(d as int),
{
    if d == 0 { '0' }
    else if d == 1 { '1' }
    else if d == 2 { '2' }
    else if d == 3 { '3' }
    else if d == 4 { '4' }
    else if d == 5 { '5' }
    else if d == 6 { '6' }
    else if d == 7 { '7' }
    else if d == 8 { '8' }
    else if d == 9 { '9' }
    else if d == 10 { 'a' }
    else if d == 11 { 'b' }
    else if d == 12 { 'c' }
    else if d == 13 { 'd' }
    else if d == 14 { 'e' }
    else { 'f' }
}

fn write_escaped_char(out: &mut String, c: char)
    ensures
        final(out)@ == old(out)@ + escape_char(c),
{
    let start = Ghost(out@);
    if c == '"' {
        push_char(out, '\\');
        push_char(out, '"');
    } else if c == '\\' {
        push_char(out, '\\');
        push_char(out, '\\');
    } else if c == '\n' {
        push_char(out, '\\');
        push_char(out, 'n');
    } else if c == '\r' {
        push_char(out, '\\');
        push_char(out, 'r');
    } else if c == '\t' {
        push_char(out, '\\');
        push_char(out, 't');
    } else if c == '\u{8}' {
        push_char(out, '\\');
        push_char(out, 'b');
    } else if c == '\u{c}' {
        push_char(out, '\\');
        push_char(out, 'f');
    } else if (c as u32) < 32 {
        let code = c as u32;
        push_char(out, '\\');
        push_char(out, 'u');
        push_char(out, '0');
        push_char(out, '0');
        push_char(out, hex_digit(code / 16));
        push_char(out, hex_digit(code % 16));
    } else {
        push_char(out, c);
    }
    assert(out@ == start@ + escape_char(c));
}

/// Appends the JSON string literal for `s` to `out`.
pub fn write_quoted(out: &mut String, s: &str)
    ensures
        final(out)@ == old(out)@ + quoted(s@),
{
    let start = Ghost(out@);
    push_char(out, '"');
    let n = s.unicode_len();
    let mut i: usize = 0;
    while i < n
        invariant
            n == s@.len(),
            i <= n,
            out@ == start@ + seq!['"'] + escaped(s@.subrange(0, i as int)),
        decreases n - i,
    {
        let c = s.get_char(i);
        write_escaped_char(out, c);
        assert(s@.subrange(0, i + 1).drop_last() == s@.subrange(0, i as int));
        i = i + 1;
    }
    assert(s@.subrange(0, n as int) == s@);
    push_char(out, '"');
}

/// Code-point lexicographic comparison of two keys.
pub fn key_less(a: &str, b: &str) -> (r: bool)
    ensures
        r == key_lt(a@, b@),
{
    let n = a.unicode_len();
    let m = b.unicode_len();
    let mut i: usize = 0;
    while i < n && i < m
        invariant
            n == a@.len(),
            m == b@.len(),
            i <= n,
            i <= m,
            key_lt(a@, b@) == key_lt_from(a@, b@, i as int),
        decreases n - i,
    {
        let x = a.get_char(i);
        let y = b.get_char(i);
        if x != y {
            return x < y;
        }
        i = i + 1;
    }
    i < m
}

proof fn proof_sorted_order_range(keys: Seq<Seq<char>>, n: int)
    requires
        n >= 0,
    ensures
        sorted_order(keys, n).len() == n,
        forall|k: int| 0 <= k < n ==> 0 <= #[trigger] sorted_order(keys, n)[k] < n,
    decreases n,
{
    if n > 0 {
        proof_sorted_order_range(keys, n - 1);
        let o = sorted_order(keys, n - 1);
        proof_insert_pos_range(keys, o, n - 1, 0);
    }
}

proof fn proof_insert_pos_range(keys: Seq<Seq<char>>, order: Seq<int>, j: int, p: int)
    requires
        0 <= p <= order.len(),
    ensures
        0 <= insert_pos(keys, order, j, p) <= order.len(),
    decreases order.len() - p,
{
    if p < order.len() {
        proof_insert_pos_range(keys, order, j, p + 1);
    }
}

/// Indices of `entries`, stably sorted by key.
fn entry_order(entries: &Vec<(String, JsonValue)>) -> (r: Vec<usize>)
    ensures
        r@.len() == entries@.len(),
        forall|k: int|
            0 <= k < r@.len() ==> r@[k] as int == #[trigger] sorted_order(
                entry_keys(entries@),
                entries@.len() as int,
            )[k],
{
    let ghost keys = entry_keys(entries@);
    let n = entries.len();
    let mut order: Vec<usize> = Vec::new();
    let mut j: usize = 0;
    while j < n
        invariant
            n == entries@.len(),
            keys == entry_keys(entries@),
            j <= n,
            order@.len() == j,
            forall|k: int| 0 <= k < j ==> order@[k] as int == #[trigger] sorted_order(keys, j as int)[k],
        decreases n - j,
    {
        proof {
            proof_sorted_order_range(keys, j as int);
        }
        let ghost o = sorted_order(keys, j as int);
        let mut p: usize = 0;
        while p < order.len()
            invariant
                n == entries@.len(),
                keys == entry_keys(entries@),
                j < n,
                order@.len() == j,
                o == sorted_order(keys, j as int),
                o.len() == j,
                forall|k: int| 0 <= k < j ==> order@[k] as int == #[trigger] o[k],
                forall|k: int| 0 <= k < j ==> 0 <= #[trigger] o[k] < j,
                p <= order@.len(),
                insert_pos(keys, o, j as int, 0) == insert_pos(keys, o, j as int, p as int),
            ensures
                p <= order@.len(),
                insert_pos(keys, o, j as int, 0) == p,
            decreases order@.len() - p,
        {
            let q = order[p];
            assert(o[p as int] == q as int);
            if key_less(entries[j].0.as_str(), entries[q].0.as_str()) {
                assert(keys[j as int] == entries@[j as int].0@);
                assert(keys[q as int] == entries@[q as int].0@);
                break;
            }
            p = p + 1;
        }
        proof {
            proof_insert_pos_range(keys, o, j as int, p as int);
        }
        let ghost before = order@;
        order.insert(p, j);
        let ghost o2 = sorted_order(keys, j + 1);
        assert(o2 == o.insert(p as int, j as int));
        assert forall|k: int| 0 <= k < j + 1 implies order@[k] as int == #[trigger] sorted_order(
            keys,
            j + 1,
        )[k] by {
            if k < p {
                assert(order@[k] == before[k]);
            } else if k > p {
                assert(order@[k] == before[k - 1]);
            }
        }
        j = j + 1;
    }
    order
}

/// Appends the canonical text of a number to `out`.
pub fn write_number(out: &mut String, n: &JsonNumber)
    ensures
        final(out)@ == old(out)@ + n.text(),
{
    let start = Ghost(out@);
    if n.mantissa == 0 {
        push_char(out, '0');
        assert(out@ == start@ + n.text());
        return;
    }
    let mag: u64 = if n.mantissa < 0 {
        if n.mantissa == i64::MIN { 9223372036854775808u64 } else { (-n.mantissa) as u64 }
    } else {
        n.mantissa as u64
    };
    if n.mantissa < 0 {
        push_char(out, '-');
    }
    let mid = Ghost(out@);
    let mut d = String::new();
    write_u64(&mut d, mag);
    assert(d@ =~= nat_text(mag as nat));
    proof {
        lemma_nat_text_len(mag as nat);
        proof_count_monotone(mag as int, 0x1_0000_0000_0000_0000);
        reveal_with_fuel(count_le, 21);
    }
    write_digits_jcs(out, d.as_str(), n.exponent);
    assert(out@ =~= start@ + n.text());
}

fn push_zeros(out: &mut String, c: i64)
    requires
        0 <= c <= 64,
    ensures
        final(out)@ == old(out)@ + zeros(c as int),
{
    let start = Ghost(out@);
    let mut i: i64 = 0;
    while i < c
        invariant
            0 <= i <= c,
            out@ == start@ + zeros(i as int),
        decreases c - i,
    {
        push_char(out, '0');
        i = i + 1;
        assert(zeros(i as int) == zeros(i - 1).push('0'));
    }
}

fn push_range(out: &mut String, s: &str, a: usize, b: usize)
    requires
        a <= b <= s@.len(),
    ensures
        final(out)@ == old(out)@ + s@.subrange(a as int, b as int),
{
    let start = Ghost(out@);
    let mut i = a;
    while i < b
        invariant
            a <= i <= b <= s@.len(),
            out@ == start@ + s@.subrange(a as int, i as int),
        decreases b - i,
    {
        push_char(out, s.get_char(i));
        assert(s@.subrange(a as int, i + 1) == s@.subrange(a as int, i as int).push(s@[i as int]));
        i = i + 1;
    }
}

proof fn lemma_nat_text_len(n: nat)
    ensures
        nat_text(n).len() == count_le(n as int) + 1,
    decreases n,
{
    if n >= 10 {
        lemma_nat_text_len(n / 10);
    }
}

fn write_digits_jcs(out: &mut String, d: &str, e: i64)
    requires
        1 <= d@.len() <= 20,
    ensures
        final(out)@ == old(out)@ + jcs_digits_text(d@, e as int),
{
    let start = Ghost(out@);
    let k = d.unicode_len();
    let ki = k as i128;
    let n: i128 = ki + e as i128;
    if ki <= n && n <= 21 {
        push_str(out, d);
        push_zeros(out, (n - ki) as i64);
    } else if 0 < n && n <= 21 {
        push_range(out, d, 0, n as usize);
        push_char(out, '.');
        push_range(out, d, n as usize, k);
    } else if -6 < n && n <= 0 {
        push_char(out, '0');
        push_char(out, '.');
        push_zeros(out, (-n) as i64);
        push_str(out, d);
    } else {
        let x: i128 = n - 1;
        if k == 1 {
            push_str(out, d);
        } else {
            push_range(out, d, 0, 1);
            push_char(out, '.');
            push_range(out, d, 1, k);
        }
        push_char(out, 'e');
        if x >= 0 {
            push_char(out, '+');
            write_u64(out, x as u64);
        } else {
            push_char(out, '-');
            write_u64(out, (-x) as u64);
        }
    }
    assert(out@ =~= start@ + jcs_digits_text(d@, e as int));
}

/// Appends the canonical text of `v` to `out`.
pub fn write_canonical(out: &mut String, v: &JsonValue)
    ensures
        final(out)@ == old(out)@ + canonical(*v),
    decreases v,
{
    let start = Ghost(out@);
    match v {
        JsonValue::Null => {
            push_str(out, "null");
        },
        JsonValue::Bool(b) => {
            if *b {
                push_str(out, "true");
            } else {
                push_str(out, "false");
            }
        },
        JsonValue::Number(n) => {
            write_number(out, n);
        },
        JsonValue::Str(s) => {
            write_quoted(out, s.as_str());
        },
        JsonValue::Array(items) => {
            push_char(out, '[');
            let mut i: usize = 0;
            while i < items.len()
                invariant
                    i <= items@.len(),
                    *v == JsonValue::Array(*items),
                    out@ == start@ + seq!['['] + items_text(*items, i as int),
                decreases items@.len() - i,
            {
                if i > 0 {
                    push_char(out, ',');
                }
                proof {
                    assert(decreases_to!(*v => (*v)->Array_0));
                    assert(decreases_to!(*items => items[i as int]));
                    assert(decreases_to!(*v => items[i as int]));
                }
                write_canonical(out, &items[i]);
                i = i + 1;
            }
            push_char(out, ']');
        },
        JsonValue::Object(entries) => {
            proof {
                assert(decreases_to!(*v => (*v)->Object_0));
            }
            write_canonical_entries(out, entries);
        },
    }
}

/// Appends the canonical text of the object with `entries` to `out`.
pub fn write_canonical_entries(out: &mut String, entries: &Vec<(String, JsonValue)>)
    ensures
        final(out)@ == old(out)@ + canonical(JsonValue::Object(*entries)),
    decreases entries,
{
    let start = Ghost(out@);
    let order = entry_order(entries);
    let ghost o = sorted_order(entry_keys(entries@), entries@.len() as int);
    proof {
        proof_sorted_order_range(entry_keys(entries@), entries@.len() as int);
    }
    push_char(out, '{');
    let mut i: usize = 0;
    while i < order.len()
        invariant
            i <= order@.len(),
            order@.len() == entries@.len(),
            o.len() == entries@.len(),
            forall|k: int| 0 <= k < order@.len() ==> order@[k] as int == #[trigger] o[k],
            forall|k: int| 0 <= k < o.len() ==> 0 <= #[trigger] o[k] < o.len(),
            out@ == start@ + seq!['{'] + members_text(*entries, o, i as int),
        decreases order@.len() - i,
    {
        if i > 0 {
            push_char(out, ',');
        }
        let j = order[i];
        assert(o[i as int] == j as int);
        write_quoted(out, entries[j].0.as_str());
        push_char(out, ':');
        proof {
            assert(decreases_to!(*entries => entries[j as int]));
            assert(decreases_to!(entries[j as int] => entries[j as int].1));
        }
        write_canonical(out, &entries[j].1);
        i = i + 1;
    }
    push_char(out, '}');
}

/// Canonical text of `v`.
pub fn canonical_json(v: &JsonValue) -> (r: String)
    ensures
        r@ == canonical(*v),
{
    let mut s = String::new();
    write_canonical(&mut s, v);
    assert(s@ == Seq::<char>::empty() + canonical(*v));
    s
}

} // verus!
