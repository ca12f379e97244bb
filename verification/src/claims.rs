use vstd::prelude::*;

use crate::digits::{
    dec_digits, dec_parse, dec_parse_vec, dec_render, is_digit, lemma_dec_digits_wf,
    lemma_dec_parse_digits,
};
use crate::subject::{safe_byte, subject_bytes_wf, SubjectId};
use crate::text::subvec;

verus! {

/// The authenticated payload of a token: who it asserts, when it was issued
/// and when it stops being valid. The audience is part of the wire payload
/// but is policy of the engine, not of the claims value, so it is checked
/// and dropped during verification rather than stored here.
pub struct Claims {
    /// Expiry, as seconds since the epoch.
    pub exp: u64,
    /// The asserted identity.
    pub uid: SubjectId,
    /// Issue time, as seconds since the epoch.
    pub iat: u64,
}

impl Claims {
    /// Claims the engine hands out always carry a valid identity and an
    /// expiry strictly after the issue time.
    pub open spec fn wf(&self) -> bool {
        self.uid.wf() && self.exp > self.iat
    }
}

// The payload is rendered as one fixed JSON shape,
// `{"exp":E,"uid":"U","iat":I,"aud":"A"}`, with no spaces, the fields in
// this order, numbers in canonical decimal and the two strings over the
// safe alphabet. Parsing accepts exactly that shape.
pub open spec fn lit_exp() -> Seq<u8> {
    seq!['{' as u8, '"' as u8, 'e' as u8, 'x' as u8, 'p' as u8, '"' as u8, ':' as u8]
}

pub open spec fn lit_uid() -> Seq<u8> {
    seq![',' as u8, '"' as u8, 'u' as u8, 'i' as u8, 'd' as u8, '"' as u8, ':' as u8, '"' as u8]
}

pub open spec fn lit_iat() -> Seq<u8> {
    seq!['"' as u8, ',' as u8, '"' as u8, 'i' as u8, 'a' as u8, 't' as u8, '"' as u8, ':' as u8]
}

pub open spec fn lit_aud() -> Seq<u8> {
    seq![',' as u8, '"' as u8, 'a' as u8, 'u' as u8, 'd' as u8, '"' as u8, ':' as u8, '"' as u8]
}

pub open spec fn lit_end() -> Seq<u8> {
    seq!['"' as u8, '}' as u8]
}

/// The exact payload bytes for the given claim fields and audience.
pub open spec fn payload_json(exp: u64, uid: Seq<u8>, iat: u64, aud: Seq<u8>) -> Seq<u8> {
    lit_exp() + dec_digits(exp as nat) + lit_uid() + uid + lit_iat() + dec_digits(iat as nat)
        + lit_aud() + aud + lit_end()
}

/// The literal `lit` occurs in `s` at position `at`.
pub open spec fn starts_at(s: Seq<u8>, at: int, lit: Seq<u8>) -> bool {
    0 <= at && at + lit.len() <= s.len() && s.subrange(at, at + lit.len()) == lit
}

/// First position at or after `from` that does not hold a decimal digit.
pub open spec fn scan_digits(s: Seq<u8>, from: int) -> int
    decreases s.len() - from,
{
    if !(0 <= from < s.len()) {
        s.len() as int
    } else if is_digit(s[from]) {
        scan_digits(s, from + 1)
    } else {
        from
    }
}

/// First position at or after `from` that does not hold a safe byte.
pub open spec fn scan_safe(s: Seq<u8>, from: int) -> int
    decreases s.len() - from,
{
    if !(0 <= from < s.len()) {
        s.len() as int
    } else if safe_byte(s[from]) {
        scan_safe(s, from + 1)
    } else {
        from
    }
}

pub proof fn lemma_scan_digits_exact(s: Seq<u8>, from: int, k: int)
    requires
        0 <= from <= k <= s.len(),
        forall|j: int| from <= j < k ==> is_digit(#[trigger] s[j]),
        k == s.len() || !is_digit(s[k]),
    ensures
        scan_digits(s, from) == k,
    decreases k - from,
{
    if from < k {
        lemma_scan_digits_exact(s, from + 1, k);
    }
}

pub proof fn lemma_scan_safe_exact(s: Seq<u8>, from: int, k: int)
    requires
        0 <= from <= k <= s.len(),
        forall|j: int| from <= j < k ==> safe_byte(#[trigger] s[j]),
        k == s.len() || !safe_byte(s[k]),
    ensures
        scan_safe(s, from) == k,
    decreases k - from,
{
    if from < k {
        lemma_scan_safe_exact(s, from + 1, k);
    }
}

pub proof fn lemma_scan_digits_bounds(s: Seq<u8>, from: int)
    requires
        0 <= from <= s.len(),
    ensures
        from <= scan_digits(s, from) <= s.len(),
        forall|j: int| from <= j < scan_digits(s, from) ==> is_digit(#[trigger] s[j]),
        scan_digits(s, from) < s.len() ==> !is_digit(s[scan_digits(s, from)]),
    decreases s.len() - from,
{
    if from < s.len() && is_digit(s[from]) {
        lemma_scan_digits_bounds(s, from + 1);
    }
}

pub proof fn lemma_scan_safe_bounds(s: Seq<u8>, from: int)
    requires
        0 <= from <= s.len(),
    ensures
        from <= scan_safe(s, from) <= s.len(),
        forall|j: int| from <= j < scan_safe(s, from) ==> safe_byte(#[trigger] s[j]),
        scan_safe(s, from) < s.len() ==> !safe_byte(s[scan_safe(s, from)]),
    decreases s.len() - from,
{
    if from < s.len() && safe_byte(s[from]) {
        lemma_scan_safe_bounds(s, from + 1);
    }
}

/// The claim fields and audience encoded by a payload, or `None` when the
/// payload does not have exactly the rendered shape.
pub open spec fn payload_parse(s: Seq<u8>) -> Option<(u64, Seq<u8>, u64, Seq<u8>)> {
    if !starts_at(s, 0, lit_exp()) {
        None
    } else {
        let p1 = scan_digits(s, lit_exp().len() as int);
        match dec_parse(s.subrange(lit_exp().len() as int, p1)) {
            None => None,
            Some(exp) => {
                if !starts_at(s, p1, lit_uid()) {
                    None
                } else {
                    let p2 = p1 + lit_uid().len();
                    let p3 = scan_safe(s, p2);
                    let uid = s.subrange(p2, p3);
                    if uid.len() == 0 || !starts_at(s, p3, lit_iat()) {
                        None
                    } else {
                        let p4 = p3 + lit_iat().len();
                        let p5 = scan_digits(s, p4);
                        match dec_parse(s.subrange(p4, p5)) {
                            None => None,
                            Some(iat) => {
                                if !starts_at(s, p5, lit_aud()) {
                                    None
                                } else {
                                    let p6 = p5 + lit_aud().len();
                                    let p7 = scan_safe(s, p6);
                                    let aud = s.subrange(p6, p7);
                                    if aud.len() == 0 || p7 + 2 != s.len() || !starts_at(
                                        s,
                                        p7,
                                        lit_end(),
                                    ) {
                                        None
                                    } else {
                                        Some((exp, uid, iat, aud))
                                    }
                                }
                            },
                        }
                    }
                }
            },
        }
    }
}

/// Whatever parses carries a well-formed identity and audience: both are
/// non-empty runs over the safe alphabet.
pub proof fn lemma_payload_parse_wf(s: Seq<u8>)
    ensures
        payload_parse(s) matches Some(q) ==> subject_bytes_wf(q.1) && subject_bytes_wf(q.3),
{
    if payload_parse(s) is Some {
        let p1 = scan_digits(s, lit_exp().len() as int);
        lemma_scan_digits_bounds(s, lit_exp().len() as int);
        let p2 = p1 + lit_uid().len();
        let p3 = scan_safe(s, p2);
        lemma_scan_safe_bounds(s, p2);
        let p4 = p3 + lit_iat().len();
        let p5 = scan_digits(s, p4);
        lemma_scan_digits_bounds(s, p4);
        let p6 = p5 + lit_aud().len();
        let p7 = scan_safe(s, p6);
        lemma_scan_safe_bounds(s, p6);
        let uid = s.subrange(p2, p3);
        let aud = s.subrange(p6, p7);
        assert forall|k: int| 0 <= k < uid.len() implies safe_byte(#[trigger] uid[k]) by {
            assert(uid[k] == s[p2 + k]);
        }
        assert forall|k: int| 0 <= k < aud.len() implies safe_byte(#[trigger] aud[k]) by {
            assert(aud[k] == s[p6 + k]);
        }
    }
}

/// Parsing inverts rendering: the payload built from any well-formed fields
/// parses back to exactly those fields.
pub proof fn lemma_payload_roundtrip(exp: u64, uid: Seq<u8>, iat: u64, aud: Seq<u8>)
    requires
        subject_bytes_wf(uid),
        subject_bytes_wf(aud),
    ensures
        payload_parse(payload_json(exp, uid, iat, aud)) == Some((exp, uid, iat, aud)),
{
    let s = payload_json(exp, uid, iat, aud);
    let d1 = dec_digits(exp as nat);
    let d2 = dec_digits(iat as nat);
    lemma_dec_digits_wf(exp as nat);
    lemma_dec_digits_wf(iat as nat);
    lemma_dec_parse_digits(exp);
    lemma_dec_parse_digits(iat);
    let p0 = lit_exp().len() as int;
    let p1 = p0 + d1.len();
    let p2 = p1 + lit_uid().len();
    let p3 = p2 + uid.len();
    let p4 = p3 + lit_iat().len();
    let p5 = p4 + d2.len();
    let p6 = p5 + lit_aud().len();
    let p7 = p6 + aud.len();
    assert(s.len() == p7 + 2);
    assert(starts_at(s, 0, lit_exp())) by {
        assert(s.subrange(0, p0) =~= lit_exp());
    }
    assert(scan_digits(s, p0) == p1) by {
        assert forall|j: int| p0 <= j < p1 implies is_digit(#[trigger] s[j]) by {
            assert(s[j] == d1[j - p0]);
        }
        assert(s[p1] == lit_uid()[0]);
        assert(!is_digit(s[p1]));
        lemma_scan_digits_exact(s, p0, p1);
    }
    assert(s.subrange(p0, p1) =~= d1);
    assert(starts_at(s, p1, lit_uid())) by {
        assert(s.subrange(p1, p2) =~= lit_uid());
    }
    assert(scan_safe(s, p2) == p3) by {
        assert forall|j: int| p2 <= j < p3 implies safe_byte(#[trigger] s[j]) by {
            assert(s[j] == uid[j - p2]);
        }
        assert(s[p3] == lit_iat()[0]);
        assert(!safe_byte(s[p3]));
        lemma_scan_safe_exact(s, p2, p3);
    }
    assert(s.subrange(p2, p3) =~= uid);
    assert(starts_at(s, p3, lit_iat())) by {
        assert(s.subrange(p3, p4) =~= lit_iat());
    }
    assert(scan_digits(s, p4) == p5) by {
        assert forall|j: int| p4 <= j < p5 implies is_digit(#[trigger] s[j]) by {
            assert(s[j] == d2[j - p4]);
        }
        assert(s[p5] == lit_aud()[0]);
        assert(!is_digit(s[p5]));
        lemma_scan_digits_exact(s, p4, p5);
    }
    assert(s.subrange(p4, p5) =~= d2);
    assert(starts_at(s, p5, lit_aud())) by {
        assert(s.subrange(p5, p6) =~= lit_aud());
    }
    assert(scan_safe(s, p6) == p7) by {
        assert forall|j: int| p6 <= j < p7 implies safe_byte(#[trigger] s[j]) by {
            assert(s[j] == aud[j - p6]);
        }
        assert(s[p7] == lit_end()[0]);
        assert(!safe_byte(s[p7]));
        lemma_scan_safe_exact(s, p6, p7);
    }
    assert(s.subrange(p6, p7) =~= aud);
    assert(starts_at(s, p7, lit_end())) by {
        assert(s.subrange(p7, p7 + 2) =~= lit_end());
    }
}

fn lit_vec_exp() -> (r: Vec<u8>)
    ensures
        r@ == lit_exp(),
{
    let mut v: Vec<u8> = Vec::new();
    v.push(123);
    v.push(34);
    v.push(101);
    v.push(120);
    v.push(112);
    v.push(34);
    v.push(58);
    proof {
        assert(v@ =~= lit_exp());
    }
    v
}

fn lit_vec_uid() -> (r: Vec<u8>)
    ensures
        r@ == lit_uid(),
{
    let mut v: Vec<u8> = Vec::new();
    v.push(44);
    v.push(34);
    v.push(117);
    v.push(105);
    v.push(100);
    v.push(34);
    v.push(58);
    v.push(34);
    proof {
        assert(v@ =~= lit_uid());
    }
    v
}

fn lit_vec_iat() -> (r: Vec<u8>)
    ensures
        r@ == lit_iat(),
{
    let mut v: Vec<u8> = Vec::new();
    v.push(34);
    v.push(44);
    v.push(34);
    v.push(105);
    v.push(97);
    v.push(116);
    v.push(34);
    v.push(58);
    proof {
        assert(v@ =~= lit_iat());
    }
    v
}

fn lit_vec_aud() -> (r: Vec<u8>)
    ensures
        r@ == lit_aud(),
{
    let mut v: Vec<u8> = Vec::new();
    v.push(44);
    v.push(34);
    v.push(97);
    v.push(117);
    v.push(100);
    v.push(34);
    v.push(58);
    v.push(34);
    proof {
        assert(v@ =~= lit_aud());
    }
    v
}

fn lit_vec_end() -> (r: Vec<u8>)
    ensures
        r@ == lit_end(),
{
    let mut v: Vec<u8> = Vec::new();
    v.push(34);
    v.push(125);
    proof {
        assert(v@ =~= lit_end());
    }
    v
}

/// Render the payload bytes for the given fields.
pub fn payload_render(exp: u64, uid: &Vec<u8>, iat: u64, aud: &Vec<u8>) -> (r: Vec<u8>)
    ensures
        r@ == payload_json(exp, uid@, iat, aud@),
{
    let mut out = lit_vec_exp();
    let mut part = dec_render(exp);
    out.append(&mut part);
    let mut part = lit_vec_uid();
    out.append(&mut part);
    let mut part = subvec(uid, 0, uid.len());
    proof {
        assert(part@ =~= uid@);
    }
    out.append(&mut part);
    let mut part = lit_vec_iat();
    out.append(&mut part);
    let mut part = dec_render(iat);
    out.append(&mut part);
    let mut part = lit_vec_aud();
    out.append(&mut part);
    let mut part = subvec(aud, 0, aud.len());
    proof {
        assert(part@ =~= aud@);
    }
    out.append(&mut part);
    let mut part = lit_vec_end();
    out.append(&mut part);
    proof {
        assert(out@ =~= payload_json(exp, uid@, iat, aud@));
    }
    out
}

fn starts_at_vec(s: &Vec<u8>, at: usize, lit: &Vec<u8>) -> (r: bool)
    ensures
        r == starts_at(s@, at as int, lit@),
{
    let n = s.len();
    let m = lit.len();
    if at > n || m > n - at {
        assert(!starts_at(s@, at as int, lit@));
        return false;
    }
    let mut j: usize = 0;
    while j < m
        invariant
            j <= m,
            at + m <= n,
            n == s@.len(),
            m == lit@.len(),
            forall|k: int| 0 <= k < j ==> s@[at + k] == lit@[k],
        decreases m - j,
    {
        if s[at + j] != lit[j] {
            proof {
                if starts_at(s@, at as int, lit@) {
                    assert(s@.subrange(at as int, at + m as int)[j as int] == lit@[j as int]);
                }
            }
            return false;
        }
        j = j + 1;
    }
    proof {
        assert(s@.subrange(at as int, at + m as int) =~= lit@);
    }
    true
}

fn scan_digits_vec(s: &Vec<u8>, from: usize) -> (r: usize)
    requires
        from <= s@.len(),
    ensures
        r == scan_digits(s@, from as int),
        from <= r <= s@.len(),
{
    let n = s.len();
    let mut i: usize = from;
    while i < n && 48 <= s[i] && s[i] <= 57
        invariant
            from <= i <= n,
            n == s@.len(),
            forall|j: int| from <= j < i ==> is_digit(#[trigger] s@[j]),
        decreases n - i,
    {
        i = i + 1;
    }
    proof {
        lemma_scan_digits_exact(s@, from as int, i as int);
    }
    i
}

fn scan_safe_vec(s: &Vec<u8>, from: usize) -> (r: usize)
    requires
        from <= s@.len(),
    ensures
        r == scan_safe(s@, from as int),
        from <= r <= s@.len(),
{
    let n = s.len();
    let mut i: usize = from;
    while i < n && ((48 <= s[i] && s[i] <= 57) || (65 <= s[i] && s[i] <= 90) || (97 <= s[i] && s[i]
        <= 122) || s[i] == 95 || s[i] == 45)
        invariant
            from <= i <= n,
            n == s@.len(),
            forall|j: int| from <= j < i ==> safe_byte(#[trigger] s@[j]),
        decreases n - i,
    {
        i = i + 1;
    }
    proof {
        lemma_scan_safe_exact(s@, from as int, i as int);
    }
    i
}

/// Parse a payload back into its fields; `None` when the bytes are not the
/// exact rendered shape.
pub fn payload_parse_vec(s: &Vec<u8>) -> (r: Option<(u64, Vec<u8>, u64, Vec<u8>)>)
    ensures
        match r {
            Some(q) => payload_parse(s@) == Some((q.0, q.1@, q.2, q.3@)),
            None => payload_parse(s@) is None,
        },
{
    let n = s.len();
    let le = lit_vec_exp();
    if !starts_at_vec(s, 0, &le) {
        return None;
    }
    let p0: usize = 7;
    assert(p0 == lit_exp().len());
    let p1 = scan_digits_vec(s, p0);
    let exp_digits = subvec(s, p0, p1);
    let exp = match dec_parse_vec(&exp_digits) {
        Some(e) => e,
        None => {
            return None;
        },
    };
    let lu = lit_vec_uid();
    if !starts_at_vec(s, p1, &lu) {
        return None;
    }
    let p2 = p1 + 8;
    assert(p2 == p1 + lit_uid().len());
    let p3 = scan_safe_vec(s, p2);
    let uid = subvec(s, p2, p3);
    let li = lit_vec_iat();
    if uid.len() == 0 || !starts_at_vec(s, p3, &li) {
        return None;
    }
    let p4 = p3 + 8;
    let p5 = scan_digits_vec(s, p4);
    let iat_digits = subvec(s, p4, p5);
    let iat = match dec_parse_vec(&iat_digits) {
        Some(e) => e,
        None => {
            return None;
        },
    };
    let la = lit_vec_aud();
    if !starts_at_vec(s, p5, &la) {
        return None;
    }
    let p6 = p5 + 8;
    let p7 = scan_safe_vec(s, p6);
    let aud = subvec(s, p6, p7);
    let lend = lit_vec_end();
    if aud.len() == 0 || n - p7 != 2 || !starts_at_vec(s, p7, &lend) {
        return None;
    }
    Some((exp, uid, iat, aud))
}

} // verus!
