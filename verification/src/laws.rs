use vstd::prelude::*;

use crate::base64url::{b64_decode, b64_encode, lemma_decode_encode, lemma_encode_ascii};
use crate::claims::{lemma_payload_roundtrip, payload_json, payload_parse};
use crate::crypto::mac_tag;
use crate::errors::AuthError;
use crate::format::{
    audience, find_dot, header_json, lemma_find_dot_exact, signing_input, spec_verify,
    token_chars,
};
use crate::service::issued_token_chars;
use crate::subject::{safe_byte, subject_bytes_wf};
use crate::text::{all_ascii, bytes_of, chars_of, lemma_bytes_of_chars_of, lemma_chars_of_ascii};
use crate::TOKEN_VALIDITY_SECONDS;

verus! {

proof fn lemma_audience_wf()
    ensures
        subject_bytes_wf(audience()),
{
    assert forall|i: int| 0 <= i < audience().len() implies safe_byte(
        #[trigger] audience()[i],
    ) by {
        assert(audience().len() == 8);
        assert(safe_byte(audience()[0]));
        assert(safe_byte(audience()[1]));
        assert(safe_byte(audience()[2]));
        assert(safe_byte(audience()[3]));
        assert(safe_byte(audience()[4]));
        assert(safe_byte(audience()[5]));
        assert(safe_byte(audience()[6]));
        assert(safe_byte(audience()[7]));
    }
}

/// The sealing law behind the round-trip, audience and expiry properties: a
/// token the engine assembles and signs passes the structural, header,
/// payload and signature checks exactly, so its verdict at any time turns on
/// the audience claim and the clock alone.
pub proof fn lemma_sealed_token_verdict(
    secret: Seq<char>,
    exp: u64,
    sub: Seq<u8>,
    iat: u64,
    aud: Seq<u8>,
    now: u64,
)
    requires
        subject_bytes_wf(sub),
        subject_bytes_wf(aud),
        exp > iat,
    ensures
        spec_verify(secret, token_chars(secret, payload_json(exp, sub, iat, aud)), now) == (if aud
            != audience() {
            Err::<(u64, Seq<u8>, u64), AuthError>(AuthError::InvalidAudience)
        } else if now >= exp {
            Err::<(u64, Seq<u8>, u64), AuthError>(AuthError::TokenExpired)
        } else {
            Ok::<(u64, Seq<u8>, u64), AuthError>((exp, sub, iat))
        }),
{
    let pj = payload_json(exp, sub, iat, aud);
    let hb = b64_encode(header_json());
    let pb = b64_encode(pj);
    let si = signing_input(pj);
    let tag = mac_tag(secret, chars_of(si));
    let t = token_chars(secret, pj);
    lemma_encode_ascii(header_json());
    lemma_encode_ascii(pj);
    let hl = hb.len() as int;
    let sil = si.len() as int;
    assert(si =~= hb + seq![46u8] + pb);
    assert(t =~= chars_of(si) + seq!['.'] + tag);
    assert(sil == hl + 1 + pb.len());
    assert(t.len() == sil + 1 + tag.len());
    // Every character before the first separator comes from the header
    // segment, whose digits are never a dot.
    assert forall|k: int| 0 <= k < hl implies #[trigger] t[k] != '.' by {
        assert(t[k] == hb[k] as char);
        assert((hb[k] as char) as u8 == hb[k]);
        assert(hb[k] != 46);
    }
    assert(t[hl] == 46u8 as char);
    assert(t[hl] == '.');
    lemma_find_dot_exact(t, 0, hl);
    assert forall|k: int| hl + 1 <= k < sil implies #[trigger] t[k] != '.' by {
        assert(t[k] == pb[k - hl - 1] as char);
        assert((pb[k - hl - 1] as char) as u8 == pb[k - hl - 1]);
        assert(pb[k - hl - 1] != 46);
    }
    assert(t[sil] == '.');
    lemma_find_dot_exact(t, hl + 1, sil);
    let i = find_dot(t, 0);
    let j = find_dot(t, i + 1);
    assert(i == hl && j == sil);
    assert(i != t.len() && j != t.len());
    // Header segment.
    let hseg = t.take(i);
    assert(hseg =~= chars_of(hb));
    assert(all_ascii(hb));
    lemma_chars_of_ascii(hb);
    lemma_bytes_of_chars_of(hb);
    assert(bytes_of(hseg) == hb);
    // Payload segment.
    let pseg = t.subrange(i + 1, j);
    assert(pseg =~= chars_of(pb));
    assert(all_ascii(pb));
    lemma_chars_of_ascii(pb);
    lemma_bytes_of_chars_of(pb);
    assert(bytes_of(pseg) == pb);
    lemma_decode_encode(pj);
    assert(b64_decode(bytes_of(pseg)) == Some(pj));
    lemma_payload_roundtrip(exp, sub, iat, aud);
    assert(payload_parse(pj) == Some((exp, sub, iat, aud)));
    // Signature segment.
    assert(t.skip(j + 1) =~= tag);
    assert(t.take(j) =~= chars_of(si));
    assert(t.skip(j + 1) == mac_tag(secret, t.take(j)));
}

/// Round trip: a token issued for a well-formed identity at time `iat`
/// verifies at any time before its expiry, and the verified claims are
/// exactly the identity it was issued for, the issue time, and an expiry of
/// `iat` plus the thirty-day window.
pub proof fn lemma_issue_verify_roundtrip(secret: Seq<char>, sub: Seq<u8>, iat: u64, now: u64)
    requires
        subject_bytes_wf(sub),
        iat + TOKEN_VALIDITY_SECONDS <= u64::MAX,
        now < iat + TOKEN_VALIDITY_SECONDS,
    ensures
        spec_verify(secret, issued_token_chars(secret, sub, iat), now) == Ok::<
            (u64, Seq<u8>, u64),
            AuthError,
        >((((iat + TOKEN_VALIDITY_SECONDS) as u64), sub, iat)),
{
    lemma_audience_wf();
    lemma_sealed_token_verdict(
        secret,
        (iat + TOKEN_VALIDITY_SECONDS) as u64,
        sub,
        iat,
        audience(),
        now,
    );
}

/// Audience enforcement: a well-formed, correctly signed token whose
/// audience claim differs from the engine's fixed audience is rejected,
/// whatever the clock reads.
pub proof fn lemma_wrong_audience_rejected(
    secret: Seq<char>,
    exp: u64,
    sub: Seq<u8>,
    iat: u64,
    aud: Seq<u8>,
    now: u64,
)
    requires
        subject_bytes_wf(sub),
        subject_bytes_wf(aud),
        exp > iat,
        aud != audience(),
    ensures
        spec_verify(secret, token_chars(secret, payload_json(exp, sub, iat, aud)), now) == Err::<
            (u64, Seq<u8>, u64),
            AuthError,
        >(AuthError::InvalidAudience),
{
    lemma_sealed_token_verdict(secret, exp, sub, iat, aud, now);
}

/// Expiry enforcement: a well-formed, correctly signed token for the right
/// audience is rejected as expired at every time at or past its expiry.
pub proof fn lemma_expired_rejected(secret: Seq<char>, exp: u64, sub: Seq<u8>, iat: u64, now: u64)
    requires
        subject_bytes_wf(sub),
        exp > iat,
        now >= exp,
    ensures
        spec_verify(secret, token_chars(secret, payload_json(exp, sub, iat, audience())), now)
            == Err::<(u64, Seq<u8>, u64), AuthError>(AuthError::TokenExpired),
{
    lemma_audience_wf();
    lemma_sealed_token_verdict(secret, exp, sub, iat, audience(), now);
}

/// Signature pinning: a token verifies only when its signature segment is
/// exactly the tag the engine computes over everything before the second
/// separator, so any change confined to the signature makes verification
/// fail.
pub proof fn lemma_signature_pinned(secret: Seq<char>, token: Seq<char>, now: u64)
    ensures
        spec_verify(secret, token, now) is Ok ==> token.skip(
            find_dot(token, find_dot(token, 0) + 1) + 1,
        ) == mac_tag(secret, token.take(find_dot(token, find_dot(token, 0) + 1))),
{
}

/// Verification is a function of the secret, the serialized token and the
/// clock alone, and consumes nothing: any two verdicts for the same token at
/// the same time carry identical claims.
pub proof fn lemma_verify_idempotent(
    secret: Seq<char>,
    token: Seq<char>,
    now: u64,
    c1: (u64, Seq<u8>, u64),
    c2: (u64, Seq<u8>, u64),
)
    requires
        spec_verify(secret, token, now) == Ok::<(u64, Seq<u8>, u64), AuthError>(c1),
        spec_verify(secret, token, now) == Ok::<(u64, Seq<u8>, u64), AuthError>(c2),
    ensures
        c1 == c2,
{
}

} // verus!
