use vstd::prelude::*;

use crate::base64url::{b64_decode, b64_decode_vec, b64_encode, b64_encode_vec};
use crate::claims::{payload_parse, payload_parse_vec};
use crate::crypto::{hs256_sign, hs256_verify, mac_tag};
use crate::errors::AuthError;
use crate::text::{all_ascii, ascii_string, bytes_of, bytes_eq, chars_of};

verus! {

// A token is the compact serialization `B64(header) . B64(payload) . tag`,
// where the header is the constant below, the payload is the JSON shape of
// `claims::payload_json`, and the tag is the HMAC-SHA256 text the signing
// engine computes over everything before the second dot.
/// The fixed protected header: `{"typ":"JWT","alg":"HS256"}`.
pub open spec fn header_json() -> Seq<u8> {
    seq![
        '{' as u8,
        '"' as u8,
        't' as u8,
        'y' as u8,
        'p' as u8,
        '"' as u8,
        ':' as u8,
        '"' as u8,
        'J' as u8,
        'W' as u8,
        'T' as u8,
        '"' as u8,
        ',' as u8,
        '"' as u8,
        'a' as u8,
        'l' as u8,
        'g' as u8,
        '"' as u8,
        ':' as u8,
        '"' as u8,
        'H' as u8,
        'S' as u8,
        '2' as u8,
        '5' as u8,
        '6' as u8,
        '"' as u8,
        '}' as u8,
    ]
}

/// The fixed audience this application issues tokens for.
pub open spec fn audience() -> Seq<u8> {
    seq!['T' as u8, 'o' as u8, 'w' as u8, 'n' as u8, 'H' as u8, 'a' as u8, 'l' as u8, 'l' as u8]
}

pub fn header_vec() -> (r: Vec<u8>)
    ensures
        r@ == header_json(),
{
    let mut v: Vec<u8> = Vec::new();
    v.push(123);
    v.push(34);
    v.push(116);
    v.push(121);
    v.push(112);
    v.push(34);
    v.push(58);
    v.push(34);
    v.push(74);
    v.push(87);
    v.push(84);
    v.push(34);
    v.push(44);
    v.push(34);
    v.push(97);
    v.push(108);
    v.push(103);
    v.push(34);
    v.push(58);
    v.push(34);
    v.push(72);
    v.push(83);
    v.push(50);
    v.push(53);
    v.push(54);
    v.push(34);
    v.push(125);
    proof {
        assert(v@ =~= header_json());
    }
    v
}

pub fn audience_vec() -> (r: Vec<u8>)
    ensures
        r@ == audience(),
{
    let mut v: Vec<u8> = Vec::new();
    v.push(84);
    v.push(111);
    v.push(119);
    v.push(110);
    v.push(72);
    v.push(97);
    v.push(108);
    v.push(108);
    proof {
        assert(v@ =~= audience());
    }
    v
}

/// The bytes the tag is computed over: `B64(header) . B64(payload)`.
pub open spec fn signing_input(payload: Seq<u8>) -> Seq<u8> {
    b64_encode(header_json()) + seq![46u8] + b64_encode(payload)
}

/// The full serialized token for a payload under a secret.
pub open spec fn token_chars(secret: Seq<char>, payload: Seq<u8>) -> Seq<char> {
    chars_of(signing_input(payload)) + seq!['.'] + mac_tag(secret, chars_of(signing_input(payload)))
}

/// First position at or after `from` that holds a dot.
pub open spec fn find_dot(s: Seq<char>, from: int) -> int
    decreases s.len() - from,
{
    if !(0 <= from < s.len()) {
        s.len() as int
    } else if s[from] == '.' {
        from
    } else {
        find_dot(s, from + 1)
    }
}

pub proof fn lemma_find_dot_exact(s: Seq<char>, from: int, k: int)
    requires
        0 <= from <= k <= s.len(),
        forall|j: int| from <= j < k ==> #[trigger] s[j] != '.',
        k == s.len() || s[k] == '.',
    ensures
        find_dot(s, from) == k,
    decreases k - from,
{
    if from < k {
        lemma_find_dot_exact(s, from + 1, k);
    }
}

/// What verification decides apart from expiry: the structure, header,
/// payload shape, claim ordering, signature and audience checks, in that
/// order. The result names the first check that failed, or carries the
/// decoded `(expiry, identity, issue time)`.
pub open spec fn spec_validate(secret: Seq<char>, token: Seq<char>) -> Result<
    (u64, Seq<u8>, u64),
    AuthError,
> {
    let i = find_dot(token, 0);
    if i == token.len() {
        Err(AuthError::MalformedToken)
    } else {
        let j = find_dot(token, i + 1);
        if j == token.len() {
            Err(AuthError::MalformedToken)
        } else {
            let hseg = token.take(i);
            let pseg = token.subrange(i + 1, j);
            if !vstd::utf8::is_ascii_chars(hseg) || !vstd::utf8::is_ascii_chars(pseg) {
                Err(AuthError::MalformedToken)
            } else if bytes_of(hseg) != b64_encode(header_json()) {
                Err(AuthError::MalformedToken)
            } else {
                match b64_decode(bytes_of(pseg)) {
                    None => Err(AuthError::MalformedToken),
                    Some(pl) => match payload_parse(pl) {
                        None => Err(AuthError::MalformedToken),
                        Some((exp, uid, iat, aud)) => {
                            if exp <= iat {
                                Err(AuthError::MalformedToken)
                            } else if token.skip(j + 1) != mac_tag(secret, token.take(j)) {
                                Err(AuthError::InvalidSignature)
                            } else if aud != audience() {
                                Err(AuthError::InvalidAudience)
                            } else {
                                Ok((exp, uid, iat))
                            }
                        },
                    },
                }
            }
        }
    }
}

/// What verification decides at time `now`: as `spec_validate`, and a token
/// whose expiry is not in the future is rejected as expired.
pub open spec fn spec_verify(secret: Seq<char>, token: Seq<char>, now: u64) -> Result<
    (u64, Seq<u8>, u64),
    AuthError,
> {
    match spec_validate(secret, token) {
        Ok(c) => {
            if now >= c.0 {
                Err(AuthError::TokenExpired)
            } else {
                Ok(c)
            }
        },
        Err(e) => Err(e),
    }
}

/// Serialize and sign a payload. Always succeeds: the signing wrapper
/// promises a tag for every secret and message.
pub fn seal(secret: &str, payload: &Vec<u8>) -> (r: Option<String>)
    ensures
        r is Some,
        r matches Some(t) ==> t@ == token_chars(secret@, payload@),
{
    let hv = header_vec();
    let mut msg = b64_encode_vec(&hv);
    msg.push(46);
    let mut pb = b64_encode_vec(payload);
    msg.append(&mut pb);
    proof {
        assert(msg@ =~= signing_input(payload@));
        crate::base64url::lemma_encode_ascii(header_json());
        crate::base64url::lemma_encode_ascii(payload@);
        assert forall|k: int| 0 <= k < msg@.len() implies msg@[k] < 128 by {
            let hl = b64_encode(header_json()).len() as int;
            if k < hl {
                assert(msg@[k] == b64_encode(header_json())[k]);
            } else if k == hl {
                assert(msg@[k] == 46);
            } else {
                assert(msg@[k] == b64_encode(payload@)[k - hl - 1]);
            }
        }
    }
    let ghost msg_view = msg@;
    let msg_s = ascii_string(msg);
    let tag = match hs256_sign(secret, msg_s.as_str()) {
        Some(t) => t,
        None => {
            return None;
        },
    };
    let with_dot = msg_s.concat(".");
    let raw = with_dot.concat(tag.as_str());
    proof {
        reveal_strlit(".");
        assert(raw@ =~= token_chars(secret@, payload@));
    }
    Some(raw)
}

fn find_dot_str(s: &str, from: usize, n: usize) -> (r: usize)
    requires
        n == s@.len(),
        from <= n,
    ensures
        r == find_dot(s@, from as int),
        from <= r <= n,
{
    let mut i: usize = from;
    while i < n && s.get_char(i) != '.'
        invariant
            from <= i <= n,
            n == s@.len(),
            forall|j: int| from <= j < i ==> #[trigger] s@[j] != '.',
        decreases n - i,
    {
        i = i + 1;
    }
    proof {
        lemma_find_dot_exact(s@, from as int, i as int);
    }
    i
}

/// Check a serialized token against the secret, the fixed policy and the
/// given time, returning the decoded `(expiry, identity, issue time)`.
pub fn verify_compact(secret: &str, token: &str, now: u64) -> (r: Result<
    (u64, Vec<u8>, u64),
    AuthError,
>)
    ensures
        match r {
            Ok(t) => spec_verify(secret@, token@, now) == Ok::<(u64, Seq<u8>, u64), AuthError>(
                (t.0, t.1@, t.2),
            ),
            Err(e) => spec_verify(secret@, token@, now) == Err::<(u64, Seq<u8>, u64), AuthError>(
                e,
            ),
        },
{
    let n = token.unicode_len();
    let i = find_dot_str(token, 0, n);
    if i == n {
        return Err(AuthError::MalformedToken);
    }
    let j = find_dot_str(token, i + 1, n);
    if j == n {
        return Err(AuthError::MalformedToken);
    }
    let hseg = token.substring_char(0, i);
    let pseg = token.substring_char(i + 1, j);
    if !hseg.is_ascii() || !pseg.is_ascii() {
        return Err(AuthError::MalformedToken);
    }
    let hbytes = hseg.as_bytes_vec();
    let pbytes = pseg.as_bytes_vec();
    proof {
        vstd::string::is_ascii_spec_bytes(hseg);
        vstd::string::is_ascii_spec_bytes(pseg);
        assert(hbytes@ =~= bytes_of(token@.take(i as int)));
        assert(pbytes@ =~= bytes_of(token@.subrange(i + 1 as int, j as int)));
    }
    let hv = header_vec();
    let hb = b64_encode_vec(&hv);
    if !bytes_eq(&hbytes, &hb) {
        return Err(AuthError::MalformedToken);
    }
    let pl = match b64_decode_vec(&pbytes) {
        Some(p) => p,
        None => {
            return Err(AuthError::MalformedToken);
        },
    };
    let parsed = match payload_parse_vec(&pl) {
        Some(q) => q,
        None => {
            return Err(AuthError::MalformedToken);
        },
    };
    if parsed.0 <= parsed.2 {
        return Err(AuthError::MalformedToken);
    }
    let msg = token.substring_char(0, j);
    let sig = token.substring_char(j + 1, n);
    proof {
        assert(msg@ =~= token@.take(j as int));
        assert(sig@ =~= token@.skip(j + 1 as int));
    }
    if !hs256_verify(secret, msg, sig) {
        return Err(AuthError::InvalidSignature);
    }
    let audv = audience_vec();
    if !bytes_eq(&parsed.3, &audv) {
        return Err(AuthError::InvalidAudience);
    }
    if now >= parsed.0 {
        return Err(AuthError::TokenExpired);
    }
    Ok((parsed.0, parsed.1, parsed.2))
}

} // verus!
