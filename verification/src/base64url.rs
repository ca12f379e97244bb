use vstd::prelude::*;

verus! {

// The unpadded base64url alphabet of RFC 4648: 'A'..'Z', 'a'..'z', '0'..'9',
// '-' and '_'. Values are six-bit groups; a final group of one byte becomes
// two digits, of two bytes three digits, and the unused low bits of the last
// digit must be zero, which makes every byte sequence have exactly one
// encoding.
/// ASCII code of the base64url digit for a six-bit value.
pub open spec fn b64_code(v: u8) -> u8 {
    if v < 26 {
        (65 + v) as u8  // 'A'..'Z'
    } else if v < 52 {
        (71 + v) as u8  // 'a'..'z'
    } else if v < 62 {
        (v - 4) as u8  // '0'..'9'
    } else if v == 62 {
        45u8  // '-'
    } else {
        95u8  // '_'
    }
}

/// Six-bit value of an ASCII code; 64 marks a byte outside the alphabet.
pub open spec fn b64_val(b: u8) -> u8 {
    if 65 <= b && b <= 90 {
        (b - 65) as u8
    } else if 97 <= b && b <= 122 {
        (b - 71) as u8
    } else if 48 <= b && b <= 57 {
        (b + 4) as u8
    } else if b == 45 {
        62u8
    } else if b == 95 {
        63u8
    } else {
        64u8
    }
}

pub proof fn lemma_code_val(v: u8)
    requires
        v < 64,
    ensures
        b64_val(b64_code(v)) == v,
        b64_code(v) < 128,
        b64_code(v) != 46,
{
}

/// The base64url digits (as ASCII codes) of a byte sequence.
pub open spec fn b64_encode(b: Seq<u8>) -> Seq<u8>
    decreases b.len(),
{
    if b.len() == 0 {
        Seq::empty()
    } else if b.len() == 1 {
        seq![b64_code(b[0] >> 2), b64_code((b[0] & 3) << 4)]
    } else if b.len() == 2 {
        seq![
            b64_code(b[0] >> 2),
            b64_code(((b[0] & 3) << 4) | (b[1] >> 4)),
            b64_code((b[1] & 15) << 2),
        ]
    } else {
        seq![
            b64_code(b[0] >> 2),
            b64_code(((b[0] & 3) << 4) | (b[1] >> 4)),
            b64_code(((b[1] & 15) << 2) | (b[2] >> 6)),
            b64_code(b[2] & 63),
        ] + b64_encode(b.skip(3))
    }
}

/// The bytes encoded by a sequence of base64url digits, or `None` when the
/// sequence is not the canonical encoding of any byte sequence.
pub open spec fn b64_decode(s: Seq<u8>) -> Option<Seq<u8>>
    decreases s.len(),
{
    if s.len() == 0 {
        Some(Seq::empty())
    } else if s.len() == 1 {
        None
    } else if s.len() == 2 {
        let v0 = b64_val(s[0]);
        let v1 = b64_val(s[1]);
        if v0 < 64 && v1 < 64 && v1 & 15 == 0 {
            Some(seq![(v0 << 2) | (v1 >> 4)])
        } else {
            None
        }
    } else if s.len() == 3 {
        let v0 = b64_val(s[0]);
        let v1 = b64_val(s[1]);
        let v2 = b64_val(s[2]);
        if v0 < 64 && v1 < 64 && v2 < 64 && v2 & 3 == 0 {
            Some(seq![(v0 << 2) | (v1 >> 4), ((v1 & 15) << 4) | (v2 >> 2)])
        } else {
            None
        }
    } else {
        let v0 = b64_val(s[0]);
        let v1 = b64_val(s[1]);
        let v2 = b64_val(s[2]);
        let v3 = b64_val(s[3]);
        if v0 < 64 && v1 < 64 && v2 < 64 && v3 < 64 {
            match b64_decode(s.skip(4)) {
                Some(rest) => Some(
                    seq![
                        (v0 << 2) | (v1 >> 4),
                        ((v1 & 15) << 4) | (v2 >> 2),
                        ((v2 & 3) << 6) | v3,
                    ] + rest,
                ),
                None => None,
            }
        } else {
            None
        }
    }
}

proof fn lemma_pack_unpack3(b0: u8, b1: u8, b2: u8)
    ensures
        b0 >> 2 < 64,
        ((b0 & 3) << 4) | (b1 >> 4) < 64,
        ((b1 & 15) << 2) | (b2 >> 6) < 64,
        b2 & 63 < 64,
        ((b0 >> 2) << 2) | ((((b0 & 3) << 4) | (b1 >> 4)) >> 4) == b0,
        (((((b0 & 3) << 4) | (b1 >> 4)) & 15) << 4) | ((((b1 & 15) << 2) | (b2 >> 6)) >> 2) == b1,
        (((((b1 & 15) << 2) | (b2 >> 6)) & 3) << 6) | (b2 & 63) == b2,
{
    assert(b0 >> 2 < 64 && ((b0 & 3) << 4) | (b1 >> 4) < 64 && ((b1 & 15) << 2) | (b2 >> 6) < 64
        && b2 & 63 < 64 && ((b0 >> 2) << 2) | ((((b0 & 3) << 4) | (b1 >> 4)) >> 4) == b0 && (((((b0
        & 3) << 4) | (b1 >> 4)) & 15) << 4) | ((((b1 & 15) << 2) | (b2 >> 6)) >> 2) == b1 && (((((
    b1 & 15) << 2) | (b2 >> 6)) & 3) << 6) | (b2 & 63) == b2) by (bit_vector);
}

proof fn lemma_pack_unpack1(b0: u8)
    ensures
        b0 >> 2 < 64,
        (b0 & 3) << 4 < 64,
        ((b0 & 3) << 4) & 15 == 0,
        ((b0 >> 2) << 2) | (((b0 & 3) << 4) >> 4) == b0,
{
    assert(b0 >> 2 < 64 && (b0 & 3) << 4 < 64 && ((b0 & 3) << 4) & 15 == 0 && ((b0 >> 2) << 2) | ((
    (b0 & 3) << 4) >> 4) == b0) by (bit_vector);
}

proof fn lemma_pack_unpack2(b0: u8, b1: u8)
    ensures
        b0 >> 2 < 64,
        ((b0 & 3) << 4) | (b1 >> 4) < 64,
        (b1 & 15) << 2 < 64,
        ((b1 & 15) << 2) & 3 == 0,
        ((b0 >> 2) << 2) | ((((b0 & 3) << 4) | (b1 >> 4)) >> 4) == b0,
        (((((b0 & 3) << 4) | (b1 >> 4)) & 15) << 4) | (((b1 & 15) << 2) >> 2) == b1,
{
    assert(b0 >> 2 < 64 && ((b0 & 3) << 4) | (b1 >> 4) < 64 && (b1 & 15) << 2 < 64 && ((b1 & 15)
        << 2) & 3 == 0 && ((b0 >> 2) << 2) | ((((b0 & 3) << 4) | (b1 >> 4)) >> 4) == b0 && (((((b0
        & 3) << 4) | (b1 >> 4)) & 15) << 4) | (((b1 & 15) << 2) >> 2) == b1) by (bit_vector);
}

/// Decoding inverts encoding: the canonical digits of any byte sequence
/// decode back to exactly that sequence.
pub proof fn lemma_decode_encode(b: Seq<u8>)
    ensures
        b64_decode(b64_encode(b)) == Some(b),
    decreases b.len(),
{
    if b.len() == 0 {
        assert(b64_encode(b).len() == 0);
        assert(b =~= Seq::<u8>::empty());
    } else if b.len() == 1 {
        lemma_pack_unpack1(b[0]);
        lemma_code_val(b[0] >> 2);
        lemma_code_val((b[0] & 3) << 4);
        assert(b64_decode(b64_encode(b)).unwrap() =~= b);
    } else if b.len() == 2 {
        lemma_pack_unpack2(b[0], b[1]);
        lemma_code_val(b[0] >> 2);
        lemma_code_val(((b[0] & 3) << 4) | (b[1] >> 4));
        lemma_code_val((b[1] & 15) << 2);
        assert(b64_decode(b64_encode(b)).unwrap() =~= b);
    } else {
        lemma_pack_unpack3(b[0], b[1], b[2]);
        lemma_code_val(b[0] >> 2);
        lemma_code_val(((b[0] & 3) << 4) | (b[1] >> 4));
        lemma_code_val(((b[1] & 15) << 2) | (b[2] >> 6));
        lemma_code_val(b[2] & 63);
        lemma_decode_encode(b.skip(3));
        let s = b64_encode(b);
        assert(s.skip(4) =~= b64_encode(b.skip(3)));
        assert(s.len() >= 4);
        let rest = b64_decode(s.skip(4)).unwrap();
        assert(b64_decode(s).unwrap() =~= b);
    }
}

/// Every digit the encoder emits is an ASCII code of the alphabet; in
/// particular none is a dot, so encoded segments never collide with the
/// separators of a compact token.
pub proof fn lemma_encode_ascii(b: Seq<u8>)
    ensures
        forall|i: int|
            0 <= i < b64_encode(b).len() ==> #[trigger] b64_encode(b)[i] < 128 && b64_encode(b)[i]
                != 46,
    decreases b.len(),
{
    if b.len() == 0 {
    } else if b.len() == 1 {
        lemma_pack_unpack1(b[0]);
        lemma_code_val(b[0] >> 2);
        lemma_code_val((b[0] & 3) << 4);
    } else if b.len() == 2 {
        lemma_pack_unpack2(b[0], b[1]);
        lemma_code_val(b[0] >> 2);
        lemma_code_val(((b[0] & 3) << 4) | (b[1] >> 4));
        lemma_code_val((b[1] & 15) << 2);
    } else {
        lemma_pack_unpack3(b[0], b[1], b[2]);
        lemma_code_val(b[0] >> 2);
        lemma_code_val(((b[0] & 3) << 4) | (b[1] >> 4));
        lemma_code_val(((b[1] & 15) << 2) | (b[2] >> 6));
        lemma_code_val(b[2] & 63);
        lemma_encode_ascii(b.skip(3));
        let s = b64_encode(b);
        assert forall|i: int| 0 <= i < s.len() implies #[trigger] s[i] < 128 && s[i] != 46 by {
            if i >= 4 {
                assert(s[i] == b64_encode(b.skip(3))[i - 4]);
            }
        }
    }
}

fn b64_code_exec(v: u8) -> (r: u8)
    requires
        v < 64,
    ensures
        r == b64_code(v),
{
    if v < 26 {
        65 + v
    } else if v < 52 {
        71 + v
    } else if v < 62 {
        v - 4
    } else if v == 62 {
        45
    } else {
        95
    }
}

fn b64_val_exec(b: u8) -> (r: u8)
    ensures
        r == b64_val(b),
{
    if 65 <= b && b <= 90 {
        b - 65
    } else if 97 <= b && b <= 122 {
        b - 71
    } else if 48 <= b && b <= 57 {
        b + 4
    } else if b == 45 {
        62
    } else if b == 95 {
        63
    } else {
        64
    }
}

/// Encode a byte sequence as unpadded base64url digits (ASCII codes).
pub fn b64_encode_vec(input: &Vec<u8>) -> (r: Vec<u8>)
    ensures
        r@ == b64_encode(input@),
{
    let n = input.len();
    let mut r: Vec<u8> = Vec::new();
    let mut i: usize = 0;
    proof {
        assert(input@.skip(0) =~= input@);
        assert(r@ + b64_encode(input@) =~= b64_encode(input@));
    }
    while n - i >= 3
        invariant
            i <= n,
            n == input@.len(),
            b64_encode(input@) == r@ + b64_encode(input@.skip(i as int)),
        decreases n - i,
    {
        let b0 = input[i];
        let b1 = input[i + 1];
        let b2 = input[i + 2];
        proof {
            lemma_pack_unpack3(b0, b1, b2);
        }
        r.push(b64_code_exec(b0 >> 2));
        r.push(b64_code_exec(((b0 & 3) << 4) | (b1 >> 4)));
        r.push(b64_code_exec(((b1 & 15) << 2) | (b2 >> 6)));
        r.push(b64_code_exec(b2 & 63));
        proof {
            let rem = input@.skip(i as int);
            assert(rem.len() >= 3);
            assert(rem[0] == b0 && rem[1] == b1 && rem[2] == b2);
            assert(rem.skip(3) =~= input@.skip(i + 3 as int));
            assert(b64_encode(input@) =~= r@ + b64_encode(input@.skip(i + 3 as int)));
        }
        i = i + 3;
    }
    if n - i == 1 {
        let b0 = input[i];
        proof {
            lemma_pack_unpack1(b0);
            assert(input@.skip(i as int).len() == 1);
            assert(input@.skip(i as int)[0] == b0);
        }
        r.push(b64_code_exec(b0 >> 2));
        r.push(b64_code_exec((b0 & 3) << 4));
        proof {
            assert(r@ =~= b64_encode(input@));
        }
    } else if n - i == 2 {
        let b0 = input[i];
        let b1 = input[i + 1];
        proof {
            lemma_pack_unpack2(b0, b1);
            assert(input@.skip(i as int).len() == 2);
            assert(input@.skip(i as int)[0] == b0 && input@.skip(i as int)[1] == b1);
        }
        r.push(b64_code_exec(b0 >> 2));
        r.push(b64_code_exec(((b0 & 3) << 4) | (b1 >> 4)));
        r.push(b64_code_exec((b1 & 15) << 2));
        proof {
            assert(r@ =~= b64_encode(input@));
        }
    } else {
        proof {
            assert(input@.skip(i as int).len() == 0);
            assert(r@ =~= b64_encode(input@));
        }
    }
    r
}

/// How a decoded suffix combines with already decoded bytes.
pub open spec fn b64_glue(prefix: Seq<u8>, rest: Option<Seq<u8>>) -> Option<Seq<u8>> {
    match rest {
        Some(t) => Some(prefix + t),
        None => None,
    }
}

/// Decode unpadded base64url digits; `None` when the input is not the
/// canonical encoding of any byte sequence.
pub fn b64_decode_vec(s: &Vec<u8>) -> (r: Option<Vec<u8>>)
    ensures
        match r {
            Some(v) => b64_decode(s@) == Some(v@),
            None => b64_decode(s@) is None,
        },
{
    let n = s.len();
    let mut out: Vec<u8> = Vec::new();
    let mut i: usize = 0;
    proof {
        assert(s@.skip(0) =~= s@);
        assert(b64_decode(s@) == b64_glue(out@, b64_decode(s@.skip(0))));
    }
    while n - i >= 4
        invariant
            i <= n,
            n == s@.len(),
            b64_decode(s@) == b64_glue(out@, b64_decode(s@.skip(i as int))),
        decreases n - i,
    {
        let v0 = b64_val_exec(s[i]);
        let v1 = b64_val_exec(s[i + 1]);
        let v2 = b64_val_exec(s[i + 2]);
        let v3 = b64_val_exec(s[i + 3]);
        proof {
            let rem = s@.skip(i as int);
            assert(rem.len() >= 4);
            assert(rem[0] == s@[i as int] && rem[1] == s@[i + 1] && rem[2] == s@[i + 2] && rem[3]
                == s@[i + 3]);
        }
        if !(v0 < 64 && v1 < 64 && v2 < 64 && v3 < 64) {
            proof {
                assert(b64_decode(s@.skip(i as int)) is None);
            }
            return None;
        }
        let ghost out_before = out@;
        out.push((v0 << 2) | (v1 >> 4));
        out.push(((v1 & 15) << 4) | (v2 >> 2));
        out.push(((v2 & 3) << 6) | v3);
        proof {
            let rem = s@.skip(i as int);
            assert(rem.skip(4) =~= s@.skip(i + 4 as int));
            let g = seq![(v0 << 2) | (v1 >> 4), ((v1 & 15) << 4) | (v2 >> 2), ((v2 & 3) << 6) | v3];
            assert(b64_decode(rem) == b64_glue(g, b64_decode(rem.skip(4))));
            assert(out@ =~= out_before + g);
            assert(b64_decode(s@) == b64_glue(out@, b64_decode(s@.skip(i + 4 as int)))) by {
                match b64_decode(s@.skip(i + 4 as int)) {
                    Some(t) => {
                        assert(out_before + (g + t) =~= (out_before + g) + t);
                    },
                    None => {},
                }
            }
        }
        i = i + 4;
    }
    let rem = n - i;
    if rem == 0 {
        proof {
            assert(s@.skip(i as int).len() == 0);
            assert(b64_decode(s@.skip(i as int)) == Some(Seq::<u8>::empty()));
            assert(out@ + Seq::<u8>::empty() =~= out@);
        }
        Some(out)
    } else if rem == 1 {
        proof {
            assert(s@.skip(i as int).len() == 1);
        }
        None
    } else if rem == 2 {
        let v0 = b64_val_exec(s[i]);
        let v1 = b64_val_exec(s[i + 1]);
        proof {
            let t = s@.skip(i as int);
            assert(t.len() == 2);
            assert(t[0] == s@[i as int] && t[1] == s@[i + 1]);
        }
        if v0 < 64 && v1 < 64 && v1 & 15 == 0 {
            out.push((v0 << 2) | (v1 >> 4));
            proof {
                assert(out@ =~= out@.subrange(0, out@.len() - 1) + seq![(v0 << 2) | (v1 >> 4)]);
                assert(b64_decode(s@) == Some(out@)) by {
                    let t = s@.skip(i as int);
                    assert(b64_decode(t) == Some(seq![(v0 << 2) | (v1 >> 4)]));
                }
            }
            Some(out)
        } else {
            None
        }
    } else {
        let v0 = b64_val_exec(s[i]);
        let v1 = b64_val_exec(s[i + 1]);
        let v2 = b64_val_exec(s[i + 2]);
        proof {
            let t = s@.skip(i as int);
            assert(t.len() == 3);
            assert(t[0] == s@[i as int] && t[1] == s@[i + 1] && t[2] == s@[i + 2]);
        }
        if v0 < 64 && v1 < 64 && v2 < 64 && v2 & 3 == 0 {
            out.push((v0 << 2) | (v1 >> 4));
            out.push(((v1 & 15) << 4) | (v2 >> 2));
            proof {
                assert(b64_decode(s@) == Some(out@)) by {
                    let t = s@.skip(i as int);
                    assert(b64_decode(t) == Some(
                        seq![(v0 << 2) | (v1 >> 4), ((v1 & 15) << 4) | (v2 >> 2)],
                    ));
                    assert(out@ =~= out@.subrange(0, out@.len() - 2) + seq![
                        (v0 << 2) | (v1 >> 4),
                        ((v1 & 15) << 4) | (v2 >> 2),
                    ]);
                }
            }
            Some(out)
        } else {
            None
        }
    }
}

} // verus!
