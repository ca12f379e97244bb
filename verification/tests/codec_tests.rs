use townhall_auth::base64url::{b64_decode_vec, b64_encode_vec};
use townhall_auth::digits::{dec_parse_vec, dec_render};

fn encode(input: &[u8]) -> String {
    String::from_utf8(b64_encode_vec(&input.to_vec())).unwrap()
}

fn decode(input: &str) -> Option<Vec<u8>> {
    b64_decode_vec(&input.as_bytes().to_vec())
}

#[test]
fn base64url_known_vectors() {
    assert_eq!(encode(b""), "");
    assert_eq!(encode(b"f"), "Zg");
    assert_eq!(encode(b"fo"), "Zm8");
    assert_eq!(encode(b"foo"), "Zm9v");
    assert_eq!(encode(b"foob"), "Zm9vYg");
    assert_eq!(encode(b"fooba"), "Zm9vYmE");
    assert_eq!(encode(b"foobar"), "Zm9vYmFy");
    assert_eq!(encode(&[0xfb, 0xff, 0xfe]), "-__-");
}

#[test]
fn base64url_round_trips() {
    let samples: Vec<Vec<u8>> = vec![
        vec![],
        vec![0],
        vec![255],
        vec![1, 2],
        vec![0xde, 0xad, 0xbe, 0xef],
        (0u8..=255).collect(),
    ];
    for b in samples {
        assert_eq!(decode(&encode(&b)), Some(b));
    }
}

#[test]
fn base64url_rejects_non_canonical_forms() {
    assert_eq!(decode("A"), None);
    assert_eq!(decode("TQ=="), None);
    assert_eq!(decode("TR"), None);
    assert_eq!(decode("Zm9vYh"), None);
    assert_eq!(decode("Zm.v"), None);
    assert_eq!(decode("Zm9v A"), None);
}

#[test]
fn decimal_rendering_is_canonical() {
    assert_eq!(dec_render(0), b"0".to_vec());
    assert_eq!(dec_render(7), b"7".to_vec());
    assert_eq!(dec_render(2_592_000), b"2592000".to_vec());
    assert_eq!(dec_render(u64::MAX), b"18446744073709551615".to_vec());
}

#[test]
fn decimal_parsing_is_exact() {
    assert_eq!(dec_parse_vec(&b"0".to_vec()), Some(0));
    assert_eq!(dec_parse_vec(&b"1700000000".to_vec()), Some(1_700_000_000));
    assert_eq!(dec_parse_vec(&b"18446744073709551615".to_vec()), Some(u64::MAX));
    assert_eq!(dec_parse_vec(&b"18446744073709551616".to_vec()), None);
    assert_eq!(dec_parse_vec(&b"".to_vec()), None);
    assert_eq!(dec_parse_vec(&b"01".to_vec()), None);
    assert_eq!(dec_parse_vec(&b"12a".to_vec()), None);
    assert_eq!(dec_parse_vec(&b"-1".to_vec()), None);
}
