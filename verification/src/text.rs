use vstd::prelude::*;

verus! {

/// The characters a sequence of ASCII byte values stands for.
pub open spec fn chars_of(b: Seq<u8>) -> Seq<char> {
    Seq::new(b.len(), |i: int| b[i] as char)
}

/// The byte values of a sequence of ASCII characters. Only meaningful when
/// every character is below 128; the cast truncates larger code points.
pub open spec fn bytes_of(s: Seq<char>) -> Seq<u8> {
    Seq::new(s.len(), |i: int| s[i] as u8)
}

/// Every byte of the sequence is an ASCII code.
pub open spec fn all_ascii(b: Seq<u8>) -> bool {
    forall|i: int| 0 <= i < b.len() ==> b[i] < 128
}

pub proof fn lemma_bytes_of_chars_of(b: Seq<u8>)
    ensures
        bytes_of(chars_of(b)) =~= b,
{
}

pub proof fn lemma_chars_of_ascii(b: Seq<u8>)
    requires
        all_ascii(b),
    ensures
        vstd::utf8::is_ascii_chars(chars_of(b)),
{
    assert forall|i: int| 0 <= i < chars_of(b).len() implies '\0' <= #[trigger] chars_of(b)[i]
        <= '\u{7f}' by {
        assert(b[i] < 128);
        assert((b[i] as char) as u32 == b[i]);
    }
}

/// Relies on `String::from_utf8`: bytes below 128 are single-byte UTF-8
/// sequences that decode to the code points of the same value, so the
/// resulting string has exactly one character per input byte.
#[verifier::external_body]
pub fn ascii_string(bytes: Vec<u8>) -> (r: String)
    requires
        all_ascii(bytes@),
    ensures
        r@ == chars_of(bytes@),
{
    // Infallible under the precondition: ASCII is valid UTF-8.
    String::from_utf8(bytes).unwrap_or_default()
}

/// Byte-for-byte equality of two vectors.
pub fn bytes_eq(a: &Vec<u8>, b: &Vec<u8>) -> (r: bool)
    ensures
        r == (a@ == b@),
{
    if a.len() != b.len() {
        assert(a@ != b@);
        return false;
    }
    let n = a.len();
    let mut i: usize = 0;
    while i < n
        invariant
            i <= n,
            n == a@.len() == b@.len(),
            forall|k: int| 0 <= k < i ==> a@[k] == b@[k],
        decreases n - i,
    {
        if a[i] != b[i] {
            assert(a@ != b@);
            return false;
        }
        i = i + 1;
    }
    assert(a@ =~= b@);
    true
}

/// The bytes of `v` from `from` (inclusive) to `to` (exclusive).
pub fn subvec(v: &Vec<u8>, from: usize, to: usize) -> (r: Vec<u8>)
    requires
        from <= to <= v@.len(),
    ensures
        r@ == v@.subrange(from as int, to as int),
{
    let mut r: Vec<u8> = Vec::new();
    let mut i: usize = from;
    while i < to
        invariant
            from <= i <= to <= v@.len(),
            r@ == v@.subrange(from as int, i as int),
        decreases to - i,
    {
        r.push(v[i]);
        assert(r@ =~= v@.subrange(from as int, i + 1 as int));
        i = i + 1;
    }
    r
}

} // verus!
