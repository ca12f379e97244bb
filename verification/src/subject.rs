use vstd::prelude::*;

use crate::text::{all_ascii, ascii_string, bytes_of, chars_of, subvec};

verus! {

/// A byte an identity value may contain: ASCII letters, digits, `_` and `-`.
/// The set is chosen so that an identity can be embedded in a JSON string
/// and in a token without any escaping, and so that prefixed sortable
/// identifiers (`user_9m4e2mr0ui3e8a215n4g` and the like) are all accepted.
pub open spec fn safe_byte(b: u8) -> bool {
    (48 <= b && b <= 57) || (65 <= b && b <= 90) || (97 <= b && b <= 122) || b == 95 || b == 45
}

/// A well-formed identity is a non-empty run of safe bytes.
pub open spec fn subject_bytes_wf(s: Seq<u8>) -> bool {
    s.len() >= 1 && forall|i: int| 0 <= i < s.len() ==> safe_byte(#[trigger] s[i])
}

pub proof fn lemma_subject_ascii(s: Seq<u8>)
    requires
        subject_bytes_wf(s),
    ensures
        all_ascii(s),
{
}

/// The opaque identity a token asserts: globally unique, caller-supplied,
/// never interpreted by this crate beyond its well-formedness.
pub struct SubjectId {
    bytes: Vec<u8>,
}

impl View for SubjectId {
    type V = Seq<u8>;

    closed spec fn view(&self) -> Seq<u8> {
        self.bytes@
    }
}

impl SubjectId {
    pub open spec fn wf(&self) -> bool {
        subject_bytes_wf(self@)
    }

    /// Accepts exactly the non-empty ASCII strings over the safe alphabet.
    pub fn new(s: &str) -> (r: Option<SubjectId>)
        ensures
            match r {
                Some(id) => vstd::utf8::is_ascii_chars(s@) && id@ == bytes_of(s@) && id.wf(),
                None => !(vstd::utf8::is_ascii_chars(s@) && subject_bytes_wf(bytes_of(s@))),
            },
    {
        if !s.is_ascii() {
            return None;
        }
        let n = s.unicode_len();
        if n == 0 {
            return None;
        }
        let mut bytes: Vec<u8> = Vec::new();
        let mut i: usize = 0;
        while i < n
            invariant
                vstd::utf8::is_ascii_chars(s@),
                i <= n,
                n == s@.len(),
                bytes@ == bytes_of(s@).take(i as int),
                forall|k: int| 0 <= k < i ==> safe_byte(#[trigger] bytes_of(s@)[k]),
            decreases n - i,
        {
            let b = s.get_ascii(i);
            proof {
                assert(bytes_of(s@)[i as int] == b);
            }
            if !((48 <= b && b <= 57) || (65 <= b && b <= 90) || (97 <= b && b <= 122) || b == 95
                || b == 45) {
                proof {
                    assert(!safe_byte(bytes_of(s@)[i as int]));
                }
                return None;
            }
            bytes.push(b);
            proof {
                assert(bytes@ =~= bytes_of(s@).take(i + 1 as int));
            }
            i = i + 1;
        }
        proof {
            assert(bytes@ =~= bytes_of(s@));
        }
        Some(SubjectId { bytes })
    }

    /// The identity as the string it was constructed from.
    pub fn as_string(&self) -> (r: String)
        requires
            self.wf(),
        ensures
            r@ == chars_of(self@),
    {
        let n = self.bytes.len();
        let copy = subvec(&self.bytes, 0, n);
        proof {
            assert(copy@ =~= self@);
        }
        ascii_string(copy)
    }

    /// An owned copy of the identity.
    pub fn duplicate(&self) -> (r: SubjectId)
        ensures
            r@ == self@,
    {
        let n = self.bytes.len();
        let copy = subvec(&self.bytes, 0, n);
        proof {
            assert(copy@ =~= self@);
        }
        SubjectId { bytes: copy }
    }

    /// An owned copy of the identity's bytes.
    pub fn to_bytes(&self) -> (r: Vec<u8>)
        ensures
            r@ == self@,
    {
        let n = self.bytes.len();
        let copy = subvec(&self.bytes, 0, n);
        proof {
            assert(copy@ =~= self@);
        }
        copy
    }

    /// The identity's bytes, for callers that hold raw material.
    pub fn from_bytes(bytes: Vec<u8>) -> (r: Option<SubjectId>)
        ensures
            match r {
                Some(id) => id@ == bytes@ && id.wf(),
                None => !subject_bytes_wf(bytes@),
            },
    {
        let n = bytes.len();
        if n == 0 {
            return None;
        }
        let mut i: usize = 0;
        while i < n
            invariant
                i <= n,
                n == bytes@.len(),
                forall|k: int| 0 <= k < i ==> safe_byte(#[trigger] bytes@[k]),
            decreases n - i,
        {
            let b = bytes[i];
            if !((48 <= b && b <= 57) || (65 <= b && b <= 90) || (97 <= b && b <= 122) || b == 95
                || b == 45) {
                return None;
            }
            i = i + 1;
        }
        Some(SubjectId { bytes })
    }
}

} // verus!
