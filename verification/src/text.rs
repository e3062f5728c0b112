//! Comparing text byte by byte.

use vstd::prelude::*;
use vstd::utf8::{decode_utf8, encode_utf8, encode_utf8_decode_utf8, valid_utf8};

verus! {

/// What a message carries from `offset` on: its bytes from there to the end,
/// and nothing where the message is shorter than that.
pub open spec fn payload(bytes: Seq<u8>, offset: int) -> Seq<u8> {
    if 0 <= offset <= bytes.len() {
        bytes.skip(offset)
    } else {
        Seq::empty()
    }
}

/// Whether two messages carry the same bytes from `offset` on.
pub fn same_payload(a: &[u8], b: &[u8], offset: usize) -> (same: bool)
    ensures
        same == (payload(a@, offset as int) == payload(b@, offset as int)),
{
    let from_a = if offset <= a.len() {
        offset
    } else {
        a.len()
    };
    let from_b = if offset <= b.len() {
        offset
    } else {
        b.len()
    };
    let len = a.len() - from_a;
    assert(payload(a@, offset as int) =~= a@.skip(from_a as int));
    assert(payload(b@, offset as int) =~= b@.skip(from_b as int));
    if len != b.len() - from_b {
        assert(a@.skip(from_a as int).len() != b@.skip(from_b as int).len());
        return false;
    }
    let mut i: usize = 0;
    while i < len
        invariant
            i <= len,
            from_a <= a.len(),
            from_b <= b.len(),
            len == a.len() - from_a,
            len == b.len() - from_b,
            payload(a@, offset as int) == a@.skip(from_a as int),
            payload(b@, offset as int) == b@.skip(from_b as int),
            forall|k: int|
                0 <= k < i ==> #[trigger] a@.skip(from_a as int)[k] == b@.skip(from_b as int)[k],
        decreases len - i,
    {
        if a[from_a + i] != b[from_b + i] {
            assert(a@.skip(from_a as int)[i as int] != b@.skip(from_b as int)[i as int]);
            return false;
        }
        i += 1;
    }
    assert(a@.skip(from_a as int) =~= b@.skip(from_b as int));
    true
}

/// Whether two pieces of text are the same.
pub fn str_eq(a: &str, b: &str) -> (same: bool)
    ensures
        same == (a@ == b@),
{
    let same = same_payload(a.as_bytes(), b.as_bytes(), 0);
    proof {
        assert(payload(encode_utf8(a@), 0) =~= encode_utf8(a@));
        assert(payload(encode_utf8(b@), 0) =~= encode_utf8(b@));
        encode_utf8_decode_utf8(a@);
        encode_utf8_decode_utf8(b@);
    }
    same
}

/// Text from bytes, where the bytes are UTF-8.
pub fn text_of_bytes(bytes: Vec<u8>) -> (text: Option<String>)
    ensures
        text is Some <==> valid_utf8(bytes@),
        text matches Some(s) ==> s@ == decode_utf8(bytes@) && encode_utf8(s@) == bytes@,
{
    let text = string_from_utf8(bytes);
    proof {
        if text is Some {
            encode_utf8_decode_utf8(text->0@);
        }
    }
    text
}

/// `String::from_utf8` of the standard library: the string made of exactly
/// these bytes, which there is if and only if the bytes are valid UTF-8.
#[verifier::external_body]
fn string_from_utf8(bytes: Vec<u8>) -> (text: Option<String>)
    ensures
        text is Some <==> valid_utf8(bytes@),
        text matches Some(s) ==> encode_utf8(s@) == bytes@,
{
    String::from_utf8(bytes).ok()
}

} // verus!
