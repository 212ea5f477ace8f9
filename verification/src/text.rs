//! Byte and text comparisons used by routing and form handling.

use vstd::prelude::*;
use vstd::utf8::*;

verus! {

/// Whether `bytes` begins with `prefix`.
pub open spec fn spec_starts_with(bytes: Seq<u8>, prefix: Seq<u8>) -> bool {
    prefix.len() <= bytes.len() && bytes.subrange(0, prefix.len() as int) == prefix
}

/// Whether `bytes` begins with `prefix` (what `str::starts_with` and
/// `<[u8]>::starts_with` decide).
pub fn bytes_start_with(bytes: &[u8], prefix: &[u8]) -> (r: bool)
    ensures
        r == spec_starts_with(bytes@, prefix@),
{
    if prefix.len() > bytes.len() {
        return false;
    }
    let mut i: usize = 0;
    while i < prefix.len()
        invariant
            prefix@.len() <= bytes@.len(),
            i <= prefix@.len(),
            forall|j: int| 0 <= j < i ==> bytes@[j] == prefix@[j],
        decreases prefix@.len() - i,
    {
        if bytes[i] != prefix[i] {
            assert(bytes@.subrange(0, prefix@.len() as int)[i as int] != prefix@[i as int]);
            return false;
        }
        i = i + 1;
    }
    assert(bytes@.subrange(0, prefix@.len() as int) =~= prefix@);
    true
}

/// Whether two byte strings are equal.
pub fn bytes_equal(a: &[u8], b: &[u8]) -> (r: bool)
    ensures
        r == (a@ == b@),
{
    if a.len() != b.len() {
        return false;
    }
    let r = bytes_start_with(a, b);
    proof {
        if r {
            assert(a@ =~= a@.subrange(0, b@.len() as int));
        } else {
            assert(a@.subrange(0, b@.len() as int) =~= a@);
        }
    }
    r
}

/// Two texts are equal exactly when their UTF-8 encodings are.
pub proof fn lemma_text_eq_iff_bytes_eq(a: Seq<char>, b: Seq<char>)
    ensures
        (a == b) <==> (encode_utf8(a) == encode_utf8(b)),
{
    broadcast use encode_utf8_decode_utf8;

    if encode_utf8(a) == encode_utf8(b) {
        assert(decode_utf8(encode_utf8(a)) == a);
        assert(decode_utf8(encode_utf8(b)) == b);
    }
}

/// Whether two texts are equal (`==` on `str`).
pub fn text_equal(a: &str, b: &str) -> (r: bool)
    ensures
        r == (a@ == b@),
{
    let r = bytes_equal(a.as_bytes(), b.as_bytes());
    proof {
        lemma_text_eq_iff_bytes_eq(a@, b@);
    }
    r
}

/// In valid UTF-8 made of a valid UTF-8 prefix and what follows, the end of
/// the prefix falls on a character boundary.
pub proof fn lemma_prefix_end_is_char_boundary(a: Seq<u8>, b: Seq<u8>)
    requires
        valid_utf8(a),
        valid_utf8(a + b),
    ensures
        is_char_boundary(a + b, a.len() as int),
    decreases a.len(),
{
    if a.len() == 0 {
    } else {
        let ab = a + b;
        let n = length_of_first_scalar(a);
        assert(ab[0] == a[0]);
        assert(length_of_first_scalar(ab) == n);
        assert(n <= a.len());
        assert(pop_first_scalar(ab) =~= pop_first_scalar(a) + b);
        assert(pop_first_scalar(a).len() < a.len());
        lemma_prefix_end_is_char_boundary(pop_first_scalar(a), b);
    }
}

/// The bytes after a UTF-8 prefix of valid UTF-8 are valid UTF-8 too, and
/// decoding the whole is decoding the prefix and then the rest.
pub proof fn lemma_utf8_rest_after_prefix(whole: Seq<u8>, prefix: Seq<u8>)
    requires
        valid_utf8(whole),
        valid_utf8(prefix),
        spec_starts_with(whole, prefix),
    ensures
        valid_utf8(whole.subrange(prefix.len() as int, whole.len() as int)),
        decode_utf8(whole) == decode_utf8(prefix) + decode_utf8(
            whole.subrange(prefix.len() as int, whole.len() as int),
        ),
{
    let rest = whole.subrange(prefix.len() as int, whole.len() as int);
    assert(whole =~= prefix + rest);
    lemma_prefix_end_is_char_boundary(prefix, rest);
    valid_utf8_split(whole, prefix.len() as int);
    decode_utf8_split(whole, prefix.len() as int);
    assert(whole.subrange(0, prefix.len() as int) =~= prefix);
}

} // verus!
