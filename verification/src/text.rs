//! Byte and text helpers shared by the codec and the identity logic.
use vstd::prelude::*;

verus! {

use vstd::utf8::{valid_utf8, decode_utf8, encode_utf8, encode_utf8_valid_utf8,
    encode_utf8_decode_utf8, is_ascii_chars, is_ascii_chars_encode_utf8};

/// The characters a sequence of ASCII bytes stands for, one per byte.
pub open spec fn ascii_chars_of(bytes: Seq<u8>) -> Seq<char> {
    bytes.map_values(|b: u8| b as char)
}

/// True when every byte is in the ASCII range.
pub open spec fn all_ascii(bytes: Seq<u8>) -> bool {
    forall|i: int| 0 <= i < bytes.len() ==> #[trigger] bytes[i] < 128
}

/// An ASCII byte sequence is valid UTF-8 and decodes to one character per byte.
pub proof fn lemma_ascii_bytes_utf8(bytes: Seq<u8>)
    requires
        all_ascii(bytes),
    ensures
        valid_utf8(bytes),
        decode_utf8(bytes) == ascii_chars_of(bytes),
{
    let chars = ascii_chars_of(bytes);
    assert forall|i: int| 0 <= i < chars.len() implies '\0' <= #[trigger] chars[i] <= '\u{7f}' by {
        assert(bytes[i] < 128);
    }
    assert(is_ascii_chars(chars));
    is_ascii_chars_encode_utf8(chars);
    assert(encode_utf8(chars) =~= bytes);
    encode_utf8_valid_utf8(chars);
    encode_utf8_decode_utf8(chars);
}

/// Relies on `String::from_utf8`: it returns `Ok` exactly on byte vectors
/// that are valid UTF-8, and the returned string holds the characters those
/// bytes encode.
#[verifier::external_body]
pub(crate) fn utf8_to_string(bytes: Vec<u8>) -> (r: Option<String>)
    ensures
        match r {
            Some(s) => valid_utf8(bytes@) && s@ == decode_utf8(bytes@),
            None => !valid_utf8(bytes@),
        },
{
    match String::from_utf8(bytes) {
        Ok(s) => Some(s),
        Err(_) => None,
    }
}

/// Builds the string spelled by a vector of ASCII bytes.
pub(crate) fn ascii_to_string(bytes: Vec<u8>) -> (r: String)
    requires
        all_ascii(bytes@),
    ensures
        r@ == ascii_chars_of(bytes@),
{
    proof {
        lemma_ascii_bytes_utf8(bytes@);
    }
    match utf8_to_string(bytes) {
        Some(s) => s,
        None => vstd::pervasive::unreached(),
    }
}

/// Appends a byte slice to a byte vector.
pub(crate) fn push_bytes(out: &mut Vec<u8>, s: &[u8])
    ensures
        final(out)@ == old(out)@ + s@,
{
    let ghost orig = out@;
    let mut i: usize = 0;
    while i < s.len()
        invariant
            i <= s@.len(),
            out@ == orig + s@.take(i as int),
        decreases s@.len() - i,
    {
        out.push(s[i]);
        i += 1;
        proof {
            assert(orig + s@.take(i as int) =~= (orig + s@.take(i - 1)).push(s@[i - 1]));
        }
    }
    proof {
        assert(orig + s@.take(s@.len() as int) =~= orig + s@);
    }
}

/// Characters below the ASCII bound each encode to a single UTF-8 byte.
pub proof fn lemma_small_chars_encode_len(s: Seq<char>)
    requires
        forall|i: int| 0 <= i < s.len() ==> (#[trigger] s[i] as u32) < 128,
    ensures
        encode_utf8(s).len() == s.len(),
    decreases s.len(),
{
    if s.len() > 0 {
        assert(vstd::utf8::has_width_1_encoding(s[0] as u32));
        assert(vstd::utf8::encode_scalar(s[0] as u32).len() == 1);
        assert forall|i: int| 0 <= i < s.drop_first().len() implies (#[trigger] s.drop_first()[i]
            as u32) < 128 by {
            assert(s.drop_first()[i] == s[i + 1]);
        }
        lemma_small_chars_encode_len(s.drop_first());
    }
}

} // verus!
