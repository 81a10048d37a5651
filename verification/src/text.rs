//! Text and its UTF-8 bytes.

use vstd::prelude::*;
use vstd::utf8::{
    decode_utf8, encode_utf8, encode_utf8_decode_utf8, encode_utf8_valid_utf8, is_ascii_chars,
    is_ascii_chars_encode_utf8, valid_utf8,
};

verus! {

/// Whether every byte of `bytes` is an ASCII code.
pub open spec fn is_ascii_bytes(bytes: Seq<u8>) -> bool {
    forall|i: int| 0 <= i < bytes.len() ==> #[trigger] bytes[i] < 128
}

/// The text whose characters have the codes in `bytes`, one for one.
pub open spec fn ascii_text(bytes: Seq<u8>) -> Seq<char> {
    Seq::new(bytes.len(), |i: int| bytes[i] as char)
}

/// ASCII bytes are the UTF-8 form of the text they spell.
pub proof fn lemma_ascii_text_bytes(bytes: Seq<u8>)
    requires
        is_ascii_bytes(bytes),
    ensures
        is_ascii_chars(ascii_text(bytes)),
        encode_utf8(ascii_text(bytes)) == bytes,
        valid_utf8(bytes),
        decode_utf8(bytes) == ascii_text(bytes),
{
    let text = ascii_text(bytes);
    assert(is_ascii_chars(text)) by {
        assert forall|i: int| 0 <= i < text.len() implies '\0' <= #[trigger] text[i]
            <= '\u{7f}' by {
            assert(bytes[i] < 128);
        }
    }
    is_ascii_chars_encode_utf8(text);
    assert(encode_utf8(text) =~= bytes) by {
        assert forall|i: int| 0 <= i < bytes.len() implies encode_utf8(text)[i] == bytes[i] by {
            assert(text[i] as u8 == encode_utf8(text)[i]);
            assert(bytes[i] < 128);
        }
    }
    encode_utf8_valid_utf8(text);
    encode_utf8_decode_utf8(text);
}

/// The UTF-8 form of a concatenation is the concatenation of the UTF-8 forms.
pub proof fn lemma_encode_utf8_concat(a: Seq<char>, b: Seq<char>)
    ensures
        encode_utf8(a + b) == encode_utf8(a) + encode_utf8(b),
    decreases a.len(),
{
    if a.len() == 0 {
        assert(a + b == b);
        assert(encode_utf8(a) + encode_utf8(b) == encode_utf8(b));
    } else {
        lemma_encode_utf8_concat(a.drop_first(), b);
        assert((a + b).drop_first() == a.drop_first() + b);
        assert((a + b)[0] == a[0]);
        let head = vstd::utf8::encode_scalar(a[0] as u32);
        assert(head + (encode_utf8(a.drop_first()) + encode_utf8(b)) == (head + encode_utf8(
            a.drop_first(),
        )) + encode_utf8(b));
    }
}

/// Every byte of the UTF-8 form of a character is the character's own
/// code, if that is an ASCII code, and no ASCII code otherwise.
proof fn lemma_scalar_bytes(c: char, i: int)
    requires
        0 <= i < vstd::utf8::encode_scalar(c as u32).len(),
    ensures
        vstd::utf8::encode_scalar(c as u32)[i] < 128 ==> vstd::utf8::encode_scalar(c as u32)[i]
            == c as u32,
{
    let v = c as u32;
    assert(v <= 0x7F ==> (v & 0x7F) as u8 == v) by (bit_vector);
    assert(forall|x: u8| 0x80u8 | x >= 0x80) by (bit_vector);
    assert(forall|x: u8| 0xC0u8 | x >= 0x80) by (bit_vector);
    assert(forall|x: u8| 0xE0u8 | x >= 0x80) by (bit_vector);
    assert(forall|x: u8| 0xF0u8 | x >= 0x80) by (bit_vector);
}

/// An ASCII byte occurs in the UTF-8 form of a text only where the text
/// holds the character with that code.
pub proof fn lemma_ascii_byte_in_text(text: Seq<char>, b: u8)
    requires
        b < 128,
        encode_utf8(text).contains(b),
    ensures
        text.contains(b as char),
    decreases text.len(),
{
    if text.len() > 0 {
        let head = vstd::utf8::encode_scalar(text[0] as u32);
        let tail = encode_utf8(text.drop_first());
        let i = choose|i: int| 0 <= i < encode_utf8(text).len() && encode_utf8(text)[i] == b;
        if i < head.len() {
            assert(encode_utf8(text)[i] == head[i]);
            lemma_scalar_bytes(text[0], i);
            vstd::utf8::char_u32_cast(text[0], b as u32);
            assert(text[0] == b as char);
        } else {
            assert(encode_utf8(text)[i] == tail[i - head.len()]);
            assert(tail.contains(b));
            lemma_ascii_byte_in_text(text.drop_first(), b);
            let k = choose|k: int|
                0 <= k < text.drop_first().len() && text.drop_first()[k] == b as char;
            assert(text[k + 1] == b as char);
        }
    }
}

/// Calls `String::from_utf8`. The standard library documents that it
/// succeeds exactly on valid UTF-8 and that the string then holds the
/// given bytes; the error, which only hands the bytes back, is dropped.
#[verifier::external_body]
pub(crate) fn string_from_utf8(bytes: Vec<u8>) -> (r: Option<String>)
    ensures
        r is Some <==> valid_utf8(bytes@),
        r matches Some(s) ==> encode_utf8(s@) == bytes@,
{
    String::from_utf8(bytes).ok()
}

/// Turns bytes into the text they encode, if they encode any.
pub fn text_from_utf8(bytes: Vec<u8>) -> (r: Option<String>)
    ensures
        match r {
            Some(s) => valid_utf8(bytes@) && s@ == decode_utf8(bytes@),
            None => !valid_utf8(bytes@),
        },
{
    let r = string_from_utf8(bytes);
    proof {
        if r is Some {
            encode_utf8_decode_utf8(r->0@);
        }
    }
    r
}

} // verus!
