use crate::encoding::{base64_decoded, decode_base64, decode_hex, hex_bytes, hex_decoded};
use crate::sealed_box::KEY_BYTES;
use vstd::prelude::*;
use vstd::utf8::*;

verus! {

/// The number of bytes in the text of a hexadecimal key.
pub const HEX_KEY_LEN: usize = 64;

/// The bytes that an encoded key stands for: a text of `HEX_KEY_LEN` bytes is
/// read as hexadecimal, any other as base64; a text that does not decode
/// stands for no bytes at all.
pub open spec fn key_bytes(text: Seq<char>) -> Seq<u8> {
    let decoded = if encode_utf8(text).len() == HEX_KEY_LEN {
        hex_decoded(text)
    } else {
        base64_decoded(text)
    };
    match decoded {
        Some(bytes) => bytes,
        None => Seq::empty(),
    }
}

/// A text of `HEX_KEY_LEN` hexadecimal digits stands for a key: for the
/// `KEY_BYTES` bytes that its digits spell, two to the byte. Any other text
/// of `HEX_KEY_LEN` bytes stands for no bytes at all.
pub proof fn lemma_hex_key(text: Seq<char>)
    requires
        encode_utf8(text).len() == HEX_KEY_LEN,
    ensures
        key_bytes(text) == match hex_bytes(encode_utf8(text)) {
            Some(bytes) => bytes,
            None => Seq::<u8>::empty(),
        },
        hex_bytes(encode_utf8(text)) is Some ==> key_bytes(text).len() == KEY_BYTES,
        hex_bytes(encode_utf8(text)) is None ==> key_bytes(text).len() == 0,
{
}

/// Decodes an encoded key.
pub fn decode_key(text: &str) -> (bytes: Vec<u8>)
    ensures
        bytes@ == key_bytes(text@),
{
    let decoded = if text.as_bytes().len() == HEX_KEY_LEN {
        decode_hex(text)
    } else {
        decode_base64(text)
    };
    match decoded {
        Some(bytes) => bytes,
        None => Vec::new(),
    }
}

/// The bytes as a key, if they are exactly as many as a key has.
pub fn exact_key(bytes: &Vec<u8>) -> (key: Option<[u8; 32]>)
    ensures
        match key {
            Some(array) => bytes@.len() == KEY_BYTES && array@ == bytes@,
            None => bytes@.len() != KEY_BYTES,
        },
{
    if bytes.len() != KEY_BYTES {
        return None;
    }
    let mut array = [0u8; 32];
    let mut i: usize = 0;
    while i < KEY_BYTES
        invariant
            i <= KEY_BYTES,
            bytes@.len() == KEY_BYTES,
            forall|j: int| 0 <= j < i ==> array@[j] == bytes@[j],
        decreases KEY_BYTES - i,
    {
        array[i] = bytes[i];
        i += 1;
    }
    assert(array@ =~= bytes@);
    Some(array)
}

} // verus!
