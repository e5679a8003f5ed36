use vstd::prelude::*;
use vstd::utf8::*;

verus! {

/// `data_encoding::DecodeError`: handed on by the decoders below and never
/// looked into.
#[verifier::external_type_specification]
#[verifier::external_body]
pub struct ExDecodeError(data_encoding::DecodeError);

/// The text that `data_encoding::BASE64.encode` gives for `bytes`.
pub uninterp spec fn base64_text(bytes: Seq<u8>) -> Seq<char>;

/// What `data_encoding::BASE64.decode` makes of the bytes of a text: the
/// decoded bytes, or `None` where it reports an error.
pub uninterp spec fn base64_bytes(text: Seq<u8>) -> Option<Seq<u8>>;

/// The value of a hexadecimal digit, in either case of the letters.
pub open spec fn hex_digit(c: u8) -> Option<int> {
    if 0x30 <= c <= 0x39 {
        Some(c - 0x30)
    } else if 0x41 <= c <= 0x46 {
        Some(c - 0x41 + 10)
    } else if 0x61 <= c <= 0x66 {
        Some(c - 0x61 + 10)
    } else {
        None
    }
}

/// The bytes that a hexadecimal text stands for, two digits to the byte and
/// the high digit first; `None` for a text of odd length or with a character
/// that is no hexadecimal digit.
pub open spec fn hex_bytes(text: Seq<u8>) -> Option<Seq<u8>> {
    if text.len() % 2 == 0 && forall|i: int| 0 <= i < text.len() ==> hex_digit(#[trigger] text[i])
        is Some {
        Some(
            Seq::new(
                text.len() / 2,
                |i: int| (16 * hex_digit(text[2 * i])->0 + hex_digit(text[2 * i + 1])->0) as u8,
            ),
        )
    } else {
        None
    }
}

/// The characters of a padded base64 text: the letters, the digits, `+`, `/`
/// and the padding `=`.
pub open spec fn is_base64_char(c: char) -> bool {
    ||| 'A' <= c <= 'Z'
    ||| 'a' <= c <= 'z'
    ||| '0' <= c <= '9'
    ||| c == '+'
    ||| c == '/'
    ||| c == '='
}

/// Every character of `text` is a character of padded base64.
pub open spec fn is_base64_text(text: Seq<char>) -> bool {
    forall|i: int| 0 <= i < text.len() ==> is_base64_char(#[trigger] text[i])
}

/// A base64 text has one byte to the character.
pub proof fn lemma_base64_text_is_ascii(text: Seq<char>)
    requires
        is_base64_text(text),
    ensures
        is_ascii_chars(text),
        encode_utf8(text).len() == text.len(),
{
    assert forall|i: int| 0 <= i < text.len() implies '\0' <= #[trigger] text[i] <= '\u{7f}' by {
        assert(is_base64_char(text[i]));
    }
    is_ascii_chars_encode_utf8(text);
}

/// The longest input that the decoders of `data_encoding` take without
/// panicking.
pub open spec fn decodable_len(len: int) -> bool {
    len <= usize::MAX / 8
}

/// The longest input that the encoders of `data_encoding` take without
/// panicking.
pub open spec fn encodable_len(len: int) -> bool {
    len <= usize::MAX / 512
}

/// Calls `data_encoding::BASE64.encode`.
///
/// Trusted: the result is the text named `base64_text`; decoding that text
/// gives the bytes back (the crate documents that encoding followed by
/// decoding gives the initial data); a padded base64 text has four
/// characters, one byte each, for every three bytes begun (the crate's
/// `encode_len`); and each of its characters is one of the 64 symbols of
/// `BASE64` or its padding. The crate panics on inputs longer than
/// `usize::MAX / 512`.
#[verifier::external_body]
pub(crate) fn base64_encode(bytes: &[u8]) -> (text: String)
    requires
        encodable_len(bytes@.len() as int),
    ensures
        text@ == base64_text(bytes@),
        base64_bytes(encode_utf8(text@)) == Some(bytes@),
        encode_utf8(text@).len() == 4 * ((bytes@.len() + 2) / 3),
        is_base64_text(text@),
{
    data_encoding::BASE64.encode(bytes)
}

/// Calls `data_encoding::BASE64.decode`.
///
/// Trusted: the outcome is the one named `base64_bytes`. The crate panics on
/// inputs longer than `usize::MAX / 8`.
#[verifier::external_body]
pub(crate) fn base64_decode(text: &[u8]) -> (decoded: Result<Vec<u8>, data_encoding::DecodeError>)
    requires
        decodable_len(text@.len() as int),
    ensures
        match decoded {
            Ok(bytes) => base64_bytes(text@) == Some(bytes@),
            Err(_) => base64_bytes(text@) is None,
        },
{
    data_encoding::BASE64.decode(text)
}

/// Calls `data_encoding::HEXUPPER_PERMISSIVE.decode`.
///
/// Trusted: the decoder takes exactly the texts of even length whose
/// characters are digits or letters from `A` to `F` in either case, and gives
/// one byte for every two of them, the high digit first: `hex_bytes`. The
/// crate panics on inputs longer than `usize::MAX / 8`.
#[verifier::external_body]
pub(crate) fn hex_decode(text: &[u8]) -> (decoded: Result<Vec<u8>, data_encoding::DecodeError>)
    requires
        decodable_len(text@.len() as int),
    ensures
        match decoded {
            Ok(bytes) => hex_bytes(text@) == Some(bytes@),
            Err(_) => hex_bytes(text@) is None,
        },
{
    data_encoding::HEXUPPER_PERMISSIVE.decode(text)
}

/// What decoding a base64 text gives: the bytes, or `None` where the text is
/// not base64 or is too long for the decoder.
pub open spec fn base64_decoded(text: Seq<char>) -> Option<Seq<u8>> {
    if decodable_len(encode_utf8(text).len() as int) {
        base64_bytes(encode_utf8(text))
    } else {
        None
    }
}

/// What decoding a hexadecimal text gives: the bytes, or `None` where the
/// text is not hexadecimal or is too long for the decoder.
pub open spec fn hex_decoded(text: Seq<char>) -> Option<Seq<u8>> {
    if decodable_len(encode_utf8(text).len() as int) {
        hex_bytes(encode_utf8(text))
    } else {
        None
    }
}

/// Decodes a base64 text.
pub fn decode_base64(text: &str) -> (decoded: Option<Vec<u8>>)
    ensures
        match decoded {
            Some(bytes) => base64_decoded(text@) == Some(bytes@),
            None => base64_decoded(text@) is None,
        },
{
    let raw = text.as_bytes();
    if raw.len() > usize::MAX / 8 {
        return None;
    }
    match base64_decode(raw) {
        Ok(bytes) => Some(bytes),
        Err(_) => None,
    }
}

/// Decodes a hexadecimal text, in either case of the letters.
pub fn decode_hex(text: &str) -> (decoded: Option<Vec<u8>>)
    ensures
        match decoded {
            Some(bytes) => hex_decoded(text@) == Some(bytes@),
            None => hex_decoded(text@) is None,
        },
{
    let raw = text.as_bytes();
    if raw.len() > usize::MAX / 8 {
        return None;
    }
    match hex_decode(raw) {
        Ok(bytes) => Some(bytes),
        Err(_) => None,
    }
}

} // verus!
