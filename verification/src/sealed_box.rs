use crate::encoding::{
    base64_decoded, base64_encode, base64_text, decodable_len, decode_base64, encodable_len,
    is_base64_text, lemma_base64_text_is_ascii,
};
use crate::error::{DecryptionFailure, Error};
use vstd::prelude::*;
use vstd::utf8::*;

verus! {

/// The number of bytes in a public key and in a secret key.
pub const KEY_BYTES: usize = 32;

/// The number of bytes by which a sealed box is longer than its message.
pub const SEAL_BYTES: usize = 48;

/// The bytes of a public key.
#[derive(Clone, Copy, Debug)]
pub struct PublicKey {
    pub bytes: [u8; 32],
}

/// The bytes of a secret key. It has no `Debug`, so that it is not printed
/// by accident.
#[derive(Clone, Copy)]
pub struct SecretKey {
    pub bytes: [u8; 32],
}

impl View for PublicKey {
    type V = Seq<u8>;

    open spec fn view(&self) -> Seq<u8> {
        self.bytes@
    }
}

impl View for SecretKey {
    type V = Seq<u8>;

    open spec fn view(&self) -> Seq<u8> {
        self.bytes@
    }
}

/// The public key that `sodiumoxide`'s `SecretKey::public_key` computes for
/// a secret key.
pub uninterp spec fn public_key_for(secret: Seq<u8>) -> Seq<u8>;

/// What `sodiumoxide::crypto::sealedbox::open` makes of a sealed box and a
/// key pair: the message, or `None` where it reports a failure.
pub uninterp spec fn sealed_open(sealed: Seq<u8>, public: Seq<u8>, secret: Seq<u8>) -> Option<
    Seq<u8>,
>;

/// `public` and `secret` are the two halves of one key pair.
pub open spec fn is_key_pair(public: Seq<u8>, secret: Seq<u8>) -> bool {
    &&& public.len() == KEY_BYTES
    &&& secret.len() == KEY_BYTES
    &&& public_key_for(secret) == public
}

/// `sealed` is a sealed box that holds `message` for the owner of `public`:
/// whoever has the secret key that belongs to `public` opens it to `message`.
pub open spec fn seals(sealed: Seq<u8>, public: Seq<u8>, message: Seq<u8>) -> bool {
    forall|secret: Seq<u8>|
        is_key_pair(public, secret) ==> #[trigger] sealed_open(sealed, public, secret) == Some(
            message,
        )
}

/// Calls `sodiumoxide::crypto::box_::gen_keypair`.
///
/// Trusted: the public key returned is the one that belongs to the secret
/// key returned. Which pair comes back is random, so nothing more is stated.
/// `sodiumoxide` makes this call safe between threads only once its `init`
/// was called, which is left to the program that uses this library.
#[verifier::external_body]
pub(crate) fn generate_pair() -> (pair: (PublicKey, SecretKey))
    ensures
        public_key_for(pair.1.bytes@) == pair.0.bytes@,
{
    let (public, secret) = sodiumoxide::crypto::box_::gen_keypair();
    (PublicKey { bytes: public.0 }, SecretKey { bytes: secret.0 })
}

/// Calls `SecretKey::public_key` of `sodiumoxide::crypto::box_`.
///
/// Trusted: the result is the public key named `public_key_for`.
#[verifier::external_body]
pub(crate) fn public_key_of(secret: &SecretKey) -> (public: PublicKey)
    ensures
        public@ == public_key_for(secret@),
{
    PublicKey { bytes: sodiumoxide::crypto::box_::SecretKey(secret.bytes).public_key().0 }
}

/// Calls `sodiumoxide::crypto::sealedbox::seal`.
///
/// Trusted: the box is `SEAL_BYTES` longer than the message, and the secret
/// key that belongs to `public` opens it to the message. The box itself
/// depends on a key pair drawn at random for each call, which `sodiumoxide`
/// makes safe between threads only once its `init` was called.
#[verifier::external_body]
pub(crate) fn seal(message: &[u8], public: &PublicKey) -> (sealed: Vec<u8>)
    requires
        message@.len() + SEAL_BYTES <= usize::MAX,
    ensures
        sealed@.len() == message@.len() + SEAL_BYTES,
        seals(sealed@, public@, message@),
{
    sodiumoxide::crypto::sealedbox::seal(message, &sodiumoxide::crypto::box_::PublicKey(public.bytes))
}

/// Calls `sodiumoxide::crypto::sealedbox::open`.
///
/// Trusted: the outcome is the one named `sealed_open`.
#[verifier::external_body]
pub(crate) fn open(sealed: &[u8], public: &PublicKey, secret: &SecretKey) -> (opened: Result<
    Vec<u8>,
    (),
>)
    ensures
        match opened {
            Ok(message) => sealed_open(sealed@, public@, secret@) == Some(message@),
            Err(_) => sealed_open(sealed@, public@, secret@) is None,
        },
{
    sodiumoxide::crypto::sealedbox::open(
        sealed,
        &sodiumoxide::crypto::box_::PublicKey(public.bytes),
        &sodiumoxide::crypto::box_::SecretKey(secret.bytes),
    )
}

impl PublicKey {
    /// Whether this public key and `secret` are the two halves of one key
    /// pair.
    pub fn belongs_to(&self, secret: &SecretKey) -> (pair: bool)
        ensures
            pair == is_key_pair(self@, secret@),
    {
        let expected = public_key_of(secret);
        let mut i: usize = 0;
        while i < KEY_BYTES
            invariant
                i <= KEY_BYTES,
                expected@ == public_key_for(secret@),
                forall|j: int| 0 <= j < i ==> self.bytes@[j] == expected.bytes@[j],
            decreases KEY_BYTES - i,
        {
            if self.bytes[i] != expected.bytes[i] {
                return false;
            }
            i += 1;
        }
        assert(self.bytes@ =~= expected.bytes@);
        true
    }
}

/// A plaintext short enough to be sealed and encoded.
pub open spec fn sealable(plaintext: Seq<char>) -> bool {
    encodable_len(encode_utf8(plaintext).len() + SEAL_BYTES)
}

/// Every one of `values` is short enough to be sealed and encoded.
pub open spec fn all_sealable(values: Seq<Seq<char>>) -> bool {
    forall|i: int| 0 <= i < values.len() ==> sealable(#[trigger] values[i])
}

/// The number of characters, and of bytes, in the padded base64 text of
/// `len` bytes: four for every three bytes begun.
pub open spec fn base64_len(len: int) -> int {
    4 * ((len + 2) / 3)
}

/// `stored` is a ciphertext of `plaintext` for the owner of `public`: the
/// base64 text of a sealed box that holds the UTF-8 bytes of `plaintext`.
/// The box is `SEAL_BYTES` longer than the plaintext, and the text has the
/// length that base64 gives to a box of that size, so it is longer than the
/// plaintext and never the plaintext itself.
pub open spec fn encrypts(stored: Seq<char>, public: Seq<u8>, plaintext: Seq<char>) -> bool {
    match base64_decoded(stored) {
        Some(sealed) => {
            &&& stored == base64_text(sealed)
            &&& is_base64_text(stored)
            &&& stored.len() == base64_len(sealed.len() as int)
            &&& encode_utf8(stored).len() == base64_len(sealed.len() as int)
            &&& sealed.len() == encode_utf8(plaintext).len() + SEAL_BYTES
            &&& seals(sealed, public, encode_utf8(plaintext))
            &&& stored != plaintext
        },
        None => false,
    }
}

/// A ciphertext has at least 64 bytes and more bytes than its plaintext.
pub proof fn lemma_ciphertext_is_longer(stored: Seq<char>, public: Seq<u8>, plaintext: Seq<char>)
    requires
        encrypts(stored, public, plaintext),
    ensures
        encode_utf8(stored).len() == base64_len(encode_utf8(plaintext).len() + SEAL_BYTES),
        encode_utf8(stored).len() > encode_utf8(plaintext).len(),
        encode_utf8(stored).len() >= 64,
        stored.len() == encode_utf8(stored).len(),
{
}

/// What decrypting `stored` with a key pair gives: the plaintext, or the
/// step that failed.
pub open spec fn opened_text(stored: Seq<char>, public: Seq<u8>, secret: Seq<u8>) -> Result<
    Seq<char>,
    Error,
> {
    match base64_decoded(stored) {
        None => Err(Error::DecryptionFailure(DecryptionFailure::NotBase64)),
        Some(sealed) => match sealed_open(sealed, public, secret) {
            None => Err(Error::DecryptionFailure(DecryptionFailure::NotOpened)),
            Some(message) => text_of_bytes(message),
        },
    }
}

/// The text that a message spells in UTF-8.
pub open spec fn text_of_bytes(message: Seq<u8>) -> Result<Seq<char>, Error> {
    if valid_utf8(message) {
        Ok(decode_utf8(message))
    } else {
        Err(Error::DecryptionFailure(DecryptionFailure::NotUtf8))
    }
}

/// The model of a text or an error.
pub open spec fn text_view(outcome: Result<String, Error>) -> Result<Seq<char>, Error> {
    match outcome {
        Ok(text) => Ok(text@),
        Err(error) => Err(error),
    }
}

/// Whether `plaintext` is short enough to be sealed and encoded.
pub fn is_sealable(plaintext: &str) -> (fits: bool)
    ensures
        fits == sealable(plaintext@),
{
    plaintext.as_bytes().len() <= usize::MAX / 512 - SEAL_BYTES
}

/// Seals `plaintext` for the owner of `public` and returns the box as base64.
pub fn encrypt(public: &PublicKey, plaintext: &str) -> (stored: String)
    requires
        sealable(plaintext@),
    ensures
        encrypts(stored@, public@, plaintext@),
{
    let sealed = seal(plaintext.as_bytes(), public);
    let stored = base64_encode(sealed.as_slice());
    proof {
        assert(decodable_len(encode_utf8(stored@).len() as int));
        lemma_base64_text_is_ascii(stored@);
        assert(encode_utf8(stored@).len() > encode_utf8(plaintext@).len());
    }
    stored
}

/// Reads an opened message as text.
pub fn read_text(message: &[u8]) -> (text: Result<String, Error>)
    ensures
        text_view(text) == text_of_bytes(message@),
{
    match core::str::from_utf8(message) {
        Ok(text) => {
            proof {
                encode_utf8_decode_utf8(text@);
            }
            Ok(text.to_owned())
        },
        Err(_) => Err(Error::DecryptionFailure(DecryptionFailure::NotUtf8)),
    }
}

/// Decodes `stored` as base64, opens the sealed box with the key pair and
/// reads the message as text.
pub fn decrypt(public: &PublicKey, secret: &SecretKey, stored: &str) -> (plaintext: Result<
    String,
    Error,
>)
    ensures
        text_view(plaintext) == opened_text(stored@, public@, secret@),
{
    let sealed = match decode_base64(stored) {
        Some(bytes) => bytes,
        None => {
            return Err(Error::DecryptionFailure(DecryptionFailure::NotBase64));
        },
    };
    let message = match open(sealed.as_slice(), public, secret) {
        Ok(bytes) => bytes,
        Err(_) => {
            return Err(Error::DecryptionFailure(DecryptionFailure::NotOpened));
        },
    };
    read_text(message.as_slice())
}

/// Decrypting with a key pair what was encrypted for its public key gives
/// the plaintext back.
pub proof fn lemma_round_trip(
    public: Seq<u8>,
    secret: Seq<u8>,
    plaintext: Seq<char>,
    stored: Seq<char>,
)
    requires
        is_key_pair(public, secret),
        encrypts(stored, public, plaintext),
    ensures
        opened_text(stored, public, secret) == Ok::<Seq<char>, Error>(plaintext),
{
    let sealed = base64_decoded(stored)->0;
    assert(sealed_open(sealed, public, secret) == Some(encode_utf8(plaintext)));
    encode_utf8_valid_utf8(plaintext);
    encode_utf8_decode_utf8(plaintext);
}

} // verus!
