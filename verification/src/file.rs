use crate::config::{optional_document, Config, Document};
use crate::encryption::{decrypted, key_references, public_key_of, references_for, Encryption};
use crate::error::Error;
use crate::key_reference::{reference_views, KeyReference, Lookups, Reference, Resolved};
use crate::sealed_box::{encrypts, sealable, text_view};
use crate::text::optional_str;
use vstd::prelude::*;

verus! {

/// The request to encrypt a file under one key of the document.
#[derive(Debug)]
pub struct EncryptOptions {
    /// The name of the key entry to use.
    pub key: String,
    /// The path of the plaintext file.
    pub from: String,
    /// The path that the ciphertext is written to.
    pub to: String,
}

/// The request to decrypt a file under one key of the document.
#[derive(Debug)]
pub struct DecryptOptions {
    /// The name of the key entry to use.
    pub key: String,
    /// The path of the encrypted file.
    pub from: String,
    /// The path that the plaintext is written to.
    pub to: String,
}

/// Which way a file is to be converted.
#[derive(Debug)]
pub enum FileMode {
    Encrypt(EncryptOptions),
    Decrypt(DecryptOptions),
}

/// The request to encrypt or decrypt a file with a key of a document.
#[derive(Debug)]
pub struct File {
    /// The path of the document.
    pub config: String,
    pub cmd: FileMode,
}

/// `written` is what encrypting a file comes to: `contents` is the text of
/// the file, or `None` where it could not be read.
pub open spec fn is_encrypted_file(
    config: Document,
    found: Lookups,
    key: Seq<char>,
    contents: Option<Seq<char>>,
    written: Result<Seq<char>, Error>,
) -> bool {
    match contents {
        None => written == Err::<Seq<char>, Error>(Error::UnreadableFile),
        Some(text) => match public_key_of(config.keys(), found, key) {
            Ok(public) => written matches Ok(stored) && encrypts(stored, public, text),
            Err(error) => written == Err::<Seq<char>, Error>(error),
        },
    }
}

/// What decrypting a file comes to: `contents` is the text of the file, or
/// `None` where it could not be read.
pub open spec fn decrypted_file(
    config: Document,
    found: Lookups,
    key: Seq<char>,
    contents: Option<Seq<char>>,
) -> Result<Seq<char>, Error> {
    match contents {
        None => Err(Error::UnreadableEncryptedFile),
        Some(text) => decrypted(config.keys(), found, key, text),
    }
}

/// What the request `mode` comes to: `contents` is the text of the file to
/// convert, or `None` where it could not be read; `config` is the document,
/// or `None` where there is none.
pub open spec fn is_converted_file(
    mode: FileMode,
    config: Option<Document>,
    found: Lookups,
    contents: Option<Seq<char>>,
    written: Result<Seq<char>, Error>,
) -> bool {
    match config {
        None => written == Err::<Seq<char>, Error>(Error::ConfigNotFound),
        Some(document) => match mode {
            FileMode::Encrypt(options) => is_encrypted_file(
                document,
                found,
                options.key@,
                contents,
                written,
            ),
            FileMode::Decrypt(options) => written == decrypted_file(
                document,
                found,
                options.key@,
                contents,
            ),
        },
    }
}

/// The key references that the request `mode` consults: those of the key it
/// names, and none where there is no document or the file could not be read.
pub open spec fn references_to_convert(
    mode: FileMode,
    config: Option<Document>,
    contents: Option<Seq<char>>,
) -> Seq<Reference> {
    match config {
        Some(document) => if contents is Some {
            match mode {
                FileMode::Encrypt(options) => references_for(document.keys(), options.key@),
                FileMode::Decrypt(options) => references_for(document.keys(), options.key@),
            }
        } else {
            Seq::empty()
        },
        None => Seq::empty(),
    }
}

/// The key references that `file` will consult for `cmd`, `config` and
/// `contents`, which are to be looked up before it is called.
pub fn file_references(cmd: &File, config: Option<&Config>, contents: Option<&str>) -> (references:
    Vec<KeyReference>)
    ensures
        reference_views(references@) == references_to_convert(
            cmd.cmd,
            optional_document(config),
            optional_str(contents),
        ),
{
    match config {
        Some(document) => {
            if contents.is_some() {
                match &cmd.cmd {
                    FileMode::Encrypt(options) => key_references(document, options.key.as_str()),
                    FileMode::Decrypt(options) => key_references(document, options.key.as_str()),
                }
            } else {
                let none: Vec<KeyReference> = Vec::new();
                assert(reference_views(none@) =~= Seq::<Reference>::empty());
                none
            }
        },
        None => {
            let none: Vec<KeyReference> = Vec::new();
            assert(reference_views(none@) =~= Seq::<Reference>::empty());
            none
        },
    }
}

/// The text to write when a file is encrypted.
pub fn encrypt_file(
    config: &Config,
    found: &Resolved,
    options: &EncryptOptions,
    contents: Option<&str>,
) -> (written: Result<String, Error>)
    requires
        contents matches Some(text) ==> sealable(text@),
    ensures
        is_encrypted_file(
            config@,
            found@,
            options.key@,
            optional_str(contents),
            text_view(written),
        ),
{
    let encryption = Encryption { config, found };
    let raw_contents = match contents {
        Some(text) => text,
        None => {
            return Err(Error::UnreadableFile);
        },
    };
    encryption.encrypt(options.key.as_str(), raw_contents)
}

/// The text to write when a file is decrypted.
pub fn decrypt_file(
    config: &Config,
    found: &Resolved,
    options: &DecryptOptions,
    contents: Option<&str>,
) -> (written: Result<String, Error>)
    ensures
        text_view(written) == decrypted_file(
            config@,
            found@,
            options.key@,
            optional_str(contents),
        ),
{
    let encryption = Encryption { config, found };
    let encrypted_contents = match contents {
        Some(text) => text,
        None => {
            return Err(Error::UnreadableEncryptedFile);
        },
    };
    encryption.decrypt(options.key.as_str(), encrypted_contents)
}

/// The text to write for the request `cmd`. `config` is the document at the
/// path of `cmd`, or `None` where there is no such file; `contents` is the
/// text of the file to convert, or `None` where it could not be read.
pub fn file(cmd: &File, config: Option<&Config>, found: &Resolved, contents: Option<&str>) -> (written:
    Result<String, Error>)
    requires
        cmd.cmd is Encrypt ==> (contents matches Some(text) ==> sealable(text@)),
    ensures
        is_converted_file(
            cmd.cmd,
            optional_document(config),
            found@,
            optional_str(contents),
            text_view(written),
        ),
{
    let document = match config {
        Some(document) => document,
        None => {
            return Err(Error::ConfigNotFound);
        },
    };
    match &cmd.cmd {
        FileMode::Encrypt(options) => encrypt_file(document, found, options, contents),
        FileMode::Decrypt(options) => decrypt_file(document, found, options, contents),
    }
}

} // verus!
