use crate::encoding::{base64_text, is_base64_text};
use crate::encryption::Encryption;
use crate::error::Error;
use crate::keys::key_bytes;
use crate::name_map::{map_of, NameMap};
use crate::sealed_box::{all_sealable, is_key_pair, sealable, KEY_BYTES};
use vstd::prelude::*;
use vstd::utf8::*;

verus! {

/// The value that stands for "unchanged, keep the stored ciphertext" when a
/// document is presented for editing.
pub const PLACEHOLDER: &'static str = "<encrypted>";

/// The key name that serves every configuration name without an entry of
/// its own.
pub const WILDCARD: &'static str = "*";

/// The name of the sample entry of a new document.
pub const EXAMPLE_NAME: &'static str = "EXAMPLE_KEY";

/// The value of the sample entry of a new document.
pub const EXAMPLE_VALUE: &'static str = "some value that should be encrypted";

/// A named key pair: two key reference strings.
#[derive(Debug)]
pub struct EncryptionKey {
    pub public_key: String,
    pub secret_key: String,
}

/// The model of an `EncryptionKey`.
pub struct KeyEntry {
    pub public_key: Seq<char>,
    pub secret_key: Seq<char>,
}

impl View for EncryptionKey {
    type V = KeyEntry;

    open spec fn view(&self) -> KeyEntry {
        KeyEntry { public_key: self.public_key@, secret_key: self.secret_key@ }
    }
}

impl Clone for EncryptionKey {
    fn clone(&self) -> (copy: Self)
        ensures
            copy@ == self@,
    {
        EncryptionKey { public_key: self.public_key.clone(), secret_key: self.secret_key.clone() }
    }
}

/// The document: the configuration, from name to value, and the key pairs,
/// from key name to entry. The key name `*` is the fallback for
/// configuration names that have no entry of their own.
#[derive(Debug)]
pub struct Config {
    pub configuration: NameMap<String>,
    pub keys: NameMap<EncryptionKey>,
}

/// What reading the file of a document gave.
#[derive(Debug)]
pub enum Loaded {
    /// There is no file to read.
    Missing,
    /// The file holds no document.
    Malformed,
    /// The file holds this document.
    Document(Config),
}

/// The model of a `Config`: the configuration entries and the key entries,
/// each as its names and, at the same positions, its values.
pub struct Document {
    pub names: Seq<Seq<char>>,
    pub values: Seq<Seq<char>>,
    pub key_names: Seq<Seq<char>>,
    pub key_entries: Seq<KeyEntry>,
}

impl Document {
    /// Names and values run in parallel, and no name occurs twice.
    pub open spec fn wf(self) -> bool {
        &&& self.names.len() == self.values.len()
        &&& self.names.no_duplicates()
        &&& self.key_names.len() == self.key_entries.len()
        &&& self.key_names.no_duplicates()
    }

    /// The configuration, from name to value.
    pub open spec fn configuration(self) -> Map<Seq<char>, Seq<char>> {
        map_of(self.names, self.values)
    }

    /// The key pairs, from key name to entry.
    pub open spec fn keys(self) -> Map<Seq<char>, KeyEntry> {
        map_of(self.key_names, self.key_entries)
    }

    /// The document with every value replaced by the placeholder.
    pub open spec fn hidden(self) -> Document {
        Document {
            names: self.names,
            values: Seq::new(self.names.len(), |i: int| PLACEHOLDER@),
            key_names: self.key_names,
            key_entries: self.key_entries,
        }
    }

    /// The document is a new one: one sample entry that is still plaintext,
    /// and under `*` the two halves of one key pair, each as base64.
    pub open spec fn is_new(self) -> bool {
        &&& self.names == seq![EXAMPLE_NAME@]
        &&& self.values == seq![EXAMPLE_VALUE@]
        &&& self.configuration() == map![EXAMPLE_NAME@ => EXAMPLE_VALUE@]
        &&& self.key_names == seq![WILDCARD@]
        &&& self.key_entries.len() == 1
        &&& self.keys() == map![WILDCARD@ => self.key_entries[0]]
        &&& is_encoded_pair(self.key_entries[0])
    }
}

/// The sample of a new document is short enough to be sealed and encoded.
pub proof fn lemma_new_document_is_sealable()
    ensures
        sealable(EXAMPLE_VALUE@),
        forall|document: Document| #[trigger] document.is_new() ==> all_sealable(document.values),
{
    reveal_strlit("some value that should be encrypted");
    assert(is_ascii_chars(EXAMPLE_VALUE@));
    is_ascii_chars_encode_utf8(EXAMPLE_VALUE@);
}

/// The placeholder is short enough to be sealed and encoded, and so is
/// every value of a document that is presented for editing.
pub proof fn lemma_hidden_is_sealable(document: Document)
    ensures
        sealable(PLACEHOLDER@),
        all_sealable(document.hidden().values),
{
    reveal_strlit("<encrypted>");
    assert(is_ascii_chars(PLACEHOLDER@));
    is_ascii_chars_encode_utf8(PLACEHOLDER@);
}

impl View for Config {
    type V = Document;

    open spec fn view(&self) -> Document {
        Document {
            names: self.configuration.names(),
            values: self.configuration.values(),
            key_names: self.keys.names(),
            key_entries: self.keys.values(),
        }
    }
}

/// The model of a document that may be absent.
pub open spec fn optional_document(config: Option<&Config>) -> Option<Document> {
    match config {
        Some(document) => Some(document@),
        None => None,
    }
}

/// The model of a document or an error.
pub open spec fn document_view(outcome: Result<Config, Error>) -> Result<Document, Error> {
    match outcome {
        Ok(config) => Ok(config@),
        Err(error) => Err(error),
    }
}

impl Clone for Config {
    fn clone(&self) -> (copy: Self)
        ensures
            copy@ == self@,
    {
        Config { configuration: self.configuration.duplicate(), keys: self.keys.duplicate() }
    }
}

/// The number of characters, and of bytes, in the base64 text of a key.
pub const KEY_TEXT_LEN: usize = 44;

/// `text` is the base64 text of the bytes of a key: `KEY_TEXT_LEN`
/// characters of base64, one byte each, that decode to the bytes they are
/// the text of.
pub open spec fn is_key_text(text: Seq<char>) -> bool {
    &&& text == base64_text(key_bytes(text))
    &&& key_bytes(text).len() == KEY_BYTES
    &&& is_base64_text(text)
    &&& text.len() == KEY_TEXT_LEN
    &&& encode_utf8(text).len() == KEY_TEXT_LEN
}

/// `entry` holds the two halves of one key pair, each as the base64 text of
/// its bytes.
pub open spec fn is_encoded_pair(entry: KeyEntry) -> bool {
    &&& is_key_pair(key_bytes(entry.public_key), key_bytes(entry.secret_key))
    &&& is_key_text(entry.public_key)
    &&& is_key_text(entry.secret_key)
}

impl Config {
    /// A new document: one sample entry that is still plaintext, and a
    /// freshly generated key pair under `*`.
    pub fn default() -> (config: Config)
        ensures
            config@.is_new(),
            all_sealable(config@.values),
    {
        proof {
            lemma_new_document_is_sealable();
        }
        let (public_key, secret_key) = Encryption::gen_keypair();
        let mut configuration: NameMap<String> = NameMap::new();
        let mut keys: NameMap<EncryptionKey> = NameMap::new();
        configuration.insert(EXAMPLE_NAME.to_owned(), EXAMPLE_VALUE.to_owned());
        keys.insert(WILDCARD.to_owned(), EncryptionKey { public_key, secret_key });
        assert(configuration.names() =~= seq![EXAMPLE_NAME@]);
        assert(configuration.values() =~= seq![EXAMPLE_VALUE@]);
        assert(keys.names() =~= seq![WILDCARD@]);
        assert(configuration@ =~= map![EXAMPLE_NAME@ => EXAMPLE_VALUE@]);
        assert(keys@ =~= map![WILDCARD@ => keys.values()[0]]);
        Config { configuration, keys }
    }

    /// The document that a path stands for: the one that was read from it,
    /// or a new one where there was no file to read. A file that is no
    /// document is an error; it is not replaced by a new document.
    pub fn get(loaded: Loaded) -> (config: Result<Config, Error>)
        ensures
            match loaded {
                Loaded::Document(document) => config == Ok::<Config, Error>(document),
                Loaded::Malformed => config == Err::<Config, Error>(Error::MalformedDocument),
                Loaded::Missing => config matches Ok(new) && new@.is_new() && all_sealable(
                    new@.values,
                ),
            },
    {
        match loaded {
            Loaded::Document(document) => Ok(document),
            Loaded::Malformed => Err(Error::MalformedDocument),
            Loaded::Missing => Ok(Config::default()),
        }
    }

    /// The document as it is presented for editing: every value replaced by
    /// the placeholder, the names and the keys as they are.
    pub fn with_placeholders(&self) -> (shown: Config)
        ensures
            shown@ == self@.hidden(),
            all_sealable(shown@.values),
    {
        proof {
            use_type_invariant(&self.configuration);
            lemma_hidden_is_sealable(self@);
        }
        let mut configuration: NameMap<String> = NameMap::new();
        let n = self.configuration.len();
        let mut i: usize = 0;
        while i < n
            invariant
                i <= n,
                n == self.configuration.names().len(),
                self.configuration.wf(),
                configuration.names() == self.configuration.names().subrange(0, i as int),
                configuration.values() == Seq::new(i as nat, |k: int| PLACEHOLDER@),
            decreases n - i,
        {
            let name = self.configuration.name_at(i).clone();
            configuration.push(name, PLACEHOLDER.to_owned());
            assert(configuration.names() =~= self.configuration.names().subrange(0, i + 1));
            assert(configuration.values() =~= Seq::new((i + 1) as nat, |k: int| PLACEHOLDER@));
            i += 1;
        }
        assert(configuration.names() =~= self.configuration.names());
        Config { configuration, keys: self.keys.duplicate() }
    }

    /// The model of a well-formed document is well-formed.
    pub proof fn lemma_view_wf(&self)
        requires
            self.configuration.wf(),
            self.keys.wf(),
        ensures
            self@.wf(),
            self@.configuration() == self.configuration@,
            self@.keys() == self.keys@,
    {
        self.configuration.lemma_parallel();
        self.keys.lemma_parallel();
    }
}

} // verus!
