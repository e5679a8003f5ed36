use crate::config::{
    document_view, is_encoded_pair, Config, Document, EncryptionKey, KeyEntry, EXAMPLE_NAME,
    EXAMPLE_VALUE, PLACEHOLDER, WILDCARD,
};
use crate::encoding::{base64_decoded, base64_encode, hex_decoded, lemma_base64_text_is_ascii};
use crate::error::{Error, KeyHalf};
use crate::key_reference::{
    lemma_base64_text_is_literal, parsed, reference_views, resolve_key, resolved_text,
    KeyReference, Lookups, Reference, Resolved,
};
use crate::keys::{decode_key, exact_key, key_bytes, HEX_KEY_LEN};
use crate::name_map::{lemma_position, NameMap};
use crate::sealed_box::{
    all_sealable, base64_len, decrypt, encrypt, encrypts, generate_pair, is_key_pair, is_sealable,
    lemma_ciphertext_is_longer, opened_text, sealable, text_view, PublicKey, SecretKey, KEY_BYTES,
    SEAL_BYTES,
};
use crate::text::same_text;
use vstd::prelude::*;
use vstd::utf8::*;

verus! {

/// Encrypts and decrypts the values of a document with the keys of that
/// document, resolving indirect key references through `found`.
pub struct Encryption<'a> {
    pub config: &'a Config,
    pub found: &'a Resolved,
}

/// The key entry that serves `name`: its own, or else the fallback's.
pub open spec fn entry_for(keys: Map<Seq<char>, KeyEntry>, name: Seq<char>) -> Option<KeyEntry> {
    if keys.contains_key(name) {
        Some(keys[name])
    } else if keys.contains_key(WILDCARD@) {
        Some(keys[WILDCARD@])
    } else {
        None
    }
}

/// The key that a reference string gives once resolved and decoded, if it
/// has the width of a key.
pub open spec fn key_of(reference: Seq<char>, found: Lookups, half: KeyHalf) -> Result<
    Seq<u8>,
    Error,
> {
    let bytes = key_bytes(resolved_text(reference, found));
    if bytes.len() == KEY_BYTES {
        Ok(bytes)
    } else {
        Err(Error::KeyFormat(half))
    }
}

/// The public key that serves `name`.
pub open spec fn public_key_of(keys: Map<Seq<char>, KeyEntry>, found: Lookups, name: Seq<char>)
    -> Result<Seq<u8>, Error> {
    match entry_for(keys, name) {
        None => Err(Error::MissingEncryptionKey),
        Some(entry) => key_of(entry.public_key, found, KeyHalf::Public),
    }
}

/// The secret key that serves `name`.
pub open spec fn secret_key_of(keys: Map<Seq<char>, KeyEntry>, found: Lookups, name: Seq<char>)
    -> Result<Seq<u8>, Error> {
    match entry_for(keys, name) {
        None => Err(Error::MissingEncryptionKey),
        Some(entry) => key_of(entry.secret_key, found, KeyHalf::Secret),
    }
}

/// What decrypting the value `stored` of the entry `name` gives. The public
/// key is looked at first, then the secret key, then the value.
pub open spec fn decrypted(
    keys: Map<Seq<char>, KeyEntry>,
    found: Lookups,
    name: Seq<char>,
    stored: Seq<char>,
) -> Result<Seq<char>, Error> {
    match public_key_of(keys, found, name) {
        Err(error) => Err(error),
        Ok(public) => match secret_key_of(keys, found, name) {
            Err(error) => Err(error),
            Ok(secret) => opened_text(stored, public, secret),
        },
    }
}

/// Why the candidate entry `name`, `value` cannot be merged, if it cannot:
/// the placeholder needs a stored value to carry forward, any other value a
/// public key to be encrypted with.
pub open spec fn entry_failure(
    previous: Map<Seq<char>, Seq<char>>,
    keys: Map<Seq<char>, KeyEntry>,
    found: Lookups,
    name: Seq<char>,
    value: Seq<char>,
) -> Option<Error> {
    if value == PLACEHOLDER@ {
        if previous.contains_key(name) {
            None
        } else {
            Some(Error::RenamedOrMovedSecret)
        }
    } else {
        match public_key_of(keys, found, name) {
            Ok(_) => None,
            Err(error) => Some(error),
        }
    }
}

/// `merged` is what the candidate entry `name`, `value` becomes: the stored
/// value where the candidate holds the placeholder, else a ciphertext of
/// `value` under the public key that serves `name`, which is never the
/// placeholder.
pub open spec fn merged_value(
    previous: Map<Seq<char>, Seq<char>>,
    keys: Map<Seq<char>, KeyEntry>,
    found: Lookups,
    name: Seq<char>,
    value: Seq<char>,
    merged: Seq<char>,
) -> bool {
    if value == PLACEHOLDER@ {
        previous.contains_key(name) && merged == previous[name]
    } else {
        match public_key_of(keys, found, name) {
            Ok(public) => encrypts(merged, public, value) && merged != PLACEHOLDER@,
            Err(_) => false,
        }
    }
}

/// A ciphertext is not the placeholder: it is longer.
pub proof fn lemma_ciphertext_is_no_placeholder(
    stored: Seq<char>,
    public: Seq<u8>,
    plaintext: Seq<char>,
)
    requires
        encrypts(stored, public, plaintext),
    ensures
        stored != PLACEHOLDER@,
        stored != plaintext,
{
    reveal_strlit("<encrypted>");
    lemma_ciphertext_is_longer(stored, public, plaintext);
}

/// Entry `at` of the candidate is the first that cannot be merged, and
/// `error` is why.
pub open spec fn first_failure(
    previous: Document,
    candidate: Document,
    found: Lookups,
    at: int,
    error: Error,
) -> bool {
    &&& 0 <= at < candidate.names.len()
    &&& entry_failure(
        previous.configuration(),
        candidate.keys(),
        found,
        candidate.names[at],
        candidate.values[at],
    ) == Some(error)
    &&& forall|i: int|
        0 <= i < at ==> (#[trigger] entry_failure(
            previous.configuration(),
            candidate.keys(),
            found,
            candidate.names[i],
            candidate.values[i],
        )) is None
}

/// `outcome` is a merge of the edited document `candidate` into the stored
/// document `previous`: either a document with every entry of the candidate
/// merged and with the candidate's keys, or the failure of the first entry
/// that cannot be merged.
pub open spec fn is_merge(
    previous: Document,
    candidate: Document,
    found: Lookups,
    outcome: Result<Document, Error>,
) -> bool {
    match outcome {
        Ok(merged) => {
            &&& merged.names == candidate.names
            &&& merged.values.len() == candidate.names.len()
            &&& forall|i: int|
                0 <= i < candidate.names.len() ==> merged_value(
                    previous.configuration(),
                    candidate.keys(),
                    found,
                    candidate.names[i],
                    candidate.values[i],
                    #[trigger] merged.values[i],
                )
            &&& merged.key_names == candidate.key_names
            &&& merged.key_entries == candidate.key_entries
        },
        Err(error) => exists|at: int| first_failure(previous, candidate, found, at, error),
    }
}

/// The key references that are consulted to serve `name`: the public and
/// the secret reference of its key entry, or none where it has no entry.
pub open spec fn references_for(keys: Map<Seq<char>, KeyEntry>, name: Seq<char>) -> Seq<Reference> {
    match entry_for(keys, name) {
        Some(entry) => seq![parsed(entry.public_key), parsed(entry.secret_key)],
        None => Seq::empty(),
    }
}

/// The key references that are consulted for the first `n` entries of a
/// document, in their order. A merge consults none for an entry that holds
/// the placeholder.
pub open spec fn references_of_entries(document: Document, merging: bool, n: nat) -> Seq<
    Reference,
>
    decreases n,
{
    if n == 0 {
        Seq::empty()
    } else {
        let before = references_of_entries(document, merging, (n - 1) as nat);
        if merging && document.values[n - 1] == PLACEHOLDER@ {
            before
        } else {
            before + references_for(document.keys(), document.names[n - 1])
        }
    }
}

/// The key references that decrypting every value of `document` consults.
pub open spec fn references_to_decrypt(document: Document) -> Seq<Reference> {
    references_of_entries(document, false, document.names.len())
}

/// The key references that merging the edited document `candidate`
/// consults.
pub open spec fn references_to_merge(candidate: Document) -> Seq<Reference> {
    references_of_entries(candidate, true, candidate.names.len())
}

/// The key references that are consulted to serve `key` with the keys of
/// `config`.
pub fn key_references(config: &Config, key: &str) -> (references: Vec<KeyReference>)
    ensures
        reference_views(references@) == references_for(config@.keys(), key@),
{
    let mut references: Vec<KeyReference> = Vec::new();
    let entry = match config.keys.get(key) {
        Some(entry) => Some(entry),
        None => config.keys.get(WILDCARD),
    };
    match entry {
        Some(entry) => {
            references.push(KeyReference::parse(entry.public_key.as_str()));
            references.push(KeyReference::parse(entry.secret_key.as_str()));
            assert(reference_views(references@) =~= references_for(config@.keys(), key@));
        },
        None => {
            assert(reference_views(references@) =~= references_for(config@.keys(), key@));
        },
    }
    references
}

fn entry_references(config: &Config, merging: bool) -> (references: Vec<KeyReference>)
    ensures
        reference_views(references@) == references_of_entries(
            config@,
            merging,
            config@.names.len(),
        ),
{
    let mut references: Vec<KeyReference> = Vec::new();
    let n = config.configuration.len();
    let mut i: usize = 0;
    assert(reference_views(references@) =~= references_of_entries(config@, merging, 0));
    while i < n
        invariant
            i <= n,
            n == config@.names.len(),
            n == config@.values.len(),
            reference_views(references@) == references_of_entries(config@, merging, i as nat),
        decreases n - i,
    {
        let name = config.configuration.name_at(i);
        let value = config.configuration.value_at(i);
        if !(merging && same_text(value.as_str(), PLACEHOLDER)) {
            let mut more = key_references(config, name.as_str());
            let ghost before = references@;
            let ghost added = more@;
            references.append(&mut more);
            assert(reference_views(references@) =~= reference_views(before) + reference_views(
                added,
            ));
        }
        i += 1;
    }
    references
}

/// The key references that `start` will consult to decrypt every value of
/// `config`, in the order of its entries.
pub fn decryption_references(config: &Config) -> (references: Vec<KeyReference>)
    ensures
        reference_views(references@) == references_to_decrypt(config@),
{
    entry_references(config, false)
}

/// The key references that `encrypt_configuration` will consult to merge
/// the edited document `new_config`, in the order of its entries.
pub fn merge_references(new_config: &Config) -> (references: Vec<KeyReference>)
    ensures
        reference_views(references@) == references_to_merge(new_config@),
{
    entry_references(new_config, true)
}

/// Whether every value of `config` is short enough to be sealed and encoded.
pub fn all_values_sealable(config: &Config) -> (fits: bool)
    ensures
        fits == all_sealable(config.configuration.values()),
{
    let n = config.configuration.len();
    let mut i: usize = 0;
    while i < n
        invariant
            i <= n,
            n == config.configuration.values().len(),
            forall|k: int| 0 <= k < i ==> sealable(#[trigger] config.configuration.values()[k]),
        decreases n - i,
    {
        if !is_sealable(config.configuration.value_at(i).as_str()) {
            return false;
        }
        i += 1;
    }
    true
}

impl<'a> Encryption<'a> {
    /// A fresh key pair, each half as base64.
    pub fn gen_keypair() -> (pair: (String, String))
        ensures
            is_encoded_pair(KeyEntry { public_key: pair.0@, secret_key: pair.1@ }),
    {
        let (public, secret) = generate_pair();
        let public_text = base64_encode(public.bytes.as_slice());
        let secret_text = base64_encode(secret.bytes.as_slice());
        proof {
            lemma_base64_text_is_ascii(public_text@);
            lemma_base64_text_is_ascii(secret_text@);
        }
        (public_text, secret_text)
    }

    /// The key entry that serves `key`, its two references resolved.
    pub fn resolve_keys(&self, key: &str) -> (resolved: Result<EncryptionKey, Error>)
        ensures
            match entry_for(self.config.keys@, key@) {
                Some(entry) => resolved matches Ok(pair) && pair@ == (KeyEntry {
                    public_key: resolved_text(entry.public_key, self.found@),
                    secret_key: resolved_text(entry.secret_key, self.found@),
                }),
                None => resolved == Err::<EncryptionKey, Error>(Error::MissingEncryptionKey),
            },
    {
        let entry = match self.config.keys.get(key) {
            Some(entry) => entry,
            None => match self.config.keys.get(WILDCARD) {
                Some(entry) => entry,
                None => {
                    return Err(Error::MissingEncryptionKey);
                },
            },
        };
        Ok(
            EncryptionKey {
                public_key: resolve_key(entry.public_key.as_str(), self.found),
                secret_key: resolve_key(entry.secret_key.as_str(), self.found),
            },
        )
    }

    /// The secret key that serves `key`.
    pub fn get_sec_key(&self, key: &str) -> (secret: Result<SecretKey, Error>)
        ensures
            match secret_key_of(self.config.keys@, self.found@, key@) {
                Ok(bytes) => secret matches Ok(k) && k@ == bytes,
                Err(error) => secret == Err::<SecretKey, Error>(error),
            },
    {
        let pair = self.resolve_keys(key)?;
        let decoded = decode_key(pair.secret_key.as_str());
        match exact_key(&decoded) {
            Some(bytes) => Ok(SecretKey { bytes }),
            None => Err(Error::KeyFormat(KeyHalf::Secret)),
        }
    }

    /// The public key that serves `key`.
    pub fn get_pub_key(&self, key: &str) -> (public: Result<PublicKey, Error>)
        ensures
            match public_key_of(self.config.keys@, self.found@, key@) {
                Ok(bytes) => public matches Ok(k) && k@ == bytes,
                Err(error) => public == Err::<PublicKey, Error>(error),
            },
    {
        let pair = self.resolve_keys(key)?;
        let decoded = decode_key(pair.public_key.as_str());
        match exact_key(&decoded) {
            Some(bytes) => Ok(PublicKey { bytes }),
            None => Err(Error::KeyFormat(KeyHalf::Public)),
        }
    }

    /// Encrypts `value` for the entry `key`. The ciphertext is neither
    /// `value` nor the placeholder.
    pub fn encrypt(&self, key: &str, value: &str) -> (stored: Result<String, Error>)
        requires
            sealable(value@),
        ensures
            match public_key_of(self.config.keys@, self.found@, key@) {
                Ok(public) => stored matches Ok(text) && encrypts(text@, public, value@) && text@
                    != PLACEHOLDER@,
                Err(error) => stored == Err::<String, Error>(error),
            },
    {
        let public = self.get_pub_key(key)?;
        let stored = encrypt(&public, value);
        proof {
            lemma_ciphertext_is_no_placeholder(stored@, public@, value@);
        }
        Ok(stored)
    }

    /// Decrypts the stored `value` of the entry `key`.
    pub fn decrypt(&self, key: &str, value: &str) -> (plaintext: Result<String, Error>)
        ensures
            text_view(plaintext) == decrypted(self.config.keys@, self.found@, key@, value@),
    {
        let public = self.get_pub_key(key)?;
        let secret = self.get_sec_key(key)?;
        decrypt(&public, &secret, value)
    }

    /// What the candidate entry `key`, `value` becomes when it is merged
    /// into the stored configuration of `self`: the placeholder is replaced
    /// by the stored value, any other value is encrypted with the keys of
    /// `candidate`.
    pub fn merge_entry(&self, candidate: &Encryption, key: &str, value: &str) -> (merged: Result<
        String,
        Error,
    >)
        requires
            sealable(value@),
        ensures
            match entry_failure(
                self.config.configuration@,
                candidate.config.keys@,
                candidate.found@,
                key@,
                value@,
            ) {
                Some(error) => merged == Err::<String, Error>(error),
                None => merged matches Ok(text) && merged_value(
                    self.config.configuration@,
                    candidate.config.keys@,
                    candidate.found@,
                    key@,
                    value@,
                    text@,
                ),
            },
    {
        if same_text(value, PLACEHOLDER) {
            match self.config.configuration.get(key) {
                Some(stored) => Ok(stored.clone()),
                None => Err(Error::RenamedOrMovedSecret),
            }
        } else {
            candidate.encrypt(key, value)
        }
    }

    /// Merges the edited document `new_config` into the stored one: every
    /// value that is the placeholder is replaced by the stored value of the
    /// same name, every other value is encrypted with the keys of
    /// `new_config`, and the keys of `new_config` replace the stored keys.
    /// The first entry that cannot be merged fails the whole merge.
    ///
    /// In particular, a document that is submitted with every value hidden
    /// comes back with the stored values.
    pub fn encrypt_configuration(&self, new_config: &Config) -> (outcome: Result<Config, Error>)
        requires
            all_sealable(new_config@.values),
        ensures
            is_merge(self.config@, new_config@, self.found@, document_view(outcome)),
            new_config@.names == self.config@.names && new_config@.values
                == self.config@.hidden().values ==> (outcome matches Ok(merged) && merged@.names
                == self.config@.names && merged@.values == self.config@.values),
            new_config@.is_new() ==> (outcome matches Ok(merged) && is_sealed_sample(
                merged@,
                new_config@,
                self.found@,
            )),
    {
        let outcome = self.merge_all(new_config);
        proof {
            if new_config@.is_new() {
                lemma_new_document_merges(
                    self.config@,
                    new_config@,
                    self.found@,
                    document_view(outcome),
                );
            }
            if new_config@.names == self.config@.names && new_config@.values
                == self.config@.hidden().values {
                use_type_invariant(&self.config.configuration);
                use_type_invariant(&self.config.keys);
                self.config.lemma_view_wf();
                lemma_resubmission_keeps_stored_values(
                    self.config@,
                    new_config@,
                    self.found@,
                    document_view(outcome),
                );
            }
        }
        outcome
    }

    fn merge_all(&self, new_config: &Config) -> (outcome: Result<Config, Error>)
        requires
            all_sealable(new_config@.values),
        ensures
            is_merge(self.config@, new_config@, self.found@, document_view(outcome)),
    {
        proof {
            use_type_invariant(&new_config.configuration);
        }
        let new_encrypter = Encryption { config: new_config, found: self.found };
        let mut merged: NameMap<String> = NameMap::new();
        let n = new_config.configuration.len();
        let mut i: usize = 0;
        while i < n
            invariant
                i <= n,
                n == new_config.configuration.names().len(),
                n == new_config.configuration.values().len(),
                new_config.configuration.wf(),
                all_sealable(new_config.configuration.values()),
                new_encrypter.config == new_config,
                new_encrypter.found == self.found,
                merged.names() == new_config.configuration.names().subrange(0, i as int),
                merged.values().len() == i,
                forall|k: int|
                    0 <= k < i ==> merged_value(
                        self.config.configuration@,
                        new_config.keys@,
                        self.found@,
                        new_config.configuration.names()[k],
                        new_config.configuration.values()[k],
                        #[trigger] merged.values()[k],
                    ),
                forall|k: int|
                    0 <= k < i ==> (#[trigger] entry_failure(
                        self.config.configuration@,
                        new_config.keys@,
                        self.found@,
                        new_config.configuration.names()[k],
                        new_config.configuration.values()[k],
                    )) is None,
            decreases n - i,
        {
            let name = new_config.configuration.name_at(i);
            let value = new_config.configuration.value_at(i);
            match self.merge_entry(&new_encrypter, name.as_str(), value.as_str()) {
                Ok(text) => {
                    let ghost before = merged.values();
                    merged.push(name.clone(), text);
                    assert(merged.names() =~= new_config.configuration.names().subrange(
                        0,
                        i + 1,
                    ));
                    assert forall|k: int| 0 <= k < i + 1 implies merged_value(
                        self.config.configuration@,
                        new_config.keys@,
                        self.found@,
                        new_config.configuration.names()[k],
                        new_config.configuration.values()[k],
                        #[trigger] merged.values()[k],
                    ) by {
                        if k < i {
                            assert(merged.values()[k] == before[k]);
                        }
                    }
                },
                Err(error) => {
                    assert(first_failure(
                        self.config@,
                        new_config@,
                        self.found@,
                        i as int,
                        error,
                    ));
                    return Err(error);
                },
            }
            i += 1;
        }
        assert(merged.names() =~= new_config.configuration.names());
        Ok(Config { configuration: merged, keys: new_config.keys.duplicate() })
    }
}

/// Re-submitting a document in which every value is the placeholder gives
/// the stored configuration back, value for value, with the keys that were
/// submitted.
pub proof fn lemma_resubmission_keeps_stored_values(
    previous: Document,
    shown: Document,
    found: Lookups,
    outcome: Result<Document, Error>,
)
    requires
        previous.wf(),
        shown.names == previous.names,
        shown.values == previous.hidden().values,
        is_merge(previous, shown, found, outcome),
    ensures
        outcome == Ok::<Document, Error>(
            Document {
                names: previous.names,
                values: previous.values,
                key_names: shown.key_names,
                key_entries: shown.key_entries,
            },
        ),
{
    assert forall|i: int| 0 <= i < shown.names.len() implies (#[trigger] entry_failure(
        previous.configuration(),
        shown.keys(),
        found,
        shown.names[i],
        shown.values[i],
    )) is None by {
        lemma_position(previous.names, previous.values, i);
    }
    match outcome {
        Ok(merged) => {
            assert forall|i: int| 0 <= i < previous.names.len() implies merged.values[i]
                == previous.values[i] by {
                lemma_position(previous.names, previous.values, i);
            }
            assert(merged.values =~= previous.values);
        },
        Err(error) => {
            let at = choose|at: int| first_failure(previous, shown, found, at, error);
            assert(entry_failure(
                previous.configuration(),
                shown.keys(),
                found,
                shown.names[at],
                shown.values[at],
            ) is None);
        },
    }
}

/// No entry of the candidate before entry `at` fails for another reason than
/// a placeholder without a stored value.
pub open spec fn no_other_failure_before(
    previous: Document,
    candidate: Document,
    found: Lookups,
    at: int,
) -> bool {
    forall|i: int|
        0 <= i < at ==> {
            let failure = #[trigger] entry_failure(
                previous.configuration(),
                candidate.keys(),
                found,
                candidate.names[i],
                candidate.values[i],
            );
            failure is None || failure == Some(Error::RenamedOrMovedSecret)
        }
}

/// A merge fails where the placeholder is submitted for a name that has no
/// stored value.
pub proof fn lemma_placeholder_needs_stored_value(
    previous: Document,
    candidate: Document,
    found: Lookups,
    outcome: Result<Document, Error>,
    at: int,
)
    requires
        is_merge(previous, candidate, found, outcome),
        0 <= at < candidate.names.len() == candidate.values.len(),
        candidate.values[at] == PLACEHOLDER@,
        !previous.configuration().contains_key(candidate.names[at]),
    ensures
        outcome is Err,
{
    if let Ok(merged) = outcome {
        assert(merged_value(
            previous.configuration(),
            candidate.keys(),
            found,
            candidate.names[at],
            candidate.values[at],
            merged.values[at],
        ));
    }
}

/// The merge of a placeholder for a name that has no stored value is
/// rejected as a renamed or moved secret, unless an entry before it fails
/// for another reason.
pub proof fn lemma_renamed_or_moved_is_rejected(
    previous: Document,
    candidate: Document,
    found: Lookups,
    outcome: Result<Document, Error>,
    at: int,
)
    requires
        is_merge(previous, candidate, found, outcome),
        0 <= at < candidate.names.len() == candidate.values.len(),
        candidate.values[at] == PLACEHOLDER@,
        !previous.configuration().contains_key(candidate.names[at]),
        no_other_failure_before(previous, candidate, found, at),
    ensures
        outcome == Err::<Document, Error>(Error::RenamedOrMovedSecret),
{
    lemma_placeholder_needs_stored_value(previous, candidate, found, outcome, at);
    let error = outcome->Err_0;
    let first = choose|first: int| first_failure(previous, candidate, found, first, error);
    if at < first {
        assert(entry_failure(
            previous.configuration(),
            candidate.keys(),
            found,
            candidate.names[at],
            candidate.values[at],
        ) is None);
    }
    if first < at {
        let failure = entry_failure(
            previous.configuration(),
            candidate.keys(),
            found,
            candidate.names[first],
            candidate.values[first],
        );
        assert(failure is None || failure == Some(Error::RenamedOrMovedSecret));
    }
}

/// A name without a key entry of its own is served by the entry of `*`, and
/// by nothing once that entry is removed.
pub proof fn lemma_wildcard_fallback(keys: Map<Seq<char>, KeyEntry>, found: Lookups, name: Seq<char>)
    requires
        !keys.contains_key(name),
    ensures
        keys.contains_key(WILDCARD@) ==> entry_for(keys, name) == Some(keys[WILDCARD@]),
        entry_for(keys.remove(WILDCARD@), name) is None,
        public_key_of(keys.remove(WILDCARD@), found, name) == Err::<Seq<u8>, Error>(
            Error::MissingEncryptionKey,
        ),
        secret_key_of(keys.remove(WILDCARD@), found, name) == Err::<Seq<u8>, Error>(
            Error::MissingEncryptionKey,
        ),
{
}

/// A key reference is a key format error unless it decodes to exactly
/// `KEY_BYTES` bytes, whichever encoding it is read in: hexadecimal where its
/// text has `HEX_KEY_LEN` bytes, base64 otherwise.
pub proof fn lemma_key_format(reference: Seq<char>, found: Lookups, half: KeyHalf)
    ensures
        ({
            let text = resolved_text(reference, found);
            let decoded = if encode_utf8(text).len() == HEX_KEY_LEN {
                hex_decoded(text)
            } else {
                base64_decoded(text)
            };
            key_of(reference, found, half) == if decoded is Some && decoded->0.len() == KEY_BYTES {
                Ok::<Seq<u8>, Error>(decoded->0)
            } else {
                Err::<Seq<u8>, Error>(Error::KeyFormat(half))
            }
        }),
{
}

/// What was encrypted for an entry decrypts to the plaintext, where the two
/// keys that serve the entry are the halves of one key pair.
pub proof fn lemma_entry_round_trip(
    keys: Map<Seq<char>, KeyEntry>,
    found: Lookups,
    name: Seq<char>,
    plaintext: Seq<char>,
    stored: Seq<char>,
)
    requires
        public_key_of(keys, found, name) is Ok,
        secret_key_of(keys, found, name) is Ok,
        is_key_pair(public_key_of(keys, found, name)->Ok_0, secret_key_of(keys, found, name)->Ok_0),
        encrypts(stored, public_key_of(keys, found, name)->Ok_0, plaintext),
    ensures
        decrypted(keys, found, name, stored) == Ok::<Seq<char>, Error>(plaintext),
{
    crate::sealed_box::lemma_round_trip(
        public_key_of(keys, found, name)->Ok_0,
        secret_key_of(keys, found, name)->Ok_0,
        plaintext,
        stored,
    );
}

/// The two keys of an encoded pair serve every name of a document whose only
/// key entry is that pair under `*`, whatever was looked up.
pub proof fn lemma_encoded_pair_serves(document: Document, found: Lookups, name: Seq<char>)
    requires
        document.key_names == seq![WILDCARD@],
        document.key_entries.len() == 1,
        is_encoded_pair(document.key_entries[0]),
    ensures
        public_key_of(document.keys(), found, name) == Ok::<Seq<u8>, Error>(
            key_bytes(document.key_entries[0].public_key),
        ),
        secret_key_of(document.keys(), found, name) == Ok::<Seq<u8>, Error>(
            key_bytes(document.key_entries[0].secret_key),
        ),
{
    let entry = document.key_entries[0];
    lemma_position(document.key_names, document.key_entries, 0);
    assert(entry_for(document.keys(), name) == Some(entry)) by {
        if document.keys().contains_key(name) {
            let i = document.key_names.index_of(name);
            assert(0 <= i < document.key_names.len() && document.key_names[i] == name);
        }
    }
    lemma_base64_text_is_literal(entry.public_key, found);
    lemma_base64_text_is_literal(entry.secret_key, found);
}

/// `merged` is the new document `new` with its sample encrypted: the stored
/// value is neither the sample nor the placeholder, and it decrypts to the
/// sample with the keys of the document, which are those of `new`.
pub open spec fn is_sealed_sample(merged: Document, new: Document, found: Lookups) -> bool {
    &&& merged.names == seq![EXAMPLE_NAME@]
    &&& merged.values.len() == 1
    &&& merged.values[0] != EXAMPLE_VALUE@
    &&& merged.values[0] != PLACEHOLDER@
    &&& merged.key_names == new.key_names
    &&& merged.key_entries == new.key_entries
    &&& decrypted(merged.keys(), found, EXAMPLE_NAME@, merged.values[0]) == Ok::<Seq<char>, Error>(
        EXAMPLE_VALUE@,
    )
}

/// What was encrypted with the public key of an encoded pair decrypts to
/// the plaintext in a document whose only key entry is that pair under `*`.
pub proof fn lemma_encoded_pair_round_trip(
    document: Document,
    found: Lookups,
    name: Seq<char>,
    plaintext: Seq<char>,
    stored: Seq<char>,
)
    requires
        document.key_names == seq![WILDCARD@],
        document.key_entries.len() == 1,
        is_encoded_pair(document.key_entries[0]),
        encrypts(stored, key_bytes(document.key_entries[0].public_key), plaintext),
    ensures
        decrypted(document.keys(), found, name, stored) == Ok::<Seq<char>, Error>(plaintext),
{
    lemma_encoded_pair_serves(document, found, name);
    lemma_entry_round_trip(document.keys(), found, name, plaintext, stored);
}

/// Merging a new document as it is encrypts its sample.
pub proof fn lemma_new_document_merges(
    previous: Document,
    new: Document,
    found: Lookups,
    outcome: Result<Document, Error>,
)
    requires
        new.is_new(),
        is_merge(previous, new, found, outcome),
    ensures
        outcome matches Ok(merged) && is_sealed_sample(merged, new, found),
{
    reveal_strlit("<encrypted>");
    reveal_strlit("some value that should be encrypted");
    lemma_encoded_pair_serves(new, found, EXAMPLE_NAME@);
    let failure = entry_failure(
        previous.configuration(),
        new.keys(),
        found,
        new.names[0],
        new.values[0],
    );
    assert(new.names[0] == EXAMPLE_NAME@);
    assert(new.values[0] == EXAMPLE_VALUE@);
    assert(failure is None);
    match outcome {
        Ok(merged) => {
            let stored = merged.values[0];
            assert(merged_value(
                previous.configuration(),
                new.keys(),
                found,
                new.names[0],
                new.values[0],
                stored,
            ));
            assert(merged.keys() == new.keys());
            lemma_entry_round_trip(new.keys(), found, EXAMPLE_NAME@, EXAMPLE_VALUE@, stored);
        },
        Err(error) => {
            let at = choose|at: int| first_failure(previous, new, found, at, error);
            assert(at == 0);
        },
    }
}

/// In a merged document no encrypted value is its plaintext or the
/// placeholder, and a value that was carried forward is the stored value of
/// the same name: so none is the placeholder unless a stored value is.
pub proof fn lemma_merged_values(
    previous: Document,
    candidate: Document,
    found: Lookups,
    merged: Document,
    i: int,
)
    requires
        previous.wf(),
        is_merge(previous, candidate, found, Ok(merged)),
        0 <= i < candidate.names.len() == candidate.values.len(),
    ensures
        candidate.values[i] != PLACEHOLDER@ ==> merged.values[i] != candidate.values[i]
            && merged.values[i] != PLACEHOLDER@ && encode_utf8(merged.values[i]).len()
            == base64_len(encode_utf8(candidate.values[i]).len() + SEAL_BYTES),
        candidate.values[i] == PLACEHOLDER@ ==> previous.values.contains(merged.values[i]),
        (forall|j: int| 0 <= j < previous.values.len() ==> previous.values[j] != PLACEHOLDER@)
            ==> merged.values[i] != PLACEHOLDER@,
{
    let stored = merged.values[i];
    assert(merged_value(
        previous.configuration(),
        candidate.keys(),
        found,
        candidate.names[i],
        candidate.values[i],
        stored,
    ));
    if candidate.values[i] == PLACEHOLDER@ {
        let name = candidate.names[i];
        assert(previous.names.contains(name));
        let at = previous.names.index_of(name);
        assert(0 <= at < previous.names.len() && previous.names[at] == name);
        assert(previous.values[at] == stored);
    } else {
        let public = public_key_of(candidate.keys(), found, candidate.names[i])->Ok_0;
        lemma_ciphertext_is_longer(stored, public, candidate.values[i]);
    }
}

} // verus!
