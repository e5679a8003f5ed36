use crate::encoding::{is_base64_char, is_base64_text};
use crate::name_map::NameMap;
use crate::text::{find_char, first_index, optional_text, same_text};
use vstd::prelude::*;
use vstd::string::*;

verus! {

/// What a key reference string stands for.
///
/// A reference is `literal`, `$NAME`, `env$NAME` or `awsSecretsManager$ID`.
/// The text before the first `$` is the scheme; a reference with a `$` and a
/// scheme that is none of these is a literal as a whole.
pub enum KeyReference {
    /// The reference is the encoded key itself.
    Literal(String),
    /// The key is the value of this environment variable.
    Variable(String),
    /// The key is the secret stored under this identifier in the secret store.
    Secret(String),
}

/// The model of a `KeyReference`.
pub enum Reference {
    Literal(Seq<char>),
    Variable(Seq<char>),
    Secret(Seq<char>),
}

impl View for KeyReference {
    type V = Reference;

    open spec fn view(&self) -> Reference {
        match self {
            KeyReference::Literal(text) => Reference::Literal(text@),
            KeyReference::Variable(name) => Reference::Variable(name@),
            KeyReference::Secret(id) => Reference::Secret(id@),
        }
    }
}

/// The models of a sequence of key references.
pub open spec fn reference_views(references: Seq<KeyReference>) -> Seq<Reference> {
    references.map_values(|reference: KeyReference| reference@)
}

/// The meaning of the reference string `key`.
pub open spec fn parsed(key: Seq<char>) -> Reference {
    if key.contains('$') {
        let at = first_index(key, '$');
        let scheme = key.subrange(0, at);
        let rest = key.subrange(at + 1, key.len() as int);
        if scheme == "env"@ || scheme == ""@ {
            Reference::Variable(rest)
        } else if scheme == "awsSecretsManager"@ {
            Reference::Secret(rest)
        } else {
            Reference::Literal(key)
        }
    } else {
        Reference::Literal(key)
    }
}

/// A base64 text holds no `$`, so as a key reference it is a literal and
/// resolves to itself.
pub proof fn lemma_base64_text_is_literal(text: Seq<char>, found: Lookups)
    requires
        is_base64_text(text),
    ensures
        parsed(text) == Reference::Literal(text),
        resolved_text(text, found) == text,
{
    if text.contains('$') {
        let i = choose|i: int| 0 <= i < text.len() && text[i] == '$';
        assert(is_base64_char(text[i]));
    }
}

impl KeyReference {
    /// Reads a key reference string.
    pub fn parse(key: &str) -> (reference: KeyReference)
        ensures
            reference@ == parsed(key@),
    {
        match find_char(key, '$') {
            None => KeyReference::Literal(key.to_owned()),
            Some(at) => {
                let end = key.unicode_len();
                let scheme = key.substring_char(0, at);
                let rest = key.substring_char(at + 1, end);
                if same_text(scheme, "env") || same_text(scheme, "") {
                    KeyReference::Variable(rest.to_owned())
                } else if same_text(scheme, "awsSecretsManager") {
                    KeyReference::Secret(rest.to_owned())
                } else {
                    KeyReference::Literal(key.to_owned())
                }
            },
        }
    }
}

/// What the environment and the secret store held when they were asked:
/// the values of environment variables by name, and the secrets by
/// identifier. A name that is absent was not set, or could not be fetched.
pub struct Resolved {
    pub variables: NameMap<String>,
    pub secrets: NameMap<String>,
}

/// The model of a `Resolved`.
pub struct Lookups {
    pub variables: Map<Seq<char>, Seq<char>>,
    pub secrets: Map<Seq<char>, Seq<char>>,
}

impl View for Resolved {
    type V = Lookups;

    open spec fn view(&self) -> Lookups {
        Lookups { variables: self.variables@, secrets: self.secrets@ }
    }
}

/// The entry of `table` under `name`, or the empty text where it has none.
pub open spec fn looked_up(table: Map<Seq<char>, Seq<char>>, name: Seq<char>) -> Seq<char> {
    if table.contains_key(name) {
        table[name]
    } else {
        Seq::empty()
    }
}

/// The encoded key that the reference string `key` resolves to.
pub open spec fn resolved_text(key: Seq<char>, found: Lookups) -> Seq<char> {
    match parsed(key) {
        Reference::Literal(text) => text,
        Reference::Variable(name) => looked_up(found.variables, name),
        Reference::Secret(id) => looked_up(found.secrets, id),
    }
}

fn look_up(table: &NameMap<String>, name: &str) -> (text: String)
    ensures
        text@ == looked_up(table@, name@),
{
    match table.get(name) {
        Some(value) => value.clone(),
        None => String::new(),
    }
}

/// `found` with the outcome of looking `reference` up: a value that was
/// found is kept under its name or identifier; a literal is not looked up.
pub open spec fn recorded(found: Lookups, reference: Reference, value: Option<Seq<char>>)
    -> Lookups {
    match value {
        Some(text) => match reference {
            Reference::Literal(_) => found,
            Reference::Variable(name) => Lookups {
                variables: found.variables.insert(name, text),
                secrets: found.secrets,
            },
            Reference::Secret(id) => Lookups {
                variables: found.variables,
                secrets: found.secrets.insert(id, text),
            },
        },
        None => found,
    }
}

impl Resolved {
    /// Nothing was found.
    pub fn new() -> (found: Resolved)
        ensures
            found@.variables == Map::<Seq<char>, Seq<char>>::empty(),
            found@.secrets == Map::<Seq<char>, Seq<char>>::empty(),
    {
        Resolved { variables: NameMap::new(), secrets: NameMap::new() }
    }

    /// Notes the outcome of looking `reference` up: `value` is what the
    /// environment or the secret store held, or `None` where it held nothing.
    pub fn record(&mut self, reference: KeyReference, value: Option<String>)
        ensures
            final(self)@ == recorded(old(self)@, reference@, optional_text(value)),
    {
        match value {
            Some(text) => match reference {
                KeyReference::Literal(_) => {},
                KeyReference::Variable(name) => {
                    self.variables.insert(name, text);
                },
                KeyReference::Secret(id) => {
                    self.secrets.insert(id, text);
                },
            },
            None => {},
        }
    }
}

/// Once the outcome of looking a reference up is recorded, the reference
/// resolves to the value that was found, or to the empty text where nothing
/// was found and nothing had been recorded for it before.
pub proof fn lemma_recorded_resolves(found: Lookups, key: Seq<char>, value: Option<Seq<char>>)
    requires
        !(parsed(key) is Literal),
    ensures
        value matches Some(text) ==> resolved_text(key, recorded(found, parsed(key), value))
            == text,
        value is None ==> resolved_text(key, recorded(found, parsed(key), value)) == resolved_text(
            key,
            found,
        ),
        resolved_text(
            key,
            Lookups { variables: Map::empty(), secrets: Map::empty() },
        ).len() == 0,
{
}

/// Resolves a key reference string to the encoded key it stands for.
/// A variable that is not set and a secret that could not be fetched
/// resolve to the empty text.
pub fn resolve_key(key: &str, found: &Resolved) -> (text: String)
    ensures
        text@ == resolved_text(key@, found@),
{
    match KeyReference::parse(key) {
        KeyReference::Literal(text) => text,
        KeyReference::Variable(name) => look_up(&found.variables, name.as_str()),
        KeyReference::Secret(id) => look_up(&found.secrets, id.as_str()),
    }
}

} // verus!
