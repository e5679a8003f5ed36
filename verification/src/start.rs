use crate::config::{optional_document, Config, Document};
use crate::encryption::{decrypted, decryption_references, references_to_decrypt, Encryption};
use crate::error::Error;
use crate::key_reference::{reference_views, KeyReference, Lookups, Reference, Resolved};
use crate::name_map::NameMap;
use vstd::prelude::*;

verus! {

/// The command to run, as its words: the program, then its arguments.
#[derive(Debug, PartialEq)]
pub enum SubCommand {
    Other(Vec<String>),
}

/// The request to run a command with the secrets of a document in its
/// environment.
#[derive(Debug)]
pub struct Start {
    /// The path of the document.
    pub file: String,
    /// The command that is to run.
    pub sub_command: SubCommand,
}

/// Everything that is needed to start the command: nothing of it exists
/// unless every value of the document was decrypted. It holds plaintexts and
/// has no `Debug`, so that they are not printed by accident.
pub struct Launch {
    pub program: String,
    pub arguments: Vec<String>,
    /// The name and the plaintext of every entry of the document.
    pub environment: NameMap<String>,
}

/// The model of a `Launch`: the program, its arguments, and the environment
/// as its names and, at the same positions, its values.
pub struct Staged {
    pub program: Seq<char>,
    pub arguments: Seq<Seq<char>>,
    pub names: Seq<Seq<char>>,
    pub values: Seq<Seq<char>>,
}

/// The texts of a sequence of strings.
pub open spec fn texts(words: Seq<String>) -> Seq<Seq<char>> {
    words.map_values(|word: String| word@)
}

impl View for Launch {
    type V = Staged;

    open spec fn view(&self) -> Staged {
        Staged {
            program: self.program@,
            arguments: texts(self.arguments@),
            names: self.environment.names(),
            values: self.environment.values(),
        }
    }
}

impl Start {
    /// The words of the command.
    pub open spec fn words(&self) -> Seq<Seq<char>> {
        match self.sub_command {
            SubCommand::Other(values) => texts(values@),
        }
    }
}

/// Entry `at` of the document is the first whose value does not decrypt, and
/// `error` is why.
pub open spec fn first_undecrypted(document: Document, found: Lookups, at: int, error: Error) -> bool {
    &&& 0 <= at < document.names.len()
    &&& decrypted(document.keys(), found, document.names[at], document.values[at]) == Err::<
        Seq<char>,
        Error,
    >(error)
    &&& forall|i: int|
        0 <= i < at ==> (#[trigger] decrypted(
            document.keys(),
            found,
            document.names[i],
            document.values[i],
        )) is Ok
}

/// `outcome` is what a request to run `words` with the secrets of `config`
/// comes to. The document must exist, a program must be named, and every
/// value must decrypt; the first of these that fails is the error.
pub open spec fn is_launch(
    words: Seq<Seq<char>>,
    config: Option<Document>,
    found: Lookups,
    outcome: Result<Staged, Error>,
) -> bool {
    match outcome {
        Ok(staged) => config matches Some(document) && words.len() > 0 && {
            &&& staged.program == words[0]
            &&& staged.arguments == words.subrange(1, words.len() as int)
            &&& staged.names == document.names
            &&& staged.values.len() == document.names.len()
            &&& forall|i: int|
                0 <= i < document.names.len() ==> decrypted(
                    document.keys(),
                    found,
                    document.names[i],
                    document.values[i],
                ) == Ok::<Seq<char>, Error>(#[trigger] staged.values[i])
        },
        Err(error) => match config {
            None => error == Error::ConfigNotFound,
            Some(document) => if words.len() == 0 {
                error == Error::NoCommand
            } else {
                exists|at: int| first_undecrypted(document, found, at, error)
            },
        },
    }
}

/// The key references that a request to run `words` with the secrets of
/// `config` consults: those that decrypt every value of the document, and
/// none where there is no document or no program to run.
pub open spec fn references_to_start(words: Seq<Seq<char>>, config: Option<Document>) -> Seq<
    Reference,
> {
    match config {
        Some(document) => if words.len() == 0 {
            Seq::empty()
        } else {
            references_to_decrypt(document)
        },
        None => Seq::empty(),
    }
}

/// The key references that `start` will consult for `cmd` and `config`,
/// which are to be looked up before it is called.
pub fn start_references(cmd: &Start, config: Option<&Config>) -> (references: Vec<KeyReference>)
    ensures
        reference_views(references@) == references_to_start(
            cmd.words(),
            optional_document(config),
        ),
{
    let words = match &cmd.sub_command {
        SubCommand::Other(values) => values,
    };
    match config {
        Some(document) => {
            if words.len() == 0 {
                let none: Vec<KeyReference> = Vec::new();
                assert(reference_views(none@) =~= Seq::<Reference>::empty());
                none
            } else {
                decryption_references(document)
            }
        },
        None => {
            let none: Vec<KeyReference> = Vec::new();
            assert(reference_views(none@) =~= Seq::<Reference>::empty());
            none
        },
    }
}

/// The model of a launch or an error.
pub open spec fn launch_view(outcome: Result<Launch, Error>) -> Result<Staged, Error> {
    match outcome {
        Ok(launch) => Ok(launch@),
        Err(error) => Err(error),
    }
}

/// Prepares the launch of the command of `cmd` with every value of the
/// document decrypted into its environment. `config` is the document at the
/// path of `cmd`, or `None` where there is no such file.
pub fn start(cmd: &Start, config: Option<&Config>, found: &Resolved) -> (outcome: Result<
    Launch,
    Error,
>)
    ensures
        is_launch(cmd.words(), optional_document(config), found@, launch_view(outcome)),
{
    let document = match config {
        Some(document) => document,
        None => {
            return Err(Error::ConfigNotFound);
        },
    };
    let words = match &cmd.sub_command {
        SubCommand::Other(values) => values,
    };
    if words.len() == 0 {
        return Err(Error::NoCommand);
    }
    proof {
        use_type_invariant(&document.configuration);
    }
    let program = words[0].clone();
    let encryption = Encryption { config: document, found };
    let mut environment: NameMap<String> = NameMap::new();
    let n = document.configuration.len();
    let mut i: usize = 0;
    while i < n
        invariant
            i <= n,
            n == document.configuration.names().len(),
            n == document.configuration.values().len(),
            document.configuration.wf(),
            encryption.config == document,
            encryption.found == found,
            config == Some(document),
            words@.len() > 0,
            cmd.words() == texts(words@),
            environment.names() == document.configuration.names().subrange(0, i as int),
            environment.values().len() == i,
            forall|k: int|
                0 <= k < i ==> decrypted(
                    document.keys@,
                    found@,
                    document.configuration.names()[k],
                    document.configuration.values()[k],
                ) == Ok::<Seq<char>, Error>(#[trigger] environment.values()[k]),
            forall|k: int|
                0 <= k < i ==> (#[trigger] decrypted(
                    document.keys@,
                    found@,
                    document.configuration.names()[k],
                    document.configuration.values()[k],
                )) is Ok,
        decreases n - i,
    {
        let name = document.configuration.name_at(i);
        let value = document.configuration.value_at(i);
        match encryption.decrypt(name.as_str(), value.as_str()) {
            Ok(plaintext) => {
                let ghost before = environment.values();
                environment.push(name.clone(), plaintext);
                assert(environment.names() =~= document.configuration.names().subrange(0, i + 1));
                assert forall|k: int| 0 <= k < i + 1 implies decrypted(
                    document.keys@,
                    found@,
                    document.configuration.names()[k],
                    document.configuration.values()[k],
                ) == Ok::<Seq<char>, Error>(#[trigger] environment.values()[k]) by {
                    if k < i {
                        assert(environment.values()[k] == before[k]);
                    }
                }
            },
            Err(error) => {
                assert(first_undecrypted(document@, found@, i as int, error));
                return Err(error);
            },
        }
        i += 1;
    }
    assert(environment.names() =~= document.configuration.names());
    let mut arguments: Vec<String> = Vec::new();
    let mut j: usize = 1;
    while j < words.len()
        invariant
            1 <= j <= words@.len(),
            arguments@.len() == j - 1,
            texts(arguments@) == texts(words@).subrange(1, j as int),
        decreases words@.len() - j,
    {
        let ghost before = arguments@;
        arguments.push(words[j].clone());
        proof {
            let longer = texts(words@).subrange(1, j + 1);
            assert forall|k: int| 0 <= k < longer.len() implies texts(arguments@)[k]
                == longer[k] by {
                if k < j - 1 {
                    assert(texts(before)[k] == texts(words@).subrange(1, j as int)[k]);
                }
            }
            assert(texts(arguments@) =~= longer);
        }
        j += 1;
    }
    Ok(Launch { program, arguments, environment })
}

} // verus!
