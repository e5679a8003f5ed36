use crate::config::Config;
use crate::error::Error;
use crate::sealed_box::all_sealable;
use crate::text::optional_str;
use vstd::prelude::*;

verus! {

/// The request to create or edit a document in an editor.
#[derive(Debug)]
pub struct Manage {
    /// Insist on editing: an error if the document does not exist.
    pub edit: bool,
    /// Insist on creating: an error if the document exists.
    pub create: bool,
    /// The path of the document.
    pub file: String,
}

/// How the document is opened in the editor.
#[derive(Clone, Copy, Debug, PartialEq, Eq, Structural)]
pub enum Mode {
    /// A new document is written.
    Create,
    /// The stored document is shown with its values hidden.
    Edit,
}

/// A mode, and whether it was chosen for want of a flag.
#[derive(Clone, Copy, Debug, PartialEq, Eq, Structural)]
pub struct Choice {
    pub mode: Mode,
    pub automatic: bool,
}

/// The mode for a request: an editor must be configured, the two flags
/// exclude each other, and each flag must agree with whether the document
/// exists; without a flag the document is created if it does not exist.
/// To insist on editing a document that does not exist is to need a document
/// that is not found.
pub open spec fn planned(create: bool, edit: bool, editor: Option<Seq<char>>, exists: bool)
    -> Result<Mode, Error> {
    if editor is None || editor->0.len() == 0 {
        Err(Error::EditorNotSet)
    } else if create && edit {
        Err(Error::ConflictingFlags)
    } else if create && exists {
        Err(Error::AlreadyExists)
    } else if edit && !exists {
        Err(Error::ConfigNotFound)
    } else if create || !exists {
        Ok(Mode::Create)
    } else {
        Ok(Mode::Edit)
    }
}

/// Decides how the document of `cmd` is opened. `editor` is the editor that
/// is configured, if any; `exists` says whether the document exists.
pub fn manage(cmd: &Manage, editor: Option<&str>, exists: bool) -> (mode: Result<Mode, Error>)
    ensures
        mode == planned(cmd.create, cmd.edit, optional_str(editor), exists),
{
    match editor {
        None => {
            return Err(Error::EditorNotSet);
        },
        Some(command) => {
            if command.is_empty() {
                return Err(Error::EditorNotSet);
            }
        },
    }
    if cmd.create && cmd.edit {
        return Err(Error::ConflictingFlags);
    }
    if cmd.create && exists {
        return Err(Error::AlreadyExists);
    }
    if cmd.edit && !exists {
        return Err(Error::ConfigNotFound);
    }
    if cmd.create || !exists {
        Ok(Mode::Create)
    } else {
        Ok(Mode::Edit)
    }
}

/// Decides as `manage` does, and says in addition whether the mode had to
/// be chosen because neither flag was given.
pub fn modify(cmd: &Manage, editor: Option<&str>, exists: bool) -> (choice: Result<Choice, Error>)
    ensures
        match planned(cmd.create, cmd.edit, optional_str(editor), exists) {
            Ok(mode) => choice == Ok::<Choice, Error>(
                Choice { mode, automatic: !cmd.create && !cmd.edit },
            ),
            Err(error) => choice == Err::<Choice, Error>(error),
        },
{
    match manage(cmd, editor, exists) {
        Ok(mode) => Ok(Choice { mode, automatic: !cmd.create && !cmd.edit }),
        Err(error) => Err(error),
    }
}

impl Mode {
    /// The document that is handed to the editor: a new one, or the stored
    /// one with every value replaced by the placeholder.
    pub fn draft(&self, stored: &Config) -> (shown: Config)
        ensures
            match *self {
                Mode::Create => shown@.is_new(),
                Mode::Edit => shown@ == stored@.hidden(),
            },
            all_sealable(shown@.values),
    {
        match self {
            Mode::Create => Config::default(),
            Mode::Edit => stored.with_placeholders(),
        }
    }
}

} // verus!
