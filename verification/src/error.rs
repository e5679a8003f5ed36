use vstd::prelude::*;

verus! {

/// Which half of a key pair a key reference was meant to supply.
#[derive(Clone, Copy, Debug, PartialEq, Eq, Structural)]
pub enum KeyHalf {
    Public,
    Secret,
}

/// Why a stored value could not be turned back into its plaintext.
#[derive(Clone, Copy, Debug, PartialEq, Eq, Structural)]
pub enum DecryptionFailure {
    /// The stored text is not base64.
    NotBase64,
    /// The sealed box did not open: wrong key pair, or a damaged box.
    NotOpened,
    /// The opened bytes are not UTF-8.
    NotUtf8,
}

/// Everything that can go wrong in this library.
#[derive(Clone, Copy, Debug, PartialEq, Eq, Structural)]
pub enum Error {
    /// Neither the name nor `*` has a key entry.
    MissingEncryptionKey,
    /// A key reference did not decode to exactly the key width.
    KeyFormat(KeyHalf),
    /// The placeholder was submitted for a name that had no stored value.
    RenamedOrMovedSecret,
    /// A stored value could not be decrypted.
    DecryptionFailure(DecryptionFailure),
    /// The operation needs a document that does not exist.
    ConfigNotFound,
    /// The file, or the edited text, holds no document.
    MalformedDocument,
    /// The file to encrypt could not be read.
    UnreadableFile,
    /// The file to decrypt could not be read.
    UnreadableEncryptedFile,
    /// No command was given to run.
    NoCommand,
    /// The command could not be started.
    CommandFailed,
    /// No editor is configured.
    EditorNotSet,
    /// Both the create and the edit flag were given.
    ConflictingFlags,
    /// Creation was demanded but the document exists.
    AlreadyExists,
}

impl Error {
    /// The sentence shown to the user for this error.
    pub open spec fn spec_message(self) -> Seq<char> {
        match self {
            Error::MissingEncryptionKey => "Missing encryption keys."@,
            Error::KeyFormat(KeyHalf::Public) => "The public key did not match the expected format."@,
            Error::KeyFormat(KeyHalf::Secret) => "The secret key did not match the expected format."@,
            Error::RenamedOrMovedSecret => "Encrypted values cannot be moved or renamed."@,
            Error::DecryptionFailure(DecryptionFailure::NotBase64) => "Secret was not base64 encoded."@,
            Error::DecryptionFailure(DecryptionFailure::NotOpened) => "Failed to decrypt secret."@,
            Error::DecryptionFailure(DecryptionFailure::NotUtf8) => "Secret was not utf8 encoded"@,
            Error::ConfigNotFound => "The provided configuration file does not exist"@,
            Error::MalformedDocument => "The configuration file does not hold a configuration and keys"@,
            Error::UnreadableFile => "Unable to read file"@,
            Error::UnreadableEncryptedFile => "Unable to read encrypted file"@,
            Error::NoCommand => "No command was provided."@,
            Error::CommandFailed => "Failed to start command, please verify that it exists."@,
            Error::EditorNotSet => "You must define your $EDITOR environment variable to edit a Scoob configuration file."@,
            Error::ConflictingFlags => "Both '--edit' and '--create' flags cannot be provided"@,
            Error::AlreadyExists => "The create flag was provided, but the secrets file already exists."@,
        }
    }

    /// The sentence shown to the user for this error.
    pub fn message(&self) -> (text: &'static str)
        ensures
            text@ == self.spec_message(),
    {
        match self {
            Error::MissingEncryptionKey => "Missing encryption keys.",
            Error::KeyFormat(KeyHalf::Public) => "The public key did not match the expected format.",
            Error::KeyFormat(KeyHalf::Secret) => "The secret key did not match the expected format.",
            Error::RenamedOrMovedSecret => "Encrypted values cannot be moved or renamed.",
            Error::DecryptionFailure(DecryptionFailure::NotBase64) => "Secret was not base64 encoded.",
            Error::DecryptionFailure(DecryptionFailure::NotOpened) => "Failed to decrypt secret.",
            Error::DecryptionFailure(DecryptionFailure::NotUtf8) => "Secret was not utf8 encoded",
            Error::ConfigNotFound => "The provided configuration file does not exist",
            Error::MalformedDocument => "The configuration file does not hold a configuration and keys",
            Error::UnreadableFile => "Unable to read file",
            Error::UnreadableEncryptedFile => "Unable to read encrypted file",
            Error::NoCommand => "No command was provided.",
            Error::CommandFailed => "Failed to start command, please verify that it exists.",
            Error::EditorNotSet => "You must define your $EDITOR environment variable to edit a Scoob configuration file.",
            Error::ConflictingFlags => "Both '--edit' and '--create' flags cannot be provided",
            Error::AlreadyExists => "The create flag was provided, but the secrets file already exists.",
        }
    }

    /// Whether the error is one of the decryption failures.
    pub fn is_decryption_failure(&self) -> (yes: bool)
        ensures
            yes == (*self is DecryptionFailure),
    {
        match self {
            Error::DecryptionFailure(_) => true,
            _ => false,
        }
    }
}

} // verus!
