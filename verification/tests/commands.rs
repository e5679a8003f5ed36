use scoob::config::{Config, EncryptionKey};
use scoob::encryption::Encryption;
use scoob::error::{DecryptionFailure, Error, KeyHalf};
use scoob::file::{
    decrypt_file, encrypt_file, file_references, DecryptOptions, EncryptOptions, File, FileMode,
};
use scoob::generate_keys::{generate_keys, GenerateKeys};
use scoob::key_reference::{KeyReference, Resolved};
use scoob::keys::decode_key;
use scoob::manage::{manage, modify, Choice, Manage, Mode};
use scoob::name_map::NameMap;
use scoob::start::{start, start_references, Start, SubCommand};

fn request(create: bool, edit: bool) -> Manage {
    Manage {
        edit,
        create,
        file: "secrets.yml".to_string(),
    }
}

fn stored_document(entries: &[(&str, &str)]) -> Config {
    let found = Resolved::new();
    let mut plain = Config::default();
    plain.configuration.remove("EXAMPLE_KEY");
    for (name, value) in entries {
        plain
            .configuration
            .insert(name.to_string(), value.to_string());
    }
    let empty = Config {
        configuration: NameMap::new(),
        keys: NameMap::new(),
    };
    let encryption = Encryption {
        config: &empty,
        found: &found,
    };
    encryption.encrypt_configuration(&plain).unwrap()
}

fn words(list: &[&str]) -> SubCommand {
    SubCommand::Other(list.iter().map(|word| word.to_string()).collect())
}

#[test]
fn test_generate_keys() {
    generate_keys(&Default::default()).expect("Should generate keys without erroring.");
}

#[test]
fn generated_keys_are_a_usable_pair() {
    let found = Resolved::new();
    let pair = generate_keys(&GenerateKeys {}).unwrap();
    assert_eq!(decode_key(&pair.public_key).len(), 32);
    assert_eq!(decode_key(&pair.secret_key).len(), 32);
    let mut config = Config {
        configuration: NameMap::new(),
        keys: NameMap::new(),
    };
    config.keys.insert("mine".to_string(), pair);
    let encryption = Encryption {
        config: &config,
        found: &found,
    };
    let stored = encryption.encrypt("mine", "value").unwrap();
    assert_eq!(encryption.decrypt("mine", &stored), Ok("value".to_string()));
}

#[test]
fn manage_needs_an_editor() {
    assert_eq!(manage(&request(false, false), None, true), Err(Error::EditorNotSet));
    assert_eq!(manage(&request(false, false), Some(""), true), Err(Error::EditorNotSet));
    assert_eq!(manage(&request(true, true), None, false), Err(Error::EditorNotSet));
}

#[test]
fn manage_refuses_flags_that_contradict() {
    assert_eq!(manage(&request(true, true), Some("vi"), true), Err(Error::ConflictingFlags));
    assert_eq!(manage(&request(true, true), Some("vi"), false), Err(Error::ConflictingFlags));
    assert_eq!(manage(&request(true, false), Some("vi"), true), Err(Error::AlreadyExists));
    assert_eq!(manage(&request(false, true), Some("vi"), false), Err(Error::ConfigNotFound));
    assert_eq!(modify(&request(false, true), Some("vi"), false), Err(Error::ConfigNotFound));
}

#[test]
fn manage_chooses_the_mode() {
    assert_eq!(manage(&request(true, false), Some("vi"), false), Ok(Mode::Create));
    assert_eq!(manage(&request(false, true), Some("vi"), true), Ok(Mode::Edit));
    assert_eq!(manage(&request(false, false), Some("vi"), false), Ok(Mode::Create));
    assert_eq!(manage(&request(false, false), Some("vi"), true), Ok(Mode::Edit));
}

#[test]
fn modify_says_when_the_mode_was_chosen_for_want_of_a_flag() {
    assert_eq!(
        modify(&request(false, false), Some("vi"), true),
        Ok(Choice {
            mode: Mode::Edit,
            automatic: true
        })
    );
    assert_eq!(
        modify(&request(false, false), Some("vi"), false),
        Ok(Choice {
            mode: Mode::Create,
            automatic: true
        })
    );
    assert_eq!(
        modify(&request(false, true), Some("vi"), true),
        Ok(Choice {
            mode: Mode::Edit,
            automatic: false
        })
    );
    assert_eq!(
        modify(&request(true, false), Some("vi"), false),
        Ok(Choice {
            mode: Mode::Create,
            automatic: false
        })
    );
    assert_eq!(modify(&request(true, true), Some("vi"), true), Err(Error::ConflictingFlags));
    assert_eq!(modify(&request(false, false), None, true), Err(Error::EditorNotSet));
}

#[test]
fn draft_is_new_or_hidden() {
    let stored = stored_document(&[("A", "one"), ("B", "two")]);
    let hidden = Mode::Edit.draft(&stored);
    assert_eq!(hidden.configuration.len(), 2);
    assert_eq!(hidden.configuration.get("A").unwrap(), "<encrypted>");
    assert_eq!(hidden.configuration.get("B").unwrap(), "<encrypted>");
    assert_eq!(
        hidden.keys.get("*").unwrap().public_key,
        stored.keys.get("*").unwrap().public_key
    );
    let new = Mode::Create.draft(&stored);
    assert_eq!(new.configuration.len(), 1);
    assert_eq!(
        new.configuration.get("EXAMPLE_KEY").unwrap(),
        "some value that should be encrypted"
    );
    assert_ne!(
        new.keys.get("*").unwrap().public_key,
        stored.keys.get("*").unwrap().public_key
    );
}

#[test]
fn test_start_no_command() {
    let found = Resolved::new();
    let config = stored_document(&[("TEST_KEY", "value")]);
    assert!(start(
        &Start {
            file: "test/secrets.yml".to_string(),
            sub_command: SubCommand::Other(vec![])
        },
        Some(&config),
        &found
    )
    .is_err());
}

#[test]
fn start_reports_what_is_missing_in_order() {
    let found = Resolved::new();
    let config = stored_document(&[("TEST_KEY", "value")]);
    let nothing = Start {
        file: "secrets.yml".to_string(),
        sub_command: words(&[]),
    };
    let something = Start {
        file: "secrets.yml".to_string(),
        sub_command: words(&["env"]),
    };
    assert_eq!(start(&nothing, None, &found).err(), Some(Error::ConfigNotFound));
    assert_eq!(start(&something, None, &found).err(), Some(Error::ConfigNotFound));
    assert_eq!(start(&nothing, Some(&config), &found).err(), Some(Error::NoCommand));
}

#[test]
fn start_stages_every_plaintext() {
    let found = Resolved::new();
    let config = stored_document(&[("FIRST", "one"), ("SECOND", "two"), ("EMPTY", "")]);
    let cmd = Start {
        file: "secrets.yml".to_string(),
        sub_command: words(&["sh", "./test/compare.sh", "--flag"]),
    };
    let launch = start(&cmd, Some(&config), &found).unwrap();
    assert_eq!(launch.program, "sh");
    assert_eq!(launch.arguments, vec!["./test/compare.sh".to_string(), "--flag".to_string()]);
    assert_eq!(launch.environment.len(), 3);
    assert_eq!(launch.environment.name_at(0), "FIRST");
    assert_eq!(launch.environment.value_at(0), "one");
    assert_eq!(launch.environment.name_at(1), "SECOND");
    assert_eq!(launch.environment.value_at(1), "two");
    assert_eq!(launch.environment.name_at(2), "EMPTY");
    assert_eq!(launch.environment.value_at(2), "");
}

#[test]
fn start_without_arguments_and_without_entries() {
    let found = Resolved::new();
    let config = stored_document(&[]);
    let cmd = Start {
        file: "secrets.yml".to_string(),
        sub_command: words(&["true"]),
    };
    let launch = start(&cmd, Some(&config), &found).unwrap();
    assert_eq!(launch.program, "true");
    assert!(launch.arguments.is_empty());
    assert_eq!(launch.environment.len(), 0);
}

#[test]
fn start_stops_at_the_first_value_that_does_not_decrypt() {
    let found = Resolved::new();
    let mut config = stored_document(&[("GOOD", "one")]);
    config
        .configuration
        .insert("PLAIN".to_string(), "never encrypted".to_string());
    config
        .configuration
        .insert("BROKEN".to_string(), "AAAA".to_string());
    let cmd = Start {
        file: "secrets.yml".to_string(),
        sub_command: words(&["env"]),
    };
    assert_eq!(
        start(&cmd, Some(&config), &found).err(),
        Some(Error::DecryptionFailure(DecryptionFailure::NotBase64))
    );
    config.configuration.remove("PLAIN");
    assert_eq!(
        start(&cmd, Some(&config), &found).err(),
        Some(Error::DecryptionFailure(DecryptionFailure::NotOpened))
    );
    config.keys.remove("*");
    assert_eq!(
        start(&cmd, Some(&config), &found).err(),
        Some(Error::MissingEncryptionKey)
    );
}

#[test]
fn file_round_trip_under_a_named_key() {
    let found = Resolved::new();
    let mut config = Config::default();
    let (public_key, secret_key) = Encryption::gen_keypair();
    config.keys.insert(
        "files".to_string(),
        EncryptionKey {
            public_key,
            secret_key,
        },
    );
    let encrypt = File {
        config: "secrets.yml".to_string(),
        cmd: FileMode::Encrypt(EncryptOptions {
            key: "files".to_string(),
            from: "plain.txt".to_string(),
            to: "sealed.txt".to_string(),
        }),
    };
    let contents = "line one\nline two\n";
    let written = scoob::file::file(&encrypt, Some(&config), &found, Some(contents)).unwrap();
    assert_ne!(written, contents);

    let decrypt = File {
        config: "secrets.yml".to_string(),
        cmd: FileMode::Decrypt(DecryptOptions {
            key: "files".to_string(),
            from: "sealed.txt".to_string(),
            to: "plain.txt".to_string(),
        }),
    };
    assert_eq!(
        scoob::file::file(&decrypt, Some(&config), &found, Some(&written)),
        Ok(contents.to_string())
    );

    let with_wildcard = File {
        config: "secrets.yml".to_string(),
        cmd: FileMode::Decrypt(DecryptOptions {
            key: "*".to_string(),
            from: "sealed.txt".to_string(),
            to: "plain.txt".to_string(),
        }),
    };
    assert_eq!(
        scoob::file::file(&with_wildcard, Some(&config), &found, Some(&written)),
        Err(Error::DecryptionFailure(DecryptionFailure::NotOpened))
    );
}

#[test]
fn file_reports_what_is_missing_in_order() {
    let found = Resolved::new();
    let config = Config::default();
    let encrypt_options = EncryptOptions {
        key: "*".to_string(),
        from: "plain.txt".to_string(),
        to: "sealed.txt".to_string(),
    };
    let decrypt_options = DecryptOptions {
        key: "*".to_string(),
        from: "sealed.txt".to_string(),
        to: "plain.txt".to_string(),
    };
    assert_eq!(
        encrypt_file(&config, &found, &encrypt_options, None),
        Err(Error::UnreadableFile)
    );
    assert_eq!(
        decrypt_file(&config, &found, &decrypt_options, None),
        Err(Error::UnreadableEncryptedFile)
    );
    let encrypt = File {
        config: "secrets.yml".to_string(),
        cmd: FileMode::Encrypt(encrypt_options),
    };
    let decrypt = File {
        config: "secrets.yml".to_string(),
        cmd: FileMode::Decrypt(decrypt_options),
    };
    assert_eq!(scoob::file::file(&encrypt, None, &found, None), Err(Error::ConfigNotFound));
    assert_eq!(scoob::file::file(&encrypt, None, &found, Some("text")), Err(Error::ConfigNotFound));
    assert_eq!(scoob::file::file(&decrypt, None, &found, Some("text")), Err(Error::ConfigNotFound));
    assert_eq!(scoob::file::file(&encrypt, Some(&config), &found, None), Err(Error::UnreadableFile));
    assert_eq!(
        scoob::file::file(&decrypt, Some(&config), &found, None),
        Err(Error::UnreadableEncryptedFile)
    );
    assert_eq!(
        scoob::file::file(&decrypt, Some(&config), &found, Some("not base64!")),
        Err(Error::DecryptionFailure(DecryptionFailure::NotBase64))
    );
}

#[test]
fn file_fails_on_a_key_that_is_missing() {
    let found = Resolved::new();
    let mut config = Config::default();
    config.keys.remove("*");
    let encrypt = File {
        config: "secrets.yml".to_string(),
        cmd: FileMode::Encrypt(EncryptOptions {
            key: "files".to_string(),
            from: "plain.txt".to_string(),
            to: "sealed.txt".to_string(),
        }),
    };
    assert_eq!(
        scoob::file::file(&encrypt, Some(&config), &found, Some("text")),
        Err(Error::MissingEncryptionKey)
    );
}

#[test]
fn every_error_has_its_sentence() {
    assert_eq!(Error::MissingEncryptionKey.message(), "Missing encryption keys.");
    assert_eq!(
        Error::KeyFormat(KeyHalf::Public).message(),
        "The public key did not match the expected format."
    );
    assert_eq!(
        Error::KeyFormat(KeyHalf::Secret).message(),
        "The secret key did not match the expected format."
    );
    assert_eq!(
        Error::RenamedOrMovedSecret.message(),
        "Encrypted values cannot be moved or renamed."
    );
    assert_eq!(
        Error::DecryptionFailure(DecryptionFailure::NotBase64).message(),
        "Secret was not base64 encoded."
    );
    assert_eq!(
        Error::DecryptionFailure(DecryptionFailure::NotOpened).message(),
        "Failed to decrypt secret."
    );
    assert_eq!(
        Error::DecryptionFailure(DecryptionFailure::NotUtf8).message(),
        "Secret was not utf8 encoded"
    );
    assert_eq!(
        Error::ConfigNotFound.message(),
        "The provided configuration file does not exist"
    );
    assert_eq!(
        Error::MalformedDocument.message(),
        "The configuration file does not hold a configuration and keys"
    );
    assert_eq!(Error::UnreadableFile.message(), "Unable to read file");
    assert_eq!(
        Error::UnreadableEncryptedFile.message(),
        "Unable to read encrypted file"
    );
    assert_eq!(Error::NoCommand.message(), "No command was provided.");
    assert_eq!(
        Error::CommandFailed.message(),
        "Failed to start command, please verify that it exists."
    );
    assert_eq!(
        Error::EditorNotSet.message(),
        "You must define your $EDITOR environment variable to edit a Scoob configuration file."
    );
    assert_eq!(
        Error::ConflictingFlags.message(),
        "Both '--edit' and '--create' flags cannot be provided"
    );
    assert_eq!(
        Error::AlreadyExists.message(),
        "The create flag was provided, but the secrets file already exists."
    );
}

#[test]
fn only_decryption_failures_are_decryption_failures() {
    assert!(Error::DecryptionFailure(DecryptionFailure::NotBase64).is_decryption_failure());
    assert!(Error::DecryptionFailure(DecryptionFailure::NotOpened).is_decryption_failure());
    assert!(Error::DecryptionFailure(DecryptionFailure::NotUtf8).is_decryption_failure());
    assert!(!Error::MissingEncryptionKey.is_decryption_failure());
    assert!(!Error::KeyFormat(KeyHalf::Secret).is_decryption_failure());
    assert!(!Error::RenamedOrMovedSecret.is_decryption_failure());
}

#[test]
fn start_consults_no_key_without_a_document_or_a_program() {
    let config = stored_document(&[("A", "one"), ("B", "two")]);
    let nothing = Start {
        file: "secrets.yml".to_string(),
        sub_command: words(&[]),
    };
    let something = Start {
        file: "secrets.yml".to_string(),
        sub_command: words(&["env"]),
    };
    assert_eq!(start_references(&nothing, None).len(), 0);
    assert_eq!(start_references(&something, None).len(), 0);
    assert_eq!(start_references(&nothing, Some(&config)).len(), 0);
    assert_eq!(start_references(&something, Some(&config)).len(), 4);
}

#[test]
fn file_consults_the_named_key_once_the_file_was_read() {
    let mut config = Config::default();
    config.keys.insert(
        "files".to_string(),
        EncryptionKey {
            public_key: "$FILES_PUBLIC".to_string(),
            secret_key: "awsSecretsManager$files".to_string(),
        },
    );
    let cmd = File {
        config: "secrets.yml".to_string(),
        cmd: FileMode::Decrypt(DecryptOptions {
            key: "files".to_string(),
            from: "sealed.txt".to_string(),
            to: "plain.txt".to_string(),
        }),
    };
    assert_eq!(file_references(&cmd, None, Some("text")).len(), 0);
    assert_eq!(file_references(&cmd, Some(&config), None).len(), 0);
    let references = file_references(&cmd, Some(&config), Some("text"));
    assert_eq!(references.len(), 2);
    assert!(matches!(&references[0], KeyReference::Variable(name) if name == "FILES_PUBLIC"));
    assert!(matches!(&references[1], KeyReference::Secret(id) if id == "files"));
}
