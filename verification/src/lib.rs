//! Secrets for the environment of a program: a document holds configuration
//! values, each sealed for a key pair of its own or for the key pair of `*`,
//! and the keys it names; this library merges an edited document into the
//! stored one and decrypts a stored one for a program that is to be started.
//!
//! - `key_reference` reads key reference strings and resolves them.
//! - `keys` decodes the keys that the references resolve to.
//! - `sealed_box` seals and opens single values.
//! - `encryption` serves the entries of a document with its keys and merges
//!   documents.
//! - `config` is the document itself.
//! - `start`, `file`, `manage` and `generate_keys` hold what the commands of
//!   the tool decide and compute.
//! - `encoding` and `sealed_box` call `data_encoding` and `sodiumoxide`.

pub mod config;
pub mod encoding;
pub mod encryption;
pub mod error;
pub mod file;
pub mod generate_keys;
pub mod key_reference;
pub mod keys;
pub mod manage;
pub mod name_map;
pub mod sealed_box;
pub mod start;
pub mod text;
