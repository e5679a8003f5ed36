use crate::config::{is_encoded_pair, EncryptionKey};
use crate::encryption::Encryption;
use crate::error::Error;
use vstd::prelude::*;

verus! {

/// The request to generate a key pair.
#[derive(Debug, Default)]
pub struct GenerateKeys {}

/// Generates a key pair that can be placed under a name in the keys of a
/// document: each half as base64. It never fails.
pub fn generate_keys(_cmd: &GenerateKeys) -> (generated: Result<EncryptionKey, Error>)
    ensures
        generated matches Ok(entry) && is_encoded_pair(entry@),
{
    let (public_key, secret_key) = Encryption::gen_keypair();
    Ok(EncryptionKey { public_key, secret_key })
}

} // verus!
