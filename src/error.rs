//! The errors of the keystore.
use vstd::prelude::*;

verus! {

/// What can go wrong in the keystore.
#[derive(Debug)]
pub enum KeystoreError {
    /// No key pair is stored for this address.
    KeyNotFound(crate::crypto::SuiAddress),
    /// A keystore file that is not a JSON array of encoded key pairs.
    Corrupted,
    /// A phrase that is not a valid mnemonic.
    InvalidMnemonic,
    /// A secret key that cannot be written as a mnemonic.
    InvalidEntropy,
    /// A seeded source asked for more bytes than its seed holds.
    InsufficientSeed,
}

impl KeystoreError {
    /// A message that describes the error.
    pub fn message(&self) -> (r: String)
        ensures
            r@ == match self {
                KeystoreError::KeyNotFound(_) => "Cannot find key for address"@,
                KeystoreError::Corrupted => "Invalid Keypair file"@,
                KeystoreError::InvalidMnemonic => "Invalid mnemonic phrase"@,
                KeystoreError::InvalidEntropy => "Invalid entropy for a mnemonic"@,
                KeystoreError::InsufficientSeed => "Seed exhausted"@,
            },
    {
        match self {
            KeystoreError::KeyNotFound(_) => String::from_str("Cannot find key for address"),
            KeystoreError::Corrupted => String::from_str("Invalid Keypair file"),
            KeystoreError::InvalidMnemonic => String::from_str("Invalid mnemonic phrase"),
            KeystoreError::InvalidEntropy => String::from_str("Invalid entropy for a mnemonic"),
            KeystoreError::InsufficientSeed => String::from_str("Seed exhausted"),
        }
    }
}

} // verus!
