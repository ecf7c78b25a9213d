//! Account key management: a file-backed store of Ed25519 key pairs indexed by
//! address, mnemonic import and export, and signing by address.
pub mod codec;
pub mod error;
pub mod crypto;
pub mod keystore;
pub mod rng;

pub use crypto::{AccountKeyPair, AccountPublicKey, Signature, SuiAddress};
pub use error::KeystoreError;
pub use keystore::{
    get_key_pair_from_rng, AccountKeystore, FileBasedKeystore, KeystoreSigner, KeystoreType,
    SaveRequest, SuiKeystore,
};
pub use rng::SeededRng;


