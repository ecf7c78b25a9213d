use base64::Engine;
use ed25519_dalek::Verifier;
use sha3::Digest;
use sui_keystore::codec::{decode_records, encode_record};
use sui_keystore::{
    get_key_pair_from_rng, AccountKeyPair, AccountKeystore, FileBasedKeystore, KeystoreError,
    KeystoreSigner, KeystoreType, SeededRng, SuiAddress, SuiKeystore,
};

const ABANDON_ABOUT: &str = "abandon abandon abandon abandon abandon abandon abandon abandon abandon abandon abandon about";

fn hex(s: &str) -> Vec<u8> {
    (0..s.len() / 2)
        .map(|i| u8::from_str_radix(&s[2 * i..2 * i + 2], 16).unwrap())
        .collect()
}

fn key(byte: u8) -> AccountKeyPair {
    AccountKeyPair::from_secret(&[byte; 32])
}

fn fresh(path: &str) -> SuiKeystore<FileBasedKeystore> {
    SuiKeystore::from(FileBasedKeystore::load_or_create(path, None).unwrap())
}

#[test]
fn save_then_load_gives_the_same_key_pairs() {
    let mut store = FileBasedKeystore::load_or_create("keys.json", None).unwrap();
    for b in 1..=5u8 {
        store.add_key(key(b));
    }
    let save = store.save().unwrap();
    assert_eq!(save.path, "keys.json");
    let loaded = FileBasedKeystore::load_or_create("keys.json", Some(&save.contents)).unwrap();
    let before: Vec<AccountKeyPair> = store.key_pairs().into_iter().cloned().collect();
    let after: Vec<AccountKeyPair> = loaded.key_pairs().into_iter().cloned().collect();
    assert_eq!(before.len(), 5);
    assert!(before == after);
    for (a, b) in before.iter().zip(after.iter()) {
        assert_eq!(a.private(), b.private());
        assert_eq!(a.public(), b.public());
    }
}

#[test]
fn file_is_a_json_array_of_base64_records() {
    let mut store = FileBasedKeystore::load_or_create("k", None).unwrap();
    let save = store.add_key(key(7)).unwrap();
    let records = decode_records(&save.contents).unwrap();
    assert_eq!(records.len(), 1);
    assert_eq!(records[0], encode_record(&key(7)));
    let mut raw = vec![7u8; 32];
    raw.extend_from_slice(key(7).public().as_bytes());
    assert_eq!(
        records[0],
        base64::engine::general_purpose::STANDARD.encode(&raw)
    );
}

#[test]
fn memory_only_store_writes_nothing() {
    let mut store = FileBasedKeystore::new();
    assert!(store.add_key(key(1)).is_none());
    assert!(store.save().is_none());
    assert_eq!(store.keys().len(), 1);
    store.set_path("later.json");
    let save = store.save().unwrap();
    assert_eq!(save.path, "later.json");
}

#[test]
fn import_from_mnemonic_is_deterministic() {
    let mut a = fresh("a");
    let mut b = fresh("b");
    let (addr_a, _) = a.import_from_mnemonic(ABANDON_ABOUT).unwrap();
    let (addr_b, _) = b.import_from_mnemonic(ABANDON_ABOUT).unwrap();
    assert_eq!(addr_a, addr_b);
    assert_eq!(a.keys(), b.keys());
    assert_eq!(a.addresses(), vec![addr_a.clone()]);
}

#[test]
fn import_uses_the_first_half_of_the_seed() {
    let mut ks = fresh("a");
    let (address, _) = ks.import_from_mnemonic(ABANDON_ABOUT).unwrap();
    let expected = AccountKeyPair::from_secret(&hex(
        "5eb00bbddcf069084889a8ab9155568165f5c453ccb85e70811aaed6f6da5fc1",
    ));
    assert_eq!(address, expected.address());
    assert_eq!(ks.keys(), vec![expected.public()]);
}

#[test]
fn adding_the_same_address_twice_keeps_one_record() {
    let mut ks = fresh("p");
    ks.add_key(key(3)).unwrap();
    ks.add_key(key(4)).unwrap();
    let (_, save) = ks.add_key(key(3)).unwrap();
    let contents = save.unwrap().contents;
    let records = decode_records(&contents).unwrap();
    assert_eq!(records.len(), 2);
    assert_eq!(ks.addresses(), vec![key(3).address(), key(4).address()]);
    let loaded = FileBasedKeystore::load_or_create("p", Some(&contents)).unwrap();
    assert_eq!(loaded.keys(), vec![key(3).public(), key(4).public()]);
}

#[test]
fn signing_for_an_unknown_address_fails() {
    let mut ks = fresh("p");
    ks.add_key(key(1)).unwrap();
    let unknown = key(2).address();
    match ks.sign(&unknown, b"hello") {
        Err(KeystoreError::KeyNotFound(a)) => assert_eq!(a, unknown),
        other => panic!("unexpected: {:?}", other),
    }
    match ks.signer(unknown.clone()).try_sign(b"hello") {
        Err(KeystoreError::KeyNotFound(a)) => assert_eq!(a, unknown),
        other => panic!("unexpected: {:?}", other),
    }
}

#[test]
fn signatures_verify_under_the_public_key() {
    let mut ks = fresh("p");
    ks.add_key(key(9)).unwrap();
    let sig = ks.sign(&key(9).address(), b"message").unwrap();
    let bytes = sig.as_bytes();
    assert_eq!(bytes.len(), 96);
    assert_eq!(&bytes[64..], key(9).public().as_bytes());
    let vk = ed25519_dalek::VerifyingKey::from_bytes(bytes[64..].try_into().unwrap()).unwrap();
    let s = ed25519_dalek::Signature::from_bytes(bytes[..64].try_into().unwrap());
    assert!(vk.verify(b"message", &s).is_ok());
    assert!(vk.verify(b"other", &s).is_err());
    let via_handle = ks.signer(key(9).address()).try_sign(b"message").unwrap();
    assert_eq!(via_handle, sig);
}

#[test]
fn signer_sees_keys_added_after_it_was_made() {
    let mut store = FileBasedKeystore::new();
    let address = key(5).address();
    {
        let handle = KeystoreSigner::new(&store, address.clone());
        assert!(handle.try_sign(b"m").is_err());
    }
    store.add_key(key(5));
    let handle = KeystoreSigner::new(&store, address);
    assert!(handle.try_sign(b"m").is_ok());
}

#[test]
fn invalid_json_is_corrupted() {
    let r = FileBasedKeystore::load_or_create("p", Some("not json ["));
    assert!(matches!(r, Err(KeystoreError::Corrupted)));
    let r = FileBasedKeystore::load_or_create("p", Some("{\"a\": 1}"));
    assert!(matches!(r, Err(KeystoreError::Corrupted)));
}

#[test]
fn invalid_record_is_corrupted() {
    let good = encode_record(&key(1));
    let text = format!("[\"{}\", \"%%%not base64\"]", good);
    let r = FileBasedKeystore::load_or_create("p", Some(&text));
    assert!(matches!(r, Err(KeystoreError::Corrupted)));
    let short = base64::engine::general_purpose::STANDARD.encode([1u8; 10]);
    let text = format!("[\"{}\"]", short);
    assert!(matches!(
        FileBasedKeystore::load_or_create("p", Some(&text)),
        Err(KeystoreError::Corrupted)
    ));
}

#[test]
fn mismatched_public_key_is_corrupted() {
    let mut raw = vec![1u8; 32];
    raw.extend_from_slice(key(2).public().as_bytes());
    assert!(AccountKeyPair::from_bytes(&raw).is_none());
    let text = format!(
        "[\"{}\"]",
        base64::engine::general_purpose::STANDARD.encode(&raw)
    );
    assert!(matches!(
        FileBasedKeystore::load_or_create("p", Some(&text)),
        Err(KeystoreError::Corrupted)
    ));
}

#[test]
fn invalid_mnemonic_is_rejected_and_nothing_is_added() {
    let mut ks = fresh("p");
    let bad_checksum = "abandon abandon abandon abandon abandon abandon abandon abandon abandon abandon abandon abandon";
    assert!(matches!(
        ks.import_from_mnemonic(bad_checksum),
        Err(KeystoreError::InvalidMnemonic)
    ));
    let unknown_word = "abandon abandon abandon abandon abandon abandon abandon abandon abandon abandon abandon zzzz";
    assert!(matches!(
        ks.import_from_mnemonic(unknown_word),
        Err(KeystoreError::InvalidMnemonic)
    ));
    assert!(ks.keys().is_empty());
}

#[test]
fn end_to_end_add_then_reopen() {
    let mut ks = fresh("P");
    let kp1 = key(42);
    let (phrase, save) = ks.add_key(kp1.clone()).unwrap();
    assert_eq!(phrase.split_whitespace().count(), 24);
    let a1 = kp1.address();
    assert_eq!(ks.addresses(), vec![a1.clone()]);
    let contents = save.unwrap().contents;
    let reopened = KeystoreType::File("P".to_string())
        .init(Some(&contents))
        .unwrap();
    assert_eq!(reopened.addresses(), vec![a1]);
    assert_eq!(reopened.keys(), vec![kp1.public()]);
}

#[test]
fn phrase_of_a_zero_key_is_the_known_vector() {
    let mut ks = fresh("P");
    let (phrase, _) = ks.add_key(key(0)).unwrap();
    let mut expected = vec!["abandon"; 23];
    expected.push("art");
    assert_eq!(phrase, expected.join(" "));
    let mut other = fresh("Q");
    let (address, _) = other.import_from_mnemonic(&phrase).unwrap();
    assert_eq!(other.addresses(), vec![address]);
}

#[test]
fn init_without_a_file_is_empty() {
    let ks = KeystoreType::File("none.json".to_string()).init(None).unwrap();
    assert!(ks.keys().is_empty());
    assert!(ks.addresses().is_empty());
    assert!(matches!(
        KeystoreType::File("x".to_string()).init(Some("[1, 2]")),
        Err(KeystoreError::Corrupted)
    ));
}

#[test]
fn address_is_the_sha3_prefix_of_the_public_key() {
    let kp = key(8);
    let digest = sha3::Sha3_256::digest(kp.public().as_bytes());
    assert_eq!(kp.address().as_bytes(), &digest[..20]);
    assert_eq!(
        SuiAddress::from_public_key(&kp.public()).as_bytes().len(),
        20
    );
}

#[test]
fn public_key_matches_dalek() {
    let kp = key(6);
    let sk = ed25519_dalek::SigningKey::from_bytes(&[6u8; 32]);
    assert_eq!(kp.public().as_bytes(), &sk.verifying_key().to_bytes()[..]);
    assert_eq!(kp.private(), &[6u8; 32][..]);
    assert_eq!(kp.to_bytes().len(), 64);
    assert!(AccountKeyPair::from_bytes(&kp.to_bytes()) == Some(kp));
}

#[test]
fn seeded_rng_replays_its_seed() {
    let seed: Vec<u8> = (0..40u8).collect();
    let mut a = SeededRng::new(seed.clone());
    let mut b = SeededRng::new(seed.clone());
    assert_eq!(a.fill_bytes(8).unwrap(), b.fill_bytes(8).unwrap());
    assert_eq!(a.fill_bytes(4).unwrap(), vec![8, 9, 10, 11]);
    assert!(matches!(a.fill_bytes(29), Err(KeystoreError::InsufficientSeed)));
    assert_eq!(a.fill_bytes(28).unwrap(), (12..40u8).collect::<Vec<u8>>());
    assert!(a.fill_bytes(0).unwrap().is_empty());
}

#[test]
fn key_generation_needs_a_long_enough_seed() {
    let mut short = SeededRng::new(vec![1u8; 31]);
    assert!(matches!(
        get_key_pair_from_rng(&mut short),
        Err(KeystoreError::InsufficientSeed)
    ));
    let mut rng = SeededRng::new(vec![3u8; 64]);
    let (address, kp) = get_key_pair_from_rng(&mut rng).unwrap();
    assert!(kp == key(3));
    assert_eq!(address, key(3).address());
}

#[test]
fn error_messages() {
    assert_eq!(KeystoreError::Corrupted.message(), "Invalid Keypair file");
    assert_eq!(
        KeystoreError::InvalidMnemonic.message(),
        "Invalid mnemonic phrase"
    );
}
