//! Text encodings used by the keystore: base64 records, the JSON array that
//! holds them, and BIP-39 mnemonic phrases.
use crate::crypto::{key_pair_wf, AccountKeyPair, KeyPairModel, KEY_LENGTH};
use base64::Engine;
use vstd::prelude::*;

verus! {

/// The standard base64 text of `data`.
pub uninterp spec fn base64_of(data: Seq<u8>) -> Seq<char>;

/// The bytes that the standard base64 text `text` stands for, if it is one.
pub uninterp spec fn base64_decoded(text: Seq<char>) -> Option<Seq<u8>>;

/// The pretty-printed JSON array of the strings `items`.
pub uninterp spec fn json_string_array_of(items: Seq<Seq<char>>) -> Seq<char>;

/// The strings of the JSON array `text`, if it is a JSON array of strings.
pub uninterp spec fn json_string_array_parsed(text: Seq<char>) -> Option<Seq<Seq<char>>>;

/// The English BIP-39 phrase of the entropy `entropy`.
pub uninterp spec fn mnemonic_of_entropy(entropy: Seq<u8>) -> Seq<char>;

/// Whether `phrase` is a BIP-39 phrase: known words, a valid word count and
/// checksum.
pub uninterp spec fn mnemonic_is_valid(phrase: Seq<char>) -> bool;

/// The 64-byte BIP-39 seed of the phrase `phrase` with an empty passphrase.
pub uninterp spec fn mnemonic_seed_of(phrase: Seq<char>) -> Seq<u8>;

/// The views of a sequence of strings.
pub open spec fn string_views(items: Seq<String>) -> Seq<Seq<char>> {
    items.map_values(|s: String| s@)
}

/// Relies on base64's `STANDARD.encode`; decoding its output with the same
/// engine gives the input back.
#[verifier::external_body]
fn base64_encode(data: &[u8]) -> (r: String)
    ensures
        r@ == base64_of(data@),
        base64_decoded(r@) == Some(data@),
{
    base64::engine::general_purpose::STANDARD.encode(data)
}

/// Relies on base64's `STANDARD.decode`: the bytes, or an error where the
/// text is not standard base64.
#[verifier::external_body]
fn base64_decode(text: &str) -> (r: Option<Vec<u8>>)
    ensures
        match r {
            Some(v) => base64_decoded(text@) == Some(v@),
            None => base64_decoded(text@) is None,
        },
{
    match base64::engine::general_purpose::STANDARD.decode(text) {
        Ok(v) => Some(v),
        Err(_) => None,
    }
}

/// Relies on serde_json::to_string_pretty on a `Vec<String>`, which cannot
/// fail there; parsing its output gives the strings back.
#[verifier::external_body]
fn json_encode_strings(items: &Vec<String>) -> (r: String)
    ensures
        r@ == json_string_array_of(string_views(items@)),
        json_string_array_parsed(r@) == Some(string_views(items@)),
{
    serde_json::to_string_pretty(items).unwrap()
}

/// Relies on serde_json::from_str into a `Vec<String>`: the strings, or an
/// error where the text is not a JSON array of strings.
#[verifier::external_body]
fn json_decode_strings(text: &str) -> (r: Option<Vec<String>>)
    ensures
        match r {
            Some(v) => json_string_array_parsed(text@) == Some(string_views(v@)),
            None => json_string_array_parsed(text@) is None,
        },
{
    match serde_json::from_str::<Vec<String>>(text) {
        Ok(v) => Some(v),
        Err(_) => None,
    }
}

/// Whether `n` bytes of entropy can be written as a BIP-39 phrase: 16 to 32
/// bytes, a multiple of four.
pub open spec fn entropy_len_ok(n: nat) -> bool {
    16 <= n <= 32 && n % 4 == 0
}

/// Relies on bip39::Mnemonic::from_entropy, written out with its `Display`:
/// it fails exactly where the entropy has a bit count that BIP-39 refuses.
#[verifier::external_body]
pub(crate) fn mnemonic_from_entropy(entropy: &[u8]) -> (r: Option<String>)
    ensures
        r is Some <==> entropy_len_ok(entropy@.len()),
        r is Some ==> r->0@ == mnemonic_of_entropy(entropy@) && mnemonic_is_valid(r->0@),
{
    match bip39::Mnemonic::from_entropy(entropy) {
        Ok(m) => Some(m.to_string()),
        Err(_) => None,
    }
}

/// Relies on bip39::Mnemonic::parse and `Mnemonic::to_seed` with an empty
/// passphrase: the 64-byte seed, or an error where the phrase is not valid.
#[verifier::external_body]
pub(crate) fn mnemonic_to_seed(phrase: &str) -> (r: Option<Vec<u8>>)
    ensures
        r is Some <==> mnemonic_is_valid(phrase@),
        r is Some ==> r->0@ == mnemonic_seed_of(phrase@) && r->0@.len() == 64,
{
    match bip39::Mnemonic::parse(phrase) {
        Ok(m) => Some(m.to_seed("").to_vec()),
        Err(_) => None,
    }
}

/// The record that stands for a key pair in a keystore file: the base64 text
/// of its secret key followed by its public key.
pub open spec fn record_of(m: KeyPairModel) -> Seq<char> {
    base64_of(m.secret + m.public)
}

/// The key pair that the record `text` stands for: `None` where it is not
/// base64, not 64 bytes, or its public half does not belong to its secret half.
pub open spec fn record_decoded(text: Seq<char>) -> Option<KeyPairModel> {
    match base64_decoded(text) {
        Some(b) => {
            let m = KeyPairModel {
                secret: b.subrange(0, KEY_LENGTH as int),
                public: b.subrange(KEY_LENGTH as int, b.len() as int),
            };
            if b.len() == 2 * KEY_LENGTH && key_pair_wf(m) {
                Some(m)
            } else {
                None
            }
        },
        None => None,
    }
}

/// A decoded record is the key pair it was encoded from.
pub proof fn lemma_record_round_trip(m: KeyPairModel)
    requires
        key_pair_wf(m),
        base64_decoded(record_of(m)) == Some(m.secret + m.public),
    ensures
        record_decoded(record_of(m)) == Some(m),
{
    let b = m.secret + m.public;
    assert(b.subrange(0, KEY_LENGTH as int) =~= m.secret);
    assert(b.subrange(KEY_LENGTH as int, b.len() as int) =~= m.public);
}

/// The record of the key pair `kp`.
pub fn encode_record(kp: &AccountKeyPair) -> (r: String)
    ensures
        r@ == record_of(kp@),
        base64_decoded(r@) == Some(kp@.secret + kp@.public),
{
    let bytes = kp.to_bytes();
    base64_encode(bytes.as_slice())
}

/// The key pair of the record `text`, if it is one.
pub fn decode_record(text: &str) -> (r: Option<AccountKeyPair>)
    ensures
        match r {
            Some(kp) => kp.wf() && record_decoded(text@) == Some(kp@),
            None => record_decoded(text@) is None,
        },
{
    match base64_decode(text) {
        None => None,
        Some(bytes) => {
            let r = AccountKeyPair::from_bytes(bytes.as_slice());
            proof {
                let b = bytes@;
                if b.len() == 2 * KEY_LENGTH {
                    assert(b.subrange(KEY_LENGTH as int, b.len() as int) == b.subrange(
                        KEY_LENGTH as int,
                        2 * KEY_LENGTH as int,
                    ));
                }
            }
            match r {
                Some(kp) => {
                    proof {
                        let b = bytes@;
                        assert(kp@.secret =~= b.subrange(0, KEY_LENGTH as int));
                        assert(kp@.public =~= b.subrange(KEY_LENGTH as int, b.len() as int));
                    }
                    Some(kp)
                },
                None => None,
            }
        },
    }
}

/// The JSON text of a sequence of records.
pub fn encode_records(records: &Vec<String>) -> (r: String)
    ensures
        r@ == json_string_array_of(string_views(records@)),
        json_string_array_parsed(r@) == Some(string_views(records@)),
{
    json_encode_strings(records)
}

/// The records of the JSON text `text`, if it is a JSON array of strings.
pub fn decode_records(text: &str) -> (r: Option<Vec<String>>)
    ensures
        match r {
            Some(v) => json_string_array_parsed(text@) == Some(string_views(v@)),
            None => json_string_array_parsed(text@) is None,
        },
{
    json_decode_strings(text)
}

} // verus!
