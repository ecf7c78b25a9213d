//! Key material: key pairs, public keys, addresses and signatures, with the
//! Ed25519 and SHA3 primitives they are built on.
use ed25519_dalek::Signer;
use sha3::Digest;
use vstd::prelude::*;

verus! {

/// Length of a secret key, of a public key, in bytes.
pub const KEY_LENGTH: usize = 32;

/// Length of an address, in bytes.
pub const ADDRESS_LENGTH: usize = 20;

/// Length of an Ed25519 signature, in bytes.
pub const SIGNATURE_LENGTH: usize = 64;

/// The SHA3-256 digest of `data`.
pub uninterp spec fn sha3_256_of(data: Seq<u8>) -> Seq<u8>;

/// The Ed25519 public key that belongs to the secret key `secret`.
pub uninterp spec fn ed25519_public_of(secret: Seq<u8>) -> Seq<u8>;

/// The Ed25519 signature of `msg` under the secret key `secret`.
pub uninterp spec fn ed25519_signature_of(secret: Seq<u8>, msg: Seq<u8>) -> Seq<u8>;

/// Relies on sha3::Sha3_256 (through `Digest::digest`): a 32-byte digest that
/// depends on the input alone.
#[verifier::external_body]
fn sha3_256(data: &[u8]) -> (r: Vec<u8>)
    ensures
        r@ == sha3_256_of(data@),
        r@.len() == 32,
{
    sha3::Sha3_256::digest(data).to_vec()
}

/// Relies on ed25519_dalek::SigningKey::from_bytes and `verifying_key`: the
/// 32-byte public key of a 32-byte secret key.
#[verifier::external_body]
fn ed25519_public(secret: &[u8]) -> (r: Vec<u8>)
    requires
        secret@.len() == KEY_LENGTH,
    ensures
        r@ == ed25519_public_of(secret@),
        r@.len() == KEY_LENGTH,
{
    let bytes: [u8; 32] = secret.try_into().unwrap();
    ed25519_dalek::SigningKey::from_bytes(&bytes).verifying_key().to_bytes().to_vec()
}

/// Relies on ed25519_dalek's `Signer::sign` for `SigningKey`: a 64-byte
/// signature that depends on the secret key and the message alone.
#[verifier::external_body]
fn ed25519_sign(secret: &[u8], msg: &[u8]) -> (r: Vec<u8>)
    requires
        secret@.len() == KEY_LENGTH,
    ensures
        r@ == ed25519_signature_of(secret@, msg@),
        r@.len() == SIGNATURE_LENGTH,
{
    let bytes: [u8; 32] = secret.try_into().unwrap();
    ed25519_dalek::SigningKey::from_bytes(&bytes).sign(msg).to_bytes().to_vec()
}

/// The address that belongs to the public key `public`: the first twenty bytes
/// of its SHA3-256 digest.
pub open spec fn address_of(public: Seq<u8>) -> Seq<u8> {
    sha3_256_of(public).subrange(0, ADDRESS_LENGTH as int)
}

/// A copy of `v`, byte for byte.
pub fn copy_bytes(v: &[u8]) -> (r: Vec<u8>)
    ensures
        r@ == v@,
{
    let mut r: Vec<u8> = Vec::new();
    let mut i: usize = 0;
    while i < v.len()
        invariant
            i <= v@.len(),
            r@ == v@.subrange(0, i as int),
        decreases v@.len() - i,
    {
        r.push(v[i]);
        i = i + 1;
        assert(r@ =~= v@.subrange(0, i as int));
    }
    assert(r@ =~= v@);
    r
}

/// Whether `a` and `b` hold the same bytes.
pub fn bytes_equal(a: &[u8], b: &[u8]) -> (r: bool)
    ensures
        r == (a@ == b@),
{
    if a.len() != b.len() {
        return false;
    }
    let mut i: usize = 0;
    while i < a.len()
        invariant
            i <= a@.len(),
            a@.len() == b@.len(),
            a@.subrange(0, i as int) == b@.subrange(0, i as int),
        decreases a@.len() - i,
    {
        if a[i] != b[i] {
            assert(a@[i as int] != b@[i as int]);
            return false;
        }
        assert(a@.subrange(0, i + 1) =~= a@.subrange(0, i as int).push(a@[i as int]));
        assert(b@.subrange(0, i + 1) =~= b@.subrange(0, i as int).push(b@[i as int]));
        i = i + 1;
    }
    assert(a@ =~= a@.subrange(0, i as int));
    assert(b@ =~= b@.subrange(0, i as int));
    true
}

/// An account address: twenty bytes derived from a public key.
#[derive(Debug)]
pub struct SuiAddress {
    pub bytes: Vec<u8>,
}

impl View for SuiAddress {
    type V = Seq<u8>;

    open spec fn view(&self) -> Seq<u8> {
        self.bytes@
    }
}

impl Clone for SuiAddress {
    fn clone(&self) -> (r: Self)
        ensures
            r@ == self@,
    {
        SuiAddress { bytes: copy_bytes(self.bytes.as_slice()) }
    }
}

impl PartialEq for SuiAddress {
    fn eq(&self, other: &SuiAddress) -> (r: bool) {
        bytes_equal(self.bytes.as_slice(), other.bytes.as_slice())
    }
}

impl vstd::std_specs::cmp::PartialEqSpecImpl for SuiAddress {
    open spec fn obeys_eq_spec() -> bool {
        true
    }

    open spec fn eq_spec(&self, other: &SuiAddress) -> bool {
        self@ == other@
    }
}

impl Eq for SuiAddress {
}

impl SuiAddress {
    /// The address of the public key `public`.
    pub fn from_public_key(public: &AccountPublicKey) -> (r: SuiAddress)
        ensures
            r@ == address_of(public@),
    {
        let digest = sha3_256(public.bytes.as_slice());
        let mut bytes: Vec<u8> = Vec::new();
        let mut i: usize = 0;
        while i < ADDRESS_LENGTH
            invariant
                i <= ADDRESS_LENGTH,
                digest@.len() == 32,
                bytes@ == digest@.subrange(0, i as int),
            decreases ADDRESS_LENGTH - i,
        {
            bytes.push(digest[i]);
            i = i + 1;
            assert(bytes@ =~= digest@.subrange(0, i as int));
        }
        SuiAddress { bytes }
    }

    /// The bytes of the address.
    pub fn as_bytes(&self) -> (r: &[u8])
        ensures
            r@ == self@,
    {
        self.bytes.as_slice()
    }
}

/// An Ed25519 public key.
#[derive(Debug)]
pub struct AccountPublicKey {
    pub bytes: Vec<u8>,
}

impl View for AccountPublicKey {
    type V = Seq<u8>;

    open spec fn view(&self) -> Seq<u8> {
        self.bytes@
    }
}

impl Clone for AccountPublicKey {
    fn clone(&self) -> (r: Self)
        ensures
            r@ == self@,
    {
        AccountPublicKey { bytes: copy_bytes(self.bytes.as_slice()) }
    }
}

impl PartialEq for AccountPublicKey {
    fn eq(&self, other: &AccountPublicKey) -> (r: bool) {
        bytes_equal(self.bytes.as_slice(), other.bytes.as_slice())
    }
}

impl vstd::std_specs::cmp::PartialEqSpecImpl for AccountPublicKey {
    open spec fn obeys_eq_spec() -> bool {
        true
    }

    open spec fn eq_spec(&self, other: &AccountPublicKey) -> bool {
        self@ == other@
    }
}

impl Eq for AccountPublicKey {
}

impl AccountPublicKey {
    /// The bytes of the key.
    pub fn as_bytes(&self) -> (r: &[u8])
        ensures
            r@ == self@,
    {
        self.bytes.as_slice()
    }
}

/// A signature as handed out by a keystore: the 64-byte Ed25519 signature
/// followed by the 32-byte public key of the signer.
#[derive(Debug)]
pub struct Signature {
    pub bytes: Vec<u8>,
}

impl View for Signature {
    type V = Seq<u8>;

    open spec fn view(&self) -> Seq<u8> {
        self.bytes@
    }
}

impl PartialEq for Signature {
    fn eq(&self, other: &Signature) -> (r: bool) {
        bytes_equal(self.bytes.as_slice(), other.bytes.as_slice())
    }
}

impl vstd::std_specs::cmp::PartialEqSpecImpl for Signature {
    open spec fn obeys_eq_spec() -> bool {
        true
    }

    open spec fn eq_spec(&self, other: &Signature) -> bool {
        self@ == other@
    }
}

impl Eq for Signature {
}

impl Signature {
    /// The bytes of the signature.
    pub fn as_bytes(&self) -> (r: &[u8])
        ensures
            r@ == self@,
    {
        self.bytes.as_slice()
    }
}

/// The model of a key pair: its secret key and its public key.
pub struct KeyPairModel {
    pub secret: Seq<u8>,
    pub public: Seq<u8>,
}

/// The signature that a keystore hands out for `msg` under the secret key
/// `secret` whose public key is `public`.
pub open spec fn signature_of(secret: Seq<u8>, public: Seq<u8>, msg: Seq<u8>) -> Seq<u8> {
    ed25519_signature_of(secret, msg) + public
}

/// An Ed25519 key pair. The public key always belongs to the secret key. It
/// has no `Debug`, so that its secret key is never printed.
pub struct AccountKeyPair {
    secret: Vec<u8>,
    public: Vec<u8>,
}

impl View for AccountKeyPair {
    type V = KeyPairModel;

    closed spec fn view(&self) -> KeyPairModel {
        KeyPairModel { secret: self.secret@, public: self.public@ }
    }
}

impl Clone for AccountKeyPair {
    fn clone(&self) -> (r: Self)
        ensures
            r@ == self@,
    {
        proof {
            use_type_invariant(self);
        }
        AccountKeyPair {
            secret: copy_bytes(self.secret.as_slice()),
            public: copy_bytes(self.public.as_slice()),
        }
    }
}

impl PartialEq for AccountKeyPair {
    fn eq(&self, other: &AccountKeyPair) -> (r: bool) {
        bytes_equal(self.secret.as_slice(), other.secret.as_slice()) && bytes_equal(
            self.public.as_slice(),
            other.public.as_slice(),
        )
    }
}

impl vstd::std_specs::cmp::PartialEqSpecImpl for AccountKeyPair {
    open spec fn obeys_eq_spec() -> bool {
        true
    }

    open spec fn eq_spec(&self, other: &AccountKeyPair) -> bool {
        self@ == other@
    }
}

impl Eq for AccountKeyPair {
}

/// Whether `m` is a key pair: a 32-byte secret key and its public key.
pub open spec fn key_pair_wf(m: KeyPairModel) -> bool {
    &&& m.secret.len() == KEY_LENGTH
    &&& m.public.len() == KEY_LENGTH
    &&& m.public == ed25519_public_of(m.secret)
}

impl AccountKeyPair {
    #[verifier::type_invariant]
    pub open spec fn public_belongs_to_secret(self) -> bool {
        key_pair_wf(self@)
    }

    /// Whether the public key belongs to the secret key: true of every key
    /// pair, by the type's invariant.
    pub open spec fn wf(&self) -> bool {
        key_pair_wf(self@)
    }

    /// The key pair of the 32-byte secret key `secret`.
    pub fn from_secret(secret: &[u8]) -> (r: AccountKeyPair)
        requires
            secret@.len() == KEY_LENGTH,
        ensures
            r.wf(),
            r@.secret == secret@,
    {
        let public = ed25519_public(secret);
        AccountKeyPair { secret: copy_bytes(secret), public }
    }

    /// The secret key.
    pub fn private(&self) -> (r: &[u8])
        ensures
            r@ == self@.secret,
    {
        self.secret.as_slice()
    }

    /// The public key.
    pub fn public(&self) -> (r: AccountPublicKey)
        ensures
            r@ == self@.public,
    {
        AccountPublicKey { bytes: copy_bytes(self.public.as_slice()) }
    }

    /// The address of the public key.
    pub fn address(&self) -> (r: SuiAddress)
        ensures
            r@ == address_of(self@.public),
    {
        SuiAddress::from_public_key(&self.public())
    }

    /// The canonical bytes of the key pair: the secret key, then the public key.
    pub fn to_bytes(&self) -> (r: Vec<u8>)
        ensures
            r@ == self@.secret + self@.public,
    {
        let mut r = copy_bytes(self.secret.as_slice());
        let mut i: usize = 0;
        while i < self.public.len()
            invariant
                i <= self.public@.len(),
                r@ == self.secret@ + self.public@.subrange(0, i as int),
            decreases self.public@.len() - i,
        {
            r.push(self.public[i]);
            i = i + 1;
            assert(r@ =~= self.secret@ + self.public@.subrange(0, i as int));
        }
        assert(self.public@.subrange(0, i as int) =~= self.public@);
        r
    }

    /// The key pair whose canonical bytes are `bytes`: `None` where `bytes`
    /// are not 64 long or the public half does not belong to the secret half.
    pub fn from_bytes(bytes: &[u8]) -> (r: Option<AccountKeyPair>)
        ensures
            r is Some <==> (bytes@.len() == 2 * KEY_LENGTH && bytes@.subrange(
                KEY_LENGTH as int,
                2 * KEY_LENGTH as int,
            ) == ed25519_public_of(bytes@.subrange(0, KEY_LENGTH as int))),
            r is Some ==> r->0.wf() && r->0@.secret + r->0@.public == bytes@,
    {
        if bytes.len() != 2 * KEY_LENGTH {
            return None;
        }
        let secret = slice_range(bytes, 0, KEY_LENGTH);
        let public = slice_range(bytes, KEY_LENGTH, 2 * KEY_LENGTH);
        let kp = AccountKeyPair::from_secret(secret.as_slice());
        if bytes_equal(kp.public.as_slice(), public.as_slice()) {
            assert(bytes@ =~= secret@ + public@);
            Some(kp)
        } else {
            None
        }
    }

    /// Signs `msg`: the Ed25519 signature followed by the public key.
    pub fn sign(&self, msg: &[u8]) -> (r: Signature)
        ensures
            r@ == signature_of(self@.secret, self@.public, msg@),
    {
        proof {
            use_type_invariant(self);
        }
        let mut bytes = ed25519_sign(self.secret.as_slice(), msg);
        let mut i: usize = 0;
        let ghost sig = bytes@;
        while i < self.public.len()
            invariant
                i <= self.public@.len(),
                bytes@ == sig + self.public@.subrange(0, i as int),
            decreases self.public@.len() - i,
        {
            bytes.push(self.public[i]);
            i = i + 1;
            assert(bytes@ =~= sig + self.public@.subrange(0, i as int));
        }
        assert(self.public@.subrange(0, i as int) =~= self.public@);
        Signature { bytes }
    }
}

/// The bytes of `v` from `start` up to `end`.
pub fn slice_range(v: &[u8], start: usize, end: usize) -> (r: Vec<u8>)
    requires
        start <= end <= v@.len(),
    ensures
        r@ == v@.subrange(start as int, end as int),
{
    let mut r: Vec<u8> = Vec::new();
    let mut i: usize = start;
    while i < end
        invariant
            start <= i <= end,
            end <= v@.len(),
            r@ == v@.subrange(start as int, i as int),
        decreases end - i,
    {
        r.push(v[i]);
        i = i + 1;
        assert(r@ =~= v@.subrange(start as int, i as int));
    }
    r
}

} // verus!
