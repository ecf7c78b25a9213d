//! The keystore: a file-backed store of key pairs indexed by address, the
//! facade that derives and imports mnemonic phrases, and signing handles.
use crate::codec::{
    decode_record, decode_records, encode_record, encode_records, json_string_array_of,
    json_string_array_parsed, mnemonic_from_entropy, mnemonic_is_valid, mnemonic_of_entropy,
    mnemonic_seed_of, mnemonic_to_seed, record_decoded, record_of, string_views,
};
use crate::crypto::{
    address_of, ed25519_public_of, key_pair_wf, signature_of, AccountKeyPair, AccountPublicKey,
    KeyPairModel, Signature, SuiAddress, KEY_LENGTH,
};
use crate::error::KeystoreError;
use crate::rng::SeededRng;
use vstd::prelude::*;

verus! {

// ---------------------------------------------------------------------------
// The model: an ordered sequence of key pairs with distinct addresses.
// ---------------------------------------------------------------------------

/// The address of the key pair `m`.
pub open spec fn address_of_pair(m: KeyPairModel) -> Seq<u8> {
    address_of(m.public)
}

/// Whether no two key pairs of `s` have the same address.
pub open spec fn unique_addresses(s: Seq<KeyPairModel>) -> bool {
    forall|i: int, j: int|
        0 <= i < j < s.len() ==> address_of_pair(#[trigger] s[i]) != address_of_pair(
            #[trigger] s[j],
        )
}

/// Whether every element of `s` is a key pair.
pub open spec fn all_wf(s: Seq<KeyPairModel>) -> bool {
    forall|i: int| 0 <= i < s.len() ==> key_pair_wf(#[trigger] s[i])
}

/// Whether `s` holds a key pair with the address `a`.
pub open spec fn has_address(s: Seq<KeyPairModel>, a: Seq<u8>) -> bool {
    exists|i: int| 0 <= i < s.len() && address_of_pair(#[trigger] s[i]) == a
}

/// Where in `s` the key pair with the address `a` stands.
pub open spec fn position_of(s: Seq<KeyPairModel>, a: Seq<u8>) -> int {
    choose|i: int| 0 <= i < s.len() && address_of_pair(#[trigger] s[i]) == a
}

/// The key pair of `s` with the address `a`, if there is one.
pub open spec fn lookup(s: Seq<KeyPairModel>, a: Seq<u8>) -> Option<KeyPairModel> {
    if has_address(s, a) {
        Some(s[position_of(s, a)])
    } else {
        None
    }
}

/// `s` with the key pair `m` stored: it takes the place of the key pair with
/// the same address, or comes last where there is none.
pub open spec fn with_key(s: Seq<KeyPairModel>, m: KeyPairModel) -> Seq<KeyPairModel> {
    if has_address(s, address_of_pair(m)) {
        s.update(position_of(s, address_of_pair(m)), m)
    } else {
        s.push(m)
    }
}

/// The public keys of `s`, in order.
pub open spec fn public_keys_of(s: Seq<KeyPairModel>) -> Seq<Seq<u8>> {
    s.map_values(|m: KeyPairModel| m.public)
}

/// The addresses of `s`, in order.
pub open spec fn addresses_of(s: Seq<KeyPairModel>) -> Seq<Seq<u8>> {
    s.map_values(|m: KeyPairModel| address_of_pair(m))
}

/// The text of a keystore file that holds `s`: a JSON array of the records
/// of its key pairs, in order.
pub open spec fn file_text(s: Seq<KeyPairModel>) -> Seq<char> {
    json_string_array_of(s.map_values(|m: KeyPairModel| record_of(m)))
}

/// The key pairs that a list of records gives when each is stored in turn.
pub open spec fn build(records: Seq<Seq<char>>) -> Seq<KeyPairModel>
    decreases records.len(),
{
    if records.len() == 0 {
        Seq::empty()
    } else {
        with_key(build(records.drop_last()), record_decoded(records.last()).unwrap())
    }
}

/// Whether every record of `records` decodes to a key pair.
pub open spec fn all_decode(records: Seq<Seq<char>>) -> bool {
    forall|i: int| 0 <= i < records.len() ==> (#[trigger] record_decoded(records[i])) is Some
}

/// The key pairs that the keystore file text `text` holds: `None` where it is
/// not a JSON array of strings or one of them is not a record of a key pair.
pub open spec fn loaded_entries(text: Seq<char>) -> Option<Seq<KeyPairModel>> {
    match json_string_array_parsed(text) {
        Some(records) => if all_decode(records) {
            Some(build(records))
        } else {
            None
        },
        None => None,
    }
}

/// The outcome that signing `msg` by the address `a` in a store holding `s`
/// must have.
pub open spec fn sign_outcome(
    s: Seq<KeyPairModel>,
    a: Seq<u8>,
    msg: Seq<u8>,
    r: Result<Signature, KeystoreError>,
) -> bool {
    match lookup(s, a) {
        Some(m) => r is Ok && r->Ok_0@ == signature_of(m.secret, m.public, msg),
        None => r is Err && r->Err_0 is KeyNotFound && r->Err_0->KeyNotFound_0@ == a,
    }
}

/// The key pair that the phrase `phrase` yields: its secret key is the first
/// 32 bytes of the phrase's seed.
pub open spec fn mnemonic_key_pair(phrase: Seq<char>) -> KeyPairModel {
    let secret = mnemonic_seed_of(phrase).subrange(0, KEY_LENGTH as int);
    KeyPairModel { secret, public: ed25519_public_of(secret) }
}

// ---------------------------------------------------------------------------
// Facts about the model.
// ---------------------------------------------------------------------------

/// In a store with distinct addresses, a key pair found at `i` is the one
/// that `lookup` and `position_of` name.
pub proof fn lemma_position_unique(s: Seq<KeyPairModel>, i: int)
    requires
        unique_addresses(s),
        0 <= i < s.len(),
    ensures
        has_address(s, address_of_pair(s[i])),
        position_of(s, address_of_pair(s[i])) == i,
        lookup(s, address_of_pair(s[i])) == Some(s[i]),
{
    let a = address_of_pair(s[i]);
    assert(has_address(s, a));
    let p = position_of(s, a);
    if p < i {
        assert(address_of_pair(s[p]) != address_of_pair(s[i]));
    } else if p > i {
        assert(address_of_pair(s[i]) != address_of_pair(s[p]));
    }
}

/// Storing a key pair keeps addresses distinct and every element a key pair,
/// and afterwards the store finds it under its address.
pub proof fn lemma_with_key(s: Seq<KeyPairModel>, m: KeyPairModel)
    requires
        unique_addresses(s),
        all_wf(s),
        key_pair_wf(m),
    ensures
        unique_addresses(with_key(s, m)),
        all_wf(with_key(s, m)),
        lookup(with_key(s, m), address_of_pair(m)) == Some(m),
{
    let t = with_key(s, m);
    let a = address_of_pair(m);
    if has_address(s, a) {
        let p = position_of(s, a);
        assert forall|i: int, j: int| 0 <= i < j < t.len() implies address_of_pair(
            #[trigger] t[i],
        ) != address_of_pair(#[trigger] t[j]) by {
            if i == p {
                assert(address_of_pair(s[p]) != address_of_pair(s[j]));
            } else if j == p {
                assert(address_of_pair(s[i]) != address_of_pair(s[p]));
            }
        }
        lemma_position_unique(t, p);
    } else {
        assert forall|i: int, j: int| 0 <= i < j < t.len() implies address_of_pair(
            #[trigger] t[i],
        ) != address_of_pair(#[trigger] t[j]) by {
            if j == s.len() {
                assert(address_of_pair(s[i]) != a);
            }
        }
        lemma_position_unique(t, s.len() as int);
    }
}

/// The records of a store with distinct addresses, stored in turn, give the
/// store back.
proof fn lemma_build_records(s: Seq<KeyPairModel>)
    requires
        unique_addresses(s),
        all_wf(s),
        forall|i: int|
            0 <= i < s.len() ==> base64_round_trips(#[trigger] s[i]),
    ensures
        all_decode(s.map_values(|m: KeyPairModel| record_of(m))),
        build(s.map_values(|m: KeyPairModel| record_of(m))) == s,
    decreases s.len(),
{
    let recs = s.map_values(|m: KeyPairModel| record_of(m));
    assert forall|i: int| 0 <= i < recs.len() implies (#[trigger] record_decoded(recs[i])) is Some by {
        crate::codec::lemma_record_round_trip(s[i]);
    }
    if s.len() > 0 {
        let init = s.drop_last();
        assert(recs.drop_last() =~= init.map_values(|m: KeyPairModel| record_of(m)));
        lemma_build_records(init);
        crate::codec::lemma_record_round_trip(s.last());
        let m = s.last();
        if has_address(init, address_of_pair(m)) {
            let k = choose|k: int| 0 <= k < init.len() && address_of_pair(#[trigger] init[k]) == address_of_pair(m);
            assert(address_of_pair(s[k]) != address_of_pair(s[s.len() - 1]));
        }
        assert(init.push(m) =~= s);
    } else {
        assert(s.map_values(|m: KeyPairModel| record_of(m)) =~= Seq::<Seq<char>>::empty());
    }
}

/// Whether the record of `m` decodes back to its bytes.
pub open spec fn base64_round_trips(m: KeyPairModel) -> bool {
    crate::codec::base64_decoded(record_of(m)) == Some(m.secret + m.public)
}


// ---------------------------------------------------------------------------
// The backend interface and the file-based backend.
// ---------------------------------------------------------------------------

/// A write that persists a keystore: the whole text of the file at `path`.
#[derive(Debug)]
pub struct SaveRequest {
    pub path: String,
    pub contents: String,
}

impl View for SaveRequest {
    type V = (Seq<char>, Seq<char>);

    open spec fn view(&self) -> (Seq<char>, Seq<char>) {
        (self.path@, self.contents@)
    }
}

/// The view of an optional write.
pub open spec fn save_view(r: Option<SaveRequest>) -> Option<(Seq<char>, Seq<char>)> {
    match r {
        Some(req) => Some(req@),
        None => None,
    }
}

/// A place where key pairs are kept and used: it signs by address, takes new
/// key pairs and lists its public keys.
pub trait AccountKeystore: Sized {
    /// The key pairs held, in listing order.
    spec fn entries(&self) -> Seq<KeyPairModel>;

    /// The write that persists the current state, if the store persists.
    spec fn persisted(&self) -> Option<(Seq<char>, Seq<char>)>;

    /// Where the store persists itself, if it does.
    spec fn location(&self) -> Option<Seq<char>>;

    /// The store's internal invariant.
    spec fn inv(&self) -> bool;

    /// Under the invariant, the key pairs held are key pairs and no two have
    /// the same address.
    proof fn lemma_inv(&self)
        requires
            self.inv(),
        ensures
            unique_addresses(self.entries()),
            all_wf(self.entries()),
    ;

    /// Signs `msg` with the key pair of `address`.
    fn sign(&self, address: &SuiAddress, msg: &[u8]) -> (r: Result<Signature, KeystoreError>)
        requires
            self.inv(),
        ensures
            sign_outcome(self.entries(), address@, msg@, r),
    ;

    /// Stores `keypair` under its address, replacing the key pair held there;
    /// returns the write that persists the store, if it persists.
    fn add_key(&mut self, keypair: AccountKeyPair) -> (r: Option<SaveRequest>)
        requires
            old(self).inv(),
        ensures
            final(self).inv(),
            final(self).entries() == with_key(old(self).entries(), keypair@),
            final(self).location() == old(self).location(),
            save_view(r) == final(self).persisted(),
            r is Some ==> loaded_entries(r->0.contents@) == Some(final(self).entries()),
    ;

    /// The public keys of the key pairs held, in order.
    fn keys(&self) -> (r: Vec<AccountPublicKey>)
        requires
            self.inv(),
        ensures
            r@.map_values(|k: AccountPublicKey| k@) == public_keys_of(self.entries()),
    ;
}

/// A keystore kept in memory and persisted as a JSON array of base64 records
/// to a file, when it has a path.
pub struct FileBasedKeystore {
    keys: Vec<(SuiAddress, AccountKeyPair)>,
    path: Option<String>,
}

impl FileBasedKeystore {
    /// The path of the file, if any.
    pub closed spec fn path_view(&self) -> Option<Seq<char>> {
        match self.path {
            Some(p) => Some(p@),
            None => None,
        }
    }

    /// The key pairs held, in order.
    pub closed spec fn pairs(&self) -> Seq<KeyPairModel> {
        self.keys@.map_values(|e: (SuiAddress, AccountKeyPair)| e.1@)
    }

    /// Every stored address is that of its key pair, every key pair is well
    /// formed, and no two have the same address.
    pub closed spec fn wf(&self) -> bool {
        &&& forall|i: int|
            0 <= i < self.keys@.len() ==> (#[trigger] self.keys@[i]).0@ == address_of_pair(
                self.keys@[i].1@,
            )
        &&& all_wf(self.pairs())
        &&& unique_addresses(self.pairs())
    }

    /// An empty keystore without a path: it keeps its key pairs in memory only.
    pub fn new() -> (r: FileBasedKeystore)
        ensures
            r.wf(),
            r.pairs() == Seq::<KeyPairModel>::empty(),
            r.path_view() is None,
    {
        let r = FileBasedKeystore { keys: Vec::new(), path: None };
        assert(r.pairs() =~= Seq::<KeyPairModel>::empty());
        r
    }

    /// The keystore of the file at `path`, given the file's text (`None`:
    /// there is no file, and the keystore starts empty). Fails with
    /// `Corrupted`, holding nothing, where the text is not a keystore file.
    pub fn load_or_create(path: &str, contents: Option<&str>) -> (r: Result<
        FileBasedKeystore,
        KeystoreError,
    >)
        ensures
            match contents {
                None => r is Ok && r->Ok_0.pairs() == Seq::<KeyPairModel>::empty(),
                Some(text) => match loaded_entries(text@) {
                    Some(s) => r is Ok && r->Ok_0.pairs() == s,
                    None => r is Err && r->Err_0 is Corrupted,
                },
            },
            r is Ok ==> r->Ok_0.wf() && r->Ok_0.path_view() == Some(path@),
    {
        let mut store = FileBasedKeystore::new();
        store.set_path(path);
        match contents {
            None => Ok(store),
            Some(text) => {
                let records = match decode_records(text) {
                    Some(v) => v,
                    None => {
                        return Err(KeystoreError::Corrupted);
                    },
                };
                let ghost recs = string_views(records@);
                let mut i: usize = 0;
                while i < records.len()
                    invariant
                        i <= records@.len(),
                        contents == Some(text),
                        recs == string_views(records@),
                        json_string_array_parsed(text@) == Some(recs),
                        store.wf(),
                        store.path_view() == Some(path@),
                        all_decode(recs.subrange(0, i as int)),
                        store.pairs() == build(recs.subrange(0, i as int)),
                    decreases records@.len() - i,
                {
                    let kp = match decode_record(records[i].as_str()) {
                        Some(kp) => kp,
                        None => {
                            assert(recs[i as int] == records@[i as int]@);
                            assert(record_decoded(recs[i as int]) is None);
                            assert(!all_decode(recs));
                            return Err(KeystoreError::Corrupted);
                        },
                    };
                    proof {
                        let next = recs.subrange(0, i + 1);
                        assert(next.drop_last() =~= recs.subrange(0, i as int));
                        assert(next.last() == records@[i as int]@);
                        assert forall|k: int| 0 <= k < next.len() implies (#[trigger] record_decoded(
                            next[k],
                        )) is Some by {
                            if k < i {
                                assert(next[k] == recs.subrange(0, i as int)[k]);
                            }
                        }
                    }
                    store.insert(kp);
                    i = i + 1;
                }
                assert(recs.subrange(0, i as int) =~= recs);
                Ok(store)
            },
        }
    }

    /// Sets the path that the keystore is persisted to.
    pub fn set_path(&mut self, path: &str)
        ensures
            final(self).path_view() == Some(path@),
            final(self).pairs() == old(self).pairs(),
            old(self).wf() ==> final(self).wf(),
    {
        self.path = Some(path.to_string());
    }

    /// Where the key pair with the address `address` stands, if it is held.
    fn find(&self, address: &SuiAddress) -> (r: Option<usize>)
        requires
            self.wf(),
        ensures
            match r {
                Some(i) => i < self.pairs().len() && lookup(self.pairs(), address@) == Some(
                    self.pairs()[i as int],
                ) && position_of(self.pairs(), address@) == i,
                None => !has_address(self.pairs(), address@),
            },
    {
        let mut i: usize = 0;
        while i < self.keys.len()
            invariant
                self.wf(),
                i <= self.keys@.len(),
                forall|k: int| 0 <= k < i ==> address_of_pair(#[trigger] self.pairs()[k]) != address@,
            decreases self.keys@.len() - i,
        {
            if self.keys[i].0 == *address {
                proof {
                    assert(self.pairs()[i as int] == self.keys@[i as int].1@);
                    lemma_position_unique(self.pairs(), i as int);
                }
                return Some(i);
            }
            assert(self.pairs()[i as int] == self.keys@[i as int].1@);
            i = i + 1;
        }
        None
    }

    /// Stores `keypair` under its address, in memory only.
    fn insert(&mut self, keypair: AccountKeyPair)
        requires
            old(self).wf(),
            keypair.wf(),
        ensures
            final(self).wf(),
            final(self).pairs() == with_key(old(self).pairs(), keypair@),
            final(self).path_view() == old(self).path_view(),
    {
        let address = keypair.address();
        proof {
            lemma_with_key(self.pairs(), keypair@);
        }
        let ghost s = self.pairs();
        match self.find(&address) {
            Some(i) => {
                self.keys.set(i, (address, keypair));
                assert(self.pairs() =~= with_key(s, keypair@));
            },
            None => {
                self.keys.push((address, keypair));
                assert(self.pairs() =~= with_key(s, keypair@));
            },
        }
    }

    /// The write that persists the keystore: the whole file at its path, or
    /// nothing where it has no path. Loading the written text gives back the
    /// key pairs held.
    pub fn save(&self) -> (r: Option<SaveRequest>)
        requires
            self.wf(),
        ensures
            save_view(r) == self.persisted(),
            r is Some ==> loaded_entries(r->0.contents@) == Some(self.pairs()),
    {
        match &self.path {
            None => None,
            Some(path) => {
                let mut records: Vec<String> = Vec::new();
                let mut i: usize = 0;
                while i < self.keys.len()
                    invariant
                        self.wf(),
                        i <= self.keys@.len(),
                        string_views(records@) == self.pairs().subrange(0, i as int).map_values(
                            |m: KeyPairModel| record_of(m),
                        ),
                        forall|k: int|
                            0 <= k < i ==> base64_round_trips(#[trigger] self.pairs()[k]),
                    decreases self.keys@.len() - i,
                {
                    let rec = encode_record(&self.keys[i].1);
                    let ghost before = records@;
                    let ghost rv = rec@;
                    records.push(rec);
                    proof {
                        let ps = self.pairs();
                        assert(ps[i as int] == self.keys@[i as int].1@);
                        assert(string_views(records@) =~= string_views(before).push(rv));
                        assert(ps.subrange(0, i + 1).map_values(|m: KeyPairModel| record_of(m))
                            =~= ps.subrange(0, i as int).map_values(|m: KeyPairModel| record_of(m)).push(
                            record_of(ps[i as int]),
                        ));
                    }
                    i = i + 1;
                }
                assert(self.pairs().subrange(0, i as int) =~= self.pairs());
                let contents = encode_records(&records);
                proof {
                    lemma_build_records(self.pairs());
                }
                Some(SaveRequest { path: path.clone(), contents })
            },
        }
    }

    /// The key pairs held, in order.
    pub fn key_pairs(&self) -> (r: Vec<&AccountKeyPair>)
        ensures
            r@.map_values(|k: &AccountKeyPair| k@) == self.pairs(),
    {
        let mut r: Vec<&AccountKeyPair> = Vec::new();
        let mut i: usize = 0;
        while i < self.keys.len()
            invariant
                i <= self.keys@.len(),
                r@.map_values(|k: &AccountKeyPair| k@) == self.pairs().subrange(0, i as int),
            decreases self.keys@.len() - i,
        {
            let ghost before = r@;
            r.push(&self.keys[i].1);
            proof {
                let ps = self.pairs();
                assert(ps[i as int] == self.keys@[i as int].1@);
                assert(r@.map_values(|k: &AccountKeyPair| k@) =~= before.map_values(
                    |k: &AccountKeyPair| k@,
                ).push(ps[i as int]));
                assert(ps.subrange(0, i + 1) =~= ps.subrange(0, i as int).push(ps[i as int]));
            }
            i = i + 1;
        }
        assert(self.pairs().subrange(0, i as int) =~= self.pairs());
        r
    }
}

impl AccountKeystore for FileBasedKeystore {
    open spec fn entries(&self) -> Seq<KeyPairModel> {
        self.pairs()
    }

    open spec fn location(&self) -> Option<Seq<char>> {
        self.path_view()
    }

    open spec fn persisted(&self) -> Option<(Seq<char>, Seq<char>)> {
        match self.location() {
            Some(p) => Some((p, file_text(self.pairs()))),
            None => None,
        }
    }

    open spec fn inv(&self) -> bool {
        self.wf()
    }

    proof fn lemma_inv(&self) {
    }

    fn sign(&self, address: &SuiAddress, msg: &[u8]) -> (r: Result<Signature, KeystoreError>) {
        match self.find(address) {
            Some(i) => {
                let kp = &self.keys[i].1;
                assert(kp@ == self.pairs()[i as int]);
                Ok(kp.sign(msg))
            },
            None => Err(KeystoreError::KeyNotFound(address.clone())),
        }
    }

    fn add_key(&mut self, keypair: AccountKeyPair) -> (r: Option<SaveRequest>) {
        proof {
            use_type_invariant(&keypair);
        }
        self.insert(keypair);
        self.save()
    }

    fn keys(&self) -> (r: Vec<AccountPublicKey>) {
        let mut r: Vec<AccountPublicKey> = Vec::new();
        let mut i: usize = 0;
        while i < self.keys.len()
            invariant
                i <= self.keys@.len(),
                r@.map_values(|k: AccountPublicKey| k@) == public_keys_of(
                    self.pairs().subrange(0, i as int),
                ),
            decreases self.keys@.len() - i,
        {
            let ghost before = r@;
            let pk = self.keys[i].1.public();
            let ghost pv = pk@;
            r.push(pk);
            proof {
                let ps = self.pairs();
                assert(ps[i as int] == self.keys@[i as int].1@);
                assert(r@.map_values(|k: AccountPublicKey| k@) =~= before.map_values(
                    |k: AccountPublicKey| k@,
                ).push(pv));
                assert(public_keys_of(ps.subrange(0, i + 1)) =~= public_keys_of(
                    ps.subrange(0, i as int),
                ).push(ps[i as int].public));
            }
            i = i + 1;
        }
        assert(self.pairs().subrange(0, i as int) =~= self.pairs());
        r
    }
}

// ---------------------------------------------------------------------------
// Key generation from a seeded source.
// ---------------------------------------------------------------------------

/// Draws a key pair from `rng`: its secret key is the next 32 bytes. Fails
/// with `InsufficientSeed`, drawing nothing, where fewer are left.
pub fn get_key_pair_from_rng(rng: &mut SeededRng) -> (r: Result<(SuiAddress, AccountKeyPair), KeystoreError>)
    requires
        old(rng).wf(),
    ensures
        final(rng).wf(),
        final(rng).seed() == old(rng).seed(),
        KEY_LENGTH <= old(rng).remaining().len() <==> r is Ok,
        r is Ok ==> ({
            let secret = old(rng).remaining().subrange(0, KEY_LENGTH as int);
            &&& r->Ok_0.1.wf()
            &&& r->Ok_0.1@ == KeyPairModel { secret, public: ed25519_public_of(secret) }
            &&& r->Ok_0.0@ == address_of(ed25519_public_of(secret))
            &&& final(rng).consumed() == old(rng).consumed() + KEY_LENGTH
        }),
        r is Err ==> r->Err_0 is InsufficientSeed && final(rng).consumed() == old(rng).consumed(),
{
    let secret = rng.fill_bytes(KEY_LENGTH)?;
    let kp = AccountKeyPair::from_secret(secret.as_slice());
    let address = kp.address();
    Ok((address, kp))
}

// ---------------------------------------------------------------------------
// The facade.
// ---------------------------------------------------------------------------

/// The keystore that the rest of an application uses: it derives mnemonic
/// phrases, imports them, lists keys and addresses, and signs by address.
pub struct SuiKeystore<K: AccountKeystore> {
    backend: K,
}

impl<K: AccountKeystore> SuiKeystore<K> {
    /// The backend.
    pub closed spec fn backend(&self) -> K {
        self.backend
    }

    /// The key pairs held, in listing order.
    pub open spec fn entries(&self) -> Seq<KeyPairModel> {
        self.backend().entries()
    }

    /// The write that persists the current state, if the backend persists.
    pub open spec fn persisted(&self) -> Option<(Seq<char>, Seq<char>)> {
        self.backend().persisted()
    }

    /// Where the backend persists itself, if it does.
    pub open spec fn location(&self) -> Option<Seq<char>> {
        self.backend().location()
    }

    pub open spec fn inv(&self) -> bool {
        self.backend().inv()
    }

    /// Under the invariant, the key pairs held are key pairs and no two have
    /// the same address.
    pub proof fn lemma_inv(&self)
        requires
            self.inv(),
        ensures
            unique_addresses(self.entries()),
            all_wf(self.entries()),
    {
        self.backend().lemma_inv();
    }

    /// The facade over `keystore`.
    pub fn from(keystore: K) -> (r: Self)
        ensures
            r.backend() == keystore,
    {
        SuiKeystore { backend: keystore }
    }

    /// Stores `keypair`, rebuilt from its secret key, and returns the
    /// mnemonic phrase of its secret key with the write that persists the
    /// store. The phrase is handed out here only, and never stored.
    pub fn add_key(&mut self, keypair: AccountKeyPair) -> (r: Result<
        (String, Option<SaveRequest>),
        KeystoreError,
    >)
        requires
            old(self).inv(),
        ensures
            final(self).inv(),
            r is Ok,
            r->Ok_0.0@ == mnemonic_of_entropy(keypair@.secret),
            final(self).entries() == with_key(old(self).entries(), keypair@),
            final(self).location() == old(self).location(),
            save_view(r->Ok_0.1) == final(self).persisted(),
            r->Ok_0.1 is Some ==> loaded_entries(r->Ok_0.1->0.contents@) == Some(
                final(self).entries(),
            ),
    {
        proof {
            use_type_invariant(&keypair);
        }
        let pk = keypair.private();
        let phrase = match mnemonic_from_entropy(pk) {
            Some(p) => p,
            None => {
                return Err(KeystoreError::InvalidEntropy);
            },
        };
        let keypair = AccountKeyPair::from_secret(pk);
        let save = self.backend.add_key(keypair);
        Ok((phrase, save))
    }

    /// The public keys held, in order.
    pub fn keys(&self) -> (r: Vec<AccountPublicKey>)
        requires
            self.inv(),
        ensures
            r@.map_values(|k: AccountPublicKey| k@) == public_keys_of(self.entries()),
    {
        self.backend.keys()
    }

    /// The addresses of the public keys held, in order.
    pub fn addresses(&self) -> (r: Vec<SuiAddress>)
        requires
            self.inv(),
        ensures
            r@.map_values(|a: SuiAddress| a@) == addresses_of(self.entries()),
    {
        let keys = self.keys();
        let ghost pks = public_keys_of(self.entries());
        let mut r: Vec<SuiAddress> = Vec::new();
        let mut i: usize = 0;
        assert(keys@.len() == self.entries().len()) by {
            assert(keys@.map_values(|k: AccountPublicKey| k@).len() == keys@.len());
        }
        while i < keys.len()
            invariant
                i <= keys@.len(),
                keys@.len() == self.entries().len(),
                keys@.map_values(|k: AccountPublicKey| k@) == pks,
                pks == public_keys_of(self.entries()),
                r@.map_values(|a: SuiAddress| a@) == addresses_of(
                    self.entries().subrange(0, i as int),
                ),
            decreases keys@.len() - i,
        {
            let ghost before = r@;
            let a = SuiAddress::from_public_key(&keys[i]);
            let ghost av = a@;
            r.push(a);
            proof {
                let es = self.entries();
                assert(pks[i as int] == keys@[i as int]@);
                assert(pks[i as int] == es[i as int].public);
                assert(r@.map_values(|a: SuiAddress| a@) =~= before.map_values(|a: SuiAddress| a@).push(
                    av,
                ));
                assert(addresses_of(es.subrange(0, i + 1)) =~= addresses_of(
                    es.subrange(0, i as int),
                ).push(address_of_pair(es[i as int])));
            }
            i = i + 1;
        }
        assert(self.entries().subrange(0, i as int) =~= self.entries());
        r
    }

    /// A handle that signs for `signer` through this keystore. It looks the
    /// key up anew at each use.
    pub fn signer(&self, signer: SuiAddress) -> (r: KeystoreSigner<'_, K>)
        ensures
            *r.keystore() == self.backend(),
            r.address() == signer@,
    {
        KeystoreSigner::new(&self.backend, signer)
    }

    /// Imports the key pair of the mnemonic phrase `phrase` and returns its
    /// address with the write that persists the store. Fails with
    /// `InvalidMnemonic`, storing nothing, where the phrase is not valid.
    pub fn import_from_mnemonic(&mut self, phrase: &str) -> (r: Result<
        (SuiAddress, Option<SaveRequest>),
        KeystoreError,
    >)
        requires
            old(self).inv(),
        ensures
            final(self).inv(),
            r is Ok <==> mnemonic_is_valid(phrase@),
            r is Ok ==> ({
                let m = mnemonic_key_pair(phrase@);
                &&& r->Ok_0.0@ == address_of_pair(m)
                &&& final(self).entries() == with_key(old(self).entries(), m)
                &&& final(self).location() == old(self).location()
                &&& save_view(r->Ok_0.1) == final(self).persisted()
                &&& r->Ok_0.1 is Some ==> loaded_entries(r->Ok_0.1->0.contents@) == Some(
                    final(self).entries(),
                )
            }),
            r is Err ==> r->Err_0 is InvalidMnemonic && final(self).backend() == old(
                self,
            ).backend(),
    {
        let seed = match mnemonic_to_seed(phrase) {
            Some(seed) => seed,
            None => {
                return Err(KeystoreError::InvalidMnemonic);
            },
        };
        let mut rng = SeededRng::new(seed);
        proof {
            assert(rng.remaining() =~= mnemonic_seed_of(phrase@));
        }
        let (address, kp) = match get_key_pair_from_rng(&mut rng) {
            Ok(pair) => pair,
            Err(e) => {
                return Err(e);
            },
        };
        let save = self.backend.add_key(kp);
        Ok((address, save))
    }

    /// Signs `msg` with the key pair of `address`.
    pub fn sign(&self, address: &SuiAddress, msg: &[u8]) -> (r: Result<Signature, KeystoreError>)
        requires
            self.inv(),
        ensures
            sign_outcome(self.entries(), address@, msg@, r),
    {
        self.backend.sign(address, msg)
    }
}

/// A handle that signs for one address through a keystore.
pub struct KeystoreSigner<'a, K: AccountKeystore> {
    keystore: &'a K,
    address: SuiAddress,
}

impl<'a, K: AccountKeystore> KeystoreSigner<'a, K> {
    /// The keystore signed through.
    pub closed spec fn keystore(&self) -> &'a K {
        self.keystore
    }

    /// The address signed for.
    pub closed spec fn address(&self) -> Seq<u8> {
        self.address@
    }

    /// A handle that signs for `account` through `keystore`.
    pub fn new(keystore: &'a K, account: SuiAddress) -> (r: Self)
        ensures
            *r.keystore() == *keystore,
            r.address() == account@,
    {
        KeystoreSigner { keystore, address: account }
    }

    /// Signs `msg` with the key pair that the keystore holds for the address
    /// now.
    pub fn try_sign(&self, msg: &[u8]) -> (r: Result<Signature, KeystoreError>)
        requires
            self.keystore().inv(),
        ensures
            sign_outcome(self.keystore().entries(), self.address(), msg@, r),
    {
        self.keystore.sign(&self.address, msg)
    }
}

// ---------------------------------------------------------------------------
// Choosing a keystore.
// ---------------------------------------------------------------------------

/// The view of an optional text.
pub open spec fn text_view(t: Option<&str>) -> Option<Seq<char>> {
    match t {
        Some(s) => Some(s@),
        None => None,
    }
}

/// The key pairs that a keystore file gives, where `contents` is its text
/// (`None`: there is no file, and the keystore starts empty).
pub open spec fn initial_entries(contents: Option<Seq<char>>) -> Option<Seq<KeyPairModel>> {
    match contents {
        Some(t) => loaded_entries(t),
        None => Some(Seq::empty()),
    }
}

/// Where the keys of an application are kept.
#[non_exhaustive]
pub enum KeystoreType {
    /// In the keystore file at this path.
    File(String),
}

impl KeystoreType {
    /// The keystore that this type describes, given the text of its file
    /// (`None`: there is no file yet). Fails with `Corrupted` where the text
    /// is not a keystore file.
    pub fn init(&self, contents: Option<&str>) -> (r: Result<
        SuiKeystore<FileBasedKeystore>,
        KeystoreError,
    >)
        ensures
            r is Ok <==> initial_entries(text_view(contents)) is Some,
            r is Ok ==> r->Ok_0.inv() && r->Ok_0.entries() == initial_entries(
                text_view(contents),
            )->0 && r->Ok_0.backend().path_view() == Some(
                match self {
                    KeystoreType::File(p) => p@,
                },
            ),
            r is Err ==> r->Err_0 is Corrupted,
    {
        match self {
            KeystoreType::File(path) => {
                let store = FileBasedKeystore::load_or_create(path.as_str(), contents)?;
                Ok(SuiKeystore::from(store))
            },
        }
    }
}

// ---------------------------------------------------------------------------
// Laws.
// ---------------------------------------------------------------------------

/// A store that starts empty and takes one key pair holds exactly that key
/// pair: one public key and one address, its own.
pub proof fn lemma_store_one_key(m: KeyPairModel)
    ensures
        with_key(Seq::empty(), m) == seq![m],
        public_keys_of(with_key(Seq::empty(), m)) == seq![m.public],
        addresses_of(with_key(Seq::empty(), m)) == seq![address_of_pair(m)],
{
    let e = Seq::<KeyPairModel>::empty();
    assert(!has_address(e, address_of_pair(m)));
    assert(with_key(e, m) =~= seq![m]);
    assert(public_keys_of(seq![m]) =~= seq![m.public]);
    assert(addresses_of(seq![m]) =~= seq![address_of_pair(m)]);
}

/// Importing a phrase into a fresh keystore leaves exactly the phrase's key
/// pair there: what an import stores depends on the phrase alone, so two
/// fresh keystores that import the same phrase hold the same key pair under
/// the same address.
pub proof fn lemma_import_deterministic(phrase: Seq<char>)
    ensures
        with_key(Seq::empty(), mnemonic_key_pair(phrase)) == seq![mnemonic_key_pair(phrase)],
        addresses_of(with_key(Seq::empty(), mnemonic_key_pair(phrase))) == seq![
            address_of_pair(mnemonic_key_pair(phrase)),
        ],
{
    lemma_store_one_key(mnemonic_key_pair(phrase));
}

/// Storing two key pairs with the same address, one after the other, leaves
/// one entry for that address, the later key pair, and no two entries with
/// one address; the store grows by at most one entry.
pub proof fn lemma_overwrite(s: Seq<KeyPairModel>, m1: KeyPairModel, m2: KeyPairModel)
    requires
        unique_addresses(s),
        all_wf(s),
        key_pair_wf(m1),
        key_pair_wf(m2),
        address_of_pair(m1) == address_of_pair(m2),
    ensures
        ({
            let t = with_key(with_key(s, m1), m2);
            &&& unique_addresses(t)
            &&& lookup(t, address_of_pair(m2)) == Some(m2)
            &&& forall|i: int|
                0 <= i < t.len() && address_of_pair(#[trigger] t[i]) == address_of_pair(m2)
                    ==> t[i] == m2
            &&& t.len() == with_key(s, m1).len()
            &&& t.len() <= s.len() + 1
        }),
{
    let a = address_of_pair(m2);
    let u = with_key(s, m1);
    lemma_with_key(s, m1);
    lemma_with_key(u, m2);
    let t = with_key(u, m2);
    let p = position_of(u, a);
    assert(has_address(u, a));
    assert forall|i: int| 0 <= i < t.len() && address_of_pair(#[trigger] t[i]) == a implies t[i]
        == m2 by {
        lemma_position_unique(t, i);
    }
}

} // verus!
