//! The key vault: signing keys under aliases, each bound to the ledger
//! account that its public key derives.
//!
//! A key never changes once stored. Private material stays inside the vault:
//! what leaves it is the public description of a key and signatures.

use vstd::prelude::*;
use vstd::utf8::encode_utf8;
use crate::alias_map::AliasMap;
use crate::bytes::copy_bytes;
use crate::crypto::account_address;
use crate::crypto::address_for;
use crate::crypto::base58_encode;
use crate::crypto::base58_text;
use crate::crypto::public_key_for;
use crate::crypto::random_secret;
use crate::crypto::secp256k1_public_key;
use crate::crypto::secp256k1_sign;
use crate::crypto::sha256;
use crate::crypto::sha256_digest;
use crate::crypto::signature_for;
use crate::error::LedgerError;

verus! {

/// The human-readable prefix of account addresses.
pub const ADDRESS_PREFIX: &'static str = "cosmos";

/// Where the secret of a new key comes from.
#[derive(Clone, Debug, PartialEq, Eq)]
pub enum SeedSource {
    /// Fresh randomness of the operating system.
    Random,
    /// A phrase; the same phrase always gives the same key.
    Mnemonic(String),
}

/// A signing key with the account it controls.
pub struct Key {
    alias: String,
    secret: Vec<u8>,
    public_key: Vec<u8>,
    address: String,
}

pub struct KeyModel {
    pub alias: Seq<char>,
    pub secret: Seq<u8>,
    pub public_key: Seq<u8>,
    pub address: Seq<char>,
}

/// The public description of a key.
#[derive(Clone, Debug, PartialEq, Eq)]
pub struct KeyInfo {
    pub alias: String,
    pub account_id: String,
    pub pub_key: String,
}

pub struct KeyInfoModel {
    pub alias: Seq<char>,
    pub account_id: Seq<char>,
    pub pub_key: Seq<char>,
}

impl View for KeyInfo {
    type V = KeyInfoModel;

    open spec fn view(&self) -> KeyInfoModel {
        KeyInfoModel { alias: self.alias@, account_id: self.account_id@, pub_key: self.pub_key@ }
    }
}

/// The secret that a mnemonic stands for: the SHA-256 digest of its UTF-8
/// bytes.
pub open spec fn mnemonic_secret(mnemonic: Seq<char>) -> Seq<u8> {
    sha256_digest(encode_utf8(mnemonic))
}

/// The key that `secret` gives under `alias`: its public key, and the
/// address of that public key. There is none where the secret is no usable
/// scalar.
pub open spec fn derived(alias: Seq<char>, secret: Seq<u8>) -> Option<KeyModel> {
    match public_key_for(secret) {
        None => None,
        Some(public_key) => match address_for(public_key, ADDRESS_PREFIX@) {
            None => None,
            Some(address) => Some(KeyModel { alias, secret, public_key, address }),
        },
    }
}

/// What a key shows of itself: alias, address, and public key as base58.
pub open spec fn description(key: KeyModel) -> KeyInfoModel {
    KeyInfoModel {
        alias: key.alias,
        account_id: key.address,
        pub_key: base58_text(key.public_key),
    }
}

/// The public key and the address of a key depend on its secret alone, so
/// one mnemonic gives one identity, under whatever alias and in whatever
/// vault it is used.
pub proof fn lemma_mnemonic_fixes_identity(
    alias_a: Seq<char>,
    alias_b: Seq<char>,
    mnemonic: Seq<char>,
)
    ensures
        derived(alias_a, mnemonic_secret(mnemonic)).is_some() == derived(
            alias_b,
            mnemonic_secret(mnemonic),
        ).is_some(),
        derived(alias_a, mnemonic_secret(mnemonic)) matches Some(a) ==> {
            let b = derived(alias_b, mnemonic_secret(mnemonic)).unwrap();
            &&& a.public_key == b.public_key
            &&& a.address == b.address
            &&& description(a).account_id == description(b).account_id
            &&& description(a).pub_key == description(b).pub_key
        },
{
}

impl View for Key {
    type V = KeyModel;

    closed spec fn view(&self) -> KeyModel {
        KeyModel {
            alias: self.alias@,
            secret: self.secret@,
            public_key: self.public_key@,
            address: self.address@,
        }
    }
}

impl Key {
    /// Every key is the one its alias and secret derive.
    #[verifier::type_invariant]
    pub closed spec fn consistent(&self) -> bool {
        derived(self.alias@, self.secret@) == Some(self@)
    }

    /// Derives the key of `secret` under `alias`.
    fn derive(alias: &str, secret: Vec<u8>) -> (made: Option<Key>)
        ensures
            match made {
                Some(key) => derived(alias@, secret@) == Some(key@),
                None => derived(alias@, secret@).is_none(),
            },
    {
        let public_key = match secp256k1_public_key(secret.as_slice()) {
            Some(bytes) => bytes,
            None => {
                return None;
            },
        };
        let address = match account_address(public_key.as_slice(), ADDRESS_PREFIX) {
            Some(text) => text,
            None => {
                return None;
            },
        };
        Some(Key { alias: alias.to_owned(), secret, public_key, address })
    }

    /// A copy of this key.
    fn duplicate(&self) -> (copy: Key)
        ensures
            copy@ == self@,
    {
        proof {
            use_type_invariant(self);
        }
        Key {
            alias: self.alias.clone(),
            secret: copy_bytes(self.secret.as_slice()),
            public_key: copy_bytes(self.public_key.as_slice()),
            address: self.address.clone(),
        }
    }

    /// The alias this key is stored under.
    pub fn alias(&self) -> (alias: &String)
        ensures
            alias@ == self@.alias,
    {
        &self.alias
    }

    /// The compressed public key.
    pub fn public_key(&self) -> (public_key: &Vec<u8>)
        ensures
            public_key@ == self@.public_key,
            public_key_for(self@.secret) == Some(public_key@),
    {
        proof {
            use_type_invariant(self);
        }
        &self.public_key
    }

    /// The account address.
    pub fn address(&self) -> (address: &String)
        ensures
            address@ == self@.address,
            address_for(self@.public_key, ADDRESS_PREFIX@) == Some(address@),
    {
        proof {
            use_type_invariant(self);
        }
        &self.address
    }

    /// The public description of this key.
    pub fn info(&self) -> (info: KeyInfo)
        ensures
            info@ == description(self@),
    {
        KeyInfo {
            alias: self.alias.clone(),
            account_id: self.address.clone(),
            pub_key: base58_encode(self.public_key.as_slice()),
        }
    }
}

/// The keys of one wallet.
pub struct KeyVault {
    keys: AliasMap<Key>,
}

impl KeyVault {
    /// Every key is stored under its own alias, and no alias is empty.
    #[verifier::type_invariant]
    pub closed spec fn filed(&self) -> bool {
        &&& self.keys.aliases().len() == self.keys.values().len()
        &&& forall|i: int|
            0 <= i < self.keys.aliases().len() ==> (#[trigger] self.keys.values()[i])@.alias
                == self.keys.aliases()[i]
        &&& forall|i: int|
            0 <= i < self.keys.aliases().len() ==> (#[trigger] self.keys.aliases()[i]).len() > 0
    }

    /// No key is stored under the empty alias.
    proof fn lemma_no_empty_alias(&self, alias: Seq<char>)
        requires
            self.filed(),
            alias.len() == 0,
        ensures
            !self.contains(alias),
    {
        if self.contains(alias) {
            let i = choose|i: int|
                0 <= i < self.aliases().len() && #[trigger] self.aliases()[i] == alias;
            assert(self.keys.aliases()[i].len() > 0);
        }
    }

    /// The aliases in the vault, in the order in which the keys were stored.
    pub closed spec fn aliases(&self) -> Seq<Seq<char>> {
        self.keys.aliases()
    }

    /// The keys in the vault, each at the position of its alias.
    pub closed spec fn keys(&self) -> Seq<KeyModel> {
        Seq::new(self.keys.values().len(), |i: int| self.keys.values()[i]@)
    }

    /// Whether a key is stored under `alias`.
    pub open spec fn contains(&self, alias: Seq<char>) -> bool {
        exists|i: int| 0 <= i < self.aliases().len() && #[trigger] self.aliases()[i] == alias
    }

    /// The key stored under `alias`, where there is one.
    pub open spec fn key_of(&self, alias: Seq<char>) -> KeyModel {
        self.keys()[choose|i: int|
            0 <= i < self.aliases().len() && #[trigger] self.aliases()[i] == alias]
    }

    /// The vault is the same as `other`: same aliases, same keys.
    pub open spec fn same_as(&self, other: &KeyVault) -> bool {
        self.aliases() == other.aliases() && self.keys() == other.keys()
    }

    /// An empty vault.
    pub fn new() -> (vault: Self)
        ensures
            vault.aliases() == Seq::<Seq<char>>::empty(),
            vault.keys() == Seq::<KeyModel>::empty(),
    {
        let vault = KeyVault { keys: AliasMap::new() };
        assert(vault.keys() =~= Seq::<KeyModel>::empty());
        vault
    }

    /// Stores the key that `secret` derives under `alias`, and gives a copy
    /// of it.
    ///
    /// Fails without touching the vault: on an empty alias, on an alias
    /// that is taken, and on a secret that derives no key.
    pub fn create_from_secret(&mut self, alias: &str, secret: Vec<u8>) -> (created: Result<
        Key,
        LedgerError,
    >)
        ensures
            old(self).contains(alias@) ==> created == Err::<Key, LedgerError>(
                LedgerError::DuplicateAlias,
            ),
            match created {
                Ok(key) => {
                    &&& alias@.len() > 0
                    &&& !old(self).contains(alias@)
                    &&& derived(alias@, secret@) == Some(key@)
                    &&& final(self).aliases() == old(self).aliases().push(alias@)
                    &&& final(self).keys() == old(self).keys().push(key@)
                    &&& final(self).contains(alias@)
                    &&& final(self).key_of(alias@) == key@
                },
                Err(e) => {
                    &&& final(self).same_as(old(self))
                    &&& e == if alias@.len() == 0 {
                        LedgerError::InvalidAlias
                    } else if old(self).contains(alias@) {
                        LedgerError::DuplicateAlias
                    } else {
                        LedgerError::KeyDerivationFailure
                    }
                    &&& alias@.len() > 0 && !old(self).contains(alias@) ==> derived(
                        alias@,
                        secret@,
                    ).is_none()
                },
            },
    {
        proof {
            use_type_invariant(&*self);
        }
        if alias.is_empty() {
            proof {
                self.lemma_no_empty_alias(alias@);
            }
            return Err(LedgerError::InvalidAlias);
        }
        match self.keys.find(alias) {
            Some(at) => {
                assert(self.aliases()[at as int] == alias@);
                return Err(LedgerError::DuplicateAlias);
            },
            None => {},
        }
        let key = match Key::derive(alias, secret) {
            Some(key) => key,
            None => {
                return Err(LedgerError::KeyDerivationFailure);
            },
        };
        let copy = key.duplicate();
        let mut keys: AliasMap<Key> = AliasMap::new();
        std::mem::swap(&mut keys, &mut self.keys);
        let ghost before = keys;
        let added = keys.add(alias.to_owned(), key);
        proof {
            assert(added);
            assert forall|i: int| 0 <= i < keys.aliases().len() implies (
            #[trigger] keys.values()[i])@.alias == keys.aliases()[i] by {
                if i < before.aliases().len() {
                    assert(keys.values()[i] == before.values()[i]);
                }
            }
        }
        self.keys = keys;
        proof {
            assert(self.keys() =~= old(self).keys().push(copy@));
            let last = self.aliases().len() - 1;
            assert(self.aliases()[last] == alias@);
            use_type_invariant(&self.keys);
            self.keys.lemma_shape();
        }
        Ok(copy)
    }

    /// Creates a key under `alias` and stores it before returning it.
    ///
    /// A mnemonic gives the key of [`mnemonic_secret`]; the random source
    /// gives the key of whatever secret was drawn. Fails with
    /// `InvalidAlias` on an empty alias, with `DuplicateAlias` where the
    /// alias is taken, with `InvalidMnemonic` on an empty mnemonic, and with
    /// `KeyDerivationFailure` where the secret derives no key. A failed call
    /// leaves the vault untouched.
    pub fn create(&mut self, alias: &str, seed: &SeedSource) -> (created: Result<Key, LedgerError>)
        ensures
            alias@.len() == 0 ==> created == Err::<Key, LedgerError>(LedgerError::InvalidAlias),
            old(self).contains(alias@) ==> created == Err::<Key, LedgerError>(
                LedgerError::DuplicateAlias,
            ),
            match created {
                Ok(key) => {
                    &&& alias@.len() > 0
                    &&& !old(self).contains(alias@)
                    &&& derived(alias@, key@.secret) == Some(key@)
                    &&& final(self).aliases() == old(self).aliases().push(alias@)
                    &&& final(self).keys() == old(self).keys().push(key@)
                    &&& final(self).contains(alias@)
                    &&& final(self).key_of(alias@) == key@
                },
                Err(_) => final(self).same_as(old(self)),
            },
            match *seed {
                SeedSource::Mnemonic(phrase) => match created {
                    Ok(key) => phrase@.len() > 0 && derived(alias@, mnemonic_secret(phrase@))
                        == Some(key@),
                    Err(e) => e == if alias@.len() == 0 {
                        LedgerError::InvalidAlias
                    } else if old(self).contains(alias@) {
                        LedgerError::DuplicateAlias
                    } else if phrase@.len() == 0 {
                        LedgerError::InvalidMnemonic
                    } else {
                        LedgerError::KeyDerivationFailure
                    } && (alias@.len() > 0 && !old(self).contains(alias@) && phrase@.len() > 0
                        ==> derived(alias@, mnemonic_secret(phrase@)).is_none()),
                },
                SeedSource::Random => created matches Err(e) ==> e == if alias@.len() == 0 {
                    LedgerError::InvalidAlias
                } else if old(self).contains(alias@) {
                    LedgerError::DuplicateAlias
                } else {
                    LedgerError::KeyDerivationFailure
                },
            },
    {
        proof {
            use_type_invariant(&*self);
        }
        if alias.is_empty() {
            proof {
                self.lemma_no_empty_alias(alias@);
            }
            return Err(LedgerError::InvalidAlias);
        }
        match self.keys.find(alias) {
            Some(at) => {
                assert(self.aliases()[at as int] == alias@);
                return Err(LedgerError::DuplicateAlias);
            },
            None => {},
        }
        match seed {
            SeedSource::Random => self.create_from_secret(alias, random_secret()),
            SeedSource::Mnemonic(phrase) => {
                if phrase.as_str().is_empty() {
                    return Err(LedgerError::InvalidMnemonic);
                }
                let secret = sha256(phrase.as_str().as_bytes());
                self.create_from_secret(alias, secret)
            },
        }
    }

    /// A copy of the key stored under `alias`; `KeyNotFound` where there is
    /// none.
    pub fn load(&self, alias: &str) -> (loaded: Result<Key, LedgerError>)
        ensures
            match loaded {
                Ok(key) => self.contains(alias@) && key@ == self.key_of(alias@) && key@.alias
                    == alias@,
                Err(e) => !self.contains(alias@) && e == LedgerError::KeyNotFound,
            },
    {
        proof {
            use_type_invariant(self);
            use_type_invariant(&self.keys);
            self.keys.lemma_shape();
        }
        match self.keys.find(alias) {
            Some(at) => {
                let key = self.keys.value_at(at);
                proof {
                    assert(self.keys()[at as int] == key@);
                    assert(key@.alias == self.keys.aliases()[at as int]);
                }
                Ok(key.duplicate())
            },
            None => Err(LedgerError::KeyNotFound),
        }
    }

    /// The public description of the key stored under `alias`.
    pub fn describe(&self, alias: &str) -> (info: Result<KeyInfo, LedgerError>)
        ensures
            match info {
                Ok(info) => self.contains(alias@) && info@ == description(self.key_of(alias@)),
                Err(e) => !self.contains(alias@) && e == LedgerError::KeyNotFound,
            },
    {
        match self.load(alias) {
            Ok(key) => Ok(key.info()),
            Err(e) => Err(e),
        }
    }

    /// The public descriptions of all keys, in the order in which they were
    /// stored.
    pub fn list_all(&self) -> (infos: Vec<KeyInfo>)
        ensures
            infos@.len() == self.keys().len(),
            forall|i: int| 0 <= i < infos@.len() ==> (#[trigger] infos@[i])@ == description(
                self.keys()[i],
            ),
    {
        let mut infos: Vec<KeyInfo> = Vec::new();
        let mut i: usize = 0;
        while i < self.keys.len()
            invariant
                i <= self.keys.values().len(),
                self.keys.values().len() == self.keys().len(),
                infos@.len() == i,
                forall|j: int| 0 <= j < i ==> (#[trigger] infos@[j])@ == description(self.keys()[j]),
            decreases self.keys.values().len() - i,
        {
            let info = self.keys.value_at(i).info();
            infos.push(info);
            i += 1;
        }
        infos
    }

    /// Signs exactly `payload` with the key stored under `alias`.
    ///
    /// The bytes are not looked into. Fails with `KeyNotFound` where no key
    /// is stored under the alias and with `SigningFailure` where the signer
    /// gives no signature; reads the vault and changes nothing.
    pub fn sign(&self, alias: &str, payload: &[u8]) -> (signed: Result<Vec<u8>, LedgerError>)
        ensures
            match signed {
                Ok(signature) => self.contains(alias@) && signature_for(
                    self.key_of(alias@).secret,
                    payload@,
                ) == Some(signature@),
                Err(e) => if self.contains(alias@) {
                    e == LedgerError::SigningFailure && signature_for(
                        self.key_of(alias@).secret,
                        payload@,
                    ).is_none()
                } else {
                    e == LedgerError::KeyNotFound
                },
            },
    {
        proof {
            use_type_invariant(self);
            use_type_invariant(&self.keys);
            self.keys.lemma_shape();
        }
        match self.keys.find(alias) {
            None => Err(LedgerError::KeyNotFound),
            Some(at) => {
                let key = self.keys.value_at(at);
                proof {
                    assert(self.keys()[at as int] == key@);
                }
                match secp256k1_sign(key.secret.as_slice(), payload) {
                    Some(signature) => Ok(signature),
                    None => Err(LedgerError::SigningFailure),
                }
            },
        }
    }
}

/// Creating a key under an alias that is taken fails with `DuplicateAlias`
/// and leaves every stored key as it was, as often as it is tried: the
/// condition that makes the call fail still holds after it.
pub proof fn lemma_duplicate_stays_duplicate(before: &KeyVault, after: &KeyVault, alias: Seq<char>)
    requires
        before.contains(alias),
        after.same_as(before),
    ensures
        after.contains(alias),
        after.key_of(alias) == before.key_of(alias),
{
    let i = choose|i: int| 0 <= i < before.aliases().len() && #[trigger] before.aliases()[i] == alias;
    assert(after.aliases()[i] == alias);
}

} // verus!
