//! The keystore: encrypted key material at rest, decrypted on demand for a bounded
//! window of time.
//!
//! [`KeyStore`] is the one entry point. It owns the unlock state, and every change of
//! that state is one call that takes the keystore by `&mut`: callers that share a
//! keystore put it behind one lock, and no caller sees a change half made.

pub mod config;
pub mod db;
pub mod decrypt;
pub mod error;
pub mod expiry;
pub mod fingerprint;
pub mod index;
pub mod laws;
pub mod secret;
pub mod state;
pub mod store;

use config::{KeyStoreConfig, KeyStoreConfigView};
use db::{IdentityRecord, RecipientRecord, RecipientRecordView};
use decrypt::decrypt_all;
use error::KeyStoreError;
use secret::SecretMaterial;
use state::{StateView, UnlockState};
use store::{distinct_fingerprints, indexes, IdentityStore, StorageError};
use vstd::prelude::*;

verus! {

/// A keystore as plain values.
pub ghost struct KeyStoreView {
    pub config: KeyStoreConfigView,
    /// The stored mnemonics, each under its seed fingerprint.
    pub identities: Map<Seq<u8>, Seq<u8>>,
    /// The stored recipients, in the order in which they were read.
    pub recipients: Seq<RecipientRecordView>,
    pub state: StateView,
}

impl KeyStoreView {
    /// Whether the state fits the configuration.
    pub open spec fn wf(self) -> bool {
        &&& self.state.wf()
        &&& self.config.uses_encryption <==> !(self.state is Unencrypted)
    }

    /// The keystore after an attempt to unlock: see [`StateView::unlock_with`].
    pub open spec fn unlock_with(
        self,
        material: Map<Seq<u8>, Seq<u8>>,
        timeout: int,
        now: int,
    ) -> KeyStoreView {
        KeyStoreView { state: self.state.unlock_with(material, timeout, now), ..self }
    }

    /// The keystore after an explicit relock.
    pub open spec fn lock(self) -> KeyStoreView {
        KeyStoreView { state: self.state.lock(), ..self }
    }

    /// The keystore after the clock was found to stand at `now`.
    pub open spec fn expire(self, now: int) -> KeyStoreView {
        KeyStoreView { state: self.state.expire(now), ..self }
    }

    /// What a request for the identity under `fingerprint` is answered with at `now`.
    ///
    /// A locked keystore refuses. An unlocked one answers from the decrypted material,
    /// and one without encryption from the store itself.
    pub open spec fn secret(self, fingerprint: Seq<u8>, now: int) -> Result<
        Option<Seq<u8>>,
        KeyStoreError,
    > {
        if self.state is Unencrypted {
            Ok(lookup(self.identities, fingerprint))
        } else {
            match self.state.material(now) {
                Some(material) => Ok(lookup(material, fingerprint)),
                None => Err(KeyStoreError::NotUnlocked),
            }
        }
    }
}

/// What `map` holds under `key`.
pub open spec fn lookup(map: Map<Seq<u8>, Seq<u8>>, key: Seq<u8>) -> Option<Seq<u8>> {
    if map.contains_key(key) {
        Some(map[key])
    } else {
        None
    }
}

/// The keystore: configuration, identity store and unlock state.
pub struct KeyStore {
    config: KeyStoreConfig,
    store: IdentityStore,
    state: UnlockState,
}

impl View for KeyStore {
    type V = KeyStoreView;

    closed spec fn view(&self) -> KeyStoreView {
        KeyStoreView {
            config: self.config@,
            identities: self.store.identities(),
            recipients: self.store.recipients(),
            state: self.state@,
        }
    }
}

impl KeyStore {
    #[verifier::type_invariant]
    spec fn state_fits_config(self) -> bool {
        self.config@.uses_encryption <==> !(self.state@ is Unencrypted)
    }

    /// A keystore over `store`: locked if the identities are encrypted, and in no need of
    /// unlocking if they are not.
    pub fn new(config: KeyStoreConfig, store: IdentityStore) -> (keystore: KeyStore)
        ensures
            keystore@ == (KeyStoreView {
                config: config@,
                identities: store.identities(),
                recipients: store.recipients(),
                state: StateView::initial(config@.uses_encryption),
            }),
            keystore@.wf(),
    {
        let state = UnlockState::new(config.uses_encryption());
        KeyStore { config, store, state }
    }

    /// A keystore over what the reads of the two tables gave: see
    /// [`IdentityStore::open`]. Where the identity store cannot be built, its error is
    /// the keystore's.
    pub fn open(
        config: KeyStoreConfig,
        identities: Result<Vec<IdentityRecord>, StorageError>,
        recipients: Result<Vec<RecipientRecord>, StorageError>,
    ) -> (r: Result<KeyStore, KeyStoreError>)
        ensures
            match (identities, recipients) {
                (Err(e), _) => r matches Err(failure) && failure == KeyStoreError::Storage(e),
                (Ok(_), Err(e)) => r matches Err(failure) && failure == KeyStoreError::Storage(e),
                (Ok(rows), Ok(others)) => {
                    let row_views = rows@.map_values(|row: IdentityRecord| row@);
                    if distinct_fingerprints(row_views) {
                        &&& r matches Ok(keystore)
                        &&& keystore@.wf()
                        &&& keystore@.config == config@
                        &&& indexes(keystore@.identities, row_views)
                        &&& keystore@.recipients == others@.map_values(|o: RecipientRecord| o@)
                        &&& keystore@.state == StateView::initial(config@.uses_encryption)
                    } else {
                        r matches Err(failure) && failure == KeyStoreError::Storage(
                            StorageError::DuplicateFingerprint,
                        )
                    }
                },
            },
    {
        match IdentityStore::open(identities, recipients) {
            Ok(store) => Ok(KeyStore::new(config, store)),
            Err(e) => Err(KeyStoreError::Storage(e)),
        }
    }

    /// Whether the identities are encrypted with a passphrase.
    pub fn uses_encrypted_identities(&self) -> (r: bool)
        ensures
            r == self@.config.uses_encryption,
    {
        self.config.uses_encryption()
    }

    /// Tries the passphrase on every stored mnemonic: the answer holds what it decrypts,
    /// each under the seed fingerprint of its ciphertext. A keystore without encryption
    /// tries nothing.
    ///
    /// This changes nothing, and may take long: callers that share the keystore can run
    /// it before they take the keystore for themselves to call
    /// [`KeyStore::unlock_with`].
    pub fn decrypt(&self, passphrase: &str) -> (material: SecretMaterial)
        ensures
            material@.dom().subset_of(self@.identities.dom()),
            !self@.config.uses_encryption ==> material@ == Map::<Seq<u8>, Seq<u8>>::empty(),
    {
        if !self.config.uses_encryption() {
            let material = SecretMaterial::new();
            assert(material@.dom() =~= Set::<Seq<u8>>::empty());
            return material;
        }
        decrypt_all(self.store.index(), passphrase)
    }

    /// Unlocks the keystore at `now` for `timeout` seconds with the passphrase.
    ///
    /// The passphrase is tried on every stored mnemonic, and the keystore is unlocked
    /// with all that it decrypts: see [`KeyStore::unlock_with`] for what follows from
    /// them. A keystore without encryption is left as it is, no mnemonic is tried, and
    /// the answer is `true`, whatever the timeout.
    pub fn unlock(&mut self, passphrase: &str, timeout: u64, now: u64) -> (ok: bool)
        requires
            old(self)@.config.uses_encryption ==> now + timeout <= u64::MAX,
        ensures
            final(self)@.wf(),
            !old(self)@.config.uses_encryption ==> ok && final(self)@ == old(self)@,
            exists|material: Map<Seq<u8>, Seq<u8>>|
                {
                    &&& material.dom().subset_of(old(self)@.identities.dom())
                    &&& ok == #[trigger] old(self)@.state.unlock_succeeds(material)
                    &&& final(self)@ == old(self)@.unlock_with(material, timeout as int, now as int)
                },
    {
        proof {
            use_type_invariant(&*self);
        }
        if !self.config.uses_encryption() {
            self.state.check();
            proof {
                let nothing = Map::<Seq<u8>, Seq<u8>>::empty();
                assert(nothing.dom().subset_of(self@.identities.dom()));
                assert(self@.state.unlock_succeeds(nothing));
                assert(self@ == self@.unlock_with(nothing, timeout as int, now as int));
            }
            return true;
        }
        let material = self.decrypt(passphrase);
        let ghost decrypted = material@;
        let ok = self.unlock_with(material, timeout, now);
        proof {
            assert(ok == old(self)@.state.unlock_succeeds(decrypted));
        }
        ok
    }

    /// Unlocks the keystore at `now` for `timeout` seconds with what a passphrase
    /// decrypted.
    ///
    /// With no identity in `material` the passphrase was wrong: the answer is `false`
    /// and the keystore is left as it is. Otherwise the keystore holds `material` until
    /// `now + timeout`, whatever it held before, and the answer is `true`. A keystore
    /// without encryption is left as it is, and the answer is `true`.
    ///
    /// The end of the window has to be a time that can be counted, where a window is
    /// opened; an attempt that opens none may come with any timeout.
    pub fn unlock_with(&mut self, material: SecretMaterial, timeout: u64, now: u64) -> (ok: bool)
        requires
            old(self)@.config.uses_encryption && material@ != Map::<Seq<u8>, Seq<u8>>::empty()
                ==> now + timeout <= u64::MAX,
        ensures
            ok == old(self)@.state.unlock_succeeds(material@),
            final(self)@ == old(self)@.unlock_with(material@, timeout as int, now as int),
            final(self)@.wf(),
    {
        proof {
            use_type_invariant(&*self);
        }
        let mut state = UnlockState::new(self.config.uses_encryption());
        std::mem::swap(&mut state, &mut self.state);
        let ok = state.unlock_with(material, timeout, now);
        self.state = state;
        ok
    }

    /// Answers a request to unlock: as [`KeyStore::unlock`], but a keystore without
    /// encryption refuses the request, and a wrong passphrase is an error.
    pub fn request_unlock(&mut self, passphrase: &str, timeout: u64, now: u64) -> (r: Result<
        (),
        KeyStoreError,
    >)
        requires
            old(self)@.config.uses_encryption ==> now + timeout <= u64::MAX,
        ensures
            final(self)@.wf(),
            !old(self)@.config.uses_encryption ==> r == Err::<(), KeyStoreError>(
                KeyStoreError::WrongState,
            ) && final(self)@ == old(self)@,
            old(self)@.config.uses_encryption ==> exists|material: Map<Seq<u8>, Seq<u8>>|
                {
                    &&& material.dom().subset_of(old(self)@.identities.dom())
                    &&& r == unlock_answer(#[trigger] old(self)@.state.unlock_succeeds(material))
                    &&& final(self)@ == old(self)@.unlock_with(material, timeout as int, now as int)
                },
    {
        if !self.uses_encrypted_identities() {
            self.check();
            return Err(KeyStoreError::WrongState);
        }
        if !self.unlock(passphrase, timeout, now) {
            return Err(KeyStoreError::AuthenticationFailed);
        }
        Ok(())
    }

    /// Relocks at once. The key material is overwritten with zeros before this returns.
    /// A keystore that is locked already, or has no encryption, is left as it is.
    pub fn lock(&mut self)
        ensures
            final(self)@ == old(self)@.lock(),
            final(self)@.wf(),
    {
        proof {
            use_type_invariant(&*self);
        }
        let mut state = UnlockState::new(self.config.uses_encryption());
        std::mem::swap(&mut state, &mut self.state);
        state.lock();
        self.state = state;
    }

    /// Relocks if the unlock window has passed at `now`, and overwrites the key material
    /// with zeros if it does. Otherwise the keystore is left as it is.
    pub fn expire(&mut self, now: u64)
        ensures
            final(self)@ == old(self)@.expire(now as int),
            final(self)@.wf(),
    {
        proof {
            use_type_invariant(&*self);
        }
        let mut state = UnlockState::new(self.config.uses_encryption());
        std::mem::swap(&mut state, &mut self.state);
        state.expire(now);
        self.state = state;
    }

    /// The end of the unlock window, unless the keystore is locked at `now` or has no
    /// encryption. A time that has passed is never reported.
    pub fn unlocked_until(&self, now: u64) -> (r: Option<u64>)
        ensures
            match r {
                Some(until) => self@.state.unlocked_until(now as int) == Some(until as int),
                None => self@.state.unlocked_until(now as int) is None,
            },
    {
        self.state.unlocked_until(now)
    }

    /// Whether key material is out of reach at `now`.
    pub fn is_locked(&self, now: u64) -> (r: bool)
        ensures
            r == self@.state.is_locked(now as int),
    {
        self.state.is_locked(now)
    }

    /// Lends the identity under `fingerprint` for as long as the keystore is borrowed.
    ///
    /// A keystore that is locked at `now` refuses with `NotUnlocked`. Nothing is
    /// changed by asking.
    pub fn secret(&self, fingerprint: &[u8; 32], now: u64) -> (r: Result<
        Option<&Vec<u8>>,
        KeyStoreError,
    >)
        ensures
            match r {
                Ok(Some(bytes)) => self@.secret(fingerprint@, now as int) == Ok::<
                    Option<Seq<u8>>,
                    KeyStoreError,
                >(Some(bytes@)),
                Ok(None) => self@.secret(fingerprint@, now as int) == Ok::<
                    Option<Seq<u8>>,
                    KeyStoreError,
                >(None),
                Err(e) => self@.secret(fingerprint@, now as int) == Err::<
                    Option<Seq<u8>>,
                    KeyStoreError,
                >(e),
            },
    {
        proof {
            use_type_invariant(self);
        }
        if !self.config.uses_encryption() {
            return Ok(self.store.encrypted_mnemonic(fingerprint));
        }
        match self.state.material(now) {
            Some(material) => Ok(material.get(fingerprint)),
            None => Err(KeyStoreError::NotUnlocked),
        }
    }

    /// The end of the unlock window, whether or not it has passed: the time for which
    /// a timer that relocks the keystore is to be set.
    pub fn deadline(&self) -> (r: Option<u64>)
        ensures
            match r {
                Some(until) => self@.state.deadline() == Some(until as int),
                None => self@.state.deadline() is None,
            },
    {
        self.state.deadline()
    }

    /// Shows that the keystore is well formed: it is so by construction.
    pub(crate) fn check(&self)
        ensures
            self@.wf(),
    {
        proof {
            use_type_invariant(self);
        }
        self.state.check();
    }

    /// The configuration.
    pub fn config(&self) -> (r: &KeyStoreConfig)
        ensures
            r@ == self@.config,
    {
        &self.config
    }

    /// The identity store.
    pub fn store(&self) -> (r: &IdentityStore)
        ensures
            r.identities() == self@.identities,
            r.recipients() == self@.recipients,
    {
        &self.store
    }

    /// The unlock state.
    pub fn state(&self) -> (r: &UnlockState)
        ensures
            r@ == self@.state,
    {
        &self.state
    }
}

/// The answer to a request to unlock a keystore with encryption.
pub open spec fn unlock_answer(unlocked: bool) -> Result<(), KeyStoreError> {
    if unlocked {
        Ok(())
    } else {
        Err(KeyStoreError::AuthenticationFailed)
    }
}

} // verus!
