//! Decrypted key material, held in memory for as long as the keystore is unlocked.

use super::index::FingerprintIndex;
use vstd::prelude::*;
use vstd::string::*;

verus! {

/// Decrypted identities, each under its seed fingerprint.
///
/// The material is overwritten with zeros when it is wiped and when it is dropped. It
/// has no equality and no debug representation; [`SecretMaterial::redacted`] stands for
/// both.
pub struct SecretMaterial {
    identities: FingerprintIndex,
}

impl View for SecretMaterial {
    type V = Map<Seq<u8>, Seq<u8>>;

    closed spec fn view(&self) -> Map<Seq<u8>, Seq<u8>> {
        self.identities@
    }
}

impl SecretMaterial {
    /// Material that holds nothing.
    pub fn new() -> (material: SecretMaterial)
        ensures
            material@ == Map::<Seq<u8>, Seq<u8>>::empty(),
    {
        SecretMaterial { identities: FingerprintIndex::new() }
    }

    /// Takes `secret` in under `fingerprint`. What was held there before is overwritten
    /// with zeros.
    pub fn insert(&mut self, fingerprint: [u8; 32], secret: Vec<u8>)
        ensures
            final(self)@ == old(self)@.insert(fingerprint@, secret@),
    {
        match self.identities.insert(fingerprint, secret) {
            Some(replaced) => {
                let mut scrap = FingerprintIndex::new();
                scrap.insert(fingerprint, replaced);
                scrap.wipe();
            },
            None => {},
        }
    }

    /// Whether nothing is held.
    pub fn is_empty(&self) -> (r: bool)
        ensures
            r == (self@ == Map::<Seq<u8>, Seq<u8>>::empty()),
    {
        self.identities.is_empty()
    }

    /// Lends the identity held under `fingerprint`, found by bisection.
    pub fn get(&self, fingerprint: &[u8; 32]) -> (r: Option<&Vec<u8>>)
        ensures
            match r {
                Some(secret) => self@.contains_key(fingerprint@) && self@[fingerprint@] == secret@,
                None => !self@.contains_key(fingerprint@),
            },
    {
        self.identities.get(fingerprint)
    }

    /// Overwrites all that is held with zeros; nothing is held afterwards.
    pub fn wipe(&mut self)
        ensures
            final(self)@ == Map::<Seq<u8>, Seq<u8>>::empty(),
        opens_invariants none
        no_unwind
    {
        self.identities.wipe();
    }

    /// What may be shown of the material: the same text whatever is held.
    pub fn redacted(&self) -> (text: String)
        ensures
            text@ == "SecretMaterial([REDACTED])"@,
    {
        String::from_str("SecretMaterial([REDACTED])")
    }
}

impl Drop for SecretMaterial {
    fn drop(&mut self)
        opens_invariants none
        no_unwind
    {
        self.identities.wipe();
    }
}

} // verus!
