//! Passphrase-based decryption of the stored mnemonics.

use super::index::FingerprintIndex;
use super::secret::SecretMaterial;
use age::secrecy::SecretString;
use vstd::prelude::*;

verus! {

/// `age::scrypt::Identity`, the identity that a passphrase stands for. It is carried
/// from the call that makes it to the calls that decrypt with it; nothing is known of
/// what it holds.
#[verifier::external_type_specification]
#[verifier::external_body]
pub struct ExScryptIdentity(age::scrypt::Identity);

/// `age::DecryptError`, the reason for which age did not decrypt a file. It is dropped
/// unread.
#[verifier::external_type_specification]
#[verifier::external_body]
pub struct ExDecryptError(age::DecryptError);

/// Derives the passphrase's identity with `age::scrypt::Identity::new`, from a copy of
/// the passphrase that is overwritten with zeros when the identity is dropped.
///
/// Nothing is claimed of the identity: the work factor up to which it decrypts is
/// measured on the machine that runs it.
#[verifier::external_body]
fn passphrase_identity(passphrase: &str) -> age::scrypt::Identity {
    age::scrypt::Identity::new(SecretString::from(passphrase))
}

/// Decrypts one age file with `age::decrypt`.
///
/// Nothing is claimed of the outcome: whether the identity decrypts the file depends on
/// the work factor that the identity accepts.
#[verifier::external_body]
fn decrypt_with(identity: &age::scrypt::Identity, ciphertext: &Vec<u8>) -> Result<
    Vec<u8>,
    age::DecryptError,
> {
    age::decrypt(identity, ciphertext.as_slice())
}

/// Takes in what decrypting the mnemonic under `fingerprint` gave: the plaintext where
/// it was decrypted, and nothing where it was not.
///
/// Why a mnemonic did not decrypt is not told apart, and not kept.
pub fn keep_decrypted(
    material: &mut SecretMaterial,
    fingerprint: [u8; 32],
    outcome: Result<Vec<u8>, age::DecryptError>,
)
    ensures
        match outcome {
            Ok(plaintext) => final(material)@ == old(material)@.insert(fingerprint@, plaintext@),
            Err(_) => final(material)@ == old(material)@,
        },
{
    match outcome {
        Ok(plaintext) => {
            material.insert(fingerprint, plaintext);
        },
        Err(_) => {},
    }
}

/// Tries the passphrase on every stored mnemonic and collects those that it decrypts,
/// each under the seed fingerprint of its ciphertext: see [`keep_decrypted`] for what
/// is collected of each attempt.
///
/// Which mnemonics the passphrase decrypts is for age to say, on the machine that runs
/// it. Whatever it says, nothing is collected under a fingerprint that is not stored.
pub fn decrypt_all(mnemonics: &FingerprintIndex, passphrase: &str) -> (material: SecretMaterial)
    ensures
        material@.dom().subset_of(mnemonics@.dom()),
{
    let identity = passphrase_identity(passphrase);
    let mut material = SecretMaterial::new();
    let n = mnemonics.len();
    let mut i: usize = 0;
    while i < n
        invariant
            material@.dom().subset_of(mnemonics@.dom()),
        decreases n - i,
    {
        match mnemonics.entry_at(i) {
            Some((fingerprint, ciphertext)) => {
                let outcome = decrypt_with(&identity, ciphertext);
                keep_decrypted(&mut material, *fingerprint, outcome);
            },
            None => {},
        }
        i += 1;
    }
    material
}

} // verus!
