//! The ways in which a keystore operation fails.

use super::store::StorageError;
use vstd::prelude::*;

verus! {

/// Why a keystore operation failed. No variant carries a passphrase or key material.
#[derive(Clone, Copy, Debug, PartialEq, Eq, Structural)]
pub enum KeyStoreError {
    /// The operation needs a wallet that encrypts its identities, and this one does not.
    WrongState,
    /// The passphrase decrypted none of the stored identities.
    AuthenticationFailed,
    /// The operation needs key material, and the keystore is locked.
    NotUnlocked,
    /// The identity store could not be read.
    Storage(StorageError),
}

} // verus!
