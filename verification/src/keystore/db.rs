//! The keystore's tables and the records that are read from them.
//!
//! The SQL in this module's constants is the structure of the two tables as SQLite
//! holds it. The keystore only reads these tables.

use super::store::StorageError;
use vstd::prelude::*;

verus! {

/// Stores the age recipients for the wallet's identity file.
///
/// ### Columns
///
/// - `recipient` is the string encoding of an age recipient.
/// - `added`: The time at which the recipient was added to the wallet, as a string in the
///   format `yyyy-MM-dd HH:mm:ss.fffffffzzz`.
pub const TABLE_AGE_RECIPIENTS: &'static str = r#"
CREATE TABLE ext_zallet_keystore_age_recipients (
    recipient STRING NOT NULL,
    added TEXT NOT NULL
)
"#;

/// Stores encrypted mnemonic seed phrases.
///
/// ### Columns
///
/// - `hd_seed_fingerprint` is the ZIP 32 fingerprint for the seed derived from a BIP 39
///   mnemonic phrase. It is unique, so that the mnemonic that is needed is found by its
///   fingerprint rather than by trial-decrypting every mnemonic.
/// - `encrypted_mnemonic` is a BIP 39 mnemonic phrase in an age encrypted file.
pub const TABLE_MNEMONICS: &'static str = r#"
CREATE TABLE ext_zallet_keystore_mnemonics (
    hd_seed_fingerprint BLOB NOT NULL UNIQUE,
    encrypted_mnemonic BLOB NOT NULL
)
"#;

/// One row of the mnemonics table.
#[derive(Clone, Debug)]
pub struct IdentityRecord {
    pub seed_fingerprint: [u8; 32],
    pub encrypted_mnemonic: Vec<u8>,
}

/// One row of the recipients table.
#[derive(Clone, Debug)]
pub struct RecipientRecord {
    pub recipient: String,
    pub added: String,
}

/// An [`IdentityRecord`] as plain values.
pub ghost struct IdentityRecordView {
    pub seed_fingerprint: Seq<u8>,
    pub encrypted_mnemonic: Seq<u8>,
}

/// A [`RecipientRecord`] as plain values.
pub ghost struct RecipientRecordView {
    pub recipient: Seq<char>,
    pub added: Seq<char>,
}

impl View for IdentityRecord {
    type V = IdentityRecordView;

    open spec fn view(&self) -> IdentityRecordView {
        IdentityRecordView {
            seed_fingerprint: self.seed_fingerprint@,
            encrypted_mnemonic: self.encrypted_mnemonic@,
        }
    }
}

impl View for RecipientRecord {
    type V = RecipientRecordView;

    open spec fn view(&self) -> RecipientRecordView {
        RecipientRecordView { recipient: self.recipient@, added: self.added@ }
    }
}

impl IdentityRecord {
    /// The record that a row of the mnemonics table stands for. A fingerprint that does
    /// not have 32 bytes is an error.
    pub fn from_row(hd_seed_fingerprint: &[u8], encrypted_mnemonic: Vec<u8>) -> (r: Result<
        IdentityRecord,
        StorageError,
    >)
        ensures
            match r {
                Ok(record) => hd_seed_fingerprint@.len() == 32 && record@ == (IdentityRecordView {
                    seed_fingerprint: hd_seed_fingerprint@,
                    encrypted_mnemonic: encrypted_mnemonic@,
                }),
                Err(e) => hd_seed_fingerprint@.len() != 32 && e
                    == StorageError::MalformedFingerprint,
            },
    {
        if hd_seed_fingerprint.len() != 32 {
            return Err(StorageError::MalformedFingerprint);
        }
        let mut seed_fingerprint = [0u8; 32];
        let mut i: usize = 0;
        while i < 32
            invariant
                i <= 32,
                hd_seed_fingerprint@.len() == 32,
                forall|j: int| 0 <= j < i ==> seed_fingerprint@[j] == hd_seed_fingerprint@[j],
            decreases 32 - i,
        {
            seed_fingerprint[i] = hd_seed_fingerprint[i];
            i += 1;
        }
        assert(seed_fingerprint@ =~= hd_seed_fingerprint@);
        Ok(IdentityRecord { seed_fingerprint, encrypted_mnemonic })
    }
}

} // verus!
