//! The keystore's configuration.

use vstd::prelude::*;

verus! {

/// How the wallet keeps its identities. It is loaded once and not changed afterwards.
#[derive(Debug)]
pub struct KeyStoreConfig {
    uses_encryption: bool,
    identity_file_path: String,
    recipients: Vec<String>,
}

/// A [`KeyStoreConfig`] as plain values.
pub ghost struct KeyStoreConfigView {
    pub uses_encryption: bool,
    pub identity_file_path: Seq<char>,
    pub recipients: Seq<Seq<char>>,
}

impl View for KeyStoreConfig {
    type V = KeyStoreConfigView;

    closed spec fn view(&self) -> KeyStoreConfigView {
        KeyStoreConfigView {
            uses_encryption: self.uses_encryption,
            identity_file_path: self.identity_file_path@,
            recipients: self.recipients@.map_values(|r: String| r@),
        }
    }
}

impl KeyStoreConfig {
    pub fn new(
        uses_encryption: bool,
        identity_file_path: String,
        recipients: Vec<String>,
    ) -> (config: KeyStoreConfig)
        ensures
            config@ == (KeyStoreConfigView {
                uses_encryption,
                identity_file_path: identity_file_path@,
                recipients: recipients@.map_values(|r: String| r@),
            }),
    {
        KeyStoreConfig { uses_encryption, identity_file_path, recipients }
    }

    /// Whether the identities are encrypted with a passphrase.
    pub fn uses_encryption(&self) -> (r: bool)
        ensures
            r == self@.uses_encryption,
    {
        self.uses_encryption
    }

    /// Where the identity file lies.
    pub fn identity_file_path(&self) -> (r: &String)
        ensures
            r@ == self@.identity_file_path,
    {
        &self.identity_file_path
    }

    /// The string encodings of the age recipients.
    pub fn recipients(&self) -> (r: &Vec<String>)
        ensures
            r@.map_values(|s: String| s@) == self@.recipients,
    {
        &self.recipients
    }
}

} // verus!
