//! Error codes and error values shared by the JSON-RPC methods.

use crate::keystore::error::KeyStoreError;
use vstd::prelude::*;

verus! {

/// The error codes that the methods answer with, as `zcashd` numbers them.
#[derive(Clone, Copy, Debug, PartialEq, Eq, Structural)]
pub enum LegacyCode {
    /// An invalid, missing or unsupported parameter.
    InvalidParameter,
    /// The wallet database could not be read.
    Database,
    /// The operation needs `walletpassphrase` to be called first.
    WalletUnlockNeeded,
    /// The passphrase entered was incorrect.
    WalletPassphraseIncorrect,
    /// The command was given to a wallet in the wrong encryption state.
    WalletWrongEncState,
}

/// A method's failure: a code and a message for the operator.
#[derive(Debug)]
pub struct RpcError {
    pub code: LegacyCode,
    pub message: String,
}

impl LegacyCode {
    /// The number that stands for this code on the wire.
    pub open spec fn spec_code(self) -> i32 {
        match self {
            LegacyCode::InvalidParameter => -8i32,
            LegacyCode::Database => -20i32,
            LegacyCode::WalletUnlockNeeded => -13i32,
            LegacyCode::WalletPassphraseIncorrect => -14i32,
            LegacyCode::WalletWrongEncState => -15i32,
        }
    }

    #[verifier::when_used_as_spec(spec_code)]
    pub fn code(self) -> (n: i32)
        ensures
            n == self.spec_code(),
    {
        match self {
            LegacyCode::InvalidParameter => -8i32,
            LegacyCode::Database => -20i32,
            LegacyCode::WalletUnlockNeeded => -13i32,
            LegacyCode::WalletPassphraseIncorrect => -14i32,
            LegacyCode::WalletWrongEncState => -15i32,
        }
    }

    /// An error with this code and a fixed message.
    pub fn with_static(self, message: &'static str) -> (e: RpcError)
        ensures
            e.code == self,
            e.message@ == message@,
    {
        RpcError { code: self, message: String::from_str(message) }
    }

    /// An error with this code and a message made at run time.
    pub fn with_message(self, message: String) -> (e: RpcError)
        ensures
            e.code == self,
            e.message@ == message@,
    {
        RpcError { code: self, message }
    }
}

impl RpcError {
    /// Whether this error carries `code` and exactly the text `message`.
    pub open spec fn is(&self, code: LegacyCode, message: Seq<char>) -> bool {
        self.code == code && self.message@ == message
    }

    /// The error that a method answers with when the keystore failed it. Each failure
    /// has a code and a text of its own, so that the operator can tell a locked wallet
    /// from a wrong passphrase, and both from a wallet without encryption or a store
    /// that cannot be read.
    pub fn from_keystore(e: KeyStoreError) -> (r: RpcError)
        ensures
            r.is(keystore_error_code(e), keystore_error_text(e)),
    {
        match e {
            KeyStoreError::WrongState => LegacyCode::WalletWrongEncState.with_static(
                "Error: the wallet does not encrypt its identities.",
            ),
            KeyStoreError::AuthenticationFailed => {
                LegacyCode::WalletPassphraseIncorrect.with_static(
                    "Error: The wallet passphrase entered was incorrect.",
                )
            },
            KeyStoreError::NotUnlocked => LegacyCode::WalletUnlockNeeded.with_static(
                "Error: Please enter the wallet passphrase with walletpassphrase first.",
            ),
            KeyStoreError::Storage(_) => LegacyCode::Database.with_static(
                "Error: the wallet's identity store could not be read.",
            ),
        }
    }
}

/// The code under which a failure of the keystore is reported.
pub open spec fn keystore_error_code(e: KeyStoreError) -> LegacyCode {
    match e {
        KeyStoreError::WrongState => LegacyCode::WalletWrongEncState,
        KeyStoreError::AuthenticationFailed => LegacyCode::WalletPassphraseIncorrect,
        KeyStoreError::NotUnlocked => LegacyCode::WalletUnlockNeeded,
        KeyStoreError::Storage(_) => LegacyCode::Database,
    }
}

/// The text with which a failure of the keystore is reported.
pub open spec fn keystore_error_text(e: KeyStoreError) -> Seq<char> {
    match e {
        KeyStoreError::WrongState => "Error: the wallet does not encrypt its identities."@,
        KeyStoreError::AuthenticationFailed =>
            "Error: The wallet passphrase entered was incorrect."@,
        KeyStoreError::NotUnlocked =>
            "Error: Please enter the wallet passphrase with walletpassphrase first."@,
        KeyStoreError::Storage(_) => "Error: the wallet's identity store could not be read."@,
    }
}

} // verus!
