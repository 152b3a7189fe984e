//! The `walletpassphrase` method: unlocks the keystore for a number of seconds.

use super::openrpc::{ContentDescriptor, ContentDescriptorView, Generator, ParamSchema};
use crate::json_rpc::server::{LegacyCode, RpcError};
use crate::keystore::secret::SecretMaterial;
use crate::keystore::KeyStore;
use vstd::prelude::*;

verus! {

/// Response to a `walletpassphrase` RPC request.
pub type Response = Result<ResultType, RpcError>;

/// Empty result indicating success.
#[derive(Clone, Copy, Debug)]
pub struct ResultType(pub ());

/// What [`params`] describes.
pub open spec fn spec_params() -> Seq<ContentDescriptorView> {
    seq![
        ContentDescriptorView {
            name: "passphrase"@,
            description: "The passphrase for decrypting the wallet's age identity."@,
            required: true,
            schema: ParamSchema::String,
        },
        ContentDescriptorView {
            name: "timeout"@,
            description: "Time in seconds after which the wallet wil relock."@,
            required: true,
            schema: ParamSchema::Uint64,
        },
    ]
}

/// Defines the method parameters for OpenRPC.
pub fn params(g: &mut Generator) -> (r: Vec<ContentDescriptor>)
    ensures
        r@.map_values(|d: ContentDescriptor| d@) == spec_params(),
        final(g)@ == old(g)@ + seq![ParamSchema::String, ParamSchema::Uint64],
{
    let passphrase = g.param(
        ParamSchema::String,
        "passphrase",
        "The passphrase for decrypting the wallet's age identity.",
        true,
    );
    let timeout = g.param(
        ParamSchema::Uint64,
        "timeout",
        "Time in seconds after which the wallet wil relock.",
        true,
    );
    let mut r: Vec<ContentDescriptor> = Vec::new();
    r.push(passphrase);
    r.push(timeout);
    assert(r@.map_values(|d: ContentDescriptor| d@) =~= spec_params());
    assert(final(g)@ =~= old(g)@ + seq![ParamSchema::String, ParamSchema::Uint64]);
    r
}

/// Whether `r` is the method's answer to an attempt to unlock that succeeded or did not.
pub open spec fn answers(r: Response, unlocked: bool) -> bool {
    if unlocked {
        r is Ok
    } else {
        r matches Err(e) && e.is(
            LegacyCode::WalletPassphraseIncorrect,
            "Error: The wallet passphrase entered was incorrect."@,
        )
    }
}

/// Every rejected passphrase is answered alike: whatever the passphrases and the
/// timeouts of two requests were, and whatever was asked of the keystore before, the
/// two errors carry the same code and the same fixed text. Nothing of a passphrase, or
/// of what it decrypted, can therefore be read off the error.
pub proof fn rejected_passphrases_are_answered_alike(
    first: Response,
    first_unlocked: bool,
    second: Response,
    second_unlocked: bool,
)
    requires
        answers(first, first_unlocked),
        answers(second, second_unlocked),
        first is Err,
        second is Err,
    ensures
        !first_unlocked,
        !second_unlocked,
        first->Err_0.code == second->Err_0.code,
        first->Err_0.message@ == second->Err_0.message@,
        first->Err_0.is(
            LegacyCode::WalletPassphraseIncorrect,
            "Error: The wallet passphrase entered was incorrect."@,
        ),
{
}

/// Answers the request at `now` from what the passphrase decrypted: unlocks the
/// keystore for `timeout` seconds with it.
///
/// A wallet without encryption refuses the request. For one with encryption, a
/// passphrase that decrypted nothing is reported as incorrect, and the keystore is
/// left as it was; otherwise the keystore holds the material until `now + timeout`.
/// The errors' texts are fixed: they hold nothing of the passphrase or of what it
/// decrypted. A request that is refused or rejected may come with any timeout.
pub fn call_with(keystore: &mut KeyStore, material: SecretMaterial, timeout: u64, now: u64) -> (r:
    Response)
    requires
        old(keystore)@.config.uses_encryption && material@ != Map::<Seq<u8>, Seq<u8>>::empty()
            ==> now + timeout <= u64::MAX,
    ensures
        final(keystore)@.wf(),
        !old(keystore)@.config.uses_encryption ==> final(keystore)@ == old(keystore)@ && (
        r matches Err(e) && e.is(
            LegacyCode::WalletWrongEncState,
            "Error: running with an unencrypted wallet, but walletpassphrase was called."@,
        )),
        old(keystore)@.config.uses_encryption ==> answers(
            r,
            old(keystore)@.state.unlock_succeeds(material@),
        ) && final(keystore)@ == old(keystore)@.unlock_with(material@, timeout as int, now as int),
{
    if !keystore.uses_encrypted_identities() {
        keystore.check();
        return Err(
            LegacyCode::WalletWrongEncState.with_static(
                "Error: running with an unencrypted wallet, but walletpassphrase was called.",
            ),
        );
    }
    if !keystore.unlock_with(material, timeout, now) {
        return Err(
            LegacyCode::WalletPassphraseIncorrect.with_static(
                "Error: The wallet passphrase entered was incorrect.",
            ),
        );
    }
    Ok(ResultType(()))
}

/// Answers the request at `now`: unlocks the keystore for `timeout` seconds with the
/// passphrase.
///
/// The passphrase is tried on the stored mnemonics, and the answer is that of
/// [`call_with`] to what it decrypted. A wallet without encryption tries nothing.
pub fn call(keystore: &mut KeyStore, passphrase: &str, timeout: u64, now: u64) -> (r: Response)
    requires
        old(keystore)@.config.uses_encryption ==> now + timeout <= u64::MAX,
    ensures
        final(keystore)@.wf(),
        !old(keystore)@.config.uses_encryption ==> final(keystore)@ == old(keystore)@ && (
        r matches Err(e) && e.is(
            LegacyCode::WalletWrongEncState,
            "Error: running with an unencrypted wallet, but walletpassphrase was called."@,
        )),
        old(keystore)@.config.uses_encryption ==> exists|material: Map<Seq<u8>, Seq<u8>>|
            {
                &&& material.dom().subset_of(old(keystore)@.identities.dom())
                &&& answers(r, #[trigger] old(keystore)@.state.unlock_succeeds(material))
                &&& final(keystore)@ == old(keystore)@.unlock_with(
                    material,
                    timeout as int,
                    now as int,
                )
            },
{
    let material = keystore.decrypt(passphrase);
    let ghost decrypted = material@;
    let r = call_with(keystore, material, timeout, now);
    proof {
        if old(keystore)@.config.uses_encryption {
            assert(answers(r, old(keystore)@.state.unlock_succeeds(decrypted)));
        }
    }
    r
}

} // verus!
