//! The `getwalletinfo` method: the state of the wallet.

use super::openrpc::{ContentDescriptor, ContentDescriptorView, Generator};
use crate::json_rpc::server::RpcError;
use crate::keystore::{KeyStore, KeyStoreView};
use vstd::prelude::*;

verus! {

/// Response to a `getwalletinfo` RPC request.
pub type Response = Result<ResultType, RpcError>;

pub type ResultType = GetWalletInfo;

/// The wallet state information. Amounts of transparent funds are in zatoshis.
///
/// So far the wallet reports its unlock window alone: every other field holds the same
/// value whatever the wallet's state.
#[derive(Debug)]
pub struct GetWalletInfo {
    /// The wallet version, in its "Bitcoin client version" form.
    pub walletversion: u64,
    /// The total confirmed transparent balance of the wallet.
    pub balance: u64,
    /// The total unconfirmed transparent balance of the wallet.
    ///
    /// Not included if `asOfHeight` is specified.
    pub unconfirmed_balance: Option<u64>,
    /// The total immature transparent balance of the wallet.
    pub immature_balance: u64,
    /// The total confirmed shielded balance of the wallet in ZEC.
    pub shielded_balance: String,
    /// The total unconfirmed shielded balance of the wallet in ZEC.
    ///
    /// Not included if `asOfHeight` is specified.
    pub shielded_unconfirmed_balance: Option<String>,
    /// The total number of transactions in the wallet
    pub txcount: u64,
    /// The timestamp (seconds since GMT epoch) of the oldest pre-generated key in the
    /// key pool.
    pub keypoololdest: u64,
    /// How many new keys are pre-generated.
    pub keypoolsize: u32,
    /// The timestamp in seconds since epoch (midnight Jan 1 1970 GMT) that the wallet is
    /// unlocked for transfers, or 0 if the wallet is locked. Absent if the wallet does
    /// not encrypt its identities.
    pub unlocked_until: Option<u64>,
    /// The BLAKE2b-256 hash of the HD seed derived from the wallet's emergency recovery phrase.
    pub mnemonic_seedfp: String,
}

/// What the method reports as the end of the unlock window at `now`: nothing for a
/// wallet without encryption, 0 for a locked one.
pub open spec fn reported_unlocked_until(keystore: KeyStoreView, now: int) -> Option<int> {
    if keystore.config.uses_encryption {
        match keystore.state.unlocked_until(now) {
            Some(until) => Some(until),
            None => Some(0),
        }
    } else {
        None
    }
}

/// Defines the method parameters for OpenRPC.
pub fn params(g: &mut Generator) -> (r: Vec<ContentDescriptor>)
    ensures
        r@ == Seq::<ContentDescriptor>::empty(),
        final(g)@ == old(g)@,
{
    Vec::new()
}

/// Answers the request at `now`.
pub fn call(keystore: &KeyStore, now: u64) -> (r: Response)
    ensures
        r matches Ok(info) && {
            &&& match info.unlocked_until {
                Some(until) => reported_unlocked_until(keystore@, now as int) == Some(until as int),
                None => reported_unlocked_until(keystore@, now as int) is None,
            }
            &&& info.walletversion == 0
            &&& info.balance == 0
            &&& info.unconfirmed_balance == Some(0u64)
            &&& info.immature_balance == 0
            &&& info.shielded_balance@ == "0.00"@
            &&& info.shielded_unconfirmed_balance matches Some(s) && s@ == "0.00"@
            &&& info.txcount == 0
            &&& info.keypoololdest == 0
            &&& info.keypoolsize == 0
            &&& info.mnemonic_seedfp@ == "TODO"@
        },
{
    let unlocked_until = if keystore.uses_encrypted_identities() {
        match keystore.unlocked_until(now) {
            Some(until) => Some(until),
            None => Some(0),
        }
    } else {
        None
    };
    Ok(
        GetWalletInfo {
            walletversion: 0,
            balance: 0,
            unconfirmed_balance: Some(0),
            immature_balance: 0,
            shielded_balance: String::from_str("0.00"),
            shielded_unconfirmed_balance: Some(String::from_str("0.00")),
            txcount: 0,
            keypoololdest: 0,
            keypoolsize: 0,
            unlocked_until,
            mnemonic_seedfp: String::from_str("TODO"),
        },
    )
}

} // verus!
