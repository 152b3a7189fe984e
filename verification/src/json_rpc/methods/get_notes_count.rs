//! The `z_getnotescount` method: the number of notes in the wallet.

use crate::json_rpc::server::{LegacyCode, RpcError};
use vstd::prelude::*;

verus! {

/// Response to a `z_getnotescount` RPC request.
pub type Response = Result<ResultType, RpcError>;

pub type ResultType = GetNotesCount;

/// The number of notes in the wallet.
#[derive(Clone, Copy, Debug, PartialEq, Eq, Structural)]
pub struct GetNotesCount {
    /// The number of Sprout notes in the wallet.
    ///
    /// Always zero, because Sprout is not supported.
    pub sprout: u32,
    /// The number of Sapling notes in the wallet.
    pub sapling: u32,
    /// The number of Orchard notes in the wallet.
    pub orchard: u32,
}

pub const PARAM_MINCONF_DESC: &'static str =
    "Only include notes in transactions confirmed at least this many times.";

pub const PARAM_AS_OF_HEIGHT_DESC: &'static str =
    "Execute the query as if it were run when the blockchain was at the height specified by this argument.";

/// The notes of one account as the wallet database counts them: for each shielded
/// protocol the number of notes, or nothing where the database has no count.
#[derive(Clone, Copy, Debug, PartialEq, Eq, Structural)]
pub struct AccountNotes {
    pub sapling: Option<usize>,
    pub orchard: Option<usize>,
}

/// The number that a count stands for: none counts as zero.
pub open spec fn notes(count: Option<usize>) -> nat {
    match count {
        Some(n) => n as nat,
        None => 0,
    }
}

/// The Sapling notes of the first `n` accounts.
pub open spec fn sapling_total(accounts: Seq<AccountNotes>, n: nat) -> nat
    decreases n,
{
    if n == 0 {
        0
    } else {
        sapling_total(accounts, (n - 1) as nat) + notes(accounts[n - 1].sapling)
    }
}

/// The Orchard notes of the first `n` accounts.
pub open spec fn orchard_total(accounts: Seq<AccountNotes>, n: nat) -> nat
    decreases n,
{
    if n == 0 {
        0
    } else {
        orchard_total(accounts, (n - 1) as nat) + notes(accounts[n - 1].orchard)
    }
}

/// The totals do not shrink as accounts are added.
pub proof fn lemma_totals_grow(accounts: Seq<AccountNotes>, n: nat, m: nat)
    requires
        n <= m,
    ensures
        sapling_total(accounts, n) <= sapling_total(accounts, m),
        orchard_total(accounts, n) <= orchard_total(accounts, m),
    decreases m,
{
    if n < m {
        lemma_totals_grow(accounts, n, (m - 1) as nat);
    }
}

/// Whether the method takes the parameters: it takes neither of them yet.
pub open spec fn supported(minconf: Option<u32>, as_of_height: Option<i32>) -> bool {
    minconf is None && as_of_height is None
}

/// Whether `r` refuses the parameters.
pub open spec fn refuses(r: RpcError) -> bool {
    r.is(
        LegacyCode::InvalidParameter,
        "minconf and as_of_height parameters are not yet supported"@,
    )
}

/// Refuses the parameters that the method does not take yet. Nothing needs to be read
/// from the wallet to decide it.
pub fn check_params(minconf: Option<u32>, as_of_height: Option<i32>) -> (r: Result<(), RpcError>)
    ensures
        supported(minconf, as_of_height) ==> r is Ok,
        !supported(minconf, as_of_height) ==> (r matches Err(e) && refuses(e)),
{
    if minconf.is_some() || as_of_height.is_some() {
        return Err(
            LegacyCode::InvalidParameter.with_static(
                "minconf and as_of_height parameters are not yet supported",
            ),
        );
    }
    Ok(())
}

/// Answers the request from the note counts of the wallet's accounts.
pub fn call(wallet: &Vec<AccountNotes>, minconf: Option<u32>, as_of_height: Option<i32>) -> (r:
    Response)
    requires
        supported(minconf, as_of_height) ==> sapling_total(wallet@, wallet@.len()) <= u32::MAX
            && orchard_total(wallet@, wallet@.len()) <= u32::MAX,
    ensures
        supported(minconf, as_of_height) ==> r == Ok::<GetNotesCount, RpcError>(
            GetNotesCount {
                sprout: 0,
                sapling: sapling_total(wallet@, wallet@.len()) as u32,
                orchard: orchard_total(wallet@, wallet@.len()) as u32,
            },
        ),
        !supported(minconf, as_of_height) ==> (r matches Err(e) && refuses(e)),
{
    match check_params(minconf, as_of_height) {
        Ok(()) => {},
        Err(e) => {
            return Err(e);
        },
    }
    let mut sapling: u32 = 0;
    let mut orchard: u32 = 0;
    let mut i: usize = 0;
    while i < wallet.len()
        invariant
            i <= wallet@.len(),
            sapling == sapling_total(wallet@, i as nat),
            orchard == orchard_total(wallet@, i as nat),
            sapling_total(wallet@, wallet@.len()) <= u32::MAX,
            orchard_total(wallet@, wallet@.len()) <= u32::MAX,
        decreases wallet@.len() - i,
    {
        proof {
            lemma_totals_grow(wallet@, (i + 1) as nat, wallet@.len());
        }
        if let Some(note_count) = wallet[i].sapling {
            sapling += note_count as u32;
        }
        if let Some(note_count) = wallet[i].orchard {
            orchard += note_count as u32;
        }
        i += 1;
    }
    Ok(GetNotesCount { sprout: 0, sapling, orchard })
}

} // verus!
