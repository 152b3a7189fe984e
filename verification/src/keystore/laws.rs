//! What holds of the keystore whatever is done with it.
//!
//! The laws speak of the keystore as plain values ([`KeyStoreView`]); each operation of
//! [`super::KeyStore`] is tied to them by its contract.

use super::error::KeyStoreError;
use super::state::StateView;
use super::KeyStoreView;
use vstd::prelude::*;

verus! {

/// One change of the unlock state.
pub ghost enum Operation {
    /// An attempt to unlock at `now` for `timeout` seconds, with a passphrase that
    /// decrypted `material`.
    Unlock { material: Map<Seq<u8>, Seq<u8>>, timeout: int, now: int },
    /// An explicit relock.
    Lock,
    /// The timer went off, or the clock was read, at `now`.
    Expire { now: int },
}

impl KeyStoreView {
    /// The keystore after one operation.
    pub open spec fn apply(self, op: Operation) -> KeyStoreView {
        match op {
            Operation::Unlock { material, timeout, now } => {
                self.unlock_with(material, timeout, now)
            },
            Operation::Lock => self.lock(),
            Operation::Expire { now } => self.expire(now),
        }
    }

    /// The keystore after the operations, one after the other.
    pub open spec fn run(self, ops: Seq<Operation>) -> KeyStoreView
        decreases ops.len(),
    {
        if ops.len() == 0 {
            self
        } else {
            self.run(ops.drop_last()).apply(ops.last())
        }
    }
}

/// Whether the operation at `position` is an unlock that put `material` in place until
/// `until`.
pub open spec fn unlocked_by(
    ops: Seq<Operation>,
    position: int,
    until: int,
    material: Map<Seq<u8>, Seq<u8>>,
) -> bool {
    &&& 0 <= position < ops.len()
    &&& ops[position] matches Operation::Unlock { material: decrypted, timeout, now }
    &&& decrypted == material
    &&& until == now + timeout
}

/// A locked keystore lends no secret: whatever fingerprint is asked for, the answer is
/// `NotUnlocked`. (Asking changes nothing: [`super::KeyStore::secret`] takes the
/// keystore by shared reference.)
pub proof fn locked_keystore_lends_nothing(keystore: KeyStoreView, fingerprint: Seq<u8>, now: int)
    requires
        keystore.state.is_locked(now),
    ensures
        keystore.secret(fingerprint, now) == Err::<Option<Seq<u8>>, KeyStoreError>(
            KeyStoreError::NotUnlocked,
        ),
{
}

/// After whatever operations, a keystore that is locked at `now` lends no secret at
/// `now`, and one that lends a secret holds it in a window that has not passed.
pub proof fn no_secret_outside_the_window(
    start: KeyStoreView,
    ops: Seq<Operation>,
    fingerprint: Seq<u8>,
    now: int,
)
    ensures
        start.run(ops).state.is_locked(now) ==> start.run(ops).secret(fingerprint, now) == Err::<
            Option<Seq<u8>>,
            KeyStoreError,
        >(KeyStoreError::NotUnlocked),
        start.run(ops).secret(fingerprint, now) is Ok ==> !start.run(ops).state.is_locked(now),
        start.run(ops).state matches StateView::Unlocked { until, .. } ==> (start.run(ops).secret(
            fingerprint,
            now,
        ) is Ok <==> now < until),
{
}

/// An unlock at `now` for `timeout` seconds that succeeds opens the window up to
/// `now + timeout`: a query before that time reports that time, and a query at or
/// after it reports a locked keystore.
pub proof fn unlock_opens_the_window(
    keystore: KeyStoreView,
    material: Map<Seq<u8>, Seq<u8>>,
    timeout: int,
    now: int,
    query: int,
)
    requires
        keystore.config.uses_encryption,
        keystore.wf(),
        keystore.state.unlock_succeeds(material),
    ensures
        ({
            let after = keystore.unlock_with(material, timeout, now);
            &&& after.state.deadline() == Some(now + timeout)
            &&& query < now + timeout ==> after.state.unlocked_until(query) == Some(now + timeout)
                && !after.state.is_locked(query)
            &&& query >= now + timeout ==> after.state.unlocked_until(query) is None
                && after.state.is_locked(query)
        }),
{
}

/// Whether the relock at the end of the window has been carried out or not, no query
/// at or after that time tells: the keystore reports the same window and lends the
/// same secrets. A timer that relocks late, or not at all, is therefore safe.
pub proof fn expiry_cannot_be_observed(
    keystore: KeyStoreView,
    fingerprint: Seq<u8>,
    now: int,
    query: int,
)
    requires
        now <= query,
    ensures
        keystore.expire(now).state.unlocked_until(query) == keystore.state.unlocked_until(query),
        keystore.expire(now).state.is_locked(query) == keystore.state.is_locked(query),
        keystore.expire(now).secret(fingerprint, query) == keystore.secret(fingerprint, query),
        keystore.expire(now).expire(query) == keystore.expire(query),
{
}

/// Relocking a locked keystore changes nothing, and relocking twice is relocking once.
pub proof fn lock_is_idempotent(keystore: KeyStoreView)
    ensures
        keystore.state is Locked ==> keystore.lock() == keystore,
        keystore.lock().lock() == keystore.lock(),
{
}

/// A second unlock that succeeds replaces the window of the first: the keystore is
/// then unlocked until the second unlock's time plus its timeout, with what the
/// second passphrase decrypted.
pub proof fn second_unlock_resets_the_window(
    keystore: KeyStoreView,
    first: Map<Seq<u8>, Seq<u8>>,
    first_timeout: int,
    first_now: int,
    second: Map<Seq<u8>, Seq<u8>>,
    second_timeout: int,
    second_now: int,
    query: int,
)
    requires
        keystore.config.uses_encryption,
        keystore.wf(),
        keystore.state.unlock_succeeds(first),
        second != Map::<Seq<u8>, Seq<u8>>::empty(),
    ensures
        ({
            let after = keystore.unlock_with(first, first_timeout, first_now).unlock_with(
                second,
                second_timeout,
                second_now,
            );
            &&& after.state == StateView::Unlocked {
                until: second_now + second_timeout,
                material: second,
            }
            &&& query < second_now + second_timeout ==> after.state.unlocked_until(query) == Some(
                second_now + second_timeout,
            )
        }),
{
}

/// An unlock that fails leaves the keystore as it was.
pub proof fn failed_unlock_changes_nothing(
    keystore: KeyStoreView,
    material: Map<Seq<u8>, Seq<u8>>,
    timeout: int,
    now: int,
)
    requires
        !keystore.state.unlock_succeeds(material),
    ensures
        keystore.unlock_with(material, timeout, now) == keystore,
{
}

/// Every operation keeps a well-formed keystore well formed, and none changes the
/// configuration, the stored mnemonics or the stored recipients.
pub proof fn operations_keep_the_keystore_well_formed(keystore: KeyStoreView, op: Operation)
    requires
        keystore.wf(),
    ensures
        keystore.apply(op).wf(),
        keystore.apply(op).config == keystore.config,
        keystore.apply(op).identities == keystore.identities,
        keystore.apply(op).recipients == keystore.recipients,
{
}

/// In whatever order unlocks, relocks and expiries come, the key material that the
/// keystore holds and the end of its window stem from one and the same unlock: no
/// state mixes the material of one unlock with the window of another.
pub proof fn material_and_window_stem_from_one_unlock(start: KeyStoreView, ops: Seq<Operation>)
    requires
        start.wf(),
        !(start.state is Unlocked),
    ensures
        start.run(ops).wf(),
        start.run(ops).state matches StateView::Unlocked { until, material } ==> exists|
            position: int,
        | unlocked_by(ops, position, until, material),
    decreases ops.len(),
{
    if ops.len() > 0 {
        let earlier = ops.drop_last();
        material_and_window_stem_from_one_unlock(start, earlier);
        let before = start.run(earlier);
        operations_keep_the_keystore_well_formed(before, ops.last());
        if let StateView::Unlocked { until, material } = start.run(ops).state {
            if before.state == start.run(ops).state {
                let position = choose|position: int|
                    unlocked_by(earlier, position, until, material);
                assert(ops[position] == earlier[position]);
                assert(unlocked_by(ops, position, until, material));
            } else {
                assert(unlocked_by(ops, ops.len() - 1, until, material));
            }
        }
    }
}

/// A keystore without encryption stays as it is whatever is done with it: it is never
/// locked, reports no window, and answers from the store.
pub proof fn unencrypted_keystore_never_changes(
    start: KeyStoreView,
    ops: Seq<Operation>,
    fingerprint: Seq<u8>,
    now: int,
)
    requires
        start.state is Unencrypted,
    ensures
        start.run(ops) == start,
        !start.state.is_locked(now),
        start.state.unlocked_until(now) is None,
        start.secret(fingerprint, now) == Ok::<Option<Seq<u8>>, KeyStoreError>(
            super::lookup(start.identities, fingerprint),
        ),
        forall|material: Map<Seq<u8>, Seq<u8>>| #[trigger] start.state.unlock_succeeds(material),
    decreases ops.len(),
{
    if ops.len() > 0 {
        unencrypted_keystore_never_changes(start, ops.drop_last(), fingerprint, now);
    }
}

} // verus!
