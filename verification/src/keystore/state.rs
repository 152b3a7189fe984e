//! The unlock state machine.
//!
//! A keystore whose identities are encrypted is locked until a passphrase decrypts
//! them, and then unlocked until a point in time. One whose identities are not
//! encrypted needs no unlocking and never locks. Time is counted in seconds since the
//! Unix epoch and handed in by the caller.

use super::secret::SecretMaterial;
use vstd::prelude::*;

verus! {

/// The state of the machine, as plain values.
pub ghost enum StateView {
    /// No key material is held.
    Locked,
    /// Key material is held, and may be used before `until`.
    Unlocked { until: int, material: Map<Seq<u8>, Seq<u8>> },
    /// The identities are not encrypted: there is nothing to unlock.
    Unencrypted,
}

impl StateView {
    /// The state in which a keystore starts.
    pub open spec fn initial(uses_encryption: bool) -> StateView {
        if uses_encryption {
            StateView::Locked
        } else {
            StateView::Unencrypted
        }
    }

    /// Whether key material is held only together with at least one identity.
    pub open spec fn wf(self) -> bool {
        self matches StateView::Unlocked { material, .. } ==> material
            != Map::<Seq<u8>, Seq<u8>>::empty()
    }

    /// Whether a passphrase that decrypted `material` unlocks the keystore.
    pub open spec fn unlock_succeeds(self, material: Map<Seq<u8>, Seq<u8>>) -> bool {
        self is Unencrypted || material != Map::<Seq<u8>, Seq<u8>>::empty()
    }

    /// The state after an attempt to unlock at `now` for `timeout` seconds with a
    /// passphrase that decrypted `material`.
    pub open spec fn unlock_with(
        self,
        material: Map<Seq<u8>, Seq<u8>>,
        timeout: int,
        now: int,
    ) -> StateView {
        if self is Unencrypted || material == Map::<Seq<u8>, Seq<u8>>::empty() {
            self
        } else {
            StateView::Unlocked { until: now + timeout, material }
        }
    }

    /// The state after an explicit relock.
    pub open spec fn lock(self) -> StateView {
        if self is Unencrypted {
            self
        } else {
            StateView::Locked
        }
    }

    /// The state after the clock was found to stand at `now`.
    pub open spec fn expire(self, now: int) -> StateView {
        match self {
            StateView::Unlocked { until, .. } if now >= until => StateView::Locked,
            _ => self,
        }
    }

    /// The end of the unlock window as reported at `now`.
    pub open spec fn unlocked_until(self, now: int) -> Option<int> {
        match self {
            StateView::Unlocked { until, .. } if now < until => Some(until),
            _ => None,
        }
    }

    /// Whether key material is out of reach at `now`.
    pub open spec fn is_locked(self, now: int) -> bool {
        match self {
            StateView::Locked => true,
            StateView::Unlocked { until, .. } => now >= until,
            StateView::Unencrypted => false,
        }
    }

    /// The key material that may be used at `now`.
    pub open spec fn material(self, now: int) -> Option<Map<Seq<u8>, Seq<u8>>> {
        match self {
            StateView::Unlocked { until, material } if now < until => Some(material),
            _ => None,
        }
    }

    /// The end of the unlock window, whether or not it has passed.
    pub open spec fn deadline(self) -> Option<int> {
        match self {
            StateView::Unlocked { until, .. } => Some(until),
            _ => None,
        }
    }
}

/// Decrypted identities together with the time at which they stop being usable.
pub struct UnlockToken {
    decrypted_identities: SecretMaterial,
    expires_at: u64,
}

impl UnlockToken {
    #[verifier::type_invariant]
    spec fn holds_an_identity(self) -> bool {
        self.decrypted_identities@ != Map::<Seq<u8>, Seq<u8>>::empty()
    }
}

/// The unlock state of one keystore.
pub struct UnlockState {
    encrypted: bool,
    token: Option<UnlockToken>,
}

impl View for UnlockState {
    type V = StateView;

    closed spec fn view(&self) -> StateView {
        if !self.encrypted {
            StateView::Unencrypted
        } else {
            match self.token {
                Some(token) => StateView::Unlocked {
                    until: token.expires_at as int,
                    material: token.decrypted_identities@,
                },
                None => StateView::Locked,
            }
        }
    }
}

impl UnlockState {
    #[verifier::type_invariant]
    spec fn token_only_if_encrypted(self) -> bool {
        !self.encrypted ==> self.token is None
    }

    /// Shows that the state is well formed: it is so by construction.
    pub(crate) fn check(&self)
        ensures
            self@.wf(),
    {
        proof {
            use_type_invariant(self);
        }
        match &self.token {
            Some(token) => {
                proof {
                    use_type_invariant(token);
                }
            },
            None => {},
        }
    }

    /// The state in which a keystore starts.
    pub fn new(uses_encryption: bool) -> (state: UnlockState)
        ensures
            state@ == StateView::initial(uses_encryption),
            state@.wf(),
    {
        UnlockState { encrypted: uses_encryption, token: None }
    }

    /// Attempts to unlock at `now` for `timeout` seconds with a passphrase that
    /// decrypted `material`. Material that is not taken in, and material that is
    /// replaced, is overwritten with zeros before this returns.
    ///
    /// The end of the window has to be a time that can be counted, where a window is
    /// opened; an attempt that opens none may come with any timeout.
    pub fn unlock_with(&mut self, material: SecretMaterial, timeout: u64, now: u64) -> (ok: bool)
        requires
            !(old(self)@ is Unencrypted) && material@ != Map::<Seq<u8>, Seq<u8>>::empty() ==> now
                + timeout <= u64::MAX,
        ensures
            ok == old(self)@.unlock_succeeds(material@),
            final(self)@ == old(self)@.unlock_with(material@, timeout as int, now as int),
            final(self)@.wf(),
    {
        self.check();
        if !self.encrypted {
            return true;
        }
        if material.is_empty() {
            return false;
        }
        let expires_at = now + timeout;
        self.token = Some(UnlockToken { decrypted_identities: material, expires_at });
        true
    }

    /// Relocks at once. The key material is overwritten with zeros before this returns.
    pub fn lock(&mut self)
        ensures
            final(self)@ == old(self)@.lock(),
            final(self)@.wf(),
    {
        self.token = None;
    }

    /// Relocks if the unlock window has passed at `now`. The key material is then
    /// overwritten with zeros before this returns.
    pub fn expire(&mut self, now: u64)
        ensures
            final(self)@ == old(self)@.expire(now as int),
            final(self)@.wf(),
    {
        self.check();
        let expired = match &self.token {
            Some(token) => now >= token.expires_at,
            None => false,
        };
        if expired {
            self.token = None;
        }
    }

    /// The end of the unlock window, unless the keystore is locked at `now` or needs no
    /// unlocking.
    pub fn unlocked_until(&self, now: u64) -> (r: Option<u64>)
        ensures
            match r {
                Some(until) => self@.unlocked_until(now as int) == Some(until as int),
                None => self@.unlocked_until(now as int) is None,
            },
    {
        proof {
            use_type_invariant(self);
        }
        match &self.token {
            Some(token) => if now < token.expires_at {
                Some(token.expires_at)
            } else {
                None
            },
            None => None,
        }
    }

    /// Whether key material is out of reach at `now`.
    pub fn is_locked(&self, now: u64) -> (r: bool)
        ensures
            r == self@.is_locked(now as int),
    {
        proof {
            use_type_invariant(self);
        }
        if !self.encrypted {
            return false;
        }
        match &self.token {
            Some(token) => now >= token.expires_at,
            None => true,
        }
    }

    /// Lends the key material, unless none may be used at `now`.
    pub fn material(&self, now: u64) -> (r: Option<&SecretMaterial>)
        ensures
            match r {
                Some(material) => self@.material(now as int) == Some(material@),
                None => self@.material(now as int) is None,
            },
    {
        proof {
            use_type_invariant(self);
        }
        match &self.token {
            Some(token) => if now < token.expires_at {
                Some(&token.decrypted_identities)
            } else {
                None
            },
            None => None,
        }
    }

    /// The end of the unlock window, whether or not it has passed.
    pub fn deadline(&self) -> (r: Option<u64>)
        ensures
            match r {
                Some(until) => self@.deadline() == Some(until as int),
                None => self@.deadline() is None,
            },
    {
        proof {
            use_type_invariant(self);
        }
        match &self.token {
            Some(token) => Some(token.expires_at),
            None => None,
        }
    }
}

} // verus!
