//! The identity store: the encrypted mnemonics, indexed by seed fingerprint, and the
//! age recipients, as they were read from the database.

use super::db::{IdentityRecord, IdentityRecordView, RecipientRecord, RecipientRecordView};
use super::fingerprint::fingerprint_value;
use super::index::FingerprintIndex;
use vstd::prelude::*;

verus! {

/// Why the identity store could not be read.
#[derive(Clone, Copy, Debug, PartialEq, Eq, Structural)]
pub enum StorageError {
    /// The database could not be reached.
    Unreachable,
    /// The database lacks the keystore's tables.
    SchemaMissing,
    /// Two mnemonics are stored under one seed fingerprint.
    DuplicateFingerprint,
    /// A stored seed fingerprint does not have 32 bytes.
    MalformedFingerprint,
}

/// Whether no two of the rows share a seed fingerprint.
pub open spec fn distinct_fingerprints(rows: Seq<IdentityRecordView>) -> bool {
    forall|i: int, j: int|
        0 <= i < j < rows.len() ==> rows[i].seed_fingerprint != rows[j].seed_fingerprint
}

/// Whether `map` holds exactly the rows, each mnemonic under its fingerprint.
pub open spec fn indexes(map: Map<Seq<u8>, Seq<u8>>, rows: Seq<IdentityRecordView>) -> bool {
    &&& forall|i: int|
        0 <= i < rows.len() ==> {
            &&& map.contains_key(#[trigger] rows[i].seed_fingerprint)
            &&& map[rows[i].seed_fingerprint] == rows[i].encrypted_mnemonic
        }
    &&& forall|key: Seq<u8>| #[trigger]
        map.contains_key(key) ==> exists|i: int|
            0 <= i < rows.len() && rows[i].seed_fingerprint == key
}

/// The rows of the two tables, read once and not changed afterwards.
pub struct IdentityStore {
    mnemonics: FingerprintIndex,
    recipients: Vec<RecipientRecord>,
}

impl IdentityStore {
    /// The encrypted mnemonics, each under its seed fingerprint.
    pub closed spec fn identities(&self) -> Map<Seq<u8>, Seq<u8>> {
        self.mnemonics@
    }

    /// The recipients, in the order in which they were read.
    pub closed spec fn recipients(&self) -> Seq<RecipientRecordView> {
        self.recipients@.map_values(|r: RecipientRecord| r@)
    }

    /// The number of encrypted mnemonics.
    pub open spec fn spec_len(&self) -> nat {
        self.identities().dom().len()
    }

    /// Builds the store from what the reads of the two tables gave.
    ///
    /// A read that failed fails the store with its error, the mnemonics' before the
    /// recipients'. Rows that share a seed fingerprint fail it too.
    pub fn open(
        identities: Result<Vec<IdentityRecord>, StorageError>,
        recipients: Result<Vec<RecipientRecord>, StorageError>,
    ) -> (r: Result<IdentityStore, StorageError>)
        ensures
            match (identities, recipients) {
                (Err(e), _) => r == Err::<IdentityStore, StorageError>(e),
                (Ok(_), Err(e)) => r == Err::<IdentityStore, StorageError>(e),
                (Ok(rows), Ok(others)) => {
                    let row_views = rows@.map_values(|row: IdentityRecord| row@);
                    if distinct_fingerprints(row_views) {
                        &&& r is Ok
                        &&& indexes(r->Ok_0.identities(), row_views)
                        &&& r->Ok_0.recipients() == others@.map_values(|o: RecipientRecord| o@)
                    } else {
                        r == Err::<IdentityStore, StorageError>(
                            StorageError::DuplicateFingerprint,
                        )
                    }
                },
            },
    {
        let rows = match identities {
            Ok(rows) => rows,
            Err(e) => {
                return Err(e);
            },
        };
        let others = match recipients {
            Ok(others) => others,
            Err(e) => {
                return Err(e);
            },
        };
        let ghost row_views = rows@.map_values(|row: IdentityRecord| row@);
        let mut mnemonics = FingerprintIndex::new();
        let mut i: usize = 0;
        while i < rows.len()
            invariant
                i <= rows.len(),
                identities == Ok::<Vec<IdentityRecord>, StorageError>(rows),
                recipients is Ok,
                row_views == rows@.map_values(|row: IdentityRecord| row@),
                distinct_fingerprints(row_views.subrange(0, i as int)),
                indexes(mnemonics@, row_views.subrange(0, i as int)),
            decreases rows.len() - i,
        {
            let ghost seen = row_views.subrange(0, i as int);
            let ghost next = row_views.subrange(0, i + 1);
            let fingerprint = rows[i].seed_fingerprint;
            assert(fingerprint@ == row_views[i as int].seed_fingerprint);
            assert(forall|k: int| 0 <= k < i ==> seen[k] == row_views[k]);
            assert(forall|k: int| 0 <= k <= i ==> next[k] == row_views[k]);
            if mnemonics.contains(&fingerprint) {
                proof {
                    let j = choose|j: int|
                        0 <= j < seen.len() && seen[j].seed_fingerprint == fingerprint@;
                    assert(seen[j] == row_views[j]);
                    assert(row_views[j].seed_fingerprint == row_views[i as int].seed_fingerprint);
                }
                return Err(StorageError::DuplicateFingerprint);
            }
            let ghost before = mnemonics@;
            let mnemonic = rows[i].encrypted_mnemonic.clone();
            assert(mnemonic@ =~= rows[i as int].encrypted_mnemonic@);
            mnemonics.insert(fingerprint, mnemonic);
            proof {
                assert forall|a: int, b: int| 0 <= a < b < next.len() implies next[a]
                    .seed_fingerprint != next[b].seed_fingerprint by {
                    if b < i {
                        assert(seen[a].seed_fingerprint != seen[b].seed_fingerprint);
                    } else {
                        assert(before.contains_key(seen[a].seed_fingerprint));
                    }
                }
                assert forall|k: int| 0 <= k < next.len() implies mnemonics@.contains_key(
                    #[trigger] next[k].seed_fingerprint,
                ) && mnemonics@[next[k].seed_fingerprint] == next[k].encrypted_mnemonic by {
                    if k < i {
                        assert(before.contains_key(seen[k].seed_fingerprint));
                    }
                }
                assert forall|key: Seq<u8>| #[trigger] mnemonics@.contains_key(key) implies exists|
                    k: int,
                | 0 <= k < next.len() && next[k].seed_fingerprint == key by {
                    if key == fingerprint@ {
                        assert(next[i as int].seed_fingerprint == key);
                    } else {
                        assert(before.contains_key(key));
                        let k = choose|k: int|
                            0 <= k < seen.len() && seen[k].seed_fingerprint == key;
                        assert(next[k].seed_fingerprint == key);
                    }
                }
            }
            i += 1;
        }
        assert(row_views.subrange(0, i as int) =~= row_views);
        Ok(IdentityStore { mnemonics, recipients: others })
    }

    /// The number of encrypted mnemonics.
    pub fn len(&self) -> (n: usize)
        ensures
            self.identities().dom().finite(),
            n == self.spec_len(),
            n == 0 <==> self.identities() == Map::<Seq<u8>, Seq<u8>>::empty(),
    {
        self.mnemonics.len()
    }

    /// The encrypted mnemonics, in ascending order of their seed fingerprints.
    pub fn load_encrypted_identities(&self) -> (rows: Vec<IdentityRecord>)
        ensures
            rows@.len() == self.spec_len(),
            forall|i: int, j: int|
                0 <= i < j < rows@.len() ==> fingerprint_value(rows@[i].seed_fingerprint@)
                    < fingerprint_value(rows@[j].seed_fingerprint@),
            indexes(self.identities(), rows@.map_values(|row: IdentityRecord| row@)),
    {
        let mut rows: Vec<IdentityRecord> = Vec::new();
        let n = self.mnemonics.len();
        let mut i: usize = 0;
        while i < n
            invariant
                i <= n,
                n == self.mnemonics.spec_len(),
                rows@.len() == i,
                forall|k: int|
                    0 <= k < i ==> {
                        &&& (#[trigger] rows@[k]).seed_fingerprint@ == self.mnemonics.key_at(k)
                        &&& self.identities().contains_key(rows@[k].seed_fingerprint@)
                        &&& self.identities()[rows@[k].seed_fingerprint@]
                            == rows@[k].encrypted_mnemonic@
                    },
            decreases n - i,
        {
            match self.mnemonics.entry_at(i) {
                Some((fingerprint, mnemonic)) => {
                    let copy = mnemonic.clone();
                    assert(copy@ =~= mnemonic@);
                    rows.push(
                        IdentityRecord { seed_fingerprint: *fingerprint, encrypted_mnemonic: copy },
                    );
                },
                None => {},
            }
            i += 1;
        }
        proof {
            let views = rows@.map_values(|row: IdentityRecord| row@);
            assert forall|k: int| 0 <= k < views.len() implies self.identities().contains_key(
                #[trigger] views[k].seed_fingerprint,
            ) && self.identities()[views[k].seed_fingerprint] == views[k].encrypted_mnemonic by {
                assert(views[k] == rows@[k]@);
            }
            assert forall|key: Seq<u8>| #[trigger]
                self.identities().contains_key(key) implies exists|k: int|
                0 <= k < views.len() && views[k].seed_fingerprint == key by {
                let k = choose|k: int| 0 <= k < n && self.mnemonics.key_at(k) == key;
                assert(views[k] == rows@[k]@);
            }
            assert forall|a: int, b: int| 0 <= a < b < rows@.len() implies fingerprint_value(
                rows@[a].seed_fingerprint@,
            ) < fingerprint_value(rows@[b].seed_fingerprint@) by {
                assert(rows@[a].seed_fingerprint@ == self.mnemonics.key_at(a));
                assert(rows@[b].seed_fingerprint@ == self.mnemonics.key_at(b));
            }
        }
        rows
    }

    /// The recipients, in the order in which they were read.
    pub fn load_recipients(&self) -> (rows: &Vec<RecipientRecord>)
        ensures
            rows@.map_values(|r: RecipientRecord| r@) == self.recipients(),
    {
        &self.recipients
    }

    /// The encrypted mnemonic stored under `fingerprint`, found by bisection.
    pub fn encrypted_mnemonic(&self, fingerprint: &[u8; 32]) -> (r: Option<&Vec<u8>>)
        ensures
            match r {
                Some(mnemonic) => self.identities().contains_key(fingerprint@)
                    && self.identities()[fingerprint@] == mnemonic@,
                None => !self.identities().contains_key(fingerprint@),
            },
    {
        self.mnemonics.get(fingerprint)
    }

    /// The mnemonics' index.
    pub(crate) fn index(&self) -> (r: &FingerprintIndex)
        ensures
            r@ == self.identities(),
    {
        &self.mnemonics
    }
}

} // verus!
