//! An index from seed fingerprints to byte strings.
//!
//! The entries are kept in ascending order of their fingerprints, so that one
//! fingerprint is found by bisection and no entry has to be tried in turn.

use super::fingerprint::{compare, fingerprint_value};
use crate::order::Order;
use vstd::prelude::*;

verus! {

/// Overwrites every entry with zeros and empties the vector, with
/// `zeroize::Zeroize::zeroize` as implemented for `Vec`: the spare capacity is
/// zeroized, then each element, and the length is set to zero. It does not unwind.
#[verifier::external_body]
fn zeroize_entries(entries: &mut Vec<([u8; 32], Vec<u8>)>)
    ensures
        final(entries)@ == Seq::<([u8; 32], Vec<u8>)>::empty(),
    opens_invariants none
    no_unwind
{
    age::secrecy::zeroize::Zeroize::zeroize(entries)
}

/// Whether the fingerprints ascend strictly from each entry to the next.
spec fn ascending(entries: Seq<([u8; 32], Vec<u8>)>) -> bool {
    forall|i: int, j: int|
        0 <= i < j < entries.len() ==> fingerprint_value(entries[i].0@) < fingerprint_value(
            entries[j].0@,
        )
}

/// Whether some entry has the fingerprint `key`.
spec fn holds(entries: Seq<([u8; 32], Vec<u8>)>, key: Seq<u8>) -> bool {
    exists|i: int| 0 <= i < entries.len() && entries[i].0@ == key
}

/// The map that the entries stand for.
spec fn model(entries: Seq<([u8; 32], Vec<u8>)>) -> Map<Seq<u8>, Seq<u8>> {
    Map::new(
        |key: Seq<u8>| holds(entries, key),
        |key: Seq<u8>| entries[choose|i: int| 0 <= i < entries.len() && entries[i].0@ == key].1@,
    )
}

proof fn lemma_model_at(entries: Seq<([u8; 32], Vec<u8>)>, i: int)
    requires
        ascending(entries),
        0 <= i < entries.len(),
    ensures
        model(entries).contains_key(entries[i].0@),
        model(entries)[entries[i].0@] == entries[i].1@,
{
    let key = entries[i].0@;
    assert(holds(entries, key));
    let j = choose|j: int| 0 <= j < entries.len() && entries[j].0@ == key;
    if j < i {
        assert(fingerprint_value(entries[j].0@) < fingerprint_value(entries[i].0@));
    }
    if i < j {
        assert(fingerprint_value(entries[i].0@) < fingerprint_value(entries[j].0@));
    }
}

proof fn lemma_model_insert(entries: Seq<([u8; 32], Vec<u8>)>, p: int, e: ([u8; 32], Vec<u8>))
    requires
        ascending(entries),
        0 <= p <= entries.len(),
        forall|i: int| 0 <= i < p ==> fingerprint_value(entries[i].0@) < fingerprint_value(e.0@),
        forall|i: int|
            p <= i < entries.len() ==> fingerprint_value(entries[i].0@) > fingerprint_value(e.0@),
    ensures
        ascending(entries.insert(p, e)),
        model(entries.insert(p, e)) == model(entries).insert(e.0@, e.1@),
{
    let after = entries.insert(p, e);
    assert forall|i: int, j: int| 0 <= i < j < after.len() implies fingerprint_value(
        after[i].0@,
    ) < fingerprint_value(after[j].0@) by {
        let oi = if i < p { i } else { i - 1 };
        let oj = if j < p { j } else { j - 1 };
        if i != p && j != p {
            assert(after[i] == entries[oi]);
            assert(after[j] == entries[oj]);
        } else if i == p {
            assert(after[j] == entries[oj]);
        } else {
            assert(after[i] == entries[oi]);
        }
    }
    assert(ascending(after));
    assert forall|key: Seq<u8>| holds(after, key) <==> (key == e.0@ || holds(entries, key)) by {
        if holds(after, key) {
            let i = choose|i: int| 0 <= i < after.len() && after[i].0@ == key;
            if i < p {
                assert(after[i] == entries[i]);
            } else if i > p {
                assert(after[i] == entries[i - 1]);
            }
        }
        if key == e.0@ {
            assert(after[p] == e);
        }
        if holds(entries, key) {
            let i = choose|i: int| 0 <= i < entries.len() && entries[i].0@ == key;
            if i < p {
                assert(after[i] == entries[i]);
            } else {
                assert(after[i + 1] == entries[i]);
            }
        }
    }
    let expected = model(entries).insert(e.0@, e.1@);
    assert forall|key: Seq<u8>| model(after).contains_key(key) implies #[trigger] model(after)[key]
        == expected[key] by {
        let i = choose|i: int| 0 <= i < after.len() && after[i].0@ == key;
        lemma_model_at(after, i);
        if i < p {
            assert(after[i] == entries[i]);
            lemma_model_at(entries, i);
        } else if i > p {
            assert(after[i] == entries[i - 1]);
            lemma_model_at(entries, i - 1);
        }
    }
    assert(model(after) =~= expected);
}

proof fn lemma_model_update(entries: Seq<([u8; 32], Vec<u8>)>, p: int, e: ([u8; 32], Vec<u8>))
    requires
        ascending(entries),
        0 <= p < entries.len(),
        entries[p].0@ == e.0@,
    ensures
        ascending(entries.update(p, e)),
        model(entries.update(p, e)) == model(entries).insert(e.0@, e.1@),
{
    let after = entries.update(p, e);
    assert forall|i: int, j: int| 0 <= i < j < after.len() implies fingerprint_value(
        after[i].0@,
    ) < fingerprint_value(after[j].0@) by {
        assert(after[i].0@ == entries[i].0@);
        assert(after[j].0@ == entries[j].0@);
    }
    assert(ascending(after));
    assert forall|key: Seq<u8>| holds(after, key) <==> (key == e.0@ || holds(entries, key)) by {
        if holds(after, key) {
            let i = choose|i: int| 0 <= i < after.len() && after[i].0@ == key;
            assert(after[i].0@ == entries[i].0@);
        }
        if key == e.0@ {
            assert(after[p] == e);
        }
        if holds(entries, key) {
            let i = choose|i: int| 0 <= i < entries.len() && entries[i].0@ == key;
            assert(after[i].0@ == entries[i].0@);
        }
    }
    let expected = model(entries).insert(e.0@, e.1@);
    assert forall|key: Seq<u8>| model(after).contains_key(key) implies #[trigger] model(after)[key]
        == expected[key] by {
        let i = choose|i: int| 0 <= i < after.len() && after[i].0@ == key;
        lemma_model_at(after, i);
        if i != p {
            assert(after[i] == entries[i]);
            lemma_model_at(entries, i);
        }
    }
    assert(model(after) =~= expected);
}

proof fn lemma_model_len(entries: Seq<([u8; 32], Vec<u8>)>)
    requires
        ascending(entries),
    ensures
        model(entries).dom().finite(),
        model(entries).dom().len() == entries.len(),
    decreases entries.len(),
{
    if entries.len() == 0 {
        assert(model(entries).dom() =~= Set::<Seq<u8>>::empty());
    } else {
        let rest = entries.drop_last();
        let last = entries.last();
        assert forall|i: int, j: int| 0 <= i < j < rest.len() implies fingerprint_value(
            rest[i].0@,
        ) < fingerprint_value(rest[j].0@) by {
            assert(rest[i] == entries[i]);
            assert(rest[j] == entries[j]);
        }
        lemma_model_len(rest);
        assert forall|i: int| 0 <= i < rest.len() implies fingerprint_value(rest[i].0@)
            < fingerprint_value(last.0@) by {
            assert(rest[i] == entries[i]);
            assert(last == entries[entries.len() - 1]);
        }
        lemma_model_insert(rest, rest.len() as int, last);
        assert(entries =~= rest.insert(rest.len() as int, last));
        if holds(rest, last.0@) {
            let i = choose|i: int| 0 <= i < rest.len() && rest[i].0@ == last.0@;
            assert(fingerprint_value(rest[i].0@) < fingerprint_value(last.0@));
        }
        assert(!model(rest).dom().contains(last.0@));
        assert(model(entries).dom() =~= model(rest).dom().insert(last.0@));
    }
}

/// Finds where `fingerprint` stands among ascending entries: the position of its
/// entry, or the position at which an entry for it would have to be inserted.
fn search(entries: &Vec<([u8; 32], Vec<u8>)>, fingerprint: &[u8; 32]) -> (r: (usize, bool))
    requires
        ascending(entries@),
    ensures
        r.0 <= entries@.len(),
        forall|i: int|
            0 <= i < r.0 ==> fingerprint_value(entries@[i].0@) < fingerprint_value(fingerprint@),
        r.1 ==> r.0 < entries@.len() && entries@[r.0 as int].0@ == fingerprint@,
        !r.1 ==> forall|i: int|
            r.0 <= i < entries@.len() ==> fingerprint_value(entries@[i].0@) > fingerprint_value(
                fingerprint@,
            ),
        r.1 == holds(entries@, fingerprint@),
{
    let mut lo: usize = 0;
    let mut hi: usize = entries.len();
    while lo < hi
        invariant
            ascending(entries@),
            lo <= hi <= entries@.len(),
            forall|i: int|
                0 <= i < lo ==> fingerprint_value(entries@[i].0@) < fingerprint_value(
                    fingerprint@,
                ),
            forall|i: int|
                hi <= i < entries@.len() ==> fingerprint_value(entries@[i].0@)
                    > fingerprint_value(fingerprint@),
        decreases hi - lo,
    {
        let mid = lo + (hi - lo) / 2;
        match compare(&entries[mid].0, fingerprint) {
            Order::Same => {
                assert forall|i: int| 0 <= i < mid implies fingerprint_value(entries@[i].0@)
                    < fingerprint_value(fingerprint@) by {
                    assert(fingerprint_value(entries@[i].0@) < fingerprint_value(
                        entries@[mid as int].0@,
                    ));
                }
                assert(holds(entries@, fingerprint@));
                return (mid, true);
            },
            Order::Before => {
                assert forall|i: int| 0 <= i < mid + 1 implies fingerprint_value(entries@[i].0@)
                    < fingerprint_value(fingerprint@) by {
                    if i < mid {
                        assert(fingerprint_value(entries@[i].0@) < fingerprint_value(
                            entries@[mid as int].0@,
                        ));
                    }
                }
                lo = mid + 1;
            },
            Order::After => {
                assert forall|i: int| mid <= i < entries@.len() implies fingerprint_value(
                    entries@[i].0@,
                ) > fingerprint_value(fingerprint@) by {
                    if mid < i {
                        assert(fingerprint_value(entries@[mid as int].0@) < fingerprint_value(
                            entries@[i].0@,
                        ));
                    }
                }
                hi = mid;
            },
        }
    }
    assert(!holds(entries@, fingerprint@));
    (lo, false)
}

/// A finite map from seed fingerprints to byte strings, searched by bisection.
pub struct FingerprintIndex {
    entries: Vec<([u8; 32], Vec<u8>)>,
}

impl View for FingerprintIndex {
    type V = Map<Seq<u8>, Seq<u8>>;

    closed spec fn view(&self) -> Map<Seq<u8>, Seq<u8>> {
        model(self.entries@)
    }
}

impl FingerprintIndex {
    #[verifier::type_invariant]
    spec fn well_formed(self) -> bool {
        ascending(self.entries@)
    }

    /// The number of entries.
    pub open spec fn spec_len(&self) -> nat {
        self@.dom().len()
    }

    /// The fingerprint of the entry at `position`, counted in ascending order.
    pub closed spec fn key_at(&self, position: int) -> Seq<u8> {
        self.entries@[position].0@
    }

    /// An index without entries.
    pub fn new() -> (index: FingerprintIndex)
        ensures
            index@ == Map::<Seq<u8>, Seq<u8>>::empty(),
            index.spec_len() == 0,
    {
        let index = FingerprintIndex { entries: Vec::new() };
        assert(index@ =~= Map::<Seq<u8>, Seq<u8>>::empty());
        assert(index@.dom() =~= Set::<Seq<u8>>::empty());
        index
    }

    /// The number of entries. Every fingerprint of the index stands at one position
    /// below that number, and the fingerprints ascend with the positions.
    pub fn len(&self) -> (n: usize)
        ensures
            self@.dom().finite(),
            n == self.spec_len(),
            n == 0 <==> self@ == Map::<Seq<u8>, Seq<u8>>::empty(),
            forall|key: Seq<u8>| #[trigger]
                self@.contains_key(key) ==> exists|position: int|
                    0 <= position < n && self.key_at(position) == key,
            forall|i: int, j: int|
                0 <= i < j < n ==> fingerprint_value(self.key_at(i)) < fingerprint_value(
                    self.key_at(j),
                ),
    {
        proof {
            use_type_invariant(self);
            lemma_model_len(self.entries@);
            if self.entries@.len() > 0 {
                lemma_model_at(self.entries@, 0);
            } else {
                assert(self@ =~= Map::<Seq<u8>, Seq<u8>>::empty());
            }
            assert forall|key: Seq<u8>| #[trigger] self@.contains_key(key) implies exists|
                position: int,
            | 0 <= position < self.entries@.len() && self.key_at(position) == key by {
                let position = choose|i: int|
                    0 <= i < self.entries@.len() && self.entries@[i].0@ == key;
                assert(self.key_at(position) == key);
            }
        }
        self.entries.len()
    }

    /// Whether the index has no entry.
    pub fn is_empty(&self) -> (r: bool)
        ensures
            r == (self@ == Map::<Seq<u8>, Seq<u8>>::empty()),
    {
        self.len() == 0
    }

    /// The byte string stored under `fingerprint`, if there is one.
    pub fn get(&self, fingerprint: &[u8; 32]) -> (r: Option<&Vec<u8>>)
        ensures
            match r {
                Some(bytes) => self@.contains_key(fingerprint@) && self@[fingerprint@] == bytes@,
                None => !self@.contains_key(fingerprint@),
            },
    {
        proof {
            use_type_invariant(self);
        }
        let (position, found) = search(&self.entries, fingerprint);
        if found {
            proof {
                lemma_model_at(self.entries@, position as int);
            }
            Some(&self.entries[position].1)
        } else {
            None
        }
    }

    /// Whether an entry is stored under `fingerprint`.
    pub fn contains(&self, fingerprint: &[u8; 32]) -> (r: bool)
        ensures
            r == self@.contains_key(fingerprint@),
    {
        self.get(fingerprint).is_some()
    }

    /// Stores `bytes` under `fingerprint` and hands back what was stored there before.
    pub fn insert(&mut self, fingerprint: [u8; 32], bytes: Vec<u8>) -> (r: Option<Vec<u8>>)
        ensures
            final(self)@ == old(self)@.insert(fingerprint@, bytes@),
            match r {
                Some(before) => old(self)@.contains_key(fingerprint@) && old(self)@[fingerprint@]
                    == before@,
                None => !old(self)@.contains_key(fingerprint@),
            },
    {
        proof {
            use_type_invariant(&*self);
        }
        let mut entries: Vec<([u8; 32], Vec<u8>)> = Vec::new();
        std::mem::swap(&mut entries, &mut self.entries);
        let ghost before = entries@;
        let (position, found) = search(&entries, &fingerprint);
        let r = if found {
            let replaced = entries.remove(position);
            entries.insert(position, (fingerprint, bytes));
            proof {
                lemma_model_at(before, position as int);
                lemma_model_update(before, position as int, (fingerprint, bytes));
                assert(entries@ =~= before.update(position as int, (fingerprint, bytes)));
            }
            Some(replaced.1)
        } else {
            entries.insert(position, (fingerprint, bytes));
            proof {
                lemma_model_insert(before, position as int, (fingerprint, bytes));
            }
            None
        };
        self.entries = entries;
        r
    }

    /// The entry at `position`, counted in ascending order of the fingerprints.
    pub fn entry_at(&self, position: usize) -> (r: Option<(&[u8; 32], &Vec<u8>)>)
        ensures
            match r {
                Some((fingerprint, bytes)) => {
                    &&& position < self.spec_len()
                    &&& fingerprint@ == self.key_at(position as int)
                    &&& self@.contains_key(fingerprint@)
                    &&& self@[fingerprint@] == bytes@
                },
                None => position >= self.spec_len(),
            },
    {
        proof {
            use_type_invariant(self);
            lemma_model_len(self.entries@);
        }
        if position < self.entries.len() {
            proof {
                lemma_model_at(self.entries@, position as int);
            }
            Some((&self.entries[position].0, &self.entries[position].1))
        } else {
            None
        }
    }

    /// Overwrites the stored fingerprints and byte strings with zeros and leaves the
    /// index empty.
    pub fn wipe(&mut self)
        ensures
            final(self)@ == Map::<Seq<u8>, Seq<u8>>::empty(),
            final(self).spec_len() == 0,
        opens_invariants none
        no_unwind
    {
        zeroize_entries(&mut self.entries);
        assert(self@ =~= Map::<Seq<u8>, Seq<u8>>::empty());
        assert(self@.dom() =~= Set::<Seq<u8>>::empty());
    }
}

} // verus!
