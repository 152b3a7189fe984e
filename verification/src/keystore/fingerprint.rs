//! Seed fingerprints and the order in which the keystore indexes them.

use crate::order::Order;
use vstd::prelude::*;

verus! {

/// The number that the first `n` bytes spell, most significant byte first.
pub open spec fn prefix_value(bytes: Seq<u8>, n: nat) -> nat
    decreases n,
{
    if n == 0 {
        0
    } else {
        prefix_value(bytes, (n - 1) as nat) * 256 + bytes[n - 1] as nat
    }
}

/// The number that a fingerprint spells. The index keeps its entries in the order of
/// these numbers.
pub open spec fn fingerprint_value(bytes: Seq<u8>) -> nat {
    prefix_value(bytes, bytes.len())
}

/// Sequences that agree on their first `n` bytes spell the same number there.
pub proof fn lemma_prefix_value_agrees(a: Seq<u8>, b: Seq<u8>, n: nat)
    requires
        forall|j: int| 0 <= j < n ==> a[j] == b[j],
    ensures
        prefix_value(a, n) == prefix_value(b, n),
    decreases n,
{
    if n > 0 {
        lemma_prefix_value_agrees(a, b, (n - 1) as nat);
    }
}

/// Once a prefix spells a smaller number, so does every longer prefix.
pub proof fn lemma_prefix_value_stays_below(a: Seq<u8>, b: Seq<u8>, n: nat, m: nat)
    requires
        n <= m,
        prefix_value(a, n) < prefix_value(b, n),
    ensures
        prefix_value(a, m) < prefix_value(b, m),
    decreases m,
{
    if n < m {
        lemma_prefix_value_stays_below(a, b, n, (m - 1) as nat);
    }
}

/// Compares two fingerprints byte by byte, most significant byte first.
pub fn compare(a: &[u8; 32], b: &[u8; 32]) -> (r: Order)
    ensures
        r == Order::Before <==> fingerprint_value(a@) < fingerprint_value(b@),
        r == Order::Same <==> a@ == b@,
        r == Order::After <==> fingerprint_value(a@) > fingerprint_value(b@),
{
    let mut i: usize = 0;
    while i < 32
        invariant
            i <= 32,
            forall|j: int| 0 <= j < i ==> a@[j] == b@[j],
        decreases 32 - i,
    {
        if a[i] < b[i] {
            proof {
                lemma_prefix_value_agrees(a@, b@, i as nat);
                lemma_prefix_value_stays_below(a@, b@, (i + 1) as nat, 32);
            }
            return Order::Before;
        }
        if a[i] > b[i] {
            proof {
                lemma_prefix_value_agrees(a@, b@, i as nat);
                lemma_prefix_value_stays_below(b@, a@, (i + 1) as nat, 32);
            }
            return Order::After;
        }
        i += 1;
    }
    assert(a@ =~= b@);
    Order::Same
}

} // verus!
