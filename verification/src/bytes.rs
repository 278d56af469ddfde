//! Account identifiers and hashes are thirty-two raw bytes. This file gives their order and
//! their equality.

use vstd::prelude::*;

verus! {

/// The number that a string of bytes spells, most significant byte first.
///
/// Between strings of one length, the order of these numbers is the lexicographic order of
/// the strings.
#[verifier::opaque]
pub open spec fn big_endian(s: Seq<u8>) -> nat
    decreases s.len(),
{
    if s.len() == 0 {
        0
    } else {
        big_endian(s.drop_last()) * 256 + s.last() as nat
    }
}

/// `a` comes before `b` in the order of identifiers.
pub open spec fn precedes(a: [u8; 32], b: [u8; 32]) -> bool {
    big_endian(a@) < big_endian(b@)
}

/// Two strings of one length are ordered by the first byte in which they differ.
proof fn lemma_first_difference(a: Seq<u8>, b: Seq<u8>, i: int)
    requires
        a.len() == b.len(),
        0 <= i < a.len(),
        forall|j: int| 0 <= j < i ==> a[j] == b[j],
        a[i] < b[i],
    ensures
        big_endian(a) < big_endian(b),
    decreases a.len(),
{
    reveal(big_endian);
    if i == a.len() - 1 {
        assert(a.drop_last() =~= b.drop_last());
    } else {
        lemma_first_difference(a.drop_last(), b.drop_last(), i);
    }
}

/// Identifiers that stand at one place in the order are the same identifier.
pub proof fn lemma_order_is_total(a: [u8; 32], b: [u8; 32])
    ensures
        precedes(a, b) || precedes(b, a) || a == b,
{
    if a != b {
        assert(exists|i: int| 0 <= i < 32 && a@[i] != b@[i]) by {
            if forall|i: int| 0 <= i < 32 ==> a@[i] == b@[i] {
                assert(a =~= b);
            }
        }
        let k = choose|i: int| 0 <= i < 32 && a@[i] != b@[i];
        lemma_differ_below(a@, b@, k);
    }
}

/// Two strings that differ at `k` are ordered one way or the other.
proof fn lemma_differ_below(a: Seq<u8>, b: Seq<u8>, k: int)
    requires
        a.len() == b.len(),
        0 <= k < a.len(),
        a[k] != b[k],
    ensures
        big_endian(a) != big_endian(b),
    decreases k,
{
    if forall|j: int| 0 <= j < k ==> a[j] == b[j] {
        if a[k] < b[k] {
            lemma_first_difference(a, b, k);
        } else {
            lemma_first_difference(b, a, k);
        }
    } else {
        let j = choose|j: int| 0 <= j < k && a[j] != b[j];
        lemma_differ_below(a, b, j);
    }
}

/// Of two identifiers, the one with the smaller byte comes first, at the first place where they
/// differ, and no identifier comes before itself.
pub proof fn law_order_of_identifiers(a: [u8; 32], b: [u8; 32], i: int)
    requires
        0 <= i < 32,
        forall|j: int| 0 <= j < i ==> a@[j] == b@[j],
        a@[i] != b@[i],
    ensures
        precedes(a, b) <==> a@[i] < b@[i],
        precedes(b, a) <==> b@[i] < a@[i],
        !precedes(a, a),
{
    if a@[i] < b@[i] {
        lemma_first_difference(a@, b@, i);
    } else {
        lemma_first_difference(b@, a@, i);
    }
}

/// Whether `a` and `b` are the same bytes.
pub fn same(a: &[u8; 32], b: &[u8; 32]) -> (r: bool)
    ensures
        r == (*a == *b),
{
    let mut i: usize = 0;
    while i < 32
        invariant
            i <= 32,
            forall|j: int| 0 <= j < i ==> a@[j] == b@[j],
        decreases 32 - i,
    {
        if a[i] != b[i] {
            return false;
        }
        i = i + 1;
    }
    assert(*a =~= *b);
    true
}

/// Whether `a` comes before `b`.
pub fn comes_before(a: &[u8; 32], b: &[u8; 32]) -> (r: bool)
    ensures
        r == precedes(*a, *b),
{
    let mut i: usize = 0;
    while i < 32
        invariant
            i <= 32,
            forall|j: int| 0 <= j < i ==> a@[j] == b@[j],
        decreases 32 - i,
    {
        if a[i] < b[i] {
            proof {
                lemma_first_difference(a@, b@, i as int);
            }
            return true;
        }
        if b[i] < a[i] {
            proof {
                lemma_first_difference(b@, a@, i as int);
            }
            return false;
        }
        i = i + 1;
    }
    assert(a@ =~= b@);
    false
}

} // verus!
