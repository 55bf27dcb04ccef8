//! Deterministic address derivation. A record's storage address is a pure
//! function of its title and its owner identity, and is the sole mechanism
//! for locating a record: there is no separate index.

use vstd::prelude::*;

verus! {

/// The address of the record identified by `title` and `owner`: the raw
/// bytes of the title followed by the owner identity, in that order.
/// Because the owner suffix has a fixed 32-byte length, distinct
/// `(title, owner)` pairs always map to distinct addresses.
pub open spec fn address_of(title: Seq<u8>, owner: Seq<u8>) -> Seq<u8> {
    title + owner
}

/// Derives the storage address of the record identified by `title` and
/// `owner`.
pub fn derive_address(title: &Vec<u8>, owner: &[u8; 32]) -> (r: Vec<u8>)
    ensures
        r@ == address_of(title@, owner@),
{
    let mut r: Vec<u8> = Vec::new();
    let mut i: usize = 0;
    while i < title.len()
        invariant
            i <= title.len(),
            r@ == title@.subrange(0, i as int),
        decreases title.len() - i,
    {
        r.push(title[i]);
        proof {
            assert(r@ =~= title@.subrange(0, i + 1));
        }
        i = i + 1;
    }
    proof {
        assert(title@.subrange(0, title@.len() as int) =~= title@);
    }
    let mut j: usize = 0;
    while j < 32
        invariant
            j <= 32,
            r@ == title@ + owner@.subrange(0, j as int),
        decreases 32 - j,
    {
        r.push(owner[j]);
        proof {
            assert(r@ =~= title@ + owner@.subrange(0, j + 1));
        }
        j = j + 1;
    }
    proof {
        assert(owner@.subrange(0, 32) =~= owner@);
    }
    r
}

/// Address derivation is deterministic: any two derivations from equal
/// inputs yield equal addresses.
pub proof fn lemma_address_deterministic(t1: Seq<u8>, o1: Seq<u8>, t2: Seq<u8>, o2: Seq<u8>)
    requires
        t1 == t2,
        o1 == o2,
    ensures
        address_of(t1, o1) == address_of(t2, o2),
{
}

/// Address derivation is injective on 32-byte identities: equal addresses
/// can only come from an equal title and an equal owner.
pub proof fn lemma_address_injective(t1: Seq<u8>, o1: Seq<u8>, t2: Seq<u8>, o2: Seq<u8>)
    requires
        o1.len() == 32,
        o2.len() == 32,
        address_of(t1, o1) == address_of(t2, o2),
    ensures
        t1 == t2,
        o1 == o2,
{
    let a = address_of(t1, o1);
    assert(a.len() == t1.len() + o1.len());
    assert(a.len() == t2.len() + o2.len());
    assert(t1.len() == t2.len());
    assert(t1 =~= a.subrange(0, t1.len() as int));
    assert(t2 =~= a.subrange(0, t2.len() as int));
    assert(o1 =~= a.subrange(t1.len() as int, a.len() as int));
    assert(o2 =~= a.subrange(t2.len() as int, a.len() as int));
}

/// Changing the title or the owner changes the address: distinct
/// `(title, owner)` pairs derive distinct addresses.
pub proof fn lemma_address_distinct(t1: Seq<u8>, o1: Seq<u8>, t2: Seq<u8>, o2: Seq<u8>)
    requires
        o1.len() == 32,
        o2.len() == 32,
        t1 != t2 || o1 != o2,
    ensures
        address_of(t1, o1) != address_of(t2, o2),
{
    if address_of(t1, o1) == address_of(t2, o2) {
        lemma_address_injective(t1, o1, t2, o2);
    }
}

} // verus!
