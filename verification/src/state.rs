use vstd::prelude::*;

use crate::bytes::bytes_eq;

verus! {

/// One pending conditional exchange, as persisted at its derived address.
///
/// `maker` deposited asset `mint_a` and demands `receive_amount` base units
/// of asset `mint_b` in return.  `seed` and `bump` reproduce the record's
/// address deterministically.
pub struct EscrowRecord {
    pub seed: u64,
    pub maker: Vec<u8>,
    pub mint_a: Vec<u8>,
    pub mint_b: Vec<u8>,
    pub receive_amount: u64,
    pub bump: u8,
}

/// A live escrow record together with the address it lives at and the
/// storage deposit that creating it cost the maker.
pub struct EscrowEntry {
    pub address: Vec<u8>,
    pub record: EscrowRecord,
    pub rent: u64,
}

/// The first entry living at `addr`, if one exists.
pub open spec fn find_escrow(s: Seq<EscrowEntry>, addr: Seq<u8>) -> Option<EscrowEntry>
    decreases s.len(),
{
    if s.len() == 0 {
        None
    } else if s[0].address@ == addr {
        Some(s[0])
    } else {
        find_escrow(s.drop_first(), addr)
    }
}

/// The first entry at `addr`, as an index.
pub fn find_escrow_idx(s: &Vec<EscrowEntry>, addr: &Vec<u8>) -> (r: Option<usize>)
    ensures
        match r {
            Some(i) => i < s@.len() && s@[i as int].address@ == addr@ && (forall|j: int|
                0 <= j < i ==> s@[j].address@ != addr@),
            None => forall|j: int| 0 <= j < s@.len() ==> s@[j].address@ != addr@,
        },
{
    let mut i: usize = 0;
    while i < s.len()
        invariant
            i <= s.len(),
            forall|j: int| 0 <= j < i ==> s@[j].address@ != addr@,
        decreases s.len() - i,
    {
        if bytes_eq(&s[i].address, addr) {
            return Some(i);
        }
        i += 1;
    }
    None
}

/// A first matching index decides the lookup.
pub proof fn lemma_escrow_first_match(s: Seq<EscrowEntry>, i: int)
    requires
        0 <= i < s.len(),
        forall|j: int| 0 <= j < i ==> s[j].address@ != s[i].address@,
    ensures
        find_escrow(s, s[i].address@) == Some(s[i]),
    decreases i,
{
    if i > 0 {
        assert(s.drop_first()[i - 1] == s[i]);
        assert(forall|j: int|
            0 <= j < i - 1 ==> s.drop_first()[j] == s[j + 1] && s[j + 1].address@
                != s[i].address@);
        lemma_escrow_first_match(s.drop_first(), i - 1);
    }
}

/// Where no entry matches, the lookup is empty.
pub proof fn lemma_escrow_absent(s: Seq<EscrowEntry>, addr: Seq<u8>)
    requires
        forall|j: int| 0 <= j < s.len() ==> s[j].address@ != addr,
    ensures
        find_escrow(s, addr) is None,
    decreases s.len(),
{
    if s.len() > 0 {
        assert(forall|j: int|
            0 <= j < s.drop_first().len() ==> s.drop_first()[j] == s[j + 1] && s[j + 1].address@
                != addr);
        lemma_escrow_absent(s.drop_first(), addr);
    }
}

/// A found entry stands at some index of the sequence.
pub proof fn lemma_escrow_found(s: Seq<EscrowEntry>, addr: Seq<u8>)
    requires
        find_escrow(s, addr) is Some,
    ensures
        exists|k: int|
            0 <= k < s.len() && s[k] == find_escrow(s, addr)->Some_0 && #[trigger] s[k].address@
                == addr,
    decreases s.len(),
{
    if s.len() > 0 {
        if s[0].address@ == addr {
            assert(s[0] == find_escrow(s, addr)->Some_0 && s[0].address@ == addr);
        } else {
            lemma_escrow_found(s.drop_first(), addr);
            let k0 = choose|k: int|
                0 <= k < s.drop_first().len() && s.drop_first()[k] == find_escrow(
                    s.drop_first(),
                    addr,
                )->Some_0 && #[trigger] s.drop_first()[k].address@ == addr;
            assert(s[k0 + 1] == s.drop_first()[k0]);
            assert(s[k0 + 1].address@ == addr);
        }
    }
}

/// Appending an entry for a fresh address leaves every other address's
/// lookup untouched and makes the new entry findable.
pub proof fn lemma_escrow_push(s: Seq<EscrowEntry>, a: EscrowEntry)
    requires
        forall|j: int| 0 <= j < s.len() ==> s[j].address@ != a.address@,
    ensures
        find_escrow(s.push(a), a.address@) == Some(a),
        forall|x: Seq<u8>|
            x != a.address@ ==> #[trigger] find_escrow(s.push(a), x) == find_escrow(s, x),
    decreases s.len(),
{
    let s2 = s.push(a);
    if s.len() == 0 {
        assert(s2[0] == a);
        assert(s2.drop_first() =~= Seq::<EscrowEntry>::empty());
        assert forall|x: Seq<u8>| x != a.address@ implies #[trigger] find_escrow(s2, x)
            == find_escrow(s, x) by {
            assert(find_escrow(s2, x) == find_escrow(s2.drop_first(), x));
        }
    } else {
        assert(s2[0] == s[0]);
        assert(s2.drop_first() =~= s.drop_first().push(a));
        assert(forall|j: int|
            0 <= j < s.drop_first().len() ==> s.drop_first()[j] == s[j + 1] && s[j + 1].address@
                != a.address@);
        lemma_escrow_push(s.drop_first(), a);
        assert forall|x: Seq<u8>| x != a.address@ implies #[trigger] find_escrow(s2, x)
            == find_escrow(s, x) by {
            if s[0].address@ != x {
                assert(find_escrow(s2, x) == find_escrow(s2.drop_first(), x));
            }
        }
    }
}

/// Removing the only entry at an address empties that address and leaves
/// every other address's lookup untouched.
pub proof fn lemma_escrow_remove(s: Seq<EscrowEntry>, i: int)
    requires
        0 <= i < s.len(),
        forall|j: int| 0 <= j < s.len() && j != i ==> s[j].address@ != s[i].address@,
    ensures
        find_escrow(s.remove(i), s[i].address@) is None,
        forall|x: Seq<u8>|
            x != s[i].address@ ==> #[trigger] find_escrow(s.remove(i), x) == find_escrow(s, x),
    decreases i,
{
    let s2 = s.remove(i);
    if i == 0 {
        assert(s2 =~= s.drop_first());
        assert(forall|j: int| 0 <= j < s2.len() ==> s2[j] == s[j + 1]);
        lemma_escrow_absent(s2, s[0].address@);
    } else {
        assert(s2[0] == s[0]);
        assert(s2.drop_first() =~= s.drop_first().remove(i - 1));
        assert(s.drop_first()[i - 1] == s[i]);
        assert(forall|j: int|
            0 <= j < s.drop_first().len() && j != i - 1 ==> s.drop_first()[j] == s[j + 1]
                && s[j + 1].address@ != s[i].address@);
        lemma_escrow_remove(s.drop_first(), i - 1);
        assert(find_escrow(s2, s[i].address@) == find_escrow(s2.drop_first(), s[i].address@));
        assert forall|x: Seq<u8>| x != s[i].address@ implies #[trigger] find_escrow(s2, x)
            == find_escrow(s, x) by {
            if s[0].address@ != x {
                assert(find_escrow(s2, x) == find_escrow(s2.drop_first(), x));
            }
        }
    }
}

} // verus!
