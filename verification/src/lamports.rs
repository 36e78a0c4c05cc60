use vstd::prelude::*;

use crate::bytes::bytes_eq;

verus! {

/// One party's storage-deposit balance.
pub struct LamportAccount {
    pub owner: Vec<u8>,
    pub lamports: u64,
}

/// The storage-deposit balance of `owner`; zero when no entry exists.
pub open spec fn lamport_balance(s: Seq<LamportAccount>, owner: Seq<u8>) -> u64
    decreases s.len(),
{
    if s.len() == 0 {
        0u64
    } else if s[0].owner@ == owner {
        s[0].lamports
    } else {
        lamport_balance(s.drop_first(), owner)
    }
}

/// The first entry of `owner`, as an index.
pub fn find_deposit_idx(s: &Vec<LamportAccount>, owner: &Vec<u8>) -> (r: Option<usize>)
    ensures
        match r {
            Some(i) => i < s@.len() && s@[i as int].owner@ == owner@ && (forall|j: int|
                0 <= j < i ==> s@[j].owner@ != owner@),
            None => forall|j: int| 0 <= j < s@.len() ==> s@[j].owner@ != owner@,
        },
{
    let mut i: usize = 0;
    while i < s.len()
        invariant
            i <= s.len(),
            forall|j: int| 0 <= j < i ==> s@[j].owner@ != owner@,
        decreases s.len() - i,
    {
        if bytes_eq(&s[i].owner, owner) {
            return Some(i);
        }
        i += 1;
    }
    None
}

/// A first matching index decides the balance.
pub proof fn lemma_lamport_first_match(s: Seq<LamportAccount>, i: int)
    requires
        0 <= i < s.len(),
        forall|j: int| 0 <= j < i ==> s[j].owner@ != s[i].owner@,
    ensures
        lamport_balance(s, s[i].owner@) == s[i].lamports,
    decreases i,
{
    if i > 0 {
        assert(s.drop_first()[i - 1] == s[i]);
        assert(forall|j: int|
            0 <= j < i - 1 ==> s.drop_first()[j] == s[j + 1] && s[j + 1].owner@ != s[i].owner@);
        lemma_lamport_first_match(s.drop_first(), i - 1);
    }
}

/// Where no entry matches, the balance is zero.
pub proof fn lemma_lamport_absent(s: Seq<LamportAccount>, owner: Seq<u8>)
    requires
        forall|j: int| 0 <= j < s.len() ==> s[j].owner@ != owner,
    ensures
        lamport_balance(s, owner) == 0,
    decreases s.len(),
{
    if s.len() > 0 {
        assert(forall|j: int|
            0 <= j < s.drop_first().len() ==> s.drop_first()[j] == s[j + 1] && s[j + 1].owner@
                != owner);
        lemma_lamport_absent(s.drop_first(), owner);
    }
}

/// Replacing the first matching entry moves its owner's balance to the new
/// amount and leaves every other owner untouched.
pub proof fn lemma_lamport_update(s: Seq<LamportAccount>, i: int, a: LamportAccount)
    requires
        0 <= i < s.len(),
        a.owner@ == s[i].owner@,
        forall|j: int| 0 <= j < i ==> s[j].owner@ != s[i].owner@,
    ensures
        lamport_balance(s.update(i, a), s[i].owner@) == a.lamports,
        forall|o: Seq<u8>|
            o != s[i].owner@ ==> #[trigger] lamport_balance(s.update(i, a), o) == lamport_balance(
                s,
                o,
            ),
    decreases i,
{
    let s2 = s.update(i, a);
    if i == 0 {
        assert(s2.drop_first() =~= s.drop_first());
    } else {
        assert(s2.drop_first() =~= s.drop_first().update(i - 1, a));
        assert(s2[0] == s[0]);
        assert(s.drop_first()[i - 1] == s[i]);
        assert(forall|j: int|
            0 <= j < i - 1 ==> s.drop_first()[j] == s[j + 1] && s[j + 1].owner@ != s[i].owner@);
        lemma_lamport_update(s.drop_first(), i - 1, a);
        assert forall|o: Seq<u8>| o != s[i].owner@ implies #[trigger] lamport_balance(s2, o)
            == lamport_balance(s, o) by {
            if s[0].owner@ != o {
                assert(lamport_balance(s2, o) == lamport_balance(s2.drop_first(), o));
            }
        }
    }
}

/// Appending an entry for a fresh owner gives that owner its amount and
/// leaves every other owner untouched.
pub proof fn lemma_lamport_push(s: Seq<LamportAccount>, a: LamportAccount)
    requires
        forall|j: int| 0 <= j < s.len() ==> s[j].owner@ != a.owner@,
    ensures
        lamport_balance(s.push(a), a.owner@) == a.lamports,
        forall|o: Seq<u8>|
            o != a.owner@ ==> #[trigger] lamport_balance(s.push(a), o) == lamport_balance(s, o),
    decreases s.len(),
{
    let s2 = s.push(a);
    if s.len() == 0 {
        assert(s2[0] == a);
        assert(s2.drop_first() =~= Seq::<LamportAccount>::empty());
        assert forall|o: Seq<u8>| o != a.owner@ implies #[trigger] lamport_balance(s2, o)
            == lamport_balance(s, o) by {
            assert(lamport_balance(s2, o) == lamport_balance(s2.drop_first(), o));
        }
    } else {
        assert(s2[0] == s[0]);
        assert(s2.drop_first() =~= s.drop_first().push(a));
        assert(forall|j: int|
            0 <= j < s.drop_first().len() ==> s.drop_first()[j] == s[j + 1] && s[j + 1].owner@
                != a.owner@);
        lemma_lamport_push(s.drop_first(), a);
        assert forall|o: Seq<u8>| o != a.owner@ implies #[trigger] lamport_balance(s2, o)
            == lamport_balance(s, o) by {
            if s[0].owner@ != o {
                assert(lamport_balance(s2, o) == lamport_balance(s2.drop_first(), o));
            }
        }
    }
}

} // verus!
