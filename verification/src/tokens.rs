use vstd::prelude::*;

use crate::bytes::bytes_eq;

verus! {

/// One holding of a single asset: `owner` keeps `amount` base units of the
/// asset identified by `mint`.
pub struct TokenAccount {
    pub owner: Vec<u8>,
    pub mint: Vec<u8>,
    pub amount: u64,
}

/// Whether an account is the holding of `owner` for asset `mint`.
pub open spec fn acct_matches(a: TokenAccount, owner: Seq<u8>, mint: Seq<u8>) -> bool {
    a.owner@ == owner && a.mint@ == mint
}

/// The amount held at the first account of `owner` for `mint`; zero when no
/// such account exists.
pub open spec fn token_balance(s: Seq<TokenAccount>, owner: Seq<u8>, mint: Seq<u8>) -> u64
    decreases s.len(),
{
    if s.len() == 0 {
        0u64
    } else if acct_matches(s[0], owner, mint) {
        s[0].amount
    } else {
        token_balance(s.drop_first(), owner, mint)
    }
}

/// Whether a holding of `owner` for `mint` exists.
pub open spec fn has_token(s: Seq<TokenAccount>, owner: Seq<u8>, mint: Seq<u8>) -> bool
    decreases s.len(),
{
    if s.len() == 0 {
        false
    } else if acct_matches(s[0], owner, mint) {
        true
    } else {
        has_token(s.drop_first(), owner, mint)
    }
}

/// The first account of `owner` for `mint`, as an index.
pub fn find_token_idx(s: &Vec<TokenAccount>, owner: &Vec<u8>, mint: &Vec<u8>) -> (r: Option<
    usize,
>)
    ensures
        match r {
            Some(i) => i < s@.len() && acct_matches(s@[i as int], owner@, mint@) && (forall|j: int|
                0 <= j < i ==> !acct_matches(s@[j], owner@, mint@)),
            None => forall|j: int| 0 <= j < s@.len() ==> !acct_matches(s@[j], owner@, mint@),
        },
{
    let mut i: usize = 0;
    while i < s.len()
        invariant
            i <= s.len(),
            forall|j: int| 0 <= j < i ==> !acct_matches(s@[j], owner@, mint@),
        decreases s.len() - i,
    {
        if bytes_eq(&s[i].owner, owner) && bytes_eq(&s[i].mint, mint) {
            return Some(i);
        }
        i += 1;
    }
    None
}

/// A first matching index decides presence and balance.
pub proof fn lemma_token_first_match(s: Seq<TokenAccount>, i: int)
    requires
        0 <= i < s.len(),
        forall|j: int| 0 <= j < i ==> !acct_matches(s[j], s[i].owner@, s[i].mint@),
    ensures
        has_token(s, s[i].owner@, s[i].mint@),
        token_balance(s, s[i].owner@, s[i].mint@) == s[i].amount,
    decreases i,
{
    if i > 0 {
        assert(s.drop_first()[i - 1] == s[i]);
        assert(forall|j: int|
            0 <= j < i - 1 ==> s.drop_first()[j] == s[j + 1] && !acct_matches(
                s[j + 1],
                s[i].owner@,
                s[i].mint@,
            ));
        lemma_token_first_match(s.drop_first(), i - 1);
    }
}

/// Where no account matches, nothing is held.
pub proof fn lemma_token_absent(s: Seq<TokenAccount>, owner: Seq<u8>, mint: Seq<u8>)
    requires
        forall|j: int| 0 <= j < s.len() ==> !acct_matches(s[j], owner, mint),
    ensures
        !has_token(s, owner, mint),
        token_balance(s, owner, mint) == 0,
    decreases s.len(),
{
    if s.len() > 0 {
        assert(forall|j: int|
            0 <= j < s.drop_first().len() ==> s.drop_first()[j] == s[j + 1] && !acct_matches(
                s[j + 1],
                owner,
                mint,
            ));
        lemma_token_absent(s.drop_first(), owner, mint);
    }
}

/// Replacing the first matching account moves its key's balance to the new
/// amount and leaves every other key untouched.
pub proof fn lemma_token_update(s: Seq<TokenAccount>, i: int, a: TokenAccount)
    requires
        0 <= i < s.len(),
        a.owner@ == s[i].owner@,
        a.mint@ == s[i].mint@,
        forall|j: int| 0 <= j < i ==> !acct_matches(s[j], s[i].owner@, s[i].mint@),
    ensures
        token_balance(s.update(i, a), s[i].owner@, s[i].mint@) == a.amount,
        forall|o: Seq<u8>, m: Seq<u8>|
            !(o == s[i].owner@ && m == s[i].mint@) ==> #[trigger] token_balance(
                s.update(i, a),
                o,
                m,
            ) == token_balance(s, o, m),
        forall|o: Seq<u8>, m: Seq<u8>|
            #[trigger] has_token(s.update(i, a), o, m) == has_token(s, o, m),
    decreases i,
{
    let s2 = s.update(i, a);
    if i == 0 {
        assert(s2.drop_first() =~= s.drop_first());
        assert forall|o: Seq<u8>, m: Seq<u8>|
            !(o == s[0].owner@ && m == s[0].mint@) implies #[trigger] token_balance(s2, o, m)
            == token_balance(s, o, m) by {
            assert(acct_matches(s2[0], o, m) == acct_matches(s[0], o, m));
        }
        assert forall|o: Seq<u8>, m: Seq<u8>| #[trigger]
            has_token(s2, o, m) == has_token(s, o, m) by {
            assert(acct_matches(s2[0], o, m) == acct_matches(s[0], o, m));
        }
    } else {
        assert(s2.drop_first() =~= s.drop_first().update(i - 1, a));
        assert(s2[0] == s[0]);
        assert(s.drop_first()[i - 1] == s[i]);
        assert(forall|j: int|
            0 <= j < i - 1 ==> s.drop_first()[j] == s[j + 1] && !acct_matches(
                s[j + 1],
                s[i].owner@,
                s[i].mint@,
            ));
        lemma_token_update(s.drop_first(), i - 1, a);
        assert(token_balance(s2, s[i].owner@, s[i].mint@) == a.amount);
        assert forall|o: Seq<u8>, m: Seq<u8>|
            !(o == s[i].owner@ && m == s[i].mint@) implies #[trigger] token_balance(s2, o, m)
            == token_balance(s, o, m) by {
            if acct_matches(s[0], o, m) {
            } else {
                assert(token_balance(s2, o, m) == token_balance(s2.drop_first(), o, m));
                assert(token_balance(s, o, m) == token_balance(s.drop_first(), o, m));
            }
        }
        assert forall|o: Seq<u8>, m: Seq<u8>| #[trigger]
            has_token(s2, o, m) == has_token(s, o, m) by {
            if acct_matches(s[0], o, m) {
            } else {
                assert(has_token(s2, o, m) == has_token(s2.drop_first(), o, m));
                assert(has_token(s, o, m) == has_token(s.drop_first(), o, m));
            }
        }
    }
}

/// Appending an account for a fresh key gives that key its amount and leaves
/// every other key untouched.
pub proof fn lemma_token_push(s: Seq<TokenAccount>, a: TokenAccount)
    ensures
        forall|o: Seq<u8>, m: Seq<u8>|
            !(o == a.owner@ && m == a.mint@) ==> #[trigger] token_balance(s.push(a), o, m)
                == token_balance(s, o, m),
        forall|o: Seq<u8>, m: Seq<u8>|
            !(o == a.owner@ && m == a.mint@) ==> #[trigger] has_token(s.push(a), o, m)
                == has_token(s, o, m),
        !has_token(s, a.owner@, a.mint@) ==> token_balance(s.push(a), a.owner@, a.mint@)
            == a.amount,
        has_token(s, a.owner@, a.mint@) ==> token_balance(s.push(a), a.owner@, a.mint@)
            == token_balance(s, a.owner@, a.mint@),
        has_token(s.push(a), a.owner@, a.mint@),
    decreases s.len(),
{
    let s2 = s.push(a);
    if s.len() == 0 {
        assert(s2[0] == a);
        assert(s2.drop_first() =~= Seq::<TokenAccount>::empty());
        assert forall|o: Seq<u8>, m: Seq<u8>|
            !(o == a.owner@ && m == a.mint@) implies #[trigger] token_balance(s2, o, m)
            == token_balance(s, o, m) by {
            assert(!acct_matches(a, o, m));
            assert(token_balance(s2, o, m) == token_balance(s2.drop_first(), o, m));
        }
        assert forall|o: Seq<u8>, m: Seq<u8>|
            !(o == a.owner@ && m == a.mint@) implies #[trigger] has_token(s2, o, m) == has_token(
            s,
            o,
            m,
        ) by {
            assert(!acct_matches(a, o, m));
            assert(has_token(s2, o, m) == has_token(s2.drop_first(), o, m));
        }
    } else {
        assert(s2[0] == s[0]);
        assert(s2.drop_first() =~= s.drop_first().push(a));
        lemma_token_push(s.drop_first(), a);
        assert forall|o: Seq<u8>, m: Seq<u8>|
            !(o == a.owner@ && m == a.mint@) implies #[trigger] token_balance(s2, o, m)
            == token_balance(s, o, m) by {
            if !acct_matches(s[0], o, m) {
                assert(token_balance(s2, o, m) == token_balance(s2.drop_first(), o, m));
            }
        }
        assert forall|o: Seq<u8>, m: Seq<u8>|
            !(o == a.owner@ && m == a.mint@) implies #[trigger] has_token(s2, o, m) == has_token(
            s,
            o,
            m,
        ) by {
            if !acct_matches(s[0], o, m) {
                assert(has_token(s2, o, m) == has_token(s2.drop_first(), o, m));
            }
        }
    }
}

/// Removing the only account of a key empties that key and leaves every other
/// key untouched.
pub proof fn lemma_token_remove(s: Seq<TokenAccount>, i: int)
    requires
        0 <= i < s.len(),
        forall|j: int|
            0 <= j < s.len() && j != i ==> !acct_matches(s[j], s[i].owner@, s[i].mint@),
    ensures
        !has_token(s.remove(i), s[i].owner@, s[i].mint@),
        token_balance(s.remove(i), s[i].owner@, s[i].mint@) == 0,
        forall|o: Seq<u8>, m: Seq<u8>|
            !(o == s[i].owner@ && m == s[i].mint@) ==> #[trigger] token_balance(s.remove(i), o, m)
                == token_balance(s, o, m),
        forall|o: Seq<u8>, m: Seq<u8>|
            !(o == s[i].owner@ && m == s[i].mint@) ==> #[trigger] has_token(s.remove(i), o, m)
                == has_token(s, o, m),
    decreases i,
{
    let s2 = s.remove(i);
    if i == 0 {
        assert(s2 =~= s.drop_first());
        assert(forall|j: int|
            0 <= j < s2.len() ==> s2[j] == s[j + 1] && !acct_matches(
                s[j + 1],
                s[0].owner@,
                s[0].mint@,
            ));
        lemma_token_absent(s2, s[0].owner@, s[0].mint@);
    } else {
        assert(s2[0] == s[0]);
        assert(s2.drop_first() =~= s.drop_first().remove(i - 1));
        assert(s.drop_first()[i - 1] == s[i]);
        assert(forall|j: int|
            0 <= j < s.drop_first().len() && j != i - 1 ==> s.drop_first()[j] == s[j + 1]
                && !acct_matches(s[j + 1], s[i].owner@, s[i].mint@));
        lemma_token_remove(s.drop_first(), i - 1);
        assert(!acct_matches(s[0], s[i].owner@, s[i].mint@));
        assert(!has_token(s2, s[i].owner@, s[i].mint@));
        assert forall|o: Seq<u8>, m: Seq<u8>|
            !(o == s[i].owner@ && m == s[i].mint@) implies #[trigger] token_balance(s2, o, m)
            == token_balance(s, o, m) by {
            if !acct_matches(s[0], o, m) {
                assert(token_balance(s2, o, m) == token_balance(s2.drop_first(), o, m));
            }
        }
        assert forall|o: Seq<u8>, m: Seq<u8>|
            !(o == s[i].owner@ && m == s[i].mint@) implies #[trigger] has_token(s2, o, m)
            == has_token(s, o, m) by {
            if !acct_matches(s[0], o, m) {
                assert(has_token(s2, o, m) == has_token(s2.drop_first(), o, m));
            }
        }
    }
}

} // verus!
