use vstd::prelude::*;

use crate::bytes::bytes_eq;

verus! {

/// One known asset type: its identifier and its fixed decimal scale.
pub struct MintInfo {
    pub id: Vec<u8>,
    pub decimals: u8,
}

/// The decimal scale of the asset `id`, where the registry knows it.
pub open spec fn mint_decimals(s: Seq<MintInfo>, id: Seq<u8>) -> Option<u8>
    decreases s.len(),
{
    if s.len() == 0 {
        None
    } else if s[0].id@ == id {
        Some(s[0].decimals)
    } else {
        mint_decimals(s.drop_first(), id)
    }
}

/// The decimal scale of `id`, looked up in the registry.
pub fn lookup_decimals(s: &Vec<MintInfo>, id: &Vec<u8>) -> (r: Option<u8>)
    ensures
        r == mint_decimals(s@, id@),
{
    let mut i: usize = 0;
    while i < s.len()
        invariant
            i <= s.len(),
            forall|j: int| 0 <= j < i ==> s@[j].id@ != id@,
        decreases s.len() - i,
    {
        if bytes_eq(&s[i].id, id) {
            proof {
                lemma_mint_first_match(s@, i as int);
            }
            return Some(s[i].decimals);
        }
        i += 1;
    }
    proof {
        lemma_mint_absent(s@, id@);
    }
    None
}

/// A first matching index decides the scale.
pub proof fn lemma_mint_first_match(s: Seq<MintInfo>, i: int)
    requires
        0 <= i < s.len(),
        forall|j: int| 0 <= j < i ==> s[j].id@ != s[i].id@,
    ensures
        mint_decimals(s, s[i].id@) == Some(s[i].decimals),
    decreases i,
{
    if i > 0 {
        assert(s.drop_first()[i - 1] == s[i]);
        assert(forall|j: int|
            0 <= j < i - 1 ==> s.drop_first()[j] == s[j + 1] && s[j + 1].id@ != s[i].id@);
        lemma_mint_first_match(s.drop_first(), i - 1);
    }
}

/// Where no entry matches, the asset is unknown.
pub proof fn lemma_mint_absent(s: Seq<MintInfo>, id: Seq<u8>)
    requires
        forall|j: int| 0 <= j < s.len() ==> s[j].id@ != id,
    ensures
        mint_decimals(s, id) is None,
    decreases s.len(),
{
    if s.len() > 0 {
        assert(forall|j: int|
            0 <= j < s.drop_first().len() ==> s.drop_first()[j] == s[j + 1] && s[j + 1].id@ != id);
        lemma_mint_absent(s.drop_first(), id);
    }
}

} // verus!
