use vstd::prelude::*;

use crate::create::create_post;
use crate::derivation::pda_of;
use crate::ledger::Ledger;
use crate::state::lemma_escrow_found;
use crate::take::{take_check, take_post, Take};
use crate::EscrowError;

verus! {

/// A create followed by a matching take, for distinct parties and a fresh
/// vault: the taker ends with the whole deposit of asset A, the maker ends
/// with the demanded amount of asset B and its storage deposit restored,
/// and neither the record nor the vault is left behind.
pub proof fn lemma_create_take_round_trip(
    l0: Ledger,
    l1: Ledger,
    l2: Ledger,
    t: Take,
    maker: Seq<u8>,
    seed: u64,
    mint_a: Seq<u8>,
    mint_b: Seq<u8>,
    deposit_amount: u64,
    receive_amount: u64,
    rent: u64,
    addr: Seq<u8>,
    paid: u64,
)
    requires
        create_post(
            l0,
            l1,
            maker,
            seed,
            mint_a,
            mint_b,
            deposit_amount,
            receive_amount,
            rent,
            addr,
        ),
        take_post(l1, l2, t, paid),
        t.escrow@ == addr,
        t.maker@ == maker,
        t.mint_a@ == mint_a,
        t.mint_b@ == mint_b,
        t.taker@ != maker,
        t.taker@ != addr,
        maker != addr,
        mint_a != mint_b,
        l0.balance(addr, mint_a) == 0,
    ensures
        paid == deposit_amount,
        l2.balance(t.taker@, mint_a) as int == l0.balance(t.taker@, mint_a) + deposit_amount,
        l2.balance(maker, mint_b) as int == l0.balance(maker, mint_b) + receive_amount,
        l2.balance(t.taker@, mint_b) as int == l0.balance(t.taker@, mint_b) - receive_amount,
        l2.balance(maker, mint_a) as int == l0.balance(maker, mint_a) - deposit_amount,
        !l2.holds(addr, mint_a),
        l2.record_at(addr) is None,
        l2.storage_deposit(maker) == l0.storage_deposit(maker),
{
    assert(l1.balance(t.taker@, mint_a) == l0.balance(t.taker@, mint_a));
    assert(l1.balance(t.taker@, mint_b) == l0.balance(t.taker@, mint_b));
    assert(l1.balance(maker, mint_b) == l0.balance(maker, mint_b));
    assert(l2.balance(maker, mint_a) == l1.balance(maker, mint_a));
}

/// After one successful take nothing remains to take: the record at the
/// address is gone, and a second request against the same address is owed
/// exactly a not-found refusal, which leaves the store unchanged.
pub proof fn lemma_no_double_take(l1: Ledger, l2: Ledger, t: Take, t2: Take, paid: u64)
    requires
        take_post(l1, l2, t, paid),
        t2.escrow@ == t.escrow@,
    ensures
        l2.record_at(t2.escrow@) is None,
        take_check(l2, t2) == Some(EscrowError::RecordNotFound),
{
}

/// Derivation stability: in a store where every record re-derives its
/// address, the seed and bump stored in any live record yield exactly that
/// record's own address.
pub proof fn lemma_derivation_stable(l: Ledger, addr: Seq<u8>)
    ensures
        l.derivation_ok() && l.record_at(addr) is Some ==> pda_of(
            l.record_at(addr)->Some_0.record.seed,
            l.record_at(addr)->Some_0.record.bump,
        ) == Some(addr),
{
    if l.derivation_ok() && l.record_at(addr) is Some {
        lemma_escrow_found(l.escrows@, addr);
        let k = choose|k: int|
            0 <= k < l.escrows@.len() && l.escrows@[k] == l.record_at(addr)->Some_0
                && #[trigger] l.escrows@[k].address@ == addr;
        assert(pda_of(l.escrows@[k].record.seed, l.escrows@[k].record.bump) == Some(
            l.escrows@[k].address@,
        ));
    }
}

} // verus!
