use vstd::prelude::*;

use crate::bytes::bytes_eq;
use crate::derivation::{pda_of, verify_authority};
use crate::ledger::Ledger;
use crate::registry::lookup_decimals;
use crate::state::{
    find_escrow, find_escrow_idx, lemma_escrow_absent, lemma_escrow_first_match,
    lemma_escrow_remove,
};
use crate::EscrowError;

verus! {

/// The accounts a taker supplies for one exchange: its own identity, the
/// claimed maker and asset pair, and the address of the escrow record.
pub struct Take {
    pub taker: Vec<u8>,
    pub maker: Vec<u8>,
    pub mint_a: Vec<u8>,
    pub mint_b: Vec<u8>,
    pub escrow: Vec<u8>,
}

/// Why a take request would be refused, in the order the checks run; `None`
/// when it is owed success.
pub open spec fn take_check(l: Ledger, t: Take) -> Option<EscrowError> {
    if l.record_at(t.escrow@) is None {
        Some(EscrowError::RecordNotFound)
    } else {
        let e = l.record_at(t.escrow@)->Some_0;
        let rec = e.record;
        if rec.maker@ != t.maker@ || rec.mint_b@ != t.mint_b@ {
            Some(EscrowError::ConstraintViolation)
        } else if rec.mint_a@ != t.mint_a@ {
            Some(EscrowError::AssetTypeMismatch)
        } else if t.mint_a@ == t.mint_b@ || t.taker@ == t.escrow@ || t.maker@ == t.escrow@ {
            Some(EscrowError::ConstraintViolation)
        } else if pda_of(rec.seed, rec.bump) != Some(t.escrow@) {
            Some(EscrowError::InvalidDerivation)
        } else if l.decimals_of(t.mint_a@) is None || l.decimals_of(t.mint_b@) is None {
            Some(EscrowError::AssetTypeMismatch)
        } else if !l.holds(t.escrow@, t.mint_a@) {
            Some(EscrowError::ConstraintViolation)
        } else if l.balance(t.taker@, t.mint_b@) < rec.receive_amount {
            Some(EscrowError::InsufficientFunds)
        } else if l.balance(t.taker@, t.mint_a@) + l.balance(t.escrow@, t.mint_a@) > u64::MAX {
            Some(EscrowError::Overflow)
        } else if t.taker@ != t.maker@ && l.balance(t.maker@, t.mint_b@) + rec.receive_amount
            > u64::MAX {
            Some(EscrowError::Overflow)
        } else if l.storage_deposit(t.maker@) + e.rent > u64::MAX {
            Some(EscrowError::Overflow)
        } else {
            None
        }
    }
}

/// What a successful take does to the store: the vault's whole balance goes
/// to the taker, the demanded amount of asset B goes to the maker, vault and
/// record are gone, the record's storage deposit is back with the maker, and
/// nothing else moved.
pub open spec fn take_post(l0: Ledger, l1: Ledger, t: Take, paid: u64) -> bool {
    &&& l0.record_at(t.escrow@) is Some
    &&& (l0.record_at(t.escrow@) matches Some(e) && {
        let rec = e.record;
        &&& paid == l0.balance(t.escrow@, t.mint_a@)
        &&& l1.record_at(t.escrow@) is None
        &&& forall|x: Seq<u8>| x != t.escrow@ ==> #[trigger] l1.record_at(x) == l0.record_at(x)
        &&& !l1.holds(t.escrow@, t.mint_a@)
        &&& l1.balance(t.escrow@, t.mint_a@) == 0
        &&& l1.balance(t.taker@, t.mint_a@) as int == l0.balance(t.taker@, t.mint_a@) + paid
        &&& (t.taker@ != t.maker@ ==> l1.balance(t.taker@, t.mint_b@) as int == l0.balance(
            t.taker@,
            t.mint_b@,
        ) - rec.receive_amount)
        &&& (t.taker@ != t.maker@ ==> l1.balance(t.maker@, t.mint_b@) as int == l0.balance(
            t.maker@,
            t.mint_b@,
        ) + rec.receive_amount)
        &&& (t.taker@ == t.maker@ ==> l1.balance(t.taker@, t.mint_b@) == l0.balance(
            t.taker@,
            t.mint_b@,
        ))
        &&& forall|o: Seq<u8>, m: Seq<u8>|
            !(o == t.escrow@ && m == t.mint_a@) && !(o == t.taker@ && m == t.mint_a@) && !(o
                == t.taker@ && m == t.mint_b@) && !(o == t.maker@ && m == t.mint_b@)
                ==> #[trigger] l1.balance(o, m) == l0.balance(o, m)
        &&& forall|o: Seq<u8>, m: Seq<u8>|
            !(o == t.escrow@ && m == t.mint_a@) && !(o == t.taker@ && m == t.mint_a@) && !(o
                == t.maker@ && m == t.mint_b@) ==> #[trigger] l1.holds(o, m) == l0.holds(o, m)
        &&& l1.storage_deposit(t.maker@) as int == l0.storage_deposit(t.maker@) + e.rent
        &&& forall|o: Seq<u8>|
            o != t.maker@ ==> #[trigger] l1.storage_deposit(o) == l0.storage_deposit(o)
        &&& l1.mints == l0.mints
    })
}

impl Take {
    /// Resolve one escrow: validate every relationship and precondition,
    /// then run the three legs — vault to taker, vault closed, taker to
    /// maker — and destroy the record, refunding its storage deposit.  Any
    /// refusal leaves the store exactly as it was.
    #[verifier::rlimit(100)]
    pub fn take(&self, l: &mut Ledger) -> (r: Result<u64, EscrowError>)
        requires
            old(l).wf(),
        ensures
            final(l).wf(),
            match r {
                Ok(paid) => take_check(*old(l), *self) is None && take_post(
                    *old(l),
                    *final(l),
                    *self,
                    paid,
                ),
                Err(e) => take_check(*old(l), *self) == Some(e) && *final(l) == *old(l),
            },
            old(l).derivation_ok() ==> final(l).derivation_ok(),
            old(l).vaults_ok() ==> final(l).vaults_ok(),
    {
        // Locate the record at the supplied address.
        let eidx = match find_escrow_idx(&l.escrows, &self.escrow) {
            None => {
                proof {
                    lemma_escrow_absent(l.escrows@, self.escrow@);
                }
                return Err(EscrowError::RecordNotFound);
            },
            Some(i) => {
                proof {
                    lemma_escrow_first_match(l.escrows@, i as int);
                }
                i
            },
        };
        // Structural relationship checks: the supplied maker and asset pair
        // must be the ones the record stores.
        if !(bytes_eq(&l.escrows[eidx].record.maker, &self.maker) && bytes_eq(
            &l.escrows[eidx].record.mint_b,
            &self.mint_b,
        )) {
            return Err(EscrowError::ConstraintViolation);
        }
        if !bytes_eq(&l.escrows[eidx].record.mint_a, &self.mint_a) {
            return Err(EscrowError::AssetTypeMismatch);
        }
        if bytes_eq(&self.mint_a, &self.mint_b) || bytes_eq(&self.taker, &self.escrow)
            || bytes_eq(&self.maker, &self.escrow) {
            return Err(EscrowError::ConstraintViolation);
        }
        // The record's authority over its vault: the stored seed and bump
        // must re-derive the record's own address.
        if !verify_authority(
            l.escrows[eidx].record.seed,
            l.escrows[eidx].record.bump,
            &self.escrow,
        ) {
            return Err(EscrowError::InvalidDerivation);
        }
        let dec_a = match lookup_decimals(&l.mints, &self.mint_a) {
            None => {
                return Err(EscrowError::AssetTypeMismatch);
            },
            Some(d) => d,
        };
        let dec_b = match lookup_decimals(&l.mints, &self.mint_b) {
            None => {
                return Err(EscrowError::AssetTypeMismatch);
            },
            Some(d) => d,
        };
        if !l.holding_exists(&self.escrow, &self.mint_a) {
            return Err(EscrowError::ConstraintViolation);
        }
        let receive_amount = l.escrows[eidx].record.receive_amount;
        let taker_b = l.balance_of(&self.taker, &self.mint_b);
        if taker_b < receive_amount {
            return Err(EscrowError::InsufficientFunds);
        }
        let vault_amt = l.balance_of(&self.escrow, &self.mint_a);
        let taker_a = l.balance_of(&self.taker, &self.mint_a);
        if vault_amt > u64::MAX - taker_a {
            return Err(EscrowError::Overflow);
        }
        let maker_b = l.balance_of(&self.maker, &self.mint_b);
        let same_party = bytes_eq(&self.taker, &self.maker);
        if !same_party && receive_amount > u64::MAX - maker_b {
            return Err(EscrowError::Overflow);
        }
        let rent = l.escrows[eidx].rent;
        let held_deposit = l.storage_deposit_of(&self.maker);
        if rent > u64::MAX - held_deposit {
            return Err(EscrowError::Overflow);
        }
        let ghost l0 = *l;
        proof {
            assert(take_check(l0, *self) is None);
            assert(l0.transfer_check(
                self.escrow@,
                self.taker@,
                self.escrow@,
                self.mint_a@,
                vault_amt,
                dec_a,
            ) is None);
        }
        // Leg 1: the whole vault balance to the taker, on the authority of
        // the record's derived address.
        match l.transfer_checked(
            &self.escrow,
            &self.taker,
            &self.escrow,
            &self.mint_a,
            vault_amt,
            dec_a,
        ) {
            Ok(()) => {},
            Err(e) => {
                return Err(e);
            },
        }
        let ghost s1 = *l;
        // Leg 2: close the emptied vault; one atomic unit with leg 1.
        l.close_empty_holding(&self.escrow, &self.mint_a);
        let ghost s2 = *l;
        // Leg 3: the demanded amount of asset B from taker to maker, on the
        // taker's own authority.
        proof {
            assert(s2.transfer_check(
                self.taker@,
                self.maker@,
                self.taker@,
                self.mint_b@,
                receive_amount,
                dec_b,
            ) is None);
        }
        match l.transfer_checked(
            &self.taker,
            &self.maker,
            &self.taker,
            &self.mint_b,
            receive_amount,
            dec_b,
        ) {
            Ok(()) => {},
            Err(e) => {
                return Err(e);
            },
        }
        let ghost s3 = *l;
        // Refund the record's storage deposit to the maker.
        l.credit_deposit(&self.maker, rent);
        let ghost s4 = *l;
        // Destroy the record.
        let ghost es = l.escrows@;
        proof {
            assert(es == l0.escrows@);
            assert(forall|j: int|
                0 <= j < es.len() && j != eidx ==> es[j].address@ != es[eidx as int].address@);
        }
        l.escrows.remove(eidx);
        proof {
            assert(l.escrows@ =~= es.remove(eidx as int));
            lemma_escrow_remove(es, eidx as int);
            let l1 = *l;
            assert(l1.record_at(self.escrow@) is None);
            assert forall|x: Seq<u8>| x != self.escrow@ implies #[trigger] l1.record_at(x)
                == l0.record_at(x) by {
                assert(find_escrow(es.remove(eidx as int), x) == find_escrow(es, x));
            }
            // Holdings moved only by the two legs and the vault close.
            assert(l1.tokens == s3.tokens);
            assert(!l1.holds(self.escrow@, self.mint_a@)) by {
                assert(!s2.holds(self.escrow@, self.mint_a@));
                if self.taker@ == self.maker@ {
                    assert(s3 == s2);
                } else {
                    assert(s3.holds(self.escrow@, self.mint_a@) == s2.holds(
                        self.escrow@,
                        self.mint_a@,
                    ));
                }
            }
            assert(l1.balance(self.taker@, self.mint_a@) as int == l0.balance(
                self.taker@,
                self.mint_a@,
            ) + vault_amt) by {
                assert(s1.balance(self.taker@, self.mint_a@) as int == l0.balance(
                    self.taker@,
                    self.mint_a@,
                ) + vault_amt);
                assert(s2.balance(self.taker@, self.mint_a@) == s1.balance(
                    self.taker@,
                    self.mint_a@,
                ));
                if self.taker@ == self.maker@ {
                    assert(s3 == s2);
                } else {
                    assert(s3.balance(self.taker@, self.mint_a@) == s2.balance(
                        self.taker@,
                        self.mint_a@,
                    ));
                }
            }
            assert(l1.balance(self.escrow@, self.mint_a@) == 0) by {
                assert(s2.balance(self.escrow@, self.mint_a@) == 0);
                if self.taker@ == self.maker@ {
                    assert(s3 == s2);
                } else {
                    assert(s3.balance(self.escrow@, self.mint_a@) == s2.balance(
                        self.escrow@,
                        self.mint_a@,
                    ));
                }
            }
            assert forall|o: Seq<u8>, m: Seq<u8>|
                !(o == self.escrow@ && m == self.mint_a@) && !(o == self.taker@ && m
                    == self.mint_a@) && !(o == self.taker@ && m == self.mint_b@) && !(o
                    == self.maker@ && m == self.mint_b@) implies #[trigger] l1.balance(o, m)
                == l0.balance(o, m) by {
                assert(s1.balance(o, m) == l0.balance(o, m));
                assert(s2.balance(o, m) == s1.balance(o, m));
                assert(s3.balance(o, m) == s2.balance(o, m));
            }
            assert forall|o: Seq<u8>, m: Seq<u8>|
                !(o == self.escrow@ && m == self.mint_a@) && !(o == self.taker@ && m
                    == self.mint_a@) && !(o == self.maker@ && m == self.mint_b@) implies #[trigger]
                l1.holds(o, m) == l0.holds(o, m) by {
                assert(s1.holds(o, m) == l0.holds(o, m));
                assert(s2.holds(o, m) == s1.holds(o, m));
                assert(s3.holds(o, m) == s2.holds(o, m));
            }
            // Storage deposits moved only by the rent refund.
            assert(l1.deposits == s4.deposits);
            assert(s3.deposits == l0.deposits);
            assert(l1.storage_deposit(self.maker@) as int == l0.storage_deposit(self.maker@)
                + rent);
            assert forall|o: Seq<u8>| o != self.maker@ implies #[trigger] l1.storage_deposit(o)
                == l0.storage_deposit(o) by {
                assert(s4.storage_deposit(o) == s3.storage_deposit(o));
            }
            assert(l1.wf());
            // Every remaining record still re-derives its address and still
            // owns its vault.
            assert forall|k: int|
                0 <= k < l1.escrows@.len() implies #[trigger] l1.escrows@[k] == es[(
                if k < eidx as int {
                    k
                } else {
                    k + 1
                })] by {}
            if l0.derivation_ok() {
                assert forall|k: int| 0 <= k < l1.escrows@.len() implies #[trigger] pda_of(
                    l1.escrows@[k].record.seed,
                    l1.escrows@[k].record.bump,
                ) == Some(l1.escrows@[k].address@) by {
                    let k0: int = if k < eidx as int {
                        k
                    } else {
                        k + 1
                    };
                    assert(l1.escrows@[k] == l0.escrows@[k0]);
                    assert(pda_of(l0.escrows@[k0].record.seed, l0.escrows@[k0].record.bump)
                        == Some(l0.escrows@[k0].address@));
                }
            }
            if l0.vaults_ok() {
                assert forall|k: int|
                    0 <= k < l1.escrows@.len() implies #[trigger] crate::tokens::has_token(
                    l1.tokens@,
                    l1.escrows@[k].address@,
                    l1.escrows@[k].record.mint_a@,
                ) by {
                    let k0: int = if k < eidx as int {
                        k
                    } else {
                        k + 1
                    };
                    assert(l1.escrows@[k] == l0.escrows@[k0]);
                    let p_o = l1.escrows@[k].address@;
                    let p_m = l1.escrows@[k].record.mint_a@;
                    assert(l0.holds(p_o, p_m));
                    assert(p_o != self.escrow@);
                    if p_o == self.taker@ && p_m == self.mint_a@ {
                        assert(s1.holds(p_o, p_m));
                    } else {
                        assert(s1.holds(p_o, p_m) == l0.holds(p_o, p_m));
                    }
                    assert(s2.holds(p_o, p_m) == s1.holds(p_o, p_m));
                    if self.taker@ == self.maker@ {
                        assert(s3 == s2);
                    } else if p_o == self.maker@ && p_m == self.mint_b@ {
                        assert(s3.holds(p_o, p_m));
                    } else {
                        assert(s3.holds(p_o, p_m) == s2.holds(p_o, p_m));
                    }
                    assert(l1.holds(p_o, p_m) == s3.holds(p_o, p_m));
                }
            }
        }
        Ok(vault_amt)
    }
}

} // verus!
