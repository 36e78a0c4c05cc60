use vstd::prelude::*;

use crate::bytes::{bytes_eq, clone_bytes};
use crate::derivation::{derive_pda, pda_find, pda_of};
use crate::ledger::Ledger;
use crate::registry::lookup_decimals;
use crate::state::{
    find_escrow, find_escrow_idx, lemma_escrow_absent, lemma_escrow_first_match,
    lemma_escrow_push, EscrowEntry, EscrowRecord,
};
use crate::EscrowError;

verus! {

/// Why a create request would be refused, in the order the checks run;
/// `None` when it is owed success.
pub open spec fn create_check(
    l: Ledger,
    maker: Seq<u8>,
    seed: u64,
    mint_a: Seq<u8>,
    mint_b: Seq<u8>,
    deposit_amount: u64,
    receive_amount: u64,
    rent: u64,
) -> Option<EscrowError> {
    if deposit_amount == 0 || receive_amount == 0 {
        Some(EscrowError::InvalidAmount)
    } else if mint_a == mint_b {
        Some(EscrowError::ConstraintViolation)
    } else if l.decimals_of(mint_a) is None || l.decimals_of(mint_b) is None {
        Some(EscrowError::AssetTypeMismatch)
    } else if pda_find(seed) is None {
        Some(EscrowError::InvalidDerivation)
    } else {
        let addr = pda_find(seed)->Some_0.0;
        if l.record_at(addr) is Some {
            Some(EscrowError::AddressCollision)
        } else if maker == addr {
            Some(EscrowError::ConstraintViolation)
        } else if l.storage_deposit(maker) < rent {
            Some(EscrowError::InsufficientFunds)
        } else if l.balance(maker, mint_a) < deposit_amount {
            Some(EscrowError::InsufficientFunds)
        } else if l.balance(addr, mint_a) + deposit_amount > u64::MAX {
            Some(EscrowError::Overflow)
        } else {
            None
        }
    }
}

/// What a successful create does to the store: the record exists at `addr`
/// with exactly the requested fields, its vault holds the deposit, the maker
/// paid the deposit and the rent, and nothing else moved.
pub open spec fn create_post(
    l0: Ledger,
    l1: Ledger,
    maker: Seq<u8>,
    seed: u64,
    mint_a: Seq<u8>,
    mint_b: Seq<u8>,
    deposit_amount: u64,
    receive_amount: u64,
    rent: u64,
    addr: Seq<u8>,
) -> bool {
    &&& l0.record_at(addr) is None
    &&& (l1.record_at(addr) matches Some(e) && e.address@ == addr && e.rent == rent
        && e.record.seed == seed && e.record.maker@ == maker && e.record.mint_a@ == mint_a
        && e.record.mint_b@ == mint_b && e.record.receive_amount == receive_amount)
    &&& forall|x: Seq<u8>| x != addr ==> #[trigger] l1.record_at(x) == l0.record_at(x)
    &&& l1.balance(maker, mint_a) as int == l0.balance(maker, mint_a) - deposit_amount
    &&& l1.balance(addr, mint_a) as int == l0.balance(addr, mint_a) + deposit_amount
    &&& l1.holds(addr, mint_a)
    &&& forall|o: Seq<u8>, m: Seq<u8>|
        !(o == maker && m == mint_a) && !(o == addr && m == mint_a) ==> #[trigger] l1.balance(
            o,
            m,
        ) == l0.balance(o, m)
    &&& forall|o: Seq<u8>, m: Seq<u8>|
        !(o == addr && m == mint_a) ==> #[trigger] l1.holds(o, m) == l0.holds(o, m)
    &&& l1.storage_deposit(maker) as int == l0.storage_deposit(maker) - rent
    &&& forall|o: Seq<u8>| o != maker ==> #[trigger] l1.storage_deposit(o) == l0.storage_deposit(o)
    &&& l1.mints == l0.mints
}

impl Ledger {
    /// Create an escrow: allocate the record at the address derived from the
    /// maker-chosen seed, open its vault, fund the vault with
    /// `deposit_amount` of asset `mint_a` out of the maker's holding, and
    /// charge the maker `rent` as the record's storage deposit.
    #[verifier::rlimit(60)]
    pub fn create(
        &mut self,
        maker: &Vec<u8>,
        seed: u64,
        mint_a: &Vec<u8>,
        mint_b: &Vec<u8>,
        deposit_amount: u64,
        receive_amount: u64,
        rent: u64,
    ) -> (r: Result<Vec<u8>, EscrowError>)
        requires
            old(self).wf(),
        ensures
            final(self).wf(),
            match r {
                Ok(addr) => create_check(
                    *old(self),
                    maker@,
                    seed,
                    mint_a@,
                    mint_b@,
                    deposit_amount,
                    receive_amount,
                    rent,
                ) is None && create_post(
                    *old(self),
                    *final(self),
                    maker@,
                    seed,
                    mint_a@,
                    mint_b@,
                    deposit_amount,
                    receive_amount,
                    rent,
                    addr@,
                ),
                Err(e) => create_check(
                    *old(self),
                    maker@,
                    seed,
                    mint_a@,
                    mint_b@,
                    deposit_amount,
                    receive_amount,
                    rent,
                ) == Some(e) && *final(self) == *old(self),
            },
            (r matches Ok(addr) ==> (pda_find(seed) matches Some(p) && addr@ == p.0 && pda_of(
                seed,
                p.1,
            ) == Some(addr@) && (final(self).record_at(addr@) matches Some(e) && e.record.bump
                == p.1))),
            old(self).derivation_ok() ==> final(self).derivation_ok(),
            old(self).vaults_ok() ==> final(self).vaults_ok(),
    {
        if deposit_amount == 0 || receive_amount == 0 {
            return Err(EscrowError::InvalidAmount);
        }
        if bytes_eq(mint_a, mint_b) {
            return Err(EscrowError::ConstraintViolation);
        }
        let dec_a = match lookup_decimals(&self.mints, mint_a) {
            None => {
                return Err(EscrowError::AssetTypeMismatch);
            },
            Some(d) => d,
        };
        match lookup_decimals(&self.mints, mint_b) {
            None => {
                return Err(EscrowError::AssetTypeMismatch);
            },
            Some(_) => {},
        }
        let (addr, bump) = match derive_pda(seed) {
            None => {
                return Err(EscrowError::InvalidDerivation);
            },
            Some(p) => p,
        };
        match find_escrow_idx(&self.escrows, &addr) {
            Some(i) => {
                proof {
                    lemma_escrow_first_match(self.escrows@, i as int);
                }
                return Err(EscrowError::AddressCollision);
            },
            None => {
                proof {
                    lemma_escrow_absent(self.escrows@, addr@);
                }
            },
        }
        if bytes_eq(maker, &addr) {
            return Err(EscrowError::ConstraintViolation);
        }
        let held_deposit = self.storage_deposit_of(maker);
        if held_deposit < rent {
            return Err(EscrowError::InsufficientFunds);
        }
        let maker_bal = self.balance_of(maker, mint_a);
        if maker_bal < deposit_amount {
            return Err(EscrowError::InsufficientFunds);
        }
        let vault_bal = self.balance_of(&addr, mint_a);
        if deposit_amount > u64::MAX - vault_bal {
            return Err(EscrowError::Overflow);
        }
        let ghost l0 = *self;
        proof {
            assert(l0.transfer_check(maker@, addr@, maker@, mint_a@, deposit_amount, dec_a)
                is None);
        }
        // Fund the vault out of the maker's holding.
        match self.transfer_checked(maker, &addr, maker, mint_a, deposit_amount, dec_a) {
            Ok(()) => {},
            Err(e) => {
                return Err(e);
            },
        }
        let ghost lt = *self;
        // Charge the record's storage deposit.
        self.debit_deposit(maker, rent);
        // Persist the record at its derived address.
        let entry = EscrowEntry {
            address: clone_bytes(&addr),
            record: EscrowRecord {
                seed,
                maker: clone_bytes(maker),
                mint_a: clone_bytes(mint_a),
                mint_b: clone_bytes(mint_b),
                receive_amount,
                bump,
            },
            rent,
        };
        let ghost ld = *self;
        let ghost e0 = self.escrows@;
        self.escrows.push(entry);
        proof {
            assert(e0 == l0.escrows@);
            lemma_escrow_push(e0, self.escrows@.last());
            assert(self.escrows@ =~= e0.push(self.escrows@.last()));
            assert(self.wf());
            let l1 = *self;
            // The record stands at the derived address; other addresses are
            // untouched.
            assert(l1.record_at(addr@) == Some(self.escrows@.last()));
            assert forall|x: Seq<u8>| x != addr@ implies #[trigger] l1.record_at(x)
                == l0.record_at(x) by {
                assert(find_escrow(e0.push(self.escrows@.last()), x) == find_escrow(e0, x));
            }
            // Holdings moved only by the vault-funding transfer.
            assert(l1.tokens == lt.tokens);
            assert(l1.balance(maker@, mint_a@) as int == l0.balance(maker@, mint_a@)
                - deposit_amount);
            assert(l1.balance(addr@, mint_a@) as int == l0.balance(addr@, mint_a@)
                + deposit_amount);
            assert(l1.holds(addr@, mint_a@));
            assert forall|o: Seq<u8>, m: Seq<u8>|
                !(o == maker@ && m == mint_a@) && !(o == addr@ && m == mint_a@) implies #[trigger]
                l1.balance(o, m) == l0.balance(o, m) by {
                assert(lt.balance(o, m) == l0.balance(o, m));
            }
            assert forall|o: Seq<u8>, m: Seq<u8>|
                !(o == addr@ && m == mint_a@) implies #[trigger] l1.holds(o, m) == l0.holds(
                o,
                m,
            ) by {
                assert(lt.holds(o, m) == l0.holds(o, m));
            }
            // Storage deposits moved only by the rent charge.
            assert(lt.deposits == l0.deposits);
            assert(l1.deposits == ld.deposits);
            assert(l1.storage_deposit(maker@) as int == l0.storage_deposit(maker@) - rent);
            assert forall|o: Seq<u8>| o != maker@ implies #[trigger] l1.storage_deposit(o)
                == l0.storage_deposit(o) by {
                assert(ld.storage_deposit(o) == lt.storage_deposit(o));
            }
            // Every live record still owns its vault.
            if l0.vaults_ok() {
                assert forall|k: int| 0 <= k < l1.escrows@.len() implies #[trigger] crate::tokens::has_token(
                    l1.tokens@,
                    l1.escrows@[k].address@,
                    l1.escrows@[k].record.mint_a@,
                ) by {
                    if k < e0.len() {
                        assert(crate::tokens::has_token(
                            l0.tokens@,
                            l0.escrows@[k].address@,
                            l0.escrows@[k].record.mint_a@,
                        ));
                        assert(l1.holds(l1.escrows@[k].address@, l1.escrows@[k].record.mint_a@)
                            == l0.holds(l0.escrows@[k].address@, l0.escrows@[k].record.mint_a@)
                            || (l1.escrows@[k].address@ == addr@ && l1.escrows@[k].record.mint_a@
                            == mint_a@));
                    } else {
                        assert(l1.escrows@[k] == self.escrows@.last());
                    }
                }
            }
        }
        Ok(addr)
    }
}

} // verus!
