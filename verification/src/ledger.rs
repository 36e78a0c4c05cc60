use vstd::prelude::*;

use crate::bytes::{bytes_eq, clone_bytes};
use crate::lamports::{
    find_deposit_idx, lamport_balance, lemma_lamport_absent, lemma_lamport_first_match,
    lemma_lamport_push, lemma_lamport_update, LamportAccount,
};
use crate::registry::{lookup_decimals, mint_decimals, MintInfo};
use crate::state::{find_escrow, EscrowEntry};
use crate::tokens::{
    acct_matches, find_token_idx, has_token, lemma_token_absent, lemma_token_first_match,
    lemma_token_push, lemma_token_remove, lemma_token_update, token_balance, TokenAccount,
};
use crate::EscrowError;

verus! {

/// The model of the external account store: known asset types, asset
/// holdings, storage-deposit balances, and live escrow records.
pub struct Ledger {
    pub mints: Vec<MintInfo>,
    pub tokens: Vec<TokenAccount>,
    pub deposits: Vec<LamportAccount>,
    pub escrows: Vec<EscrowEntry>,
}

impl Ledger {
    /// Each asset type, holding key, storage-deposit owner and record
    /// address appears at most once.
    pub open spec fn wf(self) -> bool {
        &&& forall|i: int, j: int|
            0 <= i < j < self.mints@.len() ==> self.mints@[i].id@ != self.mints@[j].id@
        &&& forall|i: int, j: int|
            0 <= i < j < self.tokens@.len() ==> !(self.tokens@[i].owner@
                == self.tokens@[j].owner@ && self.tokens@[i].mint@ == self.tokens@[j].mint@)
        &&& forall|i: int, j: int|
            0 <= i < j < self.deposits@.len() ==> self.deposits@[i].owner@
                != self.deposits@[j].owner@
        &&& forall|i: int, j: int|
            0 <= i < j < self.escrows@.len() ==> self.escrows@[i].address@
                != self.escrows@[j].address@
    }

    /// How much of asset `mint` the party or record `owner` holds.
    pub open spec fn balance(self, owner: Seq<u8>, mint: Seq<u8>) -> u64 {
        token_balance(self.tokens@, owner, mint)
    }

    /// Whether a holding of `owner` for `mint` exists at all.
    pub open spec fn holds(self, owner: Seq<u8>, mint: Seq<u8>) -> bool {
        has_token(self.tokens@, owner, mint)
    }

    /// The storage-deposit balance of `owner`.
    pub open spec fn storage_deposit(self, owner: Seq<u8>) -> u64 {
        lamport_balance(self.deposits@, owner)
    }

    /// The live escrow entry at `addr`, if one exists.
    pub open spec fn record_at(self, addr: Seq<u8>) -> Option<EscrowEntry> {
        find_escrow(self.escrows@, addr)
    }

    /// The decimal scale of asset `id`, where the ledger knows the asset.
    pub open spec fn decimals_of(self, id: Seq<u8>) -> Option<u8> {
        mint_decimals(self.mints@, id)
    }

    /// Every live record's stored seed and bump re-derive its address.
    pub open spec fn derivation_ok(self) -> bool {
        forall|k: int|
            0 <= k < self.escrows@.len() ==> #[trigger] crate::derivation::pda_of(
                self.escrows@[k].record.seed,
                self.escrows@[k].record.bump,
            ) == Some(self.escrows@[k].address@)
    }

    /// Every live record owns a vault: a holding of its deposited asset,
    /// kept at the record's own derived address.
    pub open spec fn vaults_ok(self) -> bool {
        forall|k: int|
            0 <= k < self.escrows@.len() ==> #[trigger] has_token(
                self.tokens@,
                self.escrows@[k].address@,
                self.escrows@[k].record.mint_a@,
            )
    }

    /// Why a checked transfer would be refused, in the order the checks run;
    /// `None` when it is owed success.
    pub open spec fn transfer_check(
        self,
        from: Seq<u8>,
        to: Seq<u8>,
        authority: Seq<u8>,
        mint: Seq<u8>,
        amount: u64,
        decimals: u8,
    ) -> Option<EscrowError> {
        if self.decimals_of(mint) is None {
            Some(EscrowError::AssetTypeMismatch)
        } else if self.decimals_of(mint) != Some(decimals) {
            Some(EscrowError::DecimalMismatch)
        } else if authority != from {
            Some(EscrowError::ConstraintViolation)
        } else if self.balance(from, mint) < amount {
            Some(EscrowError::InsufficientFunds)
        } else if from != to && self.balance(to, mint) + amount > u64::MAX {
            Some(EscrowError::Overflow)
        } else {
            None
        }
    }

    /// How much of asset `mint` the party or record `owner` holds.
    pub fn balance_of(&self, owner: &Vec<u8>, mint: &Vec<u8>) -> (r: u64)
        ensures
            r == self.balance(owner@, mint@),
    {
        match find_token_idx(&self.tokens, owner, mint) {
            Some(i) => {
                proof {
                    lemma_token_first_match(self.tokens@, i as int);
                }
                self.tokens[i].amount
            },
            None => {
                proof {
                    lemma_token_absent(self.tokens@, owner@, mint@);
                }
                0
            },
        }
    }

    /// Whether a holding of `owner` for `mint` exists at all.
    pub fn holding_exists(&self, owner: &Vec<u8>, mint: &Vec<u8>) -> (r: bool)
        ensures
            r == self.holds(owner@, mint@),
    {
        match find_token_idx(&self.tokens, owner, mint) {
            Some(i) => {
                proof {
                    lemma_token_first_match(self.tokens@, i as int);
                }
                true
            },
            None => {
                proof {
                    lemma_token_absent(self.tokens@, owner@, mint@);
                }
                false
            },
        }
    }

    /// The storage-deposit balance of `owner`.
    pub fn storage_deposit_of(&self, owner: &Vec<u8>) -> (r: u64)
        ensures
            r == self.storage_deposit(owner@),
    {
        match find_deposit_idx(&self.deposits, owner) {
            Some(i) => {
                proof {
                    lemma_lamport_first_match(self.deposits@, i as int);
                }
                self.deposits[i].lamports
            },
            None => {
                proof {
                    lemma_lamport_absent(self.deposits@, owner@);
                }
                0
            },
        }
    }

    /// The asset-transfer primitive: move `amount` base units of `mint` from
    /// the holding of `from` to the holding of `to`, on the authority of the
    /// debited holding's owner, checking the claimed decimal scale.
    #[verifier::rlimit(60)]
    pub fn transfer_checked(
        &mut self,
        from: &Vec<u8>,
        to: &Vec<u8>,
        authority: &Vec<u8>,
        mint: &Vec<u8>,
        amount: u64,
        decimals: u8,
    ) -> (r: Result<(), EscrowError>)
        requires
            old(self).wf(),
        ensures
            final(self).wf(),
            match r {
                Ok(()) => old(self).transfer_check(from@, to@, authority@, mint@, amount, decimals)
                    is None && transfer_post(*old(self), *final(self), from@, to@, mint@, amount),
                Err(e) => old(self).transfer_check(from@, to@, authority@, mint@, amount, decimals)
                    == Some(e) && *final(self) == *old(self),
            },
    {
        match lookup_decimals(&self.mints, mint) {
            None => {
                return Err(EscrowError::AssetTypeMismatch);
            },
            Some(d) => {
                if d != decimals {
                    return Err(EscrowError::DecimalMismatch);
                }
            },
        }
        if !bytes_eq(authority, from) {
            return Err(EscrowError::ConstraintViolation);
        }
        let from_idx = find_token_idx(&self.tokens, from, mint);
        let from_bal: u64 = match from_idx {
            Some(i) => {
                proof {
                    lemma_token_first_match(self.tokens@, i as int);
                }
                self.tokens[i].amount
            },
            None => {
                proof {
                    lemma_token_absent(self.tokens@, from@, mint@);
                }
                0
            },
        };
        if from_bal < amount {
            return Err(EscrowError::InsufficientFunds);
        }
        if bytes_eq(from, to) {
            return Ok(());
        }
        let to_idx = find_token_idx(&self.tokens, to, mint);
        let to_bal: u64 = match to_idx {
            Some(i) => {
                proof {
                    lemma_token_first_match(self.tokens@, i as int);
                }
                self.tokens[i].amount
            },
            None => {
                proof {
                    lemma_token_absent(self.tokens@, to@, mint@);
                }
                0
            },
        };
        if amount > u64::MAX - to_bal {
            return Err(EscrowError::Overflow);
        }
        let ghost t0 = self.tokens@;
        // Debit the source holding.
        if amount > 0 {
            match from_idx {
                Some(i) => {
                    let mut acct = self.tokens.remove(i);
                    acct.amount = acct.amount - amount;
                    self.tokens.insert(i, acct);
                    proof {
                        assert(self.tokens@ =~= t0.update(i as int, self.tokens@[i as int]));
                        lemma_token_update(t0, i as int, self.tokens@[i as int]);
                    }
                },
                None => {
                    proof {
                        assert(false);
                    }
                },
            }
        }
        let ghost t1 = self.tokens@;
        proof {
            assert(token_balance(t1, from@, mint@) == from_bal - amount);
            assert(forall|o: Seq<u8>, m: Seq<u8>|
                !(o == from@ && m == mint@) ==> #[trigger] token_balance(t1, o, m)
                    == token_balance(t0, o, m));
            assert(forall|o: Seq<u8>, m: Seq<u8>| #[trigger]
                has_token(t1, o, m) == has_token(t0, o, m));
            assert(forall|j: int|
                0 <= j < t1.len() ==> t1[j].owner@ == t0[j].owner@ && t1[j].mint@ == t0[j].mint@);
        }
        // Credit the destination holding, opening it where none exists.
        match to_idx {
            Some(k) => {
                proof {
                    assert(acct_matches(t1[k as int], to@, mint@));
                    assert(forall|j: int| 0 <= j < k ==> !acct_matches(t1[j], to@, mint@));
                    assert(token_balance(t1, to@, mint@) == to_bal) by {
                        lemma_token_first_match(t1, k as int);
                    }
                }
                let mut acct = self.tokens.remove(k);
                acct.amount = acct.amount + amount;
                self.tokens.insert(k, acct);
                proof {
                    assert(self.tokens@ =~= t1.update(k as int, self.tokens@[k as int]));
                    lemma_token_update(t1, k as int, self.tokens@[k as int]);
                }
            },
            None => {
                let acct = TokenAccount {
                    owner: clone_bytes(to),
                    mint: clone_bytes(mint),
                    amount,
                };
                proof {
                    lemma_token_absent(t1, to@, mint@);
                }
                self.tokens.push(acct);
                proof {
                    lemma_token_push(t1, self.tokens@.last());
                    assert(self.tokens@ =~= t1.push(self.tokens@.last()));
                }
            },
        }
        proof {
            assert(forall|j: int, l: int|
                0 <= j < l < t1.len() ==> !(t1[j].owner@ == t1[l].owner@ && t1[j].mint@
                    == t1[l].mint@));
            assert(self.wf());
        }
        Ok(())
    }
    /// Whether an escrow record lives at `addr`.
    pub fn has_record(&self, addr: &Vec<u8>) -> (r: bool)
        ensures
            r == (self.record_at(addr@) is Some),
    {
        match crate::state::find_escrow_idx(&self.escrows, addr) {
            Some(i) => {
                proof {
                    crate::state::lemma_escrow_first_match(self.escrows@, i as int);
                }
                true
            },
            None => {
                proof {
                    crate::state::lemma_escrow_absent(self.escrows@, addr@);
                }
                false
            },
        }
    }

    /// The stored seed and bump of the record at `addr`, for re-deriving
    /// its address.
    pub fn record_derivation(&self, addr: &Vec<u8>) -> (r: Option<(u64, u8)>)
        ensures
            match r {
                Some(p) => self.record_at(addr@) matches Some(e) && p.0 == e.record.seed && p.1
                    == e.record.bump,
                None => self.record_at(addr@) is None,
            },
    {
        match crate::state::find_escrow_idx(&self.escrows, addr) {
            Some(i) => {
                proof {
                    crate::state::lemma_escrow_first_match(self.escrows@, i as int);
                }
                Some((self.escrows[i].record.seed, self.escrows[i].record.bump))
            },
            None => {
                proof {
                    crate::state::lemma_escrow_absent(self.escrows@, addr@);
                }
                None
            },
        }
    }

    /// Close the emptied holding of `owner` for `mint`, removing it from
    /// the store.
    pub(crate) fn close_empty_holding(&mut self, owner: &Vec<u8>, mint: &Vec<u8>)
        requires
            old(self).wf(),
            old(self).holds(owner@, mint@),
            old(self).balance(owner@, mint@) == 0,
        ensures
            final(self).wf(),
            !final(self).holds(owner@, mint@),
            final(self).balance(owner@, mint@) == 0,
            forall|o: Seq<u8>, m: Seq<u8>|
                !(o == owner@ && m == mint@) ==> #[trigger] final(self).balance(o, m) == old(
                    self,
                ).balance(o, m),
            forall|o: Seq<u8>, m: Seq<u8>|
                !(o == owner@ && m == mint@) ==> #[trigger] final(self).holds(o, m) == old(
                    self,
                ).holds(o, m),
            final(self).mints == old(self).mints,
            final(self).deposits == old(self).deposits,
            final(self).escrows == old(self).escrows,
    {
        let ghost t0 = self.tokens@;
        match find_token_idx(&self.tokens, owner, mint) {
            Some(i) => {
                proof {
                    assert(forall|j: int|
                        0 <= j < t0.len() && j != i ==> !acct_matches(t0[j], owner@, mint@));
                }
                self.tokens.remove(i);
                proof {
                    lemma_token_remove(t0, i as int);
                }
            },
            None => {
                proof {
                    lemma_token_absent(t0, owner@, mint@);
                    assert(false);
                }
            },
        }
    }

    /// Pay `amount` into the storage-deposit balance of `owner`, opening an
    /// entry where none exists.
    pub(crate) fn credit_deposit(&mut self, owner: &Vec<u8>, amount: u64)
        requires
            old(self).wf(),
            old(self).storage_deposit(owner@) + amount <= u64::MAX,
        ensures
            final(self).wf(),
            final(self).storage_deposit(owner@) == old(self).storage_deposit(owner@) + amount,
            forall|o: Seq<u8>|
                o != owner@ ==> #[trigger] final(self).storage_deposit(o) == old(
                    self,
                ).storage_deposit(o),
            final(self).mints == old(self).mints,
            final(self).tokens == old(self).tokens,
            final(self).escrows == old(self).escrows,
    {
        let ghost d0 = self.deposits@;
        match find_deposit_idx(&self.deposits, owner) {
            Some(i) => {
                proof {
                    lemma_lamport_first_match(d0, i as int);
                }
                let mut acct = self.deposits.remove(i);
                acct.lamports = acct.lamports + amount;
                self.deposits.insert(i, acct);
                proof {
                    assert(self.deposits@ =~= d0.update(i as int, self.deposits@[i as int]));
                    lemma_lamport_update(d0, i as int, self.deposits@[i as int]);
                }
            },
            None => {
                proof {
                    lemma_lamport_absent(d0, owner@);
                }
                let acct = LamportAccount { owner: clone_bytes(owner), lamports: amount };
                self.deposits.push(acct);
                proof {
                    lemma_lamport_push(d0, self.deposits@.last());
                    assert(self.deposits@ =~= d0.push(self.deposits@.last()));
                }
            },
        }
    }

    /// Take `amount` out of the storage-deposit balance of `owner`.
    pub(crate) fn debit_deposit(&mut self, owner: &Vec<u8>, amount: u64)
        requires
            old(self).wf(),
            old(self).storage_deposit(owner@) >= amount,
        ensures
            final(self).wf(),
            final(self).storage_deposit(owner@) == old(self).storage_deposit(owner@) - amount,
            forall|o: Seq<u8>|
                o != owner@ ==> #[trigger] final(self).storage_deposit(o) == old(
                    self,
                ).storage_deposit(o),
            final(self).mints == old(self).mints,
            final(self).tokens == old(self).tokens,
            final(self).escrows == old(self).escrows,
    {
        let ghost d0 = self.deposits@;
        match find_deposit_idx(&self.deposits, owner) {
            Some(i) => {
                proof {
                    lemma_lamport_first_match(d0, i as int);
                }
                let mut acct = self.deposits.remove(i);
                acct.lamports = acct.lamports - amount;
                self.deposits.insert(i, acct);
                proof {
                    assert(self.deposits@ =~= d0.update(i as int, self.deposits@[i as int]));
                    lemma_lamport_update(d0, i as int, self.deposits@[i as int]);
                }
            },
            None => {
                proof {
                    lemma_lamport_absent(d0, owner@);
                }
            },
        }
    }
}

/// What a successful checked transfer does to the store.
pub open spec fn transfer_post(
    l0: Ledger,
    l1: Ledger,
    from: Seq<u8>,
    to: Seq<u8>,
    mint: Seq<u8>,
    amount: u64,
) -> bool {
    &&& (from == to ==> l1 == l0)
    &&& (from != to ==> {
        &&& l1.balance(from, mint) as int == l0.balance(from, mint) - amount
        &&& l1.balance(to, mint) as int == l0.balance(to, mint) + amount
        &&& l1.holds(to, mint)
        &&& l1.holds(from, mint) == l0.holds(from, mint)
        &&& forall|o: Seq<u8>, m: Seq<u8>|
            !(o == from && m == mint) && !(o == to && m == mint) ==> #[trigger] l1.balance(o, m)
                == l0.balance(o, m)
        &&& forall|o: Seq<u8>, m: Seq<u8>|
            !(o == to && m == mint) ==> #[trigger] l1.holds(o, m) == l0.holds(o, m)
    })
    &&& l1.mints == l0.mints
    &&& l1.deposits == l0.deposits
    &&& l1.escrows == l0.escrows
}

} // verus!
