//! A two-party conditional exchange over a modelled account store.
//!
//! A maker deposits an amount of one asset into a vault held at an address
//! derived from a chosen seed, recording which asset and amount it demands
//! in return.  A taker that supplies the demanded asset resolves the escrow
//! in one atomic step: the vault's whole balance goes to the taker, the
//! demanded amount goes to the maker, the vault is closed and the record
//! destroyed, and the record's storage deposit returns to the maker.  Every
//! refusal leaves the store exactly as it was.
//!
//! Address derivation calls the ledger's real program-derived-address
//! routines; everything else is verified against the model in [`ledger`].

pub mod bytes;
pub mod create;
pub mod derivation;
pub mod lamports;
pub mod laws;
pub mod ledger;
pub mod registry;
pub mod state;
pub mod take;
pub mod tokens;

use vstd::prelude::*;

verus! {

/// Every way a create or take request can be rejected. Each error aborts the
/// whole operation: the ledger is left exactly as it was.
#[derive(Clone, Copy, Debug, PartialEq, Eq, Structural)]
pub enum EscrowError {
    /// A deposit or receive amount of zero.
    InvalidAmount,
    /// An escrow record already lives at the derived address.
    AddressCollision,
    /// A supplied account does not match the relationship the record demands.
    ConstraintViolation,
    /// The record's stored seed and bump do not reproduce its address.
    InvalidDerivation,
    /// A supplied asset type does not match the one a transfer leg expects.
    AssetTypeMismatch,
    /// A transfer's claimed decimal scale differs from the asset's scale.
    DecimalMismatch,
    /// The debited holding has less than the transferred amount.
    InsufficientFunds,
    /// The credited holding cannot represent the resulting amount.
    Overflow,
    /// No escrow record lives at the supplied address.
    RecordNotFound,
}

} // verus!
