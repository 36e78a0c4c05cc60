use vstd::prelude::*;

use crate::bytes::bytes_eq;

verus! {

/// The address and bump that the canonical derivation search yields for the
/// namespace tag `"escrow"` and the little-endian bytes of `seed`, where the
/// search succeeds.
pub uninterp spec fn pda_find(seed: u64) -> Option<(Seq<u8>, u8)>;

/// The address that the derivation formula yields for the namespace tag
/// `"escrow"`, the little-endian bytes of `seed` and the salt `bump`, where
/// that derivation is valid.
pub uninterp spec fn pda_of(seed: u64, bump: u8) -> Option<Seq<u8>>;

/// Relies on Pubkey::try_find_program_address: for fixed seed slices and a
/// fixed program id the result depends on the arguments alone, and the
/// returned pair is exactly one that Pubkey::create_program_address accepts.
#[verifier::external_body]
pub(crate) fn derive_pda(seed: u64) -> (r: Option<(Vec<u8>, u8)>)
    ensures
        match r {
            Some(p) => pda_find(seed) == Some((p.0@, p.1)) && pda_of(seed, p.1) == Some(p.0@),
            None => pda_find(seed) is None,
        },
{
    let program_id = anchor_lang::prelude::Pubkey::from_str_const(
        "DL7B4qVtAgorNJuvt6z3PgtU2k1AUfaEFY8k9Bnxc9Vt",
    );
    let seed_bytes = seed.to_le_bytes();
    anchor_lang::prelude::Pubkey::try_find_program_address(
        &[b"escrow", &seed_bytes],
        &program_id,
    ).map(|p| (p.0.to_bytes().to_vec(), p.1))
}

/// Relies on Pubkey::create_program_address: for fixed seed slices and a
/// fixed program id the result depends on the arguments alone.
#[verifier::external_body]
fn check_pda(seed: u64, bump: u8) -> (r: Option<Vec<u8>>)
    ensures
        match r {
            Some(a) => pda_of(seed, bump) == Some(a@),
            None => pda_of(seed, bump) is None,
        },
{
    let program_id = anchor_lang::prelude::Pubkey::from_str_const(
        "DL7B4qVtAgorNJuvt6z3PgtU2k1AUfaEFY8k9Bnxc9Vt",
    );
    let seed_bytes = seed.to_le_bytes();
    let bump_bytes = [bump];
    match anchor_lang::prelude::Pubkey::create_program_address(
        &[b"escrow", &seed_bytes, &bump_bytes],
        &program_id,
    ) {
        Ok(a) => Some(a.to_bytes().to_vec()),
        Err(_) => None,
    }
}

/// A capability check in place of a signature: the claimed seed and bump
/// prove authority over `expected` exactly when re-deriving them yields
/// that address.
pub fn verify_authority(seed: u64, bump: u8, expected: &Vec<u8>) -> (r: bool)
    ensures
        r == (pda_of(seed, bump) == Some(expected@)),
{
    match check_pda(seed, bump) {
        Some(a) => bytes_eq(&a, expected),
        None => false,
    }
}

} // verus!
