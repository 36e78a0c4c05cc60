use escrow::derivation::verify_authority;
use escrow::lamports::LamportAccount;
use escrow::ledger::Ledger;
use escrow::registry::MintInfo;
use escrow::take::Take;
use escrow::tokens::TokenAccount;
use escrow::EscrowError;

const SCALE: u8 = 6;

fn maker_id() -> Vec<u8> {
    vec![1u8; 32]
}

fn taker_id() -> Vec<u8> {
    vec![2u8; 32]
}

fn asset_a() -> Vec<u8> {
    vec![10u8; 32]
}

fn asset_b() -> Vec<u8> {
    vec![11u8; 32]
}

/// A maker with 1,000,000 base units of asset A and 5,000,000 of storage
/// deposit; a taker with 600,000 base units of asset B.
fn base_ledger() -> Ledger {
    Ledger {
        mints: vec![
            MintInfo { id: asset_a(), decimals: SCALE },
            MintInfo { id: asset_b(), decimals: SCALE },
        ],
        tokens: vec![
            TokenAccount { owner: maker_id(), mint: asset_a(), amount: 1_000_000 },
            TokenAccount { owner: taker_id(), mint: asset_b(), amount: 600_000 },
        ],
        deposits: vec![LamportAccount { owner: maker_id(), lamports: 5_000_000 }],
        escrows: vec![],
    }
}

fn make_offer(l: &mut Ledger) -> Vec<u8> {
    l.create(&maker_id(), 42, &asset_a(), &asset_b(), 1_000_000, 500_000, 2_000_000)
        .expect("create should succeed")
}

fn take_request(addr: &[u8]) -> Take {
    Take {
        taker: taker_id(),
        maker: maker_id(),
        mint_a: asset_a(),
        mint_b: asset_b(),
        escrow: addr.to_vec(),
    }
}

#[test]
fn create_funds_vault_and_stores_record() {
    let mut l = base_ledger();
    let addr = make_offer(&mut l);
    assert_eq!(addr.len(), 32);
    assert_eq!(l.balance_of(&maker_id(), &asset_a()), 0);
    assert_eq!(l.balance_of(&addr, &asset_a()), 1_000_000);
    assert_eq!(l.storage_deposit_of(&maker_id()), 3_000_000);
    assert!(l.has_record(&addr));
}

#[test]
fn create_take_round_trip() {
    let mut l = base_ledger();
    let addr = make_offer(&mut l);
    let paid = take_request(&addr).take(&mut l).expect("take should succeed");
    assert_eq!(paid, 1_000_000);
    assert_eq!(l.balance_of(&taker_id(), &asset_a()), 1_000_000);
    assert_eq!(l.balance_of(&taker_id(), &asset_b()), 100_000);
    assert_eq!(l.balance_of(&maker_id(), &asset_b()), 500_000);
    assert_eq!(l.balance_of(&maker_id(), &asset_a()), 0);
    assert_eq!(l.balance_of(&addr, &asset_a()), 0);
    assert!(!l.holding_exists(&addr, &asset_a()));
    assert!(!l.has_record(&addr));
    assert_eq!(l.storage_deposit_of(&maker_id()), 5_000_000);
}

#[test]
fn no_double_take() {
    let mut l = base_ledger();
    let addr = make_offer(&mut l);
    take_request(&addr).take(&mut l).expect("first take should succeed");
    let taker_a = l.balance_of(&taker_id(), &asset_a());
    let taker_b = l.balance_of(&taker_id(), &asset_b());
    let maker_b = l.balance_of(&maker_id(), &asset_b());
    let maker_dep = l.storage_deposit_of(&maker_id());
    let second = take_request(&addr).take(&mut l);
    assert_eq!(second, Err(EscrowError::RecordNotFound));
    assert_eq!(l.balance_of(&taker_id(), &asset_a()), taker_a);
    assert_eq!(l.balance_of(&taker_id(), &asset_b()), taker_b);
    assert_eq!(l.balance_of(&maker_id(), &asset_b()), maker_b);
    assert_eq!(l.storage_deposit_of(&maker_id()), maker_dep);
}

#[test]
fn mismatched_mint_rejected() {
    let mut l = base_ledger();
    let addr = make_offer(&mut l);
    let mut req = take_request(&addr);
    req.mint_b = vec![99u8; 32];
    let r = req.take(&mut l);
    assert_eq!(r, Err(EscrowError::ConstraintViolation));
    assert_eq!(l.balance_of(&maker_id(), &asset_a()), 0);
    assert_eq!(l.balance_of(&taker_id(), &asset_b()), 600_000);
    assert_eq!(l.balance_of(&addr, &asset_a()), 1_000_000);
    assert!(l.has_record(&addr));
}

#[test]
fn wrong_maker_rejected() {
    let mut l = base_ledger();
    let addr = make_offer(&mut l);
    let mut req = take_request(&addr);
    req.maker = vec![77u8; 32];
    assert_eq!(req.take(&mut l), Err(EscrowError::ConstraintViolation));
    assert!(l.has_record(&addr));
}

#[test]
fn wrong_deposited_asset_rejected() {
    let mut l = base_ledger();
    let addr = make_offer(&mut l);
    let mut req = take_request(&addr);
    req.mint_a = vec![98u8; 32];
    assert_eq!(req.take(&mut l), Err(EscrowError::AssetTypeMismatch));
    assert!(l.has_record(&addr));
}

#[test]
fn insufficient_taker_funds() {
    let mut l = base_ledger();
    l.tokens[1].amount = 400_000;
    let addr = make_offer(&mut l);
    let r = take_request(&addr).take(&mut l);
    assert_eq!(r, Err(EscrowError::InsufficientFunds));
    assert!(l.has_record(&addr));
    assert!(l.holding_exists(&addr, &asset_a()));
    assert_eq!(l.balance_of(&addr, &asset_a()), 1_000_000);
    assert_eq!(l.balance_of(&taker_id(), &asset_a()), 0);
    assert_eq!(l.balance_of(&taker_id(), &asset_b()), 400_000);
}

#[test]
fn take_on_empty_store_not_found() {
    let mut l = base_ledger();
    let r = take_request(&[9u8; 32]).take(&mut l);
    assert_eq!(r, Err(EscrowError::RecordNotFound));
}

#[test]
fn derivation_stability() {
    let mut l = base_ledger();
    let addr = make_offer(&mut l);
    let (seed, bump) = l.record_derivation(&addr).expect("record should exist");
    assert_eq!(seed, 42);
    assert!(verify_authority(seed, bump, &addr));
    assert!(!verify_authority(seed + 1, bump, &addr));
}

#[test]
fn derived_address_depends_on_seed() {
    let mut l = base_ledger();
    let a1 = l
        .create(&maker_id(), 1, &asset_a(), &asset_b(), 100, 100, 0)
        .expect("first create should succeed");
    let a2 = l
        .create(&maker_id(), 2, &asset_a(), &asset_b(), 100, 100, 0)
        .expect("second create should succeed");
    assert_ne!(a1, a2);
    assert_ne!(a1, vec![0u8; 32]);
}

#[test]
fn create_zero_amounts_rejected() {
    let mut l = base_ledger();
    let r = l.create(&maker_id(), 7, &asset_a(), &asset_b(), 0, 500_000, 0);
    assert_eq!(r, Err(EscrowError::InvalidAmount));
    let r = l.create(&maker_id(), 7, &asset_a(), &asset_b(), 1_000, 0, 0);
    assert_eq!(r, Err(EscrowError::InvalidAmount));
    assert_eq!(l.balance_of(&maker_id(), &asset_a()), 1_000_000);
}

#[test]
fn create_same_asset_pair_rejected() {
    let mut l = base_ledger();
    let r = l.create(&maker_id(), 7, &asset_a(), &asset_a(), 1_000, 1_000, 0);
    assert_eq!(r, Err(EscrowError::ConstraintViolation));
}

#[test]
fn create_unknown_asset_rejected() {
    let mut l = base_ledger();
    let unknown = vec![123u8; 32];
    let r = l.create(&maker_id(), 7, &asset_a(), &unknown, 1_000, 1_000, 0);
    assert_eq!(r, Err(EscrowError::AssetTypeMismatch));
}

#[test]
fn create_duplicate_seed_collides() {
    let mut l = base_ledger();
    l.tokens[0].amount = 1_000_000;
    let addr = l
        .create(&maker_id(), 42, &asset_a(), &asset_b(), 400_000, 500_000, 1_000)
        .expect("first create should succeed");
    let r = l.create(&maker_id(), 42, &asset_a(), &asset_b(), 400_000, 500_000, 1_000);
    assert_eq!(r, Err(EscrowError::AddressCollision));
    assert!(l.has_record(&addr));
    assert_eq!(l.balance_of(&addr, &asset_a()), 400_000);
}

#[test]
fn create_insufficient_maker_funds() {
    let mut l = base_ledger();
    let r = l.create(&maker_id(), 7, &asset_a(), &asset_b(), 2_000_000, 500_000, 0);
    assert_eq!(r, Err(EscrowError::InsufficientFunds));
}

#[test]
fn create_insufficient_rent_funds() {
    let mut l = base_ledger();
    let r = l.create(&maker_id(), 7, &asset_a(), &asset_b(), 1_000, 500_000, 9_000_000);
    assert_eq!(r, Err(EscrowError::InsufficientFunds));
}

#[test]
fn take_overflowing_credit_rejected() {
    let mut l = base_ledger();
    let addr = make_offer(&mut l);
    l.tokens.push(TokenAccount { owner: taker_id(), mint: asset_a(), amount: u64::MAX });
    let r = take_request(&addr).take(&mut l);
    assert_eq!(r, Err(EscrowError::Overflow));
    assert!(l.has_record(&addr));
}

#[test]
fn stored_derivation_checked_on_take() {
    // A store whose record was not written through create: its seed and
    // bump do not re-derive its address.
    let mut l = base_ledger();
    l.tokens.push(TokenAccount { owner: vec![7u8; 32], mint: asset_a(), amount: 50 });
    l.escrows.push(escrow::state::EscrowEntry {
        address: vec![7u8; 32],
        record: escrow::state::EscrowRecord {
            seed: 1,
            maker: maker_id(),
            mint_a: asset_a(),
            mint_b: asset_b(),
            receive_amount: 10,
            bump: 0,
        },
        rent: 0,
    });
    let r = take_request(&[7u8; 32]).take(&mut l);
    assert_eq!(r, Err(EscrowError::InvalidDerivation));
    assert!(l.has_record(&vec![7u8; 32]));
}

#[test]
fn transfer_decimal_mismatch() {
    let mut l = base_ledger();
    let r = l.transfer_checked(&maker_id(), &taker_id(), &maker_id(), &asset_a(), 10, 5);
    assert_eq!(r, Err(EscrowError::DecimalMismatch));
    assert_eq!(l.balance_of(&maker_id(), &asset_a()), 1_000_000);
}

#[test]
fn transfer_unknown_asset() {
    let mut l = base_ledger();
    let unknown = vec![123u8; 32];
    let r = l.transfer_checked(&maker_id(), &taker_id(), &maker_id(), &unknown, 10, SCALE);
    assert_eq!(r, Err(EscrowError::AssetTypeMismatch));
}

#[test]
fn transfer_insufficient_funds() {
    let mut l = base_ledger();
    let r = l.transfer_checked(&maker_id(), &taker_id(), &maker_id(), &asset_a(), 2_000_000, SCALE);
    assert_eq!(r, Err(EscrowError::InsufficientFunds));
}

#[test]
fn transfer_wrong_authority() {
    let mut l = base_ledger();
    let r = l.transfer_checked(&maker_id(), &taker_id(), &taker_id(), &asset_a(), 10, SCALE);
    assert_eq!(r, Err(EscrowError::ConstraintViolation));
    assert_eq!(l.balance_of(&maker_id(), &asset_a()), 1_000_000);
}

#[test]
fn transfer_moves_and_opens_holding() {
    let mut l = base_ledger();
    let r = l.transfer_checked(&maker_id(), &taker_id(), &maker_id(), &asset_a(), 250_000, SCALE);
    assert_eq!(r, Ok(()));
    assert_eq!(l.balance_of(&maker_id(), &asset_a()), 750_000);
    assert_eq!(l.balance_of(&taker_id(), &asset_a()), 250_000);
}

#[test]
fn maker_may_take_its_own_offer() {
    let mut l = base_ledger();
    l.tokens.push(TokenAccount { owner: maker_id(), mint: asset_b(), amount: 500_000 });
    let addr = make_offer(&mut l);
    let mut req = take_request(&addr);
    req.taker = maker_id();
    let paid = req.take(&mut l).expect("self-take should succeed");
    assert_eq!(paid, 1_000_000);
    assert_eq!(l.balance_of(&maker_id(), &asset_a()), 1_000_000);
    assert_eq!(l.balance_of(&maker_id(), &asset_b()), 500_000);
    assert!(!l.has_record(&addr));
}
