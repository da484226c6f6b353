use stake_pool_ledger::certificate::{
    build_delegation, build_registration, build_retirement, Certificate, PoolId,
};
use stake_pool_ledger::error::Error;
use stake_pool_ledger::fees::LinearFees;
use stake_pool_ledger::keys::{Account, Address, PublicKey};
use stake_pool_ledger::ledger::{is_listed, AccountState, Ledger};
use stake_pool_ledger::model::PoolStatus;
use stake_pool_ledger::transaction::{assemble, Input};

fn key(seed: u8) -> PublicKey {
    PublicKey::parse(&[seed; 32]).unwrap()
}

fn account_of(seed: u8) -> Account {
    Account::new(vec![seed; 4], key(seed))
}

fn address(seed: u8) -> Address {
    Address::single(&key(seed))
}

fn input(seed: u8, value: u64) -> Input {
    Input { address: address(seed), value }
}

fn registration(owner: u8) -> Certificate {
    build_registration(&[20u8; 32], &[30u8; 32], 0, 1, &[owner; 32]).unwrap()
}

fn lists(ledger: &Ledger, id: &PoolId) -> bool {
    is_listed(&ledger.list_active_pools(), id)
}

#[test]
fn genesis_has_no_pool_and_empty_accounts() {
    let ledger = Ledger::new(LinearFees::new(1, 2, 3));
    assert_eq!(ledger.fees(), LinearFees::new(1, 2, 3));
    assert!(ledger.list_active_pools().is_empty());
    let state = ledger.account_state(&address(1));
    assert_eq!(state.balance, 0);
    assert!(state.delegation.is_none());
    assert_eq!(ledger.pool_status(&PoolId::from_bytes(vec![1])), None);
}

#[test]
fn funds_add_up_per_account() {
    let mut ledger = Ledger::new(LinearFees::new(0, 0, 0));
    ledger.fund(&address(1), 5);
    ledger.fund(&address(2), 7);
    ledger.fund(&address(1), 11);
    assert_eq!(ledger.account_state(&address(1)).balance, 16);
    assert_eq!(ledger.account_state(&address(2)).balance, 7);
    assert_eq!(ledger.account_state(&address(3)).balance, 0);
}

#[test]
fn certificates_drive_the_pool_through_its_life() {
    let mut ledger = Ledger::new(LinearFees::new(0, 0, 0));
    let certificate = registration(1);
    let id = certificate.pool_id();
    assert_eq!(ledger.pool_status(&id), None);
    assert_eq!(ledger.check_certificate(&certificate), Ok(()));
    assert_eq!(ledger.pool_status(&id), None);
    assert_eq!(ledger.apply_certificate(&certificate), Ok(()));
    assert_eq!(ledger.pool_status(&id), Some(PoolStatus::Active));
    assert!(lists(&ledger, &id));
    assert_eq!(ledger.check_certificate(&certificate), Err(Error::DuplicatePoolId));
    assert_eq!(ledger.apply_certificate(&certificate), Err(Error::DuplicatePoolId));
    assert_eq!(ledger.list_active_pools().len(), 1);

    let delegation = build_delegation(&id, &key(9));
    assert_eq!(ledger.apply_certificate(&delegation), Ok(()));
    assert_eq!(ledger.apply_certificate(&delegation), Ok(()));
    assert!(ledger.account_state(&address(9)).delegation.unwrap().same(&id));

    let retirement = build_retirement(&id);
    assert_eq!(ledger.apply_certificate(&retirement), Ok(()));
    assert_eq!(ledger.pool_status(&id), Some(PoolStatus::Retired));
    assert!(!lists(&ledger, &id));
    assert!(ledger.account_state(&address(9)).delegation.unwrap().same(&id));
    assert_eq!(ledger.check_certificate(&retirement), Err(Error::AlreadyRetired));
    assert_eq!(ledger.apply_certificate(&retirement), Err(Error::AlreadyRetired));
    assert_eq!(ledger.apply_certificate(&certificate), Err(Error::DuplicatePoolId));
    assert_eq!(ledger.pool_status(&id), Some(PoolStatus::Retired));
}

#[test]
fn unknown_pools_are_unknown_to_delegation_and_retirement() {
    let mut ledger = Ledger::new(LinearFees::new(0, 0, 0));
    let id = PoolId::from_bytes(vec![4; 104]);
    assert_eq!(
        ledger.apply_certificate(&build_delegation(&id, &key(9))),
        Err(Error::UnknownPool)
    );
    assert_eq!(ledger.apply_certificate(&build_retirement(&id)), Err(Error::UnknownPool));
    assert_eq!(ledger.check_certificate(&build_retirement(&id)), Err(Error::UnknownPool));
    assert!(ledger.account_state(&address(9)).delegation.is_none());
}

#[test]
fn a_delegation_overwrites_the_one_before() {
    let mut ledger = Ledger::new(LinearFees::new(0, 0, 0));
    let first = registration(1);
    let second = build_registration(&[21u8; 32], &[30u8; 32], 0, 1, &[1u8; 32]).unwrap();
    ledger.apply_certificate(&first).unwrap();
    ledger.apply_certificate(&second).unwrap();
    ledger.fund(&address(9), 50);
    ledger.apply_certificate(&build_delegation(&first.pool_id(), &key(9))).unwrap();
    ledger.apply_certificate(&build_delegation(&second.pool_id(), &key(9))).unwrap();
    let state = ledger.account_state(&address(9));
    assert!(state.delegation.unwrap().same(&second.pool_id()));
    assert_eq!(state.balance, 50);
    assert_eq!(ledger.list_active_pools().len(), 2);
}

#[test]
fn retiring_one_pool_leaves_the_others_listed() {
    let mut ledger = Ledger::new(LinearFees::new(0, 0, 0));
    let first = registration(1);
    let second = build_registration(&[21u8; 32], &[30u8; 32], 0, 1, &[1u8; 32]).unwrap();
    let third = build_registration(&[22u8; 32], &[30u8; 32], 0, 1, &[1u8; 32]).unwrap();
    ledger.apply_certificate(&first).unwrap();
    ledger.apply_certificate(&second).unwrap();
    ledger.apply_certificate(&third).unwrap();
    ledger.apply_certificate(&build_retirement(&second.pool_id())).unwrap();
    let listing = ledger.list_active_pools();
    assert_eq!(listing.len(), 2);
    assert!(lists(&ledger, &first.pool_id()));
    assert!(!lists(&ledger, &second.pool_id()));
    assert!(lists(&ledger, &third.pool_id()));
}

#[test]
fn a_transaction_pays_its_fee_from_the_witness() {
    let mut payer = account_of(1);
    let fees = LinearFees::new(100, 100, 200);
    let mut ledger = Ledger::new(fees);
    ledger.fund(&payer.address(), 1000);
    ledger.fund(&address(2), 1000);
    let plain = assemble(vec![input(1, 250)], None, &fees, &mut payer, None).unwrap();
    assert!(ledger.authorizes(&plain));
    assert_eq!(ledger.apply(&plain), Ok(()));
    assert_eq!(ledger.account_state(&payer.address()).balance, 800);
    assert_eq!(ledger.account_state(&address(2)).balance, 1000);
    let certified =
        assemble(vec![input(1, 400)], Some(registration(1)), &fees, &mut payer, None).unwrap();
    assert_eq!(ledger.apply(&certified), Ok(()));
    assert_eq!(ledger.account_state(&payer.address()).balance, 400);
    assert_eq!(ledger.list_active_pools().len(), 1);
}

#[test]
fn inputs_of_another_account_are_rejected() {
    let mut payer = account_of(1);
    let fees = LinearFees::new(1, 1, 1);
    let mut ledger = Ledger::new(fees);
    ledger.fund(&address(1), 100);
    ledger.fund(&address(2), 100);
    let foreign = assemble(vec![input(1, 1), input(2, 1)], None, &fees, &mut payer, None).unwrap();
    assert!(!ledger.authorizes(&foreign));
    assert_eq!(ledger.apply(&foreign), Err(Error::SubmissionRejected));
    assert_eq!(ledger.account_state(&address(1)).balance, 100);
    assert_eq!(ledger.account_state(&address(2)).balance, 100);
}

#[test]
fn a_registration_needs_its_owner() {
    let mut payer = account_of(1);
    let owner = account_of(5);
    let fees = LinearFees::new(1, 1, 1);
    let mut ledger = Ledger::new(fees);
    ledger.fund(&address(1), 100);
    let unowned =
        assemble(vec![input(1, 3)], Some(registration(5)), &fees, &mut payer, None).unwrap();
    assert_eq!(ledger.apply(&unowned), Err(Error::SubmissionRejected));
    assert!(ledger.list_active_pools().is_empty());
    let owned = assemble(vec![input(1, 3)], Some(registration(5)), &fees, &mut payer, Some(&owner))
        .unwrap();
    assert_eq!(ledger.apply(&owned), Ok(()));
    assert_eq!(ledger.account_state(&address(1)).balance, 97);
    assert_eq!(ledger.account_state(&address(5)).balance, 0);
    assert_eq!(ledger.list_active_pools().len(), 1);
}

#[test]
fn signatures_are_checked_before_the_certificate_and_the_funds() {
    let mut stranger = account_of(7);
    let fees = LinearFees::new(1, 1, 1);
    let mut ledger = Ledger::new(fees);
    let certificate = registration(1);
    ledger.apply_certificate(&certificate).unwrap();
    // Not the owner, a duplicate, and nothing to pay with: the signature speaks first.
    let unsigned =
        assemble(vec![input(7, 3)], Some(registration(1)), &fees, &mut stranger, None).unwrap();
    assert_eq!(ledger.apply(&unsigned), Err(Error::SubmissionRejected));
    // The owner now, still a duplicate and still without funds: the certificate speaks next.
    let mut owner = account_of(1);
    let duplicate =
        assemble(vec![input(1, 3)], Some(registration(1)), &fees, &mut owner, None).unwrap();
    assert_eq!(ledger.apply(&duplicate), Err(Error::DuplicatePoolId));
    // A fresh pool, and only the funds are missing.
    let fresh = build_registration(&[21u8; 32], &[30u8; 32], 0, 1, &[1u8; 32]).unwrap();
    let id = fresh.pool_id();
    let unpaid = assemble(vec![input(1, 3)], Some(fresh), &fees, &mut owner, None).unwrap();
    assert_eq!(ledger.apply(&unpaid), Err(Error::InsufficientFunds));
    assert_eq!(ledger.pool_status(&id), None);
    assert_eq!(ledger.list_active_pools().len(), 1);
}

#[test]
fn a_failed_transaction_changes_nothing() {
    let mut account = account_of(1);
    let fees = LinearFees::new(100, 100, 200);
    let mut ledger = Ledger::new(fees);
    ledger.fund(&account.address(), 500);
    let certificate = registration(1);
    let id = certificate.pool_id();
    let first = assemble(vec![input(1, 400)], Some(certificate), &fees, &mut account, None).unwrap();
    ledger.apply(&first).unwrap();
    let delegation = build_delegation(&id, &key(1));
    let unpaid = assemble(vec![input(1, 400)], Some(delegation), &fees, &mut account, None).unwrap();
    assert_eq!(ledger.apply(&unpaid), Err(Error::InsufficientFunds));
    let state = ledger.account_state(&account.address());
    assert_eq!(state.balance, 100);
    assert!(state.delegation.is_none());
    assert_eq!(ledger.pool_status(&id), Some(PoolStatus::Active));
}

#[test]
fn the_balance_must_hold_what_the_inputs_declare() {
    let mut account = account_of(1);
    let fees = LinearFees::new(1, 1, 0);
    let mut ledger = Ledger::new(fees);
    ledger.fund(&account.address(), 10);
    let greedy = assemble(vec![input(1, 11)], None, &fees, &mut account, None).unwrap();
    assert_eq!(ledger.apply(&greedy), Err(Error::InsufficientFunds));
    let modest = assemble(vec![input(1, 10)], None, &fees, &mut account, None).unwrap();
    assert_eq!(ledger.apply(&modest), Ok(()));
    assert_eq!(ledger.account_state(&account.address()).balance, 8);
}

#[test]
fn retirement_of_an_unknown_pool_asks_no_owner() {
    let mut account = account_of(1);
    let fees = LinearFees::new(0, 0, 0);
    let mut ledger = Ledger::new(fees);
    let retirement = build_retirement(&PoolId::from_bytes(vec![1, 2, 3]));
    let built = assemble(Vec::new(), Some(retirement), &fees, &mut account, None).unwrap();
    assert!(ledger.authorizes(&built));
    assert_eq!(ledger.apply(&built), Err(Error::UnknownPool));
}

#[test]
fn a_listing_names_what_it_holds() {
    let first = PoolId::from_bytes(vec![1]);
    let second = PoolId::from_bytes(vec![2]);
    let listing = vec![first.clone(), second.clone()];
    assert!(is_listed(&listing, &first));
    assert!(is_listed(&listing, &second));
    assert!(!is_listed(&listing, &PoolId::from_bytes(vec![3])));
    assert!(!is_listed(&Vec::new(), &first));
}

#[test]
fn an_account_delegates_to_the_pool_it_names() {
    let id = PoolId::from_bytes(vec![1, 2]);
    let delegating = AccountState { balance: 0, delegation: Some(id.clone()) };
    assert!(delegating.delegates_to(&id));
    assert!(!delegating.delegates_to(&PoolId::from_bytes(vec![1])));
    let idle = AccountState { balance: 5, delegation: None };
    assert!(!idle.delegates_to(&id));
}
