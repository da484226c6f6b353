use stake_pool_ledger::certificate::{
    build_delegation, build_registration, build_retirement, derive_pool_id, Certificate, PoolId,
};
use stake_pool_ledger::error::Error;
use stake_pool_ledger::keys::{bytes_copy, bytes_equal, Account, Address, PublicKey, KEY_LENGTH};

fn key(seed: u8) -> PublicKey {
    PublicKey::parse(&[seed; 32]).unwrap()
}

#[test]
fn key_material_is_thirty_two_bytes() {
    assert_eq!(KEY_LENGTH, 32);
    assert!(PublicKey::parse(&[0u8; 32]).is_ok());
    assert_eq!(PublicKey::parse(&[0u8; 31]).err(), Some(Error::InvalidKeyEncoding));
    assert_eq!(PublicKey::parse(&[0u8; 33]).err(), Some(Error::InvalidKeyEncoding));
    assert_eq!(PublicKey::parse(&[]).err(), Some(Error::InvalidKeyEncoding));
}

#[test]
fn a_parsed_key_holds_its_material() {
    let mut material = [0u8; 32];
    for (i, byte) in material.iter_mut().enumerate() {
        *byte = i as u8;
    }
    let parsed = PublicKey::parse(&material).unwrap();
    assert_eq!(parsed.as_bytes(), &material[..]);
    assert!(parsed.same(&parsed.clone()));
    material[31] = 0;
    assert!(!parsed.same(&PublicKey::parse(&material).unwrap()));
}

#[test]
fn bytes_compare_by_content() {
    assert!(bytes_equal(&[], &[]));
    assert!(bytes_equal(&[1, 2, 3], &[1, 2, 3]));
    assert!(!bytes_equal(&[1, 2, 3], &[1, 2, 4]));
    assert!(!bytes_equal(&[1, 2, 3], &[1, 2]));
    assert!(!bytes_equal(&[], &[0]));
    assert_eq!(bytes_copy(&[4, 5, 6]), vec![4, 5, 6]);
    assert_eq!(bytes_copy(&[]), Vec::<u8>::new());
}

#[test]
fn an_address_is_that_of_its_key() {
    let address = Address::single(&key(5));
    assert!(address.key().same(&key(5)));
    assert!(address.same(&Address::single(&key(5))));
    assert!(!address.same(&Address::single(&key(6))));
    assert!(address.clone().same(&address));
}

#[test]
fn a_new_account_has_assembled_nothing() {
    let mut account = Account::new(vec![1, 2, 3], key(5));
    assert_eq!(account.counter(), 0);
    assert_eq!(account.private_key(), &[1, 2, 3][..]);
    assert!(account.public_key().same(&key(5)));
    assert!(account.address().same(&Address::single(&key(5))));
    account.confirm_transaction();
    account.confirm_transaction();
    assert_eq!(account.counter(), 2);
    account.reconcile(1);
    assert_eq!(account.counter(), 1);
    assert!(account.public_key().same(&key(5)));
}

#[test]
fn registration_holds_what_it_was_built_from() {
    let built = build_registration(&[1u8; 32], &[2u8; 32], 0, 1, &[3u8; 32]).unwrap();
    match built {
        Certificate::Registration {
            vrf_key,
            kes_key,
            start_validity,
            management_threshold,
            owner,
        } => {
            assert!(vrf_key.same(&key(1)));
            assert!(kes_key.same(&key(2)));
            assert_eq!(start_validity, 0);
            assert_eq!(management_threshold, 1);
            assert!(owner.same(&key(3)));
        }
        _ => panic!("not a registration"),
    }
}

#[test]
fn registration_refuses_each_bad_key() {
    assert_eq!(
        build_registration(&[1u8; 30], &[2u8; 32], 0, 1, &[3u8; 32]).err(),
        Some(Error::InvalidKeyEncoding)
    );
    assert_eq!(
        build_registration(&[1u8; 32], &[2u8; 34], 0, 1, &[3u8; 32]).err(),
        Some(Error::InvalidKeyEncoding)
    );
    assert_eq!(
        build_registration(&[1u8; 32], &[2u8; 32], 0, 1, &[]).err(),
        Some(Error::InvalidKeyEncoding)
    );
}

#[test]
fn pool_id_is_keys_then_parameters() {
    let id = derive_pool_id(&key(1), &key(2), &key(3), 0x0403_0201, 1);
    let mut expected = Vec::new();
    expected.extend_from_slice(&[1u8; 32]);
    expected.extend_from_slice(&[2u8; 32]);
    expected.extend_from_slice(&[3u8; 32]);
    expected.extend_from_slice(&[1, 2, 3, 4]);
    expected.extend_from_slice(&[1, 0, 0, 0]);
    assert_eq!(id.as_bytes(), &expected[..]);
    assert_eq!(id.as_bytes().len(), 104);
}

#[test]
fn pool_id_is_deterministic() {
    let first = derive_pool_id(&key(1), &key(2), &key(3), 0, 1);
    let second = derive_pool_id(&key(1), &key(2), &key(3), 0, 1);
    assert!(first.same(&second));
    let certificate = build_registration(&[1u8; 32], &[2u8; 32], 0, 1, &[3u8; 32]).unwrap();
    assert!(certificate.pool_id().same(&first));
}

#[test]
fn pool_id_tells_every_part_apart() {
    let base = derive_pool_id(&key(1), &key(2), &key(3), 0, 1);
    assert!(!base.same(&derive_pool_id(&key(9), &key(2), &key(3), 0, 1)));
    assert!(!base.same(&derive_pool_id(&key(1), &key(9), &key(3), 0, 1)));
    assert!(!base.same(&derive_pool_id(&key(1), &key(2), &key(9), 0, 1)));
    assert!(!base.same(&derive_pool_id(&key(1), &key(2), &key(3), 1, 1)));
    assert!(!base.same(&derive_pool_id(&key(1), &key(2), &key(3), 0, 2)));
    assert!(!base.same(&derive_pool_id(&key(2), &key(1), &key(3), 0, 1)));
    assert!(!base.same(&derive_pool_id(&key(1), &key(2), &key(3), 1, 0)));
}

#[test]
fn delegation_and_retirement_name_their_pool() {
    let id = PoolId::from_bytes(vec![7, 7, 7]);
    let delegation = build_delegation(&id, &key(4));
    match &delegation {
        Certificate::Delegation { pool_id, account } => {
            assert!(pool_id.same(&id));
            assert!(account.same(&key(4)));
        }
        _ => panic!("not a delegation"),
    }
    assert!(delegation.pool_id().same(&id));
    let retirement = build_retirement(&id);
    match &retirement {
        Certificate::Retirement { pool_id } => assert!(pool_id.same(&id)),
        _ => panic!("not a retirement"),
    }
    assert!(retirement.pool_id().same(&id));
    assert!(id.clone().same(&id));
    assert!(!id.same(&PoolId::from_bytes(vec![7, 7])));
}
