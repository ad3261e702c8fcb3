use uniswap_v2::factory::{Factory, FactoryError, Listing, NewPair, PairCreated};
use uniswap_v2::pair::PairError;
use uniswap_v2::types::AccountId;

fn id(n: u8) -> AccountId {
    AccountId::from([n; 32])
}

#[test]
fn initialize_works() {
    let factory = Factory::new(id(1), [0u8; 32]);
    assert!(factory.data.fee_to.is_zero());
}

#[test]
fn new_factory_has_no_pool() {
    let factory = Factory::new(id(1), [3u8; 32]);
    assert!(factory.fee_to().is_zero());
    assert_eq!(factory.fee_to_setter(), id(1));
    assert_eq!(factory.pair_contract_code_hash(), [3u8; 32]);
    assert_eq!(factory.all_pairs_length(), 0);
    assert_eq!(factory.all_pairs(0), None);
    assert_eq!(factory.get_pair(id(1), id(2)), None);
}

#[test]
fn create_pair_lists_the_pool_under_both_orders() {
    let mut factory = Factory::new(id(1), [3u8; 32]);
    let created = factory.create_pair(id(5), id(4), id(45));
    assert_eq!(created, Ok(PairCreated { token_0: id(4), token_1: id(5), pair: id(45), pair_len: 1 }));
    assert_eq!(factory.get_pair(id(4), id(5)), Some(id(45)));
    assert_eq!(factory.get_pair(id(5), id(4)), Some(id(45)));
    assert_eq!(factory.get_pair(id(4), id(6)), None);
    assert_eq!(factory.all_pairs(0), Some(id(45)));
    assert_eq!(factory.all_pairs(1), None);
    assert_eq!(factory.all_pairs_length(), 1);
    assert_eq!(factory.data.all_pairs, vec![Listing { token_0: id(4), token_1: id(5), pair: id(45) }]);
}

#[test]
fn create_pair_keeps_the_order_of_creation() {
    let mut factory = Factory::new(id(1), [3u8; 32]);
    assert_eq!(factory.create_pair(id(5), id(4), id(45)).unwrap().pair_len, 1);
    assert_eq!(factory.create_pair(id(4), id(6), id(46)).unwrap().pair_len, 2);
    assert_eq!(factory.create_pair(id(7), id(255), id(70)).unwrap().pair_len, 3);
    assert_eq!(factory.all_pairs(0), Some(id(45)));
    assert_eq!(factory.all_pairs(1), Some(id(46)));
    assert_eq!(factory.all_pairs(2), Some(id(70)));
    assert_eq!(factory.all_pairs(3), None);
    assert_eq!(factory.all_pairs(u64::MAX), None);
    assert_eq!(factory.get_pair(id(6), id(4)), Some(id(46)));
    assert_eq!(factory.get_pair(id(255), id(7)), Some(id(70)));
}

#[test]
fn create_pair_rejects() {
    let mut factory = Factory::new(id(1), [3u8; 32]);
    assert_eq!(factory.create_pair(id(4), id(4), id(44)), Err(FactoryError::IdenticalAddresses));
    assert_eq!(factory.new_pair(id(4), id(4)), Err(FactoryError::IdenticalAddresses));
    assert_eq!(factory.create_pair(id(4), AccountId::zero(), id(40)), Err(FactoryError::ZeroAddress));
    assert_eq!(factory.new_pair(AccountId::zero(), id(4)), Err(FactoryError::ZeroAddress));
    assert_eq!(factory.all_pairs_length(), 0);
    assert_eq!(factory.create_pair(id(4), id(5), id(45)).map(|created| created.pair), Ok(id(45)));
    let before = factory.clone();
    assert_eq!(factory.create_pair(id(4), id(5), id(99)), Err(FactoryError::PairExists));
    assert_eq!(factory.create_pair(id(5), id(4), id(99)), Err(FactoryError::PairExists));
    assert_eq!(factory.new_pair(id(5), id(4)), Err(FactoryError::PairExists));
    assert_eq!(factory, before);
}

#[test]
fn new_pair_salts_with_the_hash_of_the_ordered_tokens() {
    let factory = Factory::new(id(1), [3u8; 32]);
    let new_pair = factory.new_pair(id(5), id(4)).unwrap();
    let mut expected = [0u8; 32];
    ink::env::hash_encoded::<ink::env::hash::Blake2x256, _>(
        &(ink::primitives::AccountId::from([4u8; 32]), ink::primitives::AccountId::from([5u8; 32])),
        &mut expected,
    );
    assert_eq!(new_pair, NewPair { token_0: id(4), token_1: id(5), salt: expected });
    assert_ne!(new_pair.salt, [4u8; 32]);
    assert_ne!(new_pair.salt, [5u8; 32]);
    assert_ne!(new_pair.salt, [0u8; 32]);
    assert_eq!(factory.new_pair(id(4), id(5)), Ok(new_pair));
    let other = factory.new_pair(id(4), id(6)).unwrap();
    assert_ne!(other.salt, new_pair.salt);
    assert_eq!(factory.all_pairs_length(), 0);
}

#[test]
fn new_pair_salt_is_the_blake2b_hash() {
    let factory = Factory::new(id(1), [3u8; 32]);
    let new_pair = factory.new_pair(id(2), id(1)).unwrap();
    let mut input = [1u8; 64];
    let mut i = 32;
    while i < 64 {
        input[i] = 2;
        i += 1;
    }
    let mut expected = [0u8; 32];
    ink::env::hash_bytes::<ink::env::hash::Blake2x256>(&input, &mut expected);
    assert_eq!(new_pair.salt, expected);
}

#[test]
fn fee_settings_are_for_the_setter() {
    let mut factory = Factory::new(id(1), [3u8; 32]);
    assert_eq!(factory.only_fee_setter(id(1)), Ok(()));
    assert_eq!(factory.only_fee_setter(id(2)), Err(FactoryError::CallerIsNotFeeSetter));
    assert_eq!(factory.set_fee_to(id(2), id(9)), Err(FactoryError::CallerIsNotFeeSetter));
    assert!(factory.fee_to().is_zero());
    assert_eq!(factory.set_fee_to(id(1), id(9)), Ok(()));
    assert_eq!(factory.fee_to(), id(9));
    assert_eq!(factory.set_fee_to_setter(id(2), id(2)), Err(FactoryError::CallerIsNotFeeSetter));
    assert_eq!(factory.fee_to_setter(), id(1));
    assert_eq!(factory.set_fee_to_setter(id(1), id(2)), Ok(()));
    assert_eq!(factory.fee_to_setter(), id(2));
    assert_eq!(factory.set_fee_to(id(1), id(8)), Err(FactoryError::CallerIsNotFeeSetter));
    assert_eq!(factory.set_fee_to(id(2), id(8)), Ok(()));
    assert_eq!(factory.fee_to(), id(8));
}

#[test]
fn pair_errors_become_factory_errors() {
    assert_eq!(FactoryError::from(PairError::K), FactoryError::PairError(PairError::K));
}
