use pair_equality::AssetId;
use pair_equality::EqualityPredicate;
use pair_equality::EqualityPredicateAlkane;
use pair_equality::KeyValueStore;
use pair_equality::PredicateError;
use pair_equality::Transfer;

fn leg(namespace: u128, sequence: u128, amount: u128) -> Transfer {
    Transfer { id: AssetId { namespace, sequence }, amount }
}

#[test]
fn exact_match_accepts_and_forwards_unchanged() {
    let alkane = EqualityPredicateAlkane::new();
    let transfers = vec![leg(2, 123, 100), leg(2, 456, 200)];
    let response = alkane.filter(123, 100, 456, 200, transfers.clone()).unwrap();
    assert_eq!(response.transfers, transfers);
    assert!(response.data.is_empty());
}

#[test]
fn swapped_legs_reject() {
    let alkane = EqualityPredicateAlkane::new();
    let transfers = vec![leg(2, 456, 200), leg(2, 123, 100)];
    let result = alkane.filter(123, 100, 456, 200, transfers);
    assert_eq!(result.unwrap_err(), PredicateError::ParameterMismatch);
}

#[test]
fn one_leg_rejects_with_wrong_leg_count() {
    let alkane = EqualityPredicateAlkane::new();
    let transfers = vec![leg(2, 123, 100)];
    let result = alkane.filter(123, 100, 456, 200, transfers);
    assert_eq!(result.unwrap_err(), PredicateError::WrongLegCount);
}

#[test]
fn three_legs_reject_with_wrong_leg_count() {
    let alkane = EqualityPredicateAlkane::new();
    let transfers = vec![leg(2, 123, 100), leg(2, 456, 200), leg(2, 789, 300)];
    let result = alkane.filter(123, 100, 456, 200, transfers);
    assert_eq!(result.unwrap_err(), PredicateError::WrongLegCount);
}

#[test]
fn no_legs_reject_with_wrong_leg_count() {
    let alkane = EqualityPredicateAlkane::new();
    let result = alkane.filter(123, 100, 456, 200, Vec::new());
    assert_eq!(result.unwrap_err(), PredicateError::WrongLegCount);
}

#[test]
fn off_by_one_amount_rejects() {
    let alkane = EqualityPredicateAlkane::new();
    let transfers = vec![leg(2, 123, 100), leg(2, 456, 200)];
    let result = alkane.filter(123, 100, 456, 201, transfers);
    assert_eq!(result.unwrap_err(), PredicateError::ParameterMismatch);
}

#[test]
fn wrong_asset_sequence_rejects() {
    let alkane = EqualityPredicateAlkane::new();
    let transfers = vec![leg(2, 999, 100), leg(2, 456, 200)];
    let result = alkane.filter(123, 100, 456, 200, transfers);
    assert_eq!(result.unwrap_err(), PredicateError::ParameterMismatch);
}

#[test]
fn wrong_asset_namespace_rejects() {
    let alkane = EqualityPredicateAlkane::new();
    let transfers = vec![leg(3, 123, 100), leg(2, 456, 200)];
    let result = alkane.filter(123, 100, 456, 200, transfers);
    assert_eq!(result.unwrap_err(), PredicateError::ParameterMismatch);
}

#[test]
fn zero_amounts_are_not_special_cased() {
    let alkane = EqualityPredicateAlkane::new();
    let transfers = vec![leg(2, 123, 0), leg(2, 456, 0)];
    let response = alkane.filter(123, 0, 456, 0, transfers.clone()).unwrap();
    assert_eq!(response.transfers, transfers);
}

#[test]
fn duplicate_assets_compare_positionally() {
    let alkane = EqualityPredicateAlkane::new();
    let transfers = vec![leg(2, 123, 5), leg(2, 123, 7)];
    let accepted = alkane.filter(123, 5, 123, 7, transfers.clone());
    assert!(accepted.is_ok());
    let rejected = alkane.filter(123, 7, 123, 5, transfers);
    assert_eq!(rejected.unwrap_err(), PredicateError::ParameterMismatch);
}

#[test]
fn largest_amounts_compare_exactly() {
    let alkane = EqualityPredicateAlkane::new();
    let transfers = vec![leg(2, 123, u128::MAX), leg(2, 456, u128::MAX - 1)];
    let response = alkane.filter(123, u128::MAX, 456, u128::MAX - 1, transfers.clone()).unwrap();
    assert_eq!(response.transfers, transfers);
}

#[test]
fn initialize_forwards_transfers_and_repeats_fail() {
    let alkane = EqualityPredicateAlkane::new();
    let mut storage = KeyValueStore::new();
    let transfers = vec![leg(2, 1, 10), leg(2, 2, 20)];
    let response = alkane.initialize(&mut storage, transfers.clone()).unwrap();
    assert_eq!(response.transfers, transfers);
    assert!(response.data.is_empty());
    let again = alkane.initialize(&mut storage, transfers);
    assert_eq!(again.unwrap_err(), PredicateError::AlreadyInitialized);
}

#[test]
fn standard_asset_id_uses_fixed_namespace() {
    let id = AssetId::standard(9);
    assert_eq!(id, AssetId { namespace: pair_equality::STANDARD_NAMESPACE, sequence: 9 });
    assert_eq!(id.namespace, 2);
}
