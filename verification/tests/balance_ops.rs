use lending_contract::{Error, ExternalAction, LendingNftCollateral};

const MINT_STORAGE_COST: u128 = 5920000000000000000000;

fn fresh() -> LendingNftCollateral {
    LendingNftCollateral::new("bob".to_string(), "charlie".to_string(), "danny".to_string())
}

#[test]
fn test_get_balance_value() {
    let mut contract = fresh();
    contract.balances.insert("bob".to_string(), 10);
    let result = contract.get_balance_value("bob".to_string());
    assert_eq!(result, 10);
}

#[test]
fn test_deposit_balance() {
    let mut contract = fresh();
    let alice = "alice".to_string();
    contract.deposit_balance(&alice, MINT_STORAGE_COST);
    let result = contract.get_balance_value(alice);
    assert_eq!(result, MINT_STORAGE_COST);
}

#[test]
fn test_reduce_balance() {
    let mut contract = fresh();
    let alice = "alice".to_string();
    contract.balances.insert(alice.clone(), 50);
    contract.reduce_balance(&alice, 20).unwrap();
    let result = contract.get_balance_value(alice);
    assert_eq!(result, 30);
}

#[test]
fn test_reduce_balance_insufficient() {
    let mut contract = fresh();
    let alice = "alice".to_string();
    contract.balances.insert(alice.clone(), 50);
    let r = contract.reduce_balance(&alice, 51);
    assert!(matches!(r, Err(Error::InsufficientBalance)));
    // the failed debit left the balance untouched
    assert_eq!(contract.get_balance_value(alice), 50);
}

#[test]
fn test_reduce_and_withdraw_balance() {
    let mut contract = fresh();
    let alice = "alice".to_string();
    contract.deposit_balance(&alice, 100);
    let action = contract.reduce_and_withdraw_balance(&alice, 40).unwrap();
    match action {
        ExternalAction::ValueTransfer { receiver_id, amount } => {
            assert_eq!(receiver_id, "alice");
            assert_eq!(amount, 40);
        }
        _ => panic!("expected a value transfer"),
    }
    assert_eq!(contract.get_balance_value(alice), 60);
}

#[test]
fn test_set_storage_charges_growth() {
    let mut contract = fresh();
    let alice = "alice".to_string();
    contract.deposit_balance(&alice, 1000);
    // grew by 30 bytes at 3 a byte: debit 90
    contract.set_storage(&alice, 70, 100, 3).unwrap();
    assert_eq!(contract.get_balance_value(alice), 910);
}

#[test]
fn test_set_storage_refunds_shrink() {
    let mut contract = fresh();
    let alice = "alice".to_string();
    contract.deposit_balance(&alice, 1000);
    // shrank by 20 bytes at 3 a byte: credit 60
    contract.set_storage(&alice, 100, 80, 3).unwrap();
    assert_eq!(contract.get_balance_value(alice), 1060);
}

#[test]
fn test_set_storage_insufficient_balance() {
    let mut contract = fresh();
    let alice = "alice".to_string();
    contract.deposit_balance(&alice, 50);
    let r = contract.set_storage(&alice, 0, 100, 1);
    assert!(matches!(r, Err(Error::InsufficientBalance)));
    assert_eq!(contract.get_balance_value(alice), 50);
}

#[test]
fn test_balance_never_negative_across_operations() {
    let mut contract = fresh();
    let alice = "alice".to_string();
    // a mix of deposits, withdrawals and storage charges, some uncovered:
    // every uncovered debit fails and leaves the balance as it was
    contract.deposit_balance(&alice, 30);
    assert!(contract.reduce_balance(&alice, 31).is_err());
    assert_eq!(contract.get_balance_value(alice.clone()), 30);
    contract.reduce_balance(&alice, 30).unwrap();
    assert_eq!(contract.get_balance_value(alice.clone()), 0);
    assert!(contract.reduce_balance(&alice, 1).is_err());
    assert!(contract.set_storage(&alice, 0, 1, 1).is_err());
    assert_eq!(contract.get_balance_value(alice), 0);
}
