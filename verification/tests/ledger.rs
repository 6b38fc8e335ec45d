use fhe_server::account::AccountState;
use fhe_server::errors::Error;
use fhe_server::flows::invest;
use fhe_server::trading::TradingState;

#[test]
fn create_account_and_deposit() {
    let mut ledger = AccountState::new();
    ledger.create_account("alice".to_string(), 1000);
    let acc = ledger.get_account("alice".to_string()).unwrap();
    assert_eq!(acc.balance, 1000);
    assert_eq!(acc.address, "alice".to_string());
    assert!(acc.strategy_ids.is_empty());

    assert_eq!(ledger.deposit("alice".to_string(), 250), Ok(()));
    let acc = ledger.get_account("alice".to_string()).unwrap();
    assert_eq!(acc.balance, 1250);
}

#[test]
fn deposit_to_missing_account_is_not_found() {
    let mut ledger = AccountState::new();
    assert_eq!(ledger.deposit("ghost".to_string(), 5), Err(Error::NotFound));
}

#[test]
fn get_missing_account_is_not_found() {
    let ledger = AccountState::new();
    assert!(matches!(
        ledger.get_account("ghost".to_string()),
        Err(Error::NotFound)
    ));
}

#[test]
fn create_account_overwrites_prior_record() {
    let mut ledger = AccountState::new();
    ledger.create_account("alice".to_string(), 1000);
    assert_eq!(ledger.deposit("alice".to_string(), 1), Ok(()));
    ledger.create_account("alice".to_string(), 7);
    let acc = ledger.get_account("alice".to_string()).unwrap();
    assert_eq!(acc.balance, 7);
    assert!(acc.strategy_ids.is_empty());
    assert!(acc.limits_orders_long.is_empty());
}

#[test]
fn update_account_sets_balance_outright() {
    let mut ledger = AccountState::new();
    ledger.create_account("alice".to_string(), 1000);
    ledger.update_account("alice".to_string(), 42);
    assert_eq!(ledger.get_account("alice".to_string()).unwrap().balance, 42);
}

#[test]
fn add_strategy_id_links_and_keeps_duplicates() {
    let mut ledger = AccountState::new();
    ledger.create_account("alice".to_string(), 0);
    ledger.add_strategy_id("alice".to_string(), 3);
    ledger.add_strategy_id("alice".to_string(), 3);
    let acc = ledger.get_account("alice".to_string()).unwrap();
    assert_eq!(acc.strategy_ids, vec![3, 3]);
}

#[test]
fn invest_missing_account_is_not_found() {
    let mut ledger = AccountState::new();
    let mut registry = TradingState::new();
    let r = invest(&mut ledger, &mut registry, "ghost".to_string(), 1, 10);
    assert_eq!(r, Err(Error::NotFound));
}

#[test]
fn invest_insufficient_balance_checked_before_strategy() {
    let mut ledger = AccountState::new();
    let mut registry = TradingState::new();
    ledger.create_account("alice".to_string(), 5);
    let r = invest(&mut ledger, &mut registry, "alice".to_string(), 1, 10);
    assert_eq!(r, Err(Error::InsufficientFunds));
    assert_eq!(ledger.get_account("alice".to_string()).unwrap().balance, 5);
}

#[test]
fn invest_missing_strategy_is_not_found_and_mutates_nothing() {
    let mut ledger = AccountState::new();
    let mut registry = TradingState::new();
    ledger.create_account("alice".to_string(), 100);
    let r = invest(&mut ledger, &mut registry, "alice".to_string(), 1, 10);
    assert_eq!(r, Err(Error::NotFound));
    let acc = ledger.get_account("alice".to_string()).unwrap();
    assert_eq!(acc.balance, 100);
    assert!(acc.strategy_ids.is_empty());
}

#[test]
fn get_missing_strategy_is_not_found() {
    let registry = TradingState::new();
    assert!(matches!(registry.get_strategy(1), Err(Error::NotFound)));
}

#[test]
fn registry_mutators_fail_on_missing_strategy() {
    let mut registry = TradingState::new();
    assert_eq!(registry.increase_amount(9, 5), Err(Error::NotFound));
    assert_eq!(
        registry.update_strategy_position(9, true, true),
        Err(Error::NotFound)
    );
}
