use fhe_server::account::{AccountState, LimitsOrderShort};
use fhe_server::errors::Error;
use fhe_server::fhe::FheContext;
use fhe_server::flows::{invest, open_trade};
use fhe_server::trading::TradingState;

#[test]
fn strategy_ids_ascend_and_checks_report_missing_ids() {
    let ctx = FheContext::generate();
    let mut registry = TradingState::new();
    let id = registry.create_strategy_encrypted(
        &ctx,
        "rsi-bot".to_string(),
        "bob".to_string(),
        70,
        30,
        "ETH".to_string(),
    );
    assert_eq!(id, 1);
    let second = registry.create_strategy_encrypted(
        &ctx,
        "macd-bot".to_string(),
        "bob".to_string(),
        80,
        20,
        "BTC".to_string(),
    );
    assert_eq!(second, 2);
    assert_eq!(registry.check_long(&ctx, 3, 20), Err(Error::NotFound));
    assert_eq!(registry.check_short(&ctx, 3, 80), Err(Error::NotFound));
    let stored = registry.get_strategy(1).unwrap();
    assert_eq!(stored.name, "rsi-bot".to_string());
    assert_eq!(stored.owner, "bob".to_string());
    assert_eq!(stored.token, "ETH".to_string());
    assert_eq!(stored.amount, 0);
    let all = registry.get_all_strategies();
    assert_eq!(all.len(), 2);
    assert_eq!(all[0].id, 1);
    assert_eq!(all[1].id, 2);
    assert_eq!(all[1].name, "macd-bot".to_string());
}

#[test]
fn invest_moves_capital_and_rolls_back_on_shortfall() {
    let ctx = FheContext::generate();
    let mut ledger = AccountState::new();
    let mut registry = TradingState::new();
    ledger.create_account("alice".to_string(), 1000);
    let id = registry.create_strategy_encrypted(
        &ctx,
        "rsi-bot".to_string(),
        "bob".to_string(),
        70,
        30,
        "ETH".to_string(),
    );

    assert_eq!(invest(&mut ledger, &mut registry, "alice".to_string(), id, 400), Ok(()));
    assert_eq!(ledger.get_account("alice".to_string()).unwrap().balance, 600);
    let strategy = registry.get_strategy(id).unwrap();
    assert_eq!(strategy.amount, 400);
    assert_eq!(strategy.investors.len(), 1);
    assert_eq!(strategy.investors[0].address, "alice".to_string());
    assert_eq!(strategy.investors[0].amount, 400);
    assert_eq!(
        ledger.get_account("alice".to_string()).unwrap().strategy_ids,
        vec![id]
    );

    assert_eq!(
        invest(&mut ledger, &mut registry, "alice".to_string(), id, 700),
        Err(Error::InsufficientFunds)
    );
    assert_eq!(ledger.get_account("alice".to_string()).unwrap().balance, 600);
    let strategy = registry.get_strategy(id).unwrap();
    assert_eq!(strategy.amount, 400);
    assert_eq!(strategy.investors.len(), 1);
}

#[test]
fn competing_unit_investments_leave_one_success() {
    let ctx = FheContext::generate();
    let mut ledger = AccountState::new();
    let mut registry = TradingState::new();
    ledger.create_account("alice".to_string(), 1);
    let id = registry.create_strategy_encrypted(
        &ctx,
        "s".to_string(),
        "bob".to_string(),
        70,
        30,
        "ETH".to_string(),
    );
    let first = invest(&mut ledger, &mut registry, "alice".to_string(), id, 1);
    let second = invest(&mut ledger, &mut registry, "alice".to_string(), id, 1);
    assert_eq!(first, Ok(()));
    assert_eq!(second, Err(Error::InsufficientFunds));
    assert_eq!(ledger.get_account("alice".to_string()).unwrap().balance, 0);
    assert_eq!(registry.get_strategy(id).unwrap().amount, 1);
}

#[test]
fn open_trade_flips_position() {
    let ctx = FheContext::generate();
    let mut registry = TradingState::new();
    let id = registry.create_strategy_encrypted(
        &ctx,
        "s".to_string(),
        "bob".to_string(),
        70,
        30,
        "ETH".to_string(),
    );
    let created = registry.get_strategy(id).unwrap();
    assert!(!created.is_open);
    assert_eq!(open_trade(&mut registry, id, true), Ok(()));
    let opened = registry.get_strategy(id).unwrap();
    assert!(opened.is_open);
    assert!(opened.is_long);
    assert_eq!(open_trade(&mut registry, 9, true), Err(Error::NotFound));
}

#[test]
fn limit_order_round_trip() {
    let ctx = FheContext::generate();
    let mut ledger = AccountState::new();
    ledger.create_account("carol".to_string(), 0);
    let order_id = ledger
        .add_limits_order_long_encrypted(
            &ctx,
            "carol".to_string(),
            "T".to_string(),
            "A".to_string(),
            5,
            95,
        )
        .unwrap();
    assert_eq!(order_id, 0);

    let listed = ledger
        .decrypted_limits_orders_long(&ctx, "carol".to_string())
        .unwrap();
    assert_eq!(listed.len(), 1);
    assert_eq!(listed[0].0, 0);
    assert_eq!(listed[0].1.owner, "carol".to_string());
    assert_eq!(listed[0].1.token, "T".to_string());
    assert_eq!(listed[0].1.asset, "A".to_string());
    assert_eq!(listed[0].1.stop, 5);
    assert_eq!(listed[0].1.profit, 95);

    let second_id = ledger
        .add_limits_order_long_encrypted(
            &ctx,
            "carol".to_string(),
            "T".to_string(),
            "B".to_string(),
            10,
            90,
        )
        .unwrap();
    assert_eq!(second_id, 1);

    let encrypted_book = ledger.get_limits_orders_long("carol".to_string()).unwrap();
    assert_eq!(encrypted_book.len(), 2);
    assert_eq!(encrypted_book[0].0, 0);
    assert_eq!(encrypted_book[1].0, 1);
    assert_eq!(encrypted_book[0].1.owner, "carol".to_string());
    assert_eq!(encrypted_book[1].1.asset, "B".to_string());

    let short_order = LimitsOrderShort {
        owner: "carol".to_string(),
        token: "T".to_string(),
        asset: "C".to_string(),
        stop: ctx.encrypt_u8(7),
        profit: ctx.encrypt_u8(93),
    };
    let short_id = ledger
        .add_limits_order_short("carol".to_string(), short_order)
        .unwrap();
    assert_eq!(short_id, 2);
    let account = ledger.get_account("carol".to_string()).unwrap();
    assert_eq!(account.limits_orders_short.len(), 1);
    assert_eq!(account.limits_orders_short[0].0, 2);

    assert_eq!(
        ledger
            .add_limits_order_long_encrypted(
                &ctx,
                "ghost".to_string(),
                "T".to_string(),
                "A".to_string(),
                1,
                2,
            )
            .unwrap_err(),
        Error::NotFound
    );
}
