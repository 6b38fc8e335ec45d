//! The capital-flow coordinator: the one transaction that touches both the
//! account ledger and the strategy registry, and the position opener.
//!
//! `invest` validates everything before the first mutation, so a failed
//! call leaves both states exactly as they were.

use vstd::prelude::*;

use crate::account::{Account, AccountState};
use crate::errors::Error;
use crate::trading::{lemma_sum_push, Investor, TradingState, TradingStrategy};

verus! {

/// Moves `amount` from the account's free balance into the strategy's
/// committed capital, records the contribution snapshot and links the
/// strategy id to the account. The steps are all-or-nothing: on any failure
/// neither state has changed.
///
/// Failure order: a missing account is `NotFound`; then a balance below
/// `amount` is `InsufficientFunds`; then a missing strategy is `NotFound`.
pub fn invest(
    accounts: &mut AccountState,
    trading: &mut TradingState,
    address: String,
    strategy_id: u128,
    amount: u128,
) -> (r: Result<(), Error>)
    requires
        old(accounts).wf(),
        old(trading).wf(),
        (old(accounts).has_account(address@) && old(accounts).account(address@).balance >= amount
            && old(trading).has_strategy(strategy_id)) ==> old(trading).strategy(
            strategy_id,
        ).amount + amount <= u128::MAX,
    ensures
        final(accounts).wf(),
        final(trading).wf(),
        r is Ok <==> (old(accounts).has_account(address@) && old(accounts).account(
            address@,
        ).balance >= amount && old(trading).has_strategy(strategy_id)),
        r is Err ==> *final(accounts) == *old(accounts) && *final(trading) == *old(trading),
        r is Err ==> (r->Err_0 == Error::InsufficientFunds <==> (old(accounts).has_account(
            address@,
        ) && old(accounts).account(address@).balance < amount)),
        r is Err ==> (r->Err_0 == Error::NotFound <==> (!old(accounts).has_account(address@) || (
        old(accounts).account(address@).balance >= amount && !old(trading).has_strategy(
            strategy_id,
        )))),
        r is Ok ==> {
            &&& final(accounts).id_counter == old(accounts).id_counter
            &&& final(accounts).accounts@.len() == old(accounts).accounts@.len()
            &&& final(accounts).idx_of(address@) == old(accounts).idx_of(address@)
            &&& forall|k: int|
                0 <= k < old(accounts).accounts@.len() && k != old(accounts).idx_of(address@)
                    ==> final(accounts).accounts@[k] == old(accounts).accounts@[k]
            &&& final(accounts).account(address@).balance == old(accounts).account(
                address@,
            ).balance - amount
            &&& final(accounts).account(address@).balance <= old(accounts).account(
                address@,
            ).balance
            &&& final(accounts).account(address@).strategy_ids@ == old(accounts).account(
                address@,
            ).strategy_ids@.push(strategy_id)
            &&& (Account {
                balance: final(accounts).account(address@).balance,
                strategy_ids: final(accounts).account(address@).strategy_ids,
                ..old(accounts).account(address@)
            }) == final(accounts).account(address@)
        },
        r is Ok ==> {
            &&& final(trading).id_counter == old(trading).id_counter
            &&& final(trading).strategies@.len() == old(trading).strategies@.len()
            &&& forall|k: int|
                0 <= k < old(trading).strategies@.len() && k != strategy_id as int - 1 ==> final(trading).strategies@[k] == old(trading).strategies@[k]
            &&& final(trading).strategy(strategy_id).amount == old(trading).strategy(
                strategy_id,
            ).amount + amount
            &&& final(trading).strategy(strategy_id).investors@ == old(trading).strategy(
                strategy_id,
            ).investors@.push((Investor { address: address, amount: amount }))
            &&& (TradingStrategy {
                amount: final(trading).strategy(strategy_id).amount,
                investors: final(trading).strategy(strategy_id).investors,
                ..old(trading).strategy(strategy_id)
            }) == final(trading).strategy(strategy_id)
        },
        r is Ok ==> (old(trading).strategy(strategy_id).balanced() ==> final(trading).strategy(
            strategy_id,
        ).balanced()),
{
    let account = match accounts.get_account(address.clone()) {
        Ok(account) => account,
        Err(e) => {
            return Err(e);
        },
    };
    if account.balance < amount {
        return Err(Error::InsufficientFunds);
    }
    let investor = Investor { address: address.clone(), amount };
    proof {
        assert(investor == (Investor { address: address, amount: amount }));
    }
    match trading.add_investor(strategy_id, investor) {
        Ok(()) => {},
        Err(e) => {
            return Err(e);
        },
    }
    let ghost t_mid = *trading;
    let increased = trading.increase_amount(strategy_id, amount);
    proof {
        assert(increased is Ok);
        let sid = strategy_id as int - 1;
        assert(trading.strategies@ == t_mid.strategies@.update(
            sid,
            (TradingStrategy {
                amount: (t_mid.strategy(strategy_id).amount + amount) as u128,
                ..t_mid.strategy(strategy_id)
            }),
        ));
        assert(trading.strategy(strategy_id).investors@ == old(trading).strategy(
            strategy_id,
        ).investors@.push(investor));
        if old(trading).strategy(strategy_id).balanced() {
            lemma_sum_push(old(trading).strategy(strategy_id).investors@, investor);
        }
    }
    let ghost gi = old(accounts).idx_of(address@);
    accounts.update_account(address.clone(), account.balance - amount);
    let ghost a_mid = *accounts;
    proof {
        assert(old(accounts).accounts@[gi].address@ == address@);
        assert(accounts.accounts@[gi].address@ == address@);
        crate::account::lemma_found_idx(accounts, gi, address@);
    }
    accounts.add_strategy_id(address, strategy_id);
    proof {
        assert forall|k: int|
            0 <= k < old(accounts).accounts@.len() && k != gi implies accounts.accounts@[k] == old(
            accounts,
        ).accounts@[k] by {
            assert(a_mid.accounts@[k] == old(accounts).accounts@[k]);
        }
        assert(accounts.account(address@).balance == old(accounts).account(address@).balance
            - amount);
        assert(accounts.account(address@).strategy_ids@ == old(accounts).account(
            address@,
        ).strategy_ids@.push(strategy_id));
    }
    Ok(())
}

/// Flips the strategy to an open position in the given direction, and
/// fails exactly when no strategy has the id, leaving the registry
/// unchanged in that case.
pub fn open_trade(trading: &mut TradingState, strategy_id: u128, is_long: bool) -> (r: Result<
    (),
    Error,
>)
    requires
        old(trading).wf(),
    ensures
        final(trading).wf(),
        r is Ok <==> old(trading).has_strategy(strategy_id),
        r is Ok ==> final(trading).strategies@ == old(trading).strategies@.update(
            strategy_id as int - 1,
            (TradingStrategy { is_long, is_open: true, ..old(trading).strategy(strategy_id) }),
        ),
        r is Err ==> *final(trading) == *old(trading) && r->Err_0 == Error::NotFound,
{
    trading.update_strategy_position(strategy_id, is_long, true)
}

} // verus!
