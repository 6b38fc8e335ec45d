//! The invariants that span several operations, stated and proved once over
//! the states the operations' own contracts describe.

use vstd::prelude::*;

use crate::account::AccountState;
use crate::trading::{lemma_sum_push, Investor, TradingState};

verus! {

/// Every strategy's committed capital equals the sum of its recorded
/// contributions after a successful capital-flow transition, provided it
/// did before: the transition appends one contribution to one strategy and
/// adds exactly its amount, and leaves every other strategy untouched.
pub proof fn lemma_all_balanced_preserved(
    pre: TradingState,
    post: TradingState,
    id: u128,
    inv: Investor,
)
    requires
        forall|k: int|
            0 <= k < pre.strategies@.len() ==> (#[trigger] pre.strategies@[k]).balanced(),
        pre.has_strategy(id),
        post.strategies@.len() == pre.strategies@.len(),
        forall|k: int|
            0 <= k < pre.strategies@.len() && k != id as int - 1 ==> post.strategies@[k]
                == pre.strategies@[k],
        post.strategy(id).investors@ == pre.strategy(id).investors@.push(inv),
        post.strategy(id).amount == pre.strategy(id).amount + inv.amount,
    ensures
        forall|k: int|
            0 <= k < post.strategies@.len() ==> (#[trigger] post.strategies@[k]).balanced(),
{
    assert forall|k: int| 0 <= k < post.strategies@.len() implies (
    #[trigger] post.strategies@[k]).balanced() by {
        if k == id as int - 1 {
            lemma_sum_push(pre.strategy(id).investors@, inv);
        } else {
            assert(post.strategies@[k] == pre.strategies@[k]);
        }
    }
}

/// No strategy id is ever reused: in a well-formed registry, distinct
/// positions hold distinct ids. Together with the creation contract (each
/// new id exceeds every id already stored) the ids are strictly
/// monotonically increasing over a process lifetime.
pub proof fn lemma_strategy_ids_distinct(ts: TradingState)
    requires
        ts.wf(),
    ensures
        forall|i: int, j: int|
            0 <= i < ts.strategies@.len() && 0 <= j < ts.strategies@.len() && i != j ==> (
            #[trigger] ts.strategies@[i]).id != (#[trigger] ts.strategies@[j]).id,
{
}

/// No limit-order id is ever reused within an account's books: in a
/// well-formed ledger the ids ascend strictly within each book. Together
/// with the issuing contract (each new id exceeds every id stored anywhere)
/// the ids are globally strictly monotonically increasing.
pub proof fn lemma_order_ids_distinct(st: AccountState, a: int)
    requires
        st.wf(),
        0 <= a < st.accounts@.len(),
    ensures
        forall|k1: int, k2: int|
            0 <= k1 < st.accounts@[a].limits_orders_long@.len() && 0 <= k2
                < st.accounts@[a].limits_orders_long@.len() && k1 != k2 ==> (
            #[trigger] st.accounts@[a].limits_orders_long@[k1]).0 != (
            #[trigger] st.accounts@[a].limits_orders_long@[k2]).0,
        forall|k1: int, k2: int|
            0 <= k1 < st.accounts@[a].limits_orders_short@.len() && 0 <= k2
                < st.accounts@[a].limits_orders_short@.len() && k1 != k2 ==> (
            #[trigger] st.accounts@[a].limits_orders_short@[k1]).0 != (
            #[trigger] st.accounts@[a].limits_orders_short@[k2]).0,
{
    assert(st.accounts@[a].orders_sorted());
}

/// Storing a long limit order with plaintext thresholds `(s, p)` leaves the
/// book with an entry under the issued id whose decrypted thresholds are
/// exactly `(s, p)`; the decrypted readout therefore surfaces that entry.
pub proof fn lemma_limit_order_round_trip(st: AccountState, addr: Seq<char>, id: u128, s: u8, p: u8)
    requires
        st.has_account(addr),
        st.account(addr).limits_orders_long@.len() > 0,
        st.account(addr).limits_orders_long@.last().0 == id,
        st.account(addr).limits_orders_long@.last().1.stop@ == s,
        st.account(addr).limits_orders_long@.last().1.profit@ == p,
    ensures
        exists|k: int|
            0 <= k < st.account(addr).limits_orders_long@.len() && (#[trigger] st.account(
                addr,
            ).limits_orders_long@[k]).0 == id && st.account(addr).limits_orders_long@[k].1.stop@
                == s && st.account(addr).limits_orders_long@[k].1.profit@ == p,
{
    let book = st.account(addr).limits_orders_long@;
    assert(book[book.len() - 1] == book.last());
}

/// Competing debits linearise: once one investment of `amount` has gone
/// through against a balance below `2 * amount`, the remaining balance no
/// longer covers a second investment of the same size, so the second call
/// must report insufficient funds.
pub proof fn lemma_invest_exclusive(
    pre: AccountState,
    mid: AccountState,
    addr: Seq<char>,
    amount: u128,
)
    requires
        amount > 0,
        pre.has_account(addr),
        pre.account(addr).balance >= amount,
        pre.account(addr).balance < amount + amount,
        mid.has_account(addr),
        mid.account(addr).balance == pre.account(addr).balance - amount,
    ensures
        mid.account(addr).balance < amount,
{
}

} // verus!
