//! The account ledger: per-address balances, funded strategies, and the
//! encrypted limit-order store with its decrypted readout path.
//!
//! Accounts are held as a sequence with pairwise distinct addresses; that,
//! together with the limit-order id discipline (ids issued by one counter,
//! strictly increasing within each account, never reused), is the ledger's
//! well-formedness invariant [`AccountState::wf`].

use vstd::prelude::*;

use crate::errors::Error;
use crate::fhe::{clone_ct, CtU8, FheContext};

verus! {

/// An encrypted stop-loss / take-profit pair guarding a long position.
pub struct LimitsOrderLong {
    pub owner: String,
    pub token: String,
    pub asset: String,
    pub stop: CtU8,
    pub profit: CtU8,
}

/// An encrypted stop-loss / take-profit pair guarding a short position.
pub struct LimitsOrderShort {
    pub owner: String,
    pub token: String,
    pub asset: String,
    pub stop: CtU8,
    pub profit: CtU8,
}

/// The decrypted external representation of a long limit order.
pub struct LimitsOrderLongResponse {
    pub owner: String,
    pub token: String,
    pub asset: String,
    pub stop: u8,
    pub profit: u8,
}

impl LimitsOrderLong {
    /// Both thresholds were encrypted under the key pair `k`.
    pub open spec fn keyed(&self, k: int) -> bool {
        self.stop.key_id() == k && self.profit.key_id() == k
    }

    /// `other` carries the same data: equal plaintext fields, and encrypted
    /// thresholds holding the same plaintexts under the same pair.
    pub open spec fn agrees(&self, other: &LimitsOrderLong) -> bool {
        &&& self.owner == other.owner
        &&& self.token == other.token
        &&& self.asset == other.asset
        &&& self.stop@ == other.stop@
        &&& self.stop.key_id() == other.stop.key_id()
        &&& self.profit@ == other.profit@
        &&& self.profit.key_id() == other.profit.key_id()
    }

    /// A copy carrying the same data.
    pub fn duplicate(&self) -> (r: LimitsOrderLong)
        ensures
            r.agrees(self),
    {
        LimitsOrderLong {
            owner: self.owner.clone(),
            token: self.token.clone(),
            asset: self.asset.clone(),
            stop: clone_ct(&self.stop),
            profit: clone_ct(&self.profit),
        }
    }
}

impl LimitsOrderShort {
    /// Both thresholds were encrypted under the key pair `k`.
    pub open spec fn keyed(&self, k: int) -> bool {
        self.stop.key_id() == k && self.profit.key_id() == k
    }

    /// `other` carries the same data: equal plaintext fields, and encrypted
    /// thresholds holding the same plaintexts under the same pair.
    pub open spec fn agrees(&self, other: &LimitsOrderShort) -> bool {
        &&& self.owner == other.owner
        &&& self.token == other.token
        &&& self.asset == other.asset
        &&& self.stop@ == other.stop@
        &&& self.stop.key_id() == other.stop.key_id()
        &&& self.profit@ == other.profit@
        &&& self.profit.key_id() == other.profit.key_id()
    }

    /// A copy carrying the same data.
    pub fn duplicate(&self) -> (r: LimitsOrderShort)
        ensures
            r.agrees(self),
    {
        LimitsOrderShort {
            owner: self.owner.clone(),
            token: self.token.clone(),
            asset: self.asset.clone(),
            stop: clone_ct(&self.stop),
            profit: clone_ct(&self.profit),
        }
    }
}

/// One account: a free balance, the funded strategies, and the private
/// limit-order books (keyed by order id, in ascending id order).
pub struct Account {
    pub address: String,
    pub balance: u128,
    pub strategy_ids: Vec<u128>,
    pub limits_orders_long: Vec<(u128, LimitsOrderLong)>,
    pub limits_orders_short: Vec<(u128, LimitsOrderShort)>,
}

impl Account {
    /// Every stored order id is below `b`.
    pub open spec fn order_ids_lt(&self, b: u128) -> bool {
        &&& forall|k: int|
            0 <= k < self.limits_orders_long@.len() ==> (#[trigger] self.limits_orders_long@[k]).0
                < b
        &&& forall|k: int|
            0 <= k < self.limits_orders_short@.len() ==> (#[trigger] self.limits_orders_short@[k]).0
                < b
    }

    /// Order ids are strictly increasing within each book, so each book is
    /// a well-formed id-keyed map.
    pub open spec fn orders_sorted(&self) -> bool {
        &&& forall|k1: int, k2: int|
            0 <= k1 < k2 < self.limits_orders_long@.len() ==> (
            #[trigger] self.limits_orders_long@[k1]).0 < (#[trigger] self.limits_orders_long@[k2]).0
        &&& forall|k1: int, k2: int|
            0 <= k1 < k2 < self.limits_orders_short@.len() ==> (
            #[trigger] self.limits_orders_short@[k1]).0 < (
            #[trigger] self.limits_orders_short@[k2]).0
    }

    /// Every encrypted threshold in the long book was made under `k`.
    pub open spec fn long_orders_keyed(&self, k: int) -> bool {
        forall|j: int|
            0 <= j < self.limits_orders_long@.len() ==> (
            #[trigger] self.limits_orders_long@[j]).1.keyed(k)
    }

    /// `other` carries the same data, entry by entry.
    pub open spec fn agrees(&self, other: &Account) -> bool {
        &&& self.address == other.address
        &&& self.balance == other.balance
        &&& self.strategy_ids@ == other.strategy_ids@
        &&& self.limits_orders_long@.len() == other.limits_orders_long@.len()
        &&& forall|k: int|
            0 <= k < self.limits_orders_long@.len() ==> (#[trigger] self.limits_orders_long@[k]).0
                == other.limits_orders_long@[k].0 && self.limits_orders_long@[k].1.agrees(
                &other.limits_orders_long@[k].1,
            )
        &&& self.limits_orders_short@.len() == other.limits_orders_short@.len()
        &&& forall|k: int|
            0 <= k < self.limits_orders_short@.len() ==> (#[trigger] self.limits_orders_short@[k]).0
                == other.limits_orders_short@[k].0 && self.limits_orders_short@[k].1.agrees(
                &other.limits_orders_short@[k].1,
            )
    }

    /// A snapshot copy carrying the same data.
    pub fn duplicate(&self) -> (r: Account)
        ensures
            r.agrees(self),
    {
        Account {
            address: self.address.clone(),
            balance: self.balance,
            strategy_ids: duplicate_ids(&self.strategy_ids),
            limits_orders_long: duplicate_long_orders(&self.limits_orders_long),
            limits_orders_short: duplicate_short_orders(&self.limits_orders_short),
        }
    }
}

/// An element-wise copy of an id list; the copy equals the original.
fn duplicate_ids(v: &Vec<u128>) -> (r: Vec<u128>)
    ensures
        r@ == v@,
{
    let mut out: Vec<u128> = Vec::new();
    let mut i: usize = 0;
    while i < v.len()
        invariant
            i <= v@.len(),
            out@ == v@.subrange(0, i as int),
        decreases v@.len() - i,
    {
        out.push(v[i]);
        proof {
            assert(out@ =~= v@.subrange(0, i as int + 1));
        }
        i += 1;
    }
    proof {
        assert(v@.subrange(0, v@.len() as int) =~= v@);
    }
    out
}

/// An entry-wise copy of a long book; ids are equal and each order carries
/// the same data.
fn duplicate_long_orders(v: &Vec<(u128, LimitsOrderLong)>) -> (r: Vec<(u128, LimitsOrderLong)>)
    ensures
        r@.len() == v@.len(),
        forall|k: int|
            0 <= k < v@.len() ==> (#[trigger] r@[k]).0 == v@[k].0 && r@[k].1.agrees(&v@[k].1),
{
    let mut out: Vec<(u128, LimitsOrderLong)> = Vec::new();
    let mut i: usize = 0;
    while i < v.len()
        invariant
            i <= v@.len(),
            out@.len() == i,
            forall|k: int|
                0 <= k < i as int ==> (#[trigger] out@[k]).0 == v@[k].0 && out@[k].1.agrees(
                    &v@[k].1,
                ),
        decreases v@.len() - i,
    {
        let entry = (v[i].0, v[i].1.duplicate());
        out.push(entry);
        i += 1;
    }
    out
}

/// An entry-wise copy of a short book; ids are equal and each order carries
/// the same data.
fn duplicate_short_orders(v: &Vec<(u128, LimitsOrderShort)>) -> (r: Vec<(u128, LimitsOrderShort)>)
    ensures
        r@.len() == v@.len(),
        forall|k: int|
            0 <= k < v@.len() ==> (#[trigger] r@[k]).0 == v@[k].0 && r@[k].1.agrees(&v@[k].1),
{
    let mut out: Vec<(u128, LimitsOrderShort)> = Vec::new();
    let mut i: usize = 0;
    while i < v.len()
        invariant
            i <= v@.len(),
            out@.len() == i,
            forall|k: int|
                0 <= k < i as int ==> (#[trigger] out@[k]).0 == v@[k].0 && out@[k].1.agrees(
                    &v@[k].1,
                ),
        decreases v@.len() - i,
    {
        let entry = (v[i].0, v[i].1.duplicate());
        out.push(entry);
        i += 1;
    }
    out
}

/// The ledger of all accounts, with the order-id counter all limit orders
/// draw from.
pub struct AccountState {
    pub id_counter: u128,
    pub accounts: Vec<Account>,
}

impl AccountState {
    /// Well-formedness: addresses are pairwise distinct, every stored order
    /// id was issued below the counter, and each book's ids ascend.
    pub open spec fn wf(&self) -> bool {
        &&& forall|i: int, j: int|
            0 <= i < self.accounts@.len() && 0 <= j < self.accounts@.len() && i != j ==> (
            #[trigger] self.accounts@[i]).address@ != (#[trigger] self.accounts@[j]).address@
        &&& forall|i: int|
            0 <= i < self.accounts@.len() ==> (#[trigger] self.accounts@[i]).order_ids_lt(
                self.id_counter,
            )
        &&& forall|i: int|
            0 <= i < self.accounts@.len() ==> (#[trigger] self.accounts@[i]).orders_sorted()
    }

    /// An account with this address exists.
    pub open spec fn has_account(&self, addr: Seq<char>) -> bool {
        exists|i: int|
            0 <= i < self.accounts@.len() && (#[trigger] self.accounts@[i]).address@ == addr
    }

    /// The position of the account with this address.
    pub open spec fn idx_of(&self, addr: Seq<char>) -> int {
        choose|i: int|
            0 <= i < self.accounts@.len() && (#[trigger] self.accounts@[i]).address@ == addr
    }

    /// The stored account with this address.
    pub open spec fn account(&self, addr: Seq<char>) -> Account
        recommends
            self.has_account(addr),
    {
        self.accounts@[self.idx_of(addr)]
    }

    /// Every order id stored anywhere in the ledger is below `b`.
    pub open spec fn all_order_ids_lt(&self, b: u128) -> bool {
        forall|i: int|
            0 <= i < self.accounts@.len() ==> (#[trigger] self.accounts@[i]).order_ids_lt(b)
    }

    /// An empty ledger.
    pub fn new() -> (r: AccountState)
        ensures
            r.wf(),
            r.id_counter == 0,
            r.accounts@ == Seq::<Account>::empty(),
    {
        AccountState { id_counter: 0, accounts: Vec::new() }
    }

    /// The position of the account with this address, if any. With a
    /// well-formed ledger the position is unique.
    fn find(&self, address: &String) -> (r: Option<usize>)
        requires
            self.wf(),
        ensures
            match r {
                Some(i) => self.has_account(address@) && i as int == self.idx_of(address@) && (
                i as int) < self.accounts@.len() && self.accounts@[i as int].address@ == address@,
                None => !self.has_account(address@),
            },
    {
        let mut i: usize = 0;
        while i < self.accounts.len()
            invariant
                self.wf(),
                i <= self.accounts@.len(),
                forall|j: int|
                    0 <= j < i as int ==> (#[trigger] self.accounts@[j]).address@ != address@,
            decreases self.accounts@.len() - i,
        {
            if self.accounts[i].address == *address {
                proof {
                    lemma_found_idx(self, i as int, address@);
                }
                return Some(i);
            }
            i += 1;
        }
        None
    }

    /// Inserts a fresh account under this address with the given opening
    /// balance. A prior record under the same address is overwritten whole.
    pub fn create_account(&mut self, address: String, balance: u128)
        requires
            old(self).wf(),
        ensures
            final(self).wf(),
            final(self).id_counter == old(self).id_counter,
            final(self).has_account(address@),
            final(self).account(address@).address@ == address@,
            final(self).account(address@).balance == balance,
            final(self).account(address@).strategy_ids@ == Seq::<u128>::empty(),
            final(self).account(address@).limits_orders_long@ == Seq::<
                (u128, LimitsOrderLong),
            >::empty(),
            final(self).account(address@).limits_orders_short@ == Seq::<
                (u128, LimitsOrderShort),
            >::empty(),
            old(self).has_account(address@) ==> {
                &&& final(self).accounts@.len() == old(self).accounts@.len()
                &&& final(self).idx_of(address@) == old(self).idx_of(address@)
                &&& forall|k: int|
                    0 <= k < old(self).accounts@.len() && k != old(self).idx_of(address@)
                        ==> final(self).accounts@[k] == old(self).accounts@[k]
            },
            !old(self).has_account(address@) ==> {
                &&& final(self).accounts@.len() == old(self).accounts@.len() + 1
                &&& final(self).idx_of(address@) == old(self).accounts@.len()
                &&& forall|k: int|
                    0 <= k < old(self).accounts@.len() ==> final(self).accounts@[k] == old(self).accounts@[k]
            },
    {
        let found = self.find(&address);
        match found {
            Some(i) => {
                self.accounts[i].address = address;
                self.accounts[i].balance = balance;
                self.accounts[i].strategy_ids = Vec::new();
                self.accounts[i].limits_orders_long = Vec::new();
                self.accounts[i].limits_orders_short = Vec::new();
                proof {
                    assert(self.accounts@[i as int].address@ == address@);
                    assert(self.accounts@[i as int].order_ids_lt(self.id_counter));
                    assert(self.accounts@[i as int].orders_sorted());
                    lemma_wf_update(old(self), self, i as int);
                    lemma_found_idx(self, i as int, address@);
                }
            },
            None => {
                let ghost n = self.accounts@.len();
                self.accounts.push(
                    Account {
                        address,
                        balance,
                        strategy_ids: Vec::new(),
                        limits_orders_long: Vec::new(),
                        limits_orders_short: Vec::new(),
                    },
                );
                proof {
                    let acc = self.accounts@[n as int];
                    assert(acc.order_ids_lt(self.id_counter));
                    assert(acc.orders_sorted());
                    lemma_wf_push(old(self), self, acc);
                    lemma_found_idx(self, n as int, address@);
                }
            },
        }
    }

    /// Adds `amount` to the balance of the account with this address, and
    /// fails exactly when no account has it, leaving the ledger unchanged
    /// in that case. On success the balance grows by exactly `amount` and
    /// nothing else changes.
    pub fn deposit(&mut self, address: String, amount: u128) -> (r: Result<(), Error>)
        requires
            old(self).wf(),
            old(self).has_account(address@) ==> old(self).account(address@).balance + amount
                <= u128::MAX,
        ensures
            final(self).wf(),
            final(self).id_counter == old(self).id_counter,
            r is Ok <==> old(self).has_account(address@),
            r is Ok ==> final(self).accounts@ == old(self).accounts@.update(
                old(self).idx_of(address@),
                (Account {
                    balance: (old(self).account(address@).balance + amount) as u128,
                    ..old(self).account(address@)
                }),
            ),
            r is Ok ==> final(self).account(address@).balance == old(self).account(
                address@,
            ).balance + amount,
            r is Ok ==> final(self).account(address@).balance >= old(self).account(
                address@,
            ).balance,
            r is Err ==> *final(self) == *old(self) && r->Err_0 == Error::NotFound,
    {
        let found = self.find(&address);
        match found {
            Some(i) => {
                self.accounts[i].balance = self.accounts[i].balance + amount;
                proof {
                    lemma_wf_update(old(self), self, i as int);
                    lemma_found_idx(self, i as int, address@);
                }
                Ok(())
            },
            None => Err(Error::NotFound),
        }
    }

    /// Sets the balance of the account with this address outright. This is
    /// the unchecked setter the capital-flow coordinator uses after it has
    /// validated the debit; the account must exist.
    pub fn update_account(&mut self, address: String, new_amount: u128)
        requires
            old(self).wf(),
            old(self).has_account(address@),
        ensures
            final(self).wf(),
            final(self).id_counter == old(self).id_counter,
            final(self).accounts@ == old(self).accounts@.update(
                old(self).idx_of(address@),
                (Account { balance: new_amount, ..old(self).account(address@) }),
            ),
            final(self).account(address@).balance == new_amount,
    {
        let found = self.find(&address);
        match found {
            Some(i) => {
                self.accounts[i].balance = new_amount;
                proof {
                    lemma_wf_update(old(self), self, i as int);
                    lemma_found_idx(self, i as int, address@);
                }
            },
            None => {
                proof {
                    assert(false);
                }
            },
        }
    }

    /// Appends a strategy id to the list of strategies the account has
    /// funded; duplicates stand for repeated contributions. The account
    /// must exist.
    pub fn add_strategy_id(&mut self, address: String, strategy_id: u128)
        requires
            old(self).wf(),
            old(self).has_account(address@),
        ensures
            final(self).wf(),
            final(self).id_counter == old(self).id_counter,
            final(self).accounts@.len() == old(self).accounts@.len(),
            final(self).idx_of(address@) == old(self).idx_of(address@),
            forall|k: int|
                0 <= k < old(self).accounts@.len() && k != old(self).idx_of(address@) ==> final(self).accounts@[k] == old(self).accounts@[k],
            final(self).account(address@).strategy_ids@ == old(self).account(
                address@,
            ).strategy_ids@.push(strategy_id),
            (Account {
                strategy_ids: final(self).account(address@).strategy_ids,
                ..old(self).account(address@)
            }) == final(self).account(address@),
    {
        let found = self.find(&address);
        match found {
            Some(i) => {
                self.accounts[i].strategy_ids.push(strategy_id);
                proof {
                    lemma_wf_update(old(self), self, i as int);
                    lemma_found_idx(self, i as int, address@);
                }
            },
            None => {
                proof {
                    assert(false);
                }
            },
        }
    }

    /// Draws the next order id from the ledger's counter and stores the
    /// order in the account's long book under it; fails exactly when no
    /// account has the address, leaving the ledger unchanged in that case.
    /// The issued id is strictly greater than every order id the ledger has
    /// ever stored, in any account and either book.
    pub fn add_limits_order_long(&mut self, address: String, limits_order_long: LimitsOrderLong)
        -> (r: Result<u128, Error>)
        requires
            old(self).wf(),
            old(self).id_counter < u128::MAX,
        ensures
            final(self).wf(),
            r is Ok <==> old(self).has_account(address@),
            r is Ok ==> r->Ok_0 == old(self).id_counter,
            r is Ok ==> old(self).all_order_ids_lt(r->Ok_0),
            r is Ok ==> final(self).id_counter == old(self).id_counter + 1,
            r is Ok ==> final(self).accounts@.len() == old(self).accounts@.len(),
            r is Ok ==> final(self).idx_of(address@) == old(self).idx_of(address@),
            r is Ok ==> forall|k: int|
                0 <= k < old(self).accounts@.len() && k != old(self).idx_of(address@) ==> final(self).accounts@[k] == old(self).accounts@[k],
            r is Ok ==> final(self).account(address@).limits_orders_long@ == old(self).account(
                address@,
            ).limits_orders_long@.push((r->Ok_0, limits_order_long)),
            r is Ok ==> (Account {
                limits_orders_long: final(self).account(address@).limits_orders_long,
                ..old(self).account(address@)
            }) == final(self).account(address@),
            r is Err ==> *final(self) == *old(self) && r->Err_0 == Error::NotFound,
    {
        let found = self.find(&address);
        match found {
            Some(i) => {
                let order_id = self.id_counter;
                self.id_counter = order_id + 1;
                self.accounts[i].limits_orders_long.push((order_id, limits_order_long));
                proof {
                    assert(old(self).accounts@[i as int].order_ids_lt(old(self).id_counter));
                    lemma_push_long_order(
                        old(self).accounts@[i as int],
                        self.accounts@[i as int],
                        order_id,
                        limits_order_long,
                        self.id_counter,
                    );
                    lemma_wf_update_grown(old(self), self, i as int);
                    lemma_found_idx(self, i as int, address@);
                }
                Ok(order_id)
            },
            None => Err(Error::NotFound),
        }
    }

    /// The mirror of [`AccountState::add_limits_order_long`] for the short
    /// book, drawing from the same counter.
    pub fn add_limits_order_short(&mut self, address: String, limits_order_short: LimitsOrderShort)
        -> (r: Result<u128, Error>)
        requires
            old(self).wf(),
            old(self).id_counter < u128::MAX,
        ensures
            final(self).wf(),
            r is Ok <==> old(self).has_account(address@),
            r is Ok ==> r->Ok_0 == old(self).id_counter,
            r is Ok ==> old(self).all_order_ids_lt(r->Ok_0),
            r is Ok ==> final(self).id_counter == old(self).id_counter + 1,
            r is Ok ==> final(self).accounts@.len() == old(self).accounts@.len(),
            r is Ok ==> final(self).idx_of(address@) == old(self).idx_of(address@),
            r is Ok ==> forall|k: int|
                0 <= k < old(self).accounts@.len() && k != old(self).idx_of(address@) ==> final(self).accounts@[k] == old(self).accounts@[k],
            r is Ok ==> final(self).account(address@).limits_orders_short@ == old(self).account(
                address@,
            ).limits_orders_short@.push((r->Ok_0, limits_order_short)),
            r is Ok ==> (Account {
                limits_orders_short: final(self).account(address@).limits_orders_short,
                ..old(self).account(address@)
            }) == final(self).account(address@),
            r is Err ==> *final(self) == *old(self) && r->Err_0 == Error::NotFound,
    {
        let found = self.find(&address);
        match found {
            Some(i) => {
                let order_id = self.id_counter;
                self.id_counter = order_id + 1;
                self.accounts[i].limits_orders_short.push((order_id, limits_order_short));
                proof {
                    assert(old(self).accounts@[i as int].order_ids_lt(old(self).id_counter));
                    lemma_push_short_order(
                        old(self).accounts@[i as int],
                        self.accounts@[i as int],
                        order_id,
                        limits_order_short,
                        self.id_counter,
                    );
                    lemma_wf_update_grown(old(self), self, i as int);
                    lemma_found_idx(self, i as int, address@);
                }
                Ok(order_id)
            },
            None => Err(Error::NotFound),
        }
    }

    /// Encrypts the given stop and take-profit thresholds under the
    /// context's key pair and stores them as a new long limit order owned
    /// by the address. This is the whole registration step for a client's
    /// plaintext thresholds.
    pub fn add_limits_order_long_encrypted(
        &mut self,
        ctx: &FheContext,
        address: String,
        token: String,
        asset: String,
        stop: u8,
        profit: u8,
    ) -> (r: Result<u128, Error>)
        requires
            old(self).wf(),
            old(self).id_counter < u128::MAX,
        ensures
            final(self).wf(),
            r is Ok <==> old(self).has_account(address@),
            r is Ok ==> r->Ok_0 == old(self).id_counter,
            r is Ok ==> old(self).all_order_ids_lt(r->Ok_0),
            r is Ok ==> final(self).id_counter == old(self).id_counter + 1,
            r is Ok ==> final(self).accounts@.len() == old(self).accounts@.len(),
            r is Ok ==> final(self).idx_of(address@) == old(self).idx_of(address@),
            r is Ok ==> forall|k: int|
                0 <= k < old(self).accounts@.len() && k != old(self).idx_of(address@) ==> final(self).accounts@[k] == old(self).accounts@[k],
            r is Ok ==> {
                let book = final(self).account(address@).limits_orders_long@;
                let prior = old(self).account(address@).limits_orders_long@;
                &&& book.len() == prior.len() + 1
                &&& forall|k: int| 0 <= k < prior.len() ==> book[k] == prior[k]
                &&& book.last().0 == r->Ok_0
                &&& book.last().1.owner@ == address@
                &&& book.last().1.token == token
                &&& book.last().1.asset == asset
                &&& book.last().1.stop@ == stop
                &&& book.last().1.profit@ == profit
                &&& book.last().1.keyed(ctx.id())
            },
            r is Ok ==> (Account {
                limits_orders_long: final(self).account(address@).limits_orders_long,
                ..old(self).account(address@)
            }) == final(self).account(address@),
            r is Err ==> *final(self) == *old(self) && r->Err_0 == Error::NotFound,
    {
        let stop_ct = ctx.encrypt_u8(stop);
        let profit_ct = ctx.encrypt_u8(profit);
        let order = LimitsOrderLong {
            owner: address.clone(),
            token,
            asset,
            stop: stop_ct,
            profit: profit_ct,
        };
        self.add_limits_order_long(address, order)
    }

    /// Returns a copy of the account's long book (still encrypted), and
    /// fails exactly when no account has the address.
    pub fn get_limits_orders_long(&self, address: String) -> (r: Result<
        Vec<(u128, LimitsOrderLong)>,
        Error,
    >)
        requires
            self.wf(),
        ensures
            r is Ok <==> self.has_account(address@),
            r is Ok ==> r->Ok_0@.len() == self.account(address@).limits_orders_long@.len(),
            r is Ok ==> forall|k: int|
                0 <= k < r->Ok_0@.len() ==> (#[trigger] r->Ok_0@[k]).0 == self.account(
                    address@,
                ).limits_orders_long@[k].0 && r->Ok_0@[k].1.agrees(
                    &self.account(address@).limits_orders_long@[k].1,
                ),
            r is Err ==> r->Err_0 == Error::NotFound,
    {
        let found = self.find(&address);
        match found {
            Some(i) => Ok(duplicate_long_orders(&self.accounts[i].limits_orders_long)),
            None => Err(Error::NotFound),
        }
    }

    /// The decrypted readout of the account's long book: each entry's
    /// thresholds are the plaintexts of the stored ciphertexts. Fails
    /// exactly when no account has the address.
    pub fn decrypted_limits_orders_long(&self, ctx: &FheContext, address: String) -> (r: Result<
        Vec<(u128, LimitsOrderLongResponse)>,
        Error,
    >)
        requires
            self.wf(),
            self.has_account(address@) ==> self.account(address@).long_orders_keyed(ctx.id()),
        ensures
            r is Ok <==> self.has_account(address@),
            r is Ok ==> r->Ok_0@.len() == self.account(address@).limits_orders_long@.len(),
            r is Ok ==> forall|k: int|
                0 <= k < r->Ok_0@.len() ==> {
                    let stored = self.account(address@).limits_orders_long@[k];
                    &&& (#[trigger] r->Ok_0@[k]).0 == stored.0
                    &&& r->Ok_0@[k].1.owner == stored.1.owner
                    &&& r->Ok_0@[k].1.token == stored.1.token
                    &&& r->Ok_0@[k].1.asset == stored.1.asset
                    &&& r->Ok_0@[k].1.stop == stored.1.stop@
                    &&& r->Ok_0@[k].1.profit == stored.1.profit@
                },
            r is Err ==> r->Err_0 == Error::NotFound,
    {
        let found = self.find(&address);
        match found {
            Some(i) => {
                let book = &self.accounts[i].limits_orders_long;
                let mut out: Vec<(u128, LimitsOrderLongResponse)> = Vec::new();
                let mut k: usize = 0;
                while k < book.len()
                    invariant
                        k <= book@.len(),
                        out@.len() == k,
                        forall|j: int|
                            0 <= j < book@.len() ==> (#[trigger] book@[j]).1.keyed(ctx.id()),
                        forall|j: int|
                            0 <= j < k as int ==> {
                                &&& (#[trigger] out@[j]).0 == book@[j].0
                                &&& out@[j].1.owner == book@[j].1.owner
                                &&& out@[j].1.token == book@[j].1.token
                                &&& out@[j].1.asset == book@[j].1.asset
                                &&& out@[j].1.stop == book@[j].1.stop@
                                &&& out@[j].1.profit == book@[j].1.profit@
                            },
                    decreases book@.len() - k,
                {
                    let entry = &book[k];
                    let decrypted = LimitsOrderLongResponse {
                        owner: entry.1.owner.clone(),
                        token: entry.1.token.clone(),
                        asset: entry.1.asset.clone(),
                        stop: ctx.decrypt_u8(&entry.1.stop),
                        profit: ctx.decrypt_u8(&entry.1.profit),
                    };
                    out.push((entry.0, decrypted));
                    k += 1;
                }
                Ok(out)
            },
            None => Err(Error::NotFound),
        }
    }

    /// Returns a snapshot copy of the account with this address, and fails
    /// exactly when no account has it.
    pub fn get_account(&self, address: String) -> (r: Result<Account, Error>)
        requires
            self.wf(),
        ensures
            r is Ok <==> self.has_account(address@),
            r is Ok ==> r->Ok_0.agrees(&self.account(address@)),
            r is Err ==> r->Err_0 == Error::NotFound,
    {
        let found = self.find(&address);
        match found {
            Some(i) => Ok(self.accounts[i].duplicate()),
            None => Err(Error::NotFound),
        }
    }
}

/// A ledger stays well-formed when one account is replaced in place, as
/// long as the replacement keeps the address and its books obey the id
/// discipline under the unchanged counter.
pub proof fn lemma_wf_update(pre: &AccountState, post: &AccountState, i: int)
    requires
        pre.wf(),
        0 <= i < pre.accounts@.len(),
        post.id_counter == pre.id_counter,
        post.accounts@.len() == pre.accounts@.len(),
        forall|k: int|
            0 <= k < pre.accounts@.len() && k != i ==> post.accounts@[k] == pre.accounts@[k],
        post.accounts@[i].address@ == pre.accounts@[i].address@,
        post.accounts@[i].order_ids_lt(post.id_counter),
        post.accounts@[i].orders_sorted(),
    ensures
        post.wf(),
{
    assert forall|x: int, y: int|
        0 <= x < post.accounts@.len() && 0 <= y < post.accounts@.len() && x != y implies (
    #[trigger] post.accounts@[x]).address@ != (#[trigger] post.accounts@[y]).address@ by {
        assert(post.accounts@[x].address@ == pre.accounts@[x].address@);
        assert(post.accounts@[y].address@ == pre.accounts@[y].address@);
    }
    assert forall|x: int| 0 <= x < post.accounts@.len() implies (
    #[trigger] post.accounts@[x]).order_ids_lt(post.id_counter) by {
        if x != i {
            assert(post.accounts@[x] == pre.accounts@[x]);
        }
    }
    assert forall|x: int| 0 <= x < post.accounts@.len() implies (
    #[trigger] post.accounts@[x]).orders_sorted() by {
        if x != i {
            assert(post.accounts@[x] == pre.accounts@[x]);
        }
    }
}

/// An id bound on an account's books weakens monotonically.
pub proof fn lemma_order_ids_lt_mono(acc: Account, b1: u128, b2: u128)
    requires
        acc.order_ids_lt(b1),
        b1 <= b2,
    ensures
        acc.order_ids_lt(b2),
{
    assert forall|k: int| 0 <= k < acc.limits_orders_long@.len() implies (
    #[trigger] acc.limits_orders_long@[k]).0 < b2 by {
        assert(acc.limits_orders_long@[k].0 < b1);
    }
    assert forall|k: int| 0 <= k < acc.limits_orders_short@.len() implies (
    #[trigger] acc.limits_orders_short@[k]).0 < b2 by {
        assert(acc.limits_orders_short@[k].0 < b1);
    }
}

/// Appending an order under a fresh id (at least as large as every id the
/// account holds) keeps the account's id discipline under any strictly
/// larger bound.
pub proof fn lemma_push_long_order(
    pre: Account,
    post: Account,
    id: u128,
    ord: LimitsOrderLong,
    bound: u128,
)
    requires
        pre.order_ids_lt(id),
        pre.orders_sorted(),
        id < bound,
        post.limits_orders_long@ == pre.limits_orders_long@.push((id, ord)),
        post.limits_orders_short@ == pre.limits_orders_short@,
    ensures
        post.order_ids_lt(bound),
        post.orders_sorted(),
{
    let ob = pre.limits_orders_long@;
    let nb = post.limits_orders_long@;
    assert forall|k: int| 0 <= k < nb.len() implies (#[trigger] nb[k]).0 < bound by {
        if k < ob.len() {
            assert(nb[k] == ob[k]);
            assert(ob[k].0 < id);
        }
    }
    assert forall|k: int| 0 <= k < post.limits_orders_short@.len() implies (
    #[trigger] post.limits_orders_short@[k]).0 < bound by {
        assert(pre.limits_orders_short@[k].0 < id);
    }
    assert forall|k1: int, k2: int| 0 <= k1 < k2 < nb.len() implies (#[trigger] nb[k1]).0 < (
    #[trigger] nb[k2]).0 by {
        if k2 < ob.len() {
            assert(nb[k1] == ob[k1] && nb[k2] == ob[k2]);
        } else {
            assert(nb[k2].0 == id);
            assert(nb[k1] == ob[k1]);
            assert(ob[k1].0 < id);
        }
    }
}

/// The mirror of [`lemma_push_long_order`] for the short book.
pub proof fn lemma_push_short_order(
    pre: Account,
    post: Account,
    id: u128,
    ord: LimitsOrderShort,
    bound: u128,
)
    requires
        pre.order_ids_lt(id),
        pre.orders_sorted(),
        id < bound,
        post.limits_orders_short@ == pre.limits_orders_short@.push((id, ord)),
        post.limits_orders_long@ == pre.limits_orders_long@,
    ensures
        post.order_ids_lt(bound),
        post.orders_sorted(),
{
    let ob = pre.limits_orders_short@;
    let nb = post.limits_orders_short@;
    assert forall|k: int| 0 <= k < nb.len() implies (#[trigger] nb[k]).0 < bound by {
        if k < ob.len() {
            assert(nb[k] == ob[k]);
            assert(ob[k].0 < id);
        }
    }
    assert forall|k: int| 0 <= k < post.limits_orders_long@.len() implies (
    #[trigger] post.limits_orders_long@[k]).0 < bound by {
        assert(pre.limits_orders_long@[k].0 < id);
    }
    assert forall|k1: int, k2: int| 0 <= k1 < k2 < nb.len() implies (#[trigger] nb[k1]).0 < (
    #[trigger] nb[k2]).0 by {
        if k2 < ob.len() {
            assert(nb[k1] == ob[k1] && nb[k2] == ob[k2]);
        } else {
            assert(nb[k2].0 == id);
            assert(nb[k1] == ob[k1]);
            assert(ob[k1].0 < id);
        }
    }
}

/// A ledger stays well-formed when one account is replaced in place while
/// the counter does not shrink, as long as the replacement keeps the
/// address and its books obey the id discipline under the new counter.
pub proof fn lemma_wf_update_grown(pre: &AccountState, post: &AccountState, i: int)
    requires
        pre.wf(),
        0 <= i < pre.accounts@.len(),
        pre.id_counter <= post.id_counter,
        post.accounts@.len() == pre.accounts@.len(),
        forall|k: int|
            0 <= k < pre.accounts@.len() && k != i ==> post.accounts@[k] == pre.accounts@[k],
        post.accounts@[i].address@ == pre.accounts@[i].address@,
        post.accounts@[i].order_ids_lt(post.id_counter),
        post.accounts@[i].orders_sorted(),
    ensures
        post.wf(),
{
    assert forall|x: int, y: int|
        0 <= x < post.accounts@.len() && 0 <= y < post.accounts@.len() && x != y implies (
    #[trigger] post.accounts@[x]).address@ != (#[trigger] post.accounts@[y]).address@ by {
        assert(post.accounts@[x].address@ == pre.accounts@[x].address@);
        assert(post.accounts@[y].address@ == pre.accounts@[y].address@);
    }
    assert forall|x: int| 0 <= x < post.accounts@.len() implies (
    #[trigger] post.accounts@[x]).order_ids_lt(post.id_counter) by {
        if x != i {
            assert(post.accounts@[x] == pre.accounts@[x]);
            assert(pre.accounts@[x].order_ids_lt(pre.id_counter));
            lemma_order_ids_lt_mono(pre.accounts@[x], pre.id_counter, post.id_counter);
        }
    }
    assert forall|x: int| 0 <= x < post.accounts@.len() implies (
    #[trigger] post.accounts@[x]).orders_sorted() by {
        if x != i {
            assert(post.accounts@[x] == pre.accounts@[x]);
        }
    }
}

/// A ledger stays well-formed when a fresh account is appended, as long as
/// its address is new and its books obey the id discipline.
pub proof fn lemma_wf_push(pre: &AccountState, post: &AccountState, acc: Account)
    requires
        pre.wf(),
        post.id_counter == pre.id_counter,
        post.accounts@ == pre.accounts@.push(acc),
        !pre.has_account(acc.address@),
        acc.order_ids_lt(post.id_counter),
        acc.orders_sorted(),
    ensures
        post.wf(),
{
    let n = pre.accounts@.len() as int;
    assert forall|x: int, y: int|
        0 <= x < post.accounts@.len() && 0 <= y < post.accounts@.len() && x != y implies (
    #[trigger] post.accounts@[x]).address@ != (#[trigger] post.accounts@[y]).address@ by {
        if x < n && y < n {
            assert(post.accounts@[x] == pre.accounts@[x]);
            assert(post.accounts@[y] == pre.accounts@[y]);
        } else if x == n {
            assert(post.accounts@[y] == pre.accounts@[y]);
            assert(pre.accounts@[y].address@ != acc.address@);
        } else {
            assert(post.accounts@[x] == pre.accounts@[x]);
            assert(pre.accounts@[x].address@ != acc.address@);
        }
    }
    assert forall|x: int| 0 <= x < post.accounts@.len() implies (
    #[trigger] post.accounts@[x]).order_ids_lt(post.id_counter) by {
        if x < n {
            assert(post.accounts@[x] == pre.accounts@[x]);
        }
    }
    assert forall|x: int| 0 <= x < post.accounts@.len() implies (
    #[trigger] post.accounts@[x]).orders_sorted() by {
        if x < n {
            assert(post.accounts@[x] == pre.accounts@[x]);
        }
    }
}

/// With pairwise distinct addresses, any position whose account carries the
/// sought address is the position [`AccountState::idx_of`] names.
pub proof fn lemma_found_idx(st: &AccountState, i: int, addr: Seq<char>)
    requires
        st.wf(),
        0 <= i < st.accounts@.len(),
        st.accounts@[i].address@ == addr,
    ensures
        st.has_account(addr),
        st.idx_of(addr) == i,
        st.account(addr) == st.accounts@[i],
{
    assert(st.has_account(addr));
    let j = st.idx_of(addr);
    assert(0 <= j < st.accounts@.len() && st.accounts@[j].address@ == addr);
    if i != j {
        assert(st.accounts@[i].address@ != st.accounts@[j].address@);
    }
}

} // verus!
