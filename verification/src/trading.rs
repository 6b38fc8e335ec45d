//! The strategy registry: threshold rules with encrypted bounds, keyed by a
//! monotonically issued identifier, together with the homomorphic trigger
//! checks.
//!
//! Strategies are never deleted and their identifiers are issued by a
//! counter starting at 1, so the registry holds the strategy with id `i` at
//! position `i - 1`; that arrangement is the registry's well-formedness
//! invariant [`TradingState::wf`].

use vstd::prelude::*;

use crate::errors::Error;
use crate::fhe::{clone_ct, CtU8, FheContext};

verus! {

/// A snapshot of one capital contribution to a strategy. Contributions are
/// not deduplicated: the same address may appear once per contribution.
pub struct Investor {
    pub address: String,
    pub amount: u128,
}

/// A builder-published threshold rule. The two bounds are held only as
/// ciphertexts; everything else is plaintext bookkeeping.
pub struct TradingStrategy {
    pub id: u128,
    pub name: String,
    pub owner: String,
    pub token: String,
    pub upper_bound: CtU8,
    pub lower_bound: CtU8,
    pub amount: u128,
    pub is_open: bool,
    pub is_long: bool,
    pub investors: Vec<Investor>,
}

/// The sum of the contributions in `investors`.
pub open spec fn sum_amounts(investors: Seq<Investor>) -> int
    decreases investors.len(),
{
    if investors.len() == 0 {
        0
    } else {
        sum_amounts(investors.drop_last()) + investors.last().amount
    }
}

/// Appending a contribution adds exactly its amount to the sum.
pub proof fn lemma_sum_push(s: Seq<Investor>, inv: Investor)
    ensures
        sum_amounts(s.push(inv)) == sum_amounts(s) + inv.amount,
{
    let p = s.push(inv);
    assert(p.drop_last() =~= s);
    assert(p.last() == inv);
}

impl TradingStrategy {
    /// The committed capital equals the sum of the recorded contributions.
    pub open spec fn balanced(&self) -> bool {
        self.amount as int == sum_amounts(self.investors@)
    }

    /// Both encrypted bounds were made under the key pair `k`.
    pub open spec fn keyed(&self, k: int) -> bool {
        self.upper_bound.key_id() == k && self.lower_bound.key_id() == k
    }

    /// `other` carries the same data: equal plaintext fields, and encrypted
    /// bounds holding the same plaintexts under the same key pair. This is
    /// what a copy preserves (ciphertext identity is not observable).
    pub open spec fn agrees(&self, other: &TradingStrategy) -> bool {
        &&& self.id == other.id
        &&& self.name == other.name
        &&& self.owner == other.owner
        &&& self.token == other.token
        &&& self.upper_bound@ == other.upper_bound@
        &&& self.upper_bound.key_id() == other.upper_bound.key_id()
        &&& self.lower_bound@ == other.lower_bound@
        &&& self.lower_bound.key_id() == other.lower_bound.key_id()
        &&& self.amount == other.amount
        &&& self.is_open == other.is_open
        &&& self.is_long == other.is_long
        &&& self.investors@ == other.investors@
    }

    /// A snapshot copy carrying the same data.
    pub fn duplicate(&self) -> (r: TradingStrategy)
        ensures
            r.agrees(self),
    {
        TradingStrategy {
            id: self.id,
            name: self.name.clone(),
            owner: self.owner.clone(),
            token: self.token.clone(),
            upper_bound: clone_ct(&self.upper_bound),
            lower_bound: clone_ct(&self.lower_bound),
            amount: self.amount,
            is_open: self.is_open,
            is_long: self.is_long,
            investors: duplicate_investors(&self.investors),
        }
    }
}

/// An element-wise copy of a contribution list; the copy is equal to the
/// original, element by element.
fn duplicate_investors(v: &Vec<Investor>) -> (r: Vec<Investor>)
    ensures
        r@ == v@,
{
    let mut out: Vec<Investor> = Vec::new();
    let mut i: usize = 0;
    while i < v.len()
        invariant
            i <= v@.len(),
            out@ == v@.subrange(0, i as int),
        decreases v@.len() - i,
    {
        let inv = Investor { address: v[i].address.clone(), amount: v[i].amount };
        out.push(inv);
        proof {
            assert(out@ =~= v@.subrange(0, i as int + 1));
        }
        i += 1;
    }
    proof {
        assert(v@.subrange(0, v@.len() as int) =~= v@);
    }
    out
}

/// The registry of published strategies.
pub struct TradingState {
    pub id_counter: u128,
    pub strategies: Vec<TradingStrategy>,
}

impl TradingState {
    /// Well-formedness: the counter equals the number of strategies ever
    /// created, and position `i` holds the strategy with id `i + 1`. Ids
    /// are therefore unique and strictly increasing in creation order.
    pub open spec fn wf(&self) -> bool {
        &&& self.id_counter as int == self.strategies@.len()
        &&& forall|i: int|
            0 <= i < self.strategies@.len() ==> (#[trigger] self.strategies@[i]).id as int == i + 1
    }

    /// A strategy with this id exists.
    pub open spec fn has_strategy(&self, id: u128) -> bool {
        1 <= id as int && id as int <= self.strategies@.len()
    }

    /// The stored strategy with this id.
    pub open spec fn strategy(&self, id: u128) -> TradingStrategy
        recommends
            self.has_strategy(id),
    {
        self.strategies@[id as int - 1]
    }

    /// An empty registry.
    pub fn new() -> (r: TradingState)
        ensures
            r.wf(),
            r.id_counter == 0,
            r.strategies@ == Seq::<TradingStrategy>::empty(),
    {
        TradingState { id_counter: 0, strategies: Vec::new() }
    }

    /// Issues the next id and stores a new strategy under it. The new
    /// strategy starts closed, with no capital and no investors; its id is
    /// strictly greater than every previously issued id.
    pub fn create_strategy(
        &mut self,
        name: String,
        owner: String,
        upper_bound: CtU8,
        lower_bound: CtU8,
        token: String,
    ) -> (id: u128)
        requires
            old(self).wf(),
        ensures
            final(self).wf(),
            id == old(self).id_counter + 1,
            final(self).id_counter == id,
            final(self).has_strategy(id),
            forall|k: int|
                0 <= k < old(self).strategies@.len() ==> (#[trigger] old(self).strategies@[k]).id < id,
            final(self).strategies@.len() == old(self).strategies@.len() + 1,
            forall|k: int|
                0 <= k < old(self).strategies@.len() ==> final(self).strategies@[k] == old(self).strategies@[k],
            final(self).strategy(id).id == id,
            final(self).strategy(id).name == name,
            final(self).strategy(id).owner == owner,
            final(self).strategy(id).token == token,
            final(self).strategy(id).upper_bound == upper_bound,
            final(self).strategy(id).lower_bound == lower_bound,
            final(self).strategy(id).amount == 0,
            !final(self).strategy(id).is_open,
            !final(self).strategy(id).is_long,
            final(self).strategy(id).investors@ == Seq::<Investor>::empty(),
            final(self).strategy(id).balanced(),
    {
        let n = self.strategies.len();
        let id = self.id_counter + 1;
        self.id_counter = id;
        self.strategies.push(
            TradingStrategy {
                id,
                name,
                owner,
                token,
                upper_bound,
                lower_bound,
                amount: 0,
                is_open: false,
                is_long: false,
                investors: Vec::new(),
            },
        );
        id
    }

    /// Returns a snapshot copy of the strategy with this id, and fails
    /// exactly when no strategy has it.
    pub fn get_strategy(&self, id: u128) -> (r: Result<TradingStrategy, Error>)
        requires
            self.wf(),
        ensures
            r is Ok <==> self.has_strategy(id),
            r is Ok ==> r->Ok_0.agrees(&self.strategy(id)),
            r is Err ==> r->Err_0 == Error::NotFound,
    {
        if 1 <= id && id <= self.strategies.len() as u128 {
            let i = (id - 1) as usize;
            Ok(self.strategies[i].duplicate())
        } else {
            Err(Error::NotFound)
        }
    }

    /// Snapshot copies of all stored strategies, in creation order.
    pub fn get_all_strategies(&self) -> (r: Vec<TradingStrategy>)
        ensures
            r@.len() == self.strategies@.len(),
            forall|i: int|
                0 <= i < r@.len() ==> (#[trigger] r@[i]).agrees(&self.strategies@[i]),
    {
        let mut out: Vec<TradingStrategy> = Vec::new();
        let mut i: usize = 0;
        while i < self.strategies.len()
            invariant
                i <= self.strategies@.len(),
                out@.len() == i,
                forall|k: int|
                    0 <= k < i as int ==> (#[trigger] out@[k]).agrees(&self.strategies@[k]),
            decreases self.strategies@.len() - i,
        {
            out.push(self.strategies[i].duplicate());
            i += 1;
        }
        out
    }

    /// Adds `amount` to the committed capital of the strategy with this id,
    /// and fails exactly when no strategy has it, leaving the registry
    /// unchanged in that case.
    pub fn increase_amount(&mut self, id: u128, amount: u128) -> (r: Result<(), Error>)
        requires
            old(self).wf(),
            old(self).has_strategy(id) ==> old(self).strategy(id).amount + amount <= u128::MAX,
        ensures
            final(self).wf(),
            r is Ok <==> old(self).has_strategy(id),
            r is Ok ==> final(self).strategies@ == old(self).strategies@.update(
                id as int - 1,
                (TradingStrategy {
                    amount: (old(self).strategy(id).amount + amount) as u128,
                    ..old(self).strategy(id)
                }),
            ),
            r is Err ==> *final(self) == *old(self) && r->Err_0 == Error::NotFound,
    {
        if 1 <= id && id <= self.strategies.len() as u128 {
            let i = (id - 1) as usize;
            self.strategies[i].amount = self.strategies[i].amount + amount;
            Ok(())
        } else {
            Err(Error::NotFound)
        }
    }

    /// Appends a contribution snapshot to the strategy with this id, and
    /// fails exactly when no strategy has it, leaving the registry
    /// unchanged in that case.
    pub fn add_investor(&mut self, id: u128, investor: Investor) -> (r: Result<(), Error>)
        requires
            old(self).wf(),
        ensures
            final(self).wf(),
            r is Ok <==> old(self).has_strategy(id),
            r is Ok ==> final(self).strategies@.len() == old(self).strategies@.len(),
            r is Ok ==> forall|k: int|
                0 <= k < old(self).strategies@.len() && k != id as int - 1 ==> final(self).strategies@[k] == old(self).strategies@[k],
            r is Ok ==> final(self).strategy(id).investors@ == old(self).strategy(
                id,
            ).investors@.push(investor),
            r is Ok ==> (TradingStrategy {
                investors: final(self).strategy(id).investors,
                ..old(self).strategy(id)
            }) == final(self).strategy(id),
            r is Err ==> *final(self) == *old(self) && r->Err_0 == Error::NotFound,
    {
        if 1 <= id && id <= self.strategies.len() as u128 {
            let i = (id - 1) as usize;
            self.strategies[i].investors.push(investor);
            Ok(())
        } else {
            Err(Error::NotFound)
        }
    }

    /// Sets the position state of the strategy with this id to
    /// `Open { is_long }` or `Closed` as given, and fails exactly when no
    /// strategy has it, leaving the registry unchanged in that case.
    pub fn update_strategy_position(&mut self, id: u128, is_long: bool, is_open: bool) -> (r:
        Result<(), Error>)
        requires
            old(self).wf(),
        ensures
            final(self).wf(),
            r is Ok <==> old(self).has_strategy(id),
            r is Ok ==> final(self).strategies@ == old(self).strategies@.update(
                id as int - 1,
                (TradingStrategy { is_long, is_open, ..old(self).strategy(id) }),
            ),
            r is Err ==> *final(self) == *old(self) && r->Err_0 == Error::NotFound,
    {
        if 1 <= id && id <= self.strategies.len() as u128 {
            let i = (id - 1) as usize;
            self.strategies[i].is_long = is_long;
            self.strategies[i].is_open = is_open;
            Ok(())
        } else {
            Err(Error::NotFound)
        }
    }

    /// Encrypts the given bounds under the context's key pair and stores a
    /// new strategy holding them. This is the whole registration step for a
    /// builder's plaintext bounds.
    pub fn create_strategy_encrypted(
        &mut self,
        ctx: &FheContext,
        name: String,
        owner: String,
        upper_bound: u8,
        lower_bound: u8,
        token: String,
    ) -> (id: u128)
        requires
            old(self).wf(),
        ensures
            final(self).wf(),
            id == old(self).id_counter + 1,
            final(self).id_counter == id,
            final(self).has_strategy(id),
            final(self).strategies@.len() == old(self).strategies@.len() + 1,
            forall|k: int|
                0 <= k < old(self).strategies@.len() ==> final(self).strategies@[k] == old(self).strategies@[k],
            final(self).strategy(id).upper_bound@ == upper_bound,
            final(self).strategy(id).lower_bound@ == lower_bound,
            final(self).strategy(id).keyed(ctx.id()),
            final(self).strategy(id).name == name,
            final(self).strategy(id).owner == owner,
            final(self).strategy(id).token == token,
            final(self).strategy(id).amount == 0,
            !final(self).strategy(id).is_open,
            !final(self).strategy(id).is_long,
            final(self).strategy(id).investors@ == Seq::<Investor>::empty(),
    {
        let upper_ct = ctx.encrypt_u8(upper_bound);
        let lower_ct = ctx.encrypt_u8(lower_bound);
        self.create_strategy(name, owner, upper_ct, lower_ct, token)
    }

    /// The long trigger: true exactly when the plaintext lower bound of the
    /// strategy is strictly greater than the probe value. The comparison is
    /// carried out homomorphically; only the decrypted boolean is returned.
    pub fn check_long(&self, ctx: &FheContext, id: u128, value: u8) -> (r: Result<bool, Error>)
        requires
            self.wf(),
            self.has_strategy(id) ==> self.strategy(id).keyed(ctx.id()),
        ensures
            r is Ok <==> self.has_strategy(id),
            r is Ok ==> r->Ok_0 == (self.strategy(id).lower_bound@ > value),
            r is Err ==> r->Err_0 == Error::NotFound,
    {
        if 1 <= id && id <= self.strategies.len() as u128 {
            let i = (id - 1) as usize;
            let probe = ctx.encrypt_u8(value);
            let verdict = ctx.ct_gt(&self.strategies[i].lower_bound, &probe);
            Ok(ctx.decrypt_bool(&verdict))
        } else {
            Err(Error::NotFound)
        }
    }

    /// The short trigger: true exactly when the plaintext upper bound of
    /// the strategy is strictly less than the probe value.
    pub fn check_short(&self, ctx: &FheContext, id: u128, value: u8) -> (r: Result<bool, Error>)
        requires
            self.wf(),
            self.has_strategy(id) ==> self.strategy(id).keyed(ctx.id()),
        ensures
            r is Ok <==> self.has_strategy(id),
            r is Ok ==> r->Ok_0 == (self.strategy(id).upper_bound@ < value),
            r is Err ==> r->Err_0 == Error::NotFound,
    {
        if 1 <= id && id <= self.strategies.len() as u128 {
            let i = (id - 1) as usize;
            let probe = ctx.encrypt_u8(value);
            let verdict = ctx.ct_lt(&self.strategies[i].upper_bound, &probe);
            Ok(ctx.decrypt_bool(&verdict))
        } else {
            Err(Error::NotFound)
        }
    }
}

} // verus!
