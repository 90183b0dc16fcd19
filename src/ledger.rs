//! The token ledger: a fixed total supply, per-account balances and
//! per-(owner, spender) allowances, with every change recorded as an event.
use vstd::prelude::*;
use crate::account::AccountId;
use crate::store::{allowances_held, balances_held, AllowanceTable, BalanceTable};
use crate::table::{amount_in, lemma_amount_le_sum, lemma_sum_insert, sum_over};

verus! {

/// Tokens moved from one account to another; `from` is absent when the
/// supply is issued at construction.
#[derive(Clone, Copy, Debug, PartialEq, Eq)]
pub struct Transfer {
    pub from: Option<AccountId>,
    pub to: Option<AccountId>,
    pub value: u128,
}

/// An owner authorised a spender to move up to `value` of its tokens.
#[derive(Clone, Copy, Debug, PartialEq, Eq)]
pub struct Approval {
    pub owner: Option<AccountId>,
    pub spender: Option<AccountId>,
    pub value: u128,
}

/// An event the ledger emits.
#[derive(Clone, Copy, Debug, PartialEq, Eq)]
pub enum Event {
    Transfer(Transfer),
    Approval(Approval),
}

/// A fungible token ledger.
pub struct Erc20 {
    total_supply: u128,
    balances: BalanceTable,
    allowances: AllowanceTable,
    events: Vec<Event>,
    /// The accounts whose balance has been written, in the order first written.
    holders: Ghost<Seq<AccountId>>,
}

/// An account's balance after `value` moved from `from` to `to`, given its balance before.
pub open spec fn after_move(before: nat, a: AccountId, from: AccountId, to: AccountId, value: nat) -> int {
    before - (if a == from { value as int } else { 0 }) + (if a == to { value as int } else { 0 })
}

/// What `approve` by `caller` does: the pair's allowance becomes `value`, everything
/// else stays, and an `Approval` is emitted.
pub open spec fn approved(pre: Erc20, post: Erc20, caller: AccountId, spender: AccountId, value: u128) -> bool {
    &&& post.supply() == pre.supply()
    &&& post.accounts() == pre.accounts()
    &&& forall|a: AccountId| #[trigger] post.balance(a) == pre.balance(a)
    &&& forall|o: AccountId, s: AccountId| #[trigger]
        post.allowed(o, s) == if o == caller && s == spender {
            value as nat
        } else {
            pre.allowed(o, s)
        }
    &&& forall|o: AccountId, s: AccountId| #[trigger]
        post.pair_recorded(o, s) == (pre.pair_recorded(o, s) || (o == caller && s == spender))
    &&& post.emitted() == pre.emitted().push(
        Event::Approval(Approval { owner: Some(caller), spender: Some(spender), value }),
    )
}

/// What `transfer_from` by the spender `caller` does, returning `r`. Short of allowance,
/// nothing changes and `r` is false. Otherwise the allowance is debited by `value`, and
/// `r` tells whether `from` held enough for the tokens to move (with a `Transfer`
/// emitted) or nothing else changed.
pub open spec fn spent_from(
    pre: Erc20,
    post: Erc20,
    caller: AccountId,
    from: AccountId,
    to: AccountId,
    value: u128,
    r: bool,
) -> bool {
    &&& post.supply() == pre.supply()
    &&& pre.allowed(from, caller) < value ==> !r && post == pre
    &&& pre.allowed(from, caller) >= value ==> {
        &&& r == (pre.balance(from) >= value)
        &&& forall|o: AccountId, s: AccountId| #[trigger]
            post.allowed(o, s) == if o == from && s == caller {
                (pre.allowed(o, s) - value) as nat
            } else {
                pre.allowed(o, s)
            }
    }
    &&& r ==> forall|a: AccountId| #[trigger]
        post.balance(a) == after_move(pre.balance(a), a, from, to, value as nat)
    &&& r ==> post.emitted() == pre.emitted().push(
        Event::Transfer(Transfer { from: Some(from), to: Some(to), value }),
    )
    &&& !r ==> forall|a: AccountId| #[trigger] post.balance(a) == pre.balance(a)
    &&& !r ==> post.emitted() == pre.emitted()
}

impl Erc20 {
    /// The total supply fixed at construction.
    pub closed spec fn supply(&self) -> nat {
        self.total_supply as nat
    }

    /// The balance of `a`; zero for an account never credited.
    pub closed spec fn balance(&self, a: AccountId) -> nat {
        amount_in(balances_held(self.balances), a)
    }

    /// What `spender` may still move out of `owner`'s balance; zero if never set.
    pub closed spec fn allowed(&self, owner: AccountId, spender: AccountId) -> nat {
        amount_in(allowances_held(self.allowances), (owner, spender))
    }

    /// The accounts whose balance has been written.
    pub closed spec fn accounts(&self) -> Seq<AccountId> {
        self.holders@
    }

    /// Whether the allowance of the pair has been written.
    pub closed spec fn pair_recorded(&self, owner: AccountId, spender: AccountId) -> bool {
        allowances_held(self.allowances).dom().contains((owner, spender))
    }

    /// The events emitted so far, oldest first.
    pub closed spec fn emitted(&self) -> Seq<Event> {
        self.events@
    }

    /// The holders are listed once each, and exactly the accounts with a recorded balance.
    closed spec fn holders_listed(&self) -> bool {
        &&& self.holders@.no_duplicates()
        &&& forall|a: AccountId| #[trigger]
            balances_held(self.balances).dom().contains(a) <==> self.holders@.contains(a)
    }

    /// The recorded balances add up to the supply.
    pub closed spec fn wf(&self) -> bool {
        &&& self.holders_listed()
        &&& sum_over(self.holders@, balances_held(self.balances)) == self.total_supply
    }

    /// Creates the ledger, crediting the whole supply to the creator `caller`.
    pub fn new(caller: AccountId, initial_supply: u128) -> (r: Erc20)
        ensures
            r.wf(),
            r.supply() == initial_supply,
            forall|a: AccountId| #[trigger]
                r.balance(a) == if a == caller {
                    initial_supply as nat
                } else {
                    0
                },
            forall|o: AccountId, s: AccountId| #[trigger] r.allowed(o, s) == 0,
            r.emitted() == seq![
                Event::Transfer(Transfer { from: None, to: Some(caller), value: initial_supply }),
            ],
    {
        let mut balances = BalanceTable::new();
        balances.insert(caller, initial_supply);
        let mut events: Vec<Event> = Vec::new();
        events.push(Event::Transfer(Transfer { from: None, to: Some(caller), value: initial_supply }));
        let ghost first = seq![caller];
        let r = Erc20 {
            total_supply: initial_supply,
            balances,
            allowances: AllowanceTable::new(),
            events,
            holders: Ghost(first),
        };
        proof {
            assert(r.holders@.drop_last() =~= Seq::<AccountId>::empty());
            assert(r.holders@.last() == caller);
            assert(r.holders@[0] == caller);
            let held = balances_held(r.balances);
            assert forall|a: AccountId| #[trigger]
                held.dom().contains(a) <==> r.holders@.contains(a) by {
                if r.holders@.contains(a) {
                    let i = choose|i: int| 0 <= i < r.holders@.len() && r.holders@[i] == a;
                    assert(i == 0);
                }
                if a == caller {
                    assert(r.holders@[0] == a);
                }
            }
            assert(sum_over(Seq::<AccountId>::empty(), held) == 0);
            assert(amount_in(held, caller) == initial_supply);
            assert(r.events@ =~= seq![
                Event::Transfer(Transfer { from: None, to: Some(caller), value: initial_supply }),
            ]);
        }
        r
    }

    /// The total supply.
    pub fn total_supply(&self) -> (r: u128)
        ensures
            r == self.supply(),
    {
        self.total_supply
    }

    /// The balance of `owner`, zero if it was never credited.
    pub fn balance_of(&self, owner: AccountId) -> (r: u128)
        ensures
            r == self.balance(owner),
    {
        self.balance_of_or_zero(&owner)
    }

    /// Sets what `spender` may move out of the caller's balance, replacing any earlier amount.
    pub fn approve(&mut self, caller: AccountId, spender: AccountId, value: u128) -> (r: bool)
        requires
            old(self).wf(),
        ensures
            r,
            final(self).wf(),
            approved(*old(self), *final(self), caller, spender, value),
    {
        self.allowances.insert(caller, spender, value);
        self.events.push(
            Event::Approval(Approval { owner: Some(caller), spender: Some(spender), value }),
        );
        true
    }

    /// What `spender` may still move out of `owner`'s balance, zero if never set.
    pub fn allowance(&self, owner: AccountId, spender: AccountId) -> (r: u128)
        ensures
            r == self.allowed(owner, spender),
    {
        self.allowance_of_or_zero(&owner, &spender)
    }

    /// Moves `value` from `from` to `to` on behalf of the spender `caller`, within its
    /// allowance. The allowance is debited once it suffices, even when `from`'s
    /// balance then falls short and no tokens move.
    pub fn transfer_from(&mut self, caller: AccountId, from: AccountId, to: AccountId, value: u128) -> (r:
        bool)
        requires
            old(self).wf(),
        ensures
            final(self).wf(),
            spent_from(*old(self), *final(self), caller, from, to, value, r),
    {
        let allowance = self.allowance_of_or_zero(&from, &caller);
        if allowance < value {
            return false;
        }
        self.allowances.insert(from, caller, allowance - value);
        self.transfer_from_to(from, to, value)
    }

    /// Moves `value` from the caller's balance to `to`; nothing changes when the caller
    /// holds less than `value`.
    pub fn transfer(&mut self, caller: AccountId, to: AccountId, value: u128) -> (r: bool)
        requires
            old(self).wf(),
        ensures
            final(self).wf(),
            final(self).supply() == old(self).supply(),
            r == (old(self).balance(caller) >= value),
            forall|o: AccountId, s: AccountId| #[trigger]
                final(self).allowed(o, s) == old(self).allowed(o, s),
            r ==> forall|a: AccountId| #[trigger]
                final(self).balance(a) == after_move(old(self).balance(a), a, caller, to, value as nat),
            r ==> final(self).emitted() == old(self).emitted().push(
                Event::Transfer(Transfer { from: Some(caller), to: Some(to), value }),
            ),
            !r ==> *final(self) == *old(self),
    {
        self.transfer_from_to(caller, to, value)
    }

    /// The events emitted so far, oldest first.
    pub fn events(&self) -> (r: &Vec<Event>)
        ensures
            r@ == self.emitted(),
    {
        &self.events
    }

    /// Moves `value` from `from` to `to` when `from` holds at least that much. Debits
    /// `from` before crediting `to`, so a transfer to oneself leaves the balance as it was.
    fn transfer_from_to(&mut self, from: AccountId, to: AccountId, value: u128) -> (r: bool)
        requires
            old(self).wf(),
        ensures
            final(self).wf(),
            final(self).total_supply == old(self).total_supply,
            final(self).allowances == old(self).allowances,
            r == (old(self).balance(from) >= value),
            r ==> forall|a: AccountId| #[trigger]
                final(self).balance(a) == after_move(old(self).balance(a), a, from, to, value as nat),
            r ==> final(self).events@ == old(self).events@.push(
                Event::Transfer(Transfer { from: Some(from), to: Some(to), value }),
            ),
            !r ==> *final(self) == *old(self),
    {
        let from_balance = self.balance_of_or_zero(&from);
        if from_balance < value {
            return false;
        }
        self.set_balance(from, from_balance - value);
        let to_balance = self.balance_of_or_zero(&to);
        proof {
            if self.holders@.contains(to) {
                lemma_amount_le_sum(self.holders@, balances_held(self.balances), to);
            }
        }
        self.set_balance(to, to_balance + value);
        self.events.push(Event::Transfer(Transfer { from: Some(from), to: Some(to), value }));
        true
    }

    /// Records `v` as the balance of `a`, listing `a` among the holders if it was not.
    fn set_balance(&mut self, a: AccountId, v: u128)
        requires
            old(self).holders_listed(),
        ensures
            final(self).holders_listed(),
            balances_held(final(self).balances) == balances_held(old(self).balances).insert(a, v),
            sum_over(final(self).holders@, balances_held(final(self).balances)) == sum_over(
                old(self).holders@,
                balances_held(old(self).balances),
            ) - old(self).balance(a) + v,
            final(self).total_supply == old(self).total_supply,
            final(self).allowances == old(self).allowances,
            final(self).events == old(self).events,
    {
        let ghost keys = self.holders@;
        let ghost before = balances_held(self.balances);
        let present = self.balances.get(&a).is_some();
        self.balances.insert(a, v);
        proof {
            lemma_sum_insert(keys, before, a, v);
        }
        if !present {
            self.holders = Ghost(keys.push(a));
            proof {
                let after = balances_held(self.balances);
                assert(self.holders@.drop_last() =~= keys);
                assert(self.holders@.last() == a);
                assert forall|k: AccountId| #[trigger] self.holders@.contains(k) <==> keys.contains(k)
                    || k == a by {
                    if self.holders@.contains(k) && k != a {
                        let i = choose|i: int| 0 <= i < self.holders@.len() && self.holders@[i] == k;
                        assert(keys[i] == k);
                    }
                    if keys.contains(k) {
                        let i = choose|i: int| 0 <= i < keys.len() && keys[i] == k;
                        assert(self.holders@[i] == k);
                    }
                    if k == a {
                        assert(self.holders@[keys.len() as int] == a);
                    }
                }
                assert forall|i: int, j: int|
                    0 <= i < self.holders@.len() && 0 <= j < self.holders@.len() && i != j implies
                    self.holders@[i] != self.holders@[j] by {
                    if i < keys.len() && j < keys.len() {
                        assert(keys[i] == self.holders@[i] && keys[j] == self.holders@[j]);
                    } else if i < keys.len() {
                        assert(keys.contains(self.holders@[i]));
                    } else {
                        assert(keys.contains(self.holders@[j]));
                    }
                }
                assert(amount_in(after, a) == v);
            }
        }
    }

    /// The balance of `owner`, zero without an entry.
    fn balance_of_or_zero(&self, owner: &AccountId) -> (r: u128)
        ensures
            r == self.balance(*owner),
    {
        match self.balances.get(owner) {
            Some(v) => v,
            None => 0,
        }
    }

    /// The allowance of the pair, zero without an entry.
    fn allowance_of_or_zero(&self, owner: &AccountId, spender: &AccountId) -> (r: u128)
        ensures
            r == self.allowed(*owner, *spender),
    {
        match self.allowances.get(owner, spender) {
            Some(v) => v,
            None => 0,
        }
    }
}

/// The sum of the balances of the accounts listed in `s`.
pub open spec fn sum_of_balances(l: Erc20, s: Seq<AccountId>) -> nat
    decreases s.len(),
{
    if s.len() == 0 {
        0
    } else {
        sum_of_balances(l, s.drop_last()) + l.balance(s.last())
    }
}

proof fn lemma_sum_of_balances(l: Erc20, s: Seq<AccountId>)
    ensures
        sum_of_balances(l, s) == sum_over(s, balances_held(l.balances)),
    decreases s.len(),
{
    if s.len() > 0 {
        lemma_sum_of_balances(l, s.drop_last());
    }
}

/// Conservation: the accounts with a recorded balance are listed once each,
/// every other account holds nothing, and the listed balances add up to the total
/// supply. Every operation keeps `wf`, so this holds after any sequence of them.
pub proof fn lemma_conservation(l: Erc20)
    requires
        l.wf(),
    ensures
        l.accounts().no_duplicates(),
        forall|a: AccountId| !l.accounts().contains(a) ==> #[trigger] l.balance(a) == 0,
        sum_of_balances(l, l.accounts()) == l.supply(),
{
    lemma_sum_of_balances(l, l.accounts());
}

/// Zero default: an account whose balance was never written, and a pair whose
/// allowance was never written, read as zero.
pub proof fn lemma_zero_default(l: Erc20)
    requires
        l.wf(),
    ensures
        forall|a: AccountId| !l.accounts().contains(a) ==> #[trigger] l.balance(a) == 0,
        forall|o: AccountId, s: AccountId|
            !l.pair_recorded(o, s) ==> #[trigger] l.allowed(o, s) == 0,
{
}

/// Approving twice replaces: after `approve(spender, v1)` and then `approve(spender, v2)`
/// by the same owner, the allowance is `v2`, whatever `v1` was.
pub proof fn lemma_approve_replaces(
    l0: Erc20,
    l1: Erc20,
    l2: Erc20,
    owner: AccountId,
    spender: AccountId,
    v1: u128,
    v2: u128,
)
    requires
        approved(l0, l1, owner, spender, v1),
        approved(l1, l2, owner, spender, v2),
    ensures
        l2.allowed(owner, spender) == v2,
{
}

/// A delegated transfer within the allowance and the owner's balance succeeds, debits
/// the allowance by the amount and moves the amount from the owner to `to`.
pub proof fn lemma_delegated_transfer(
    l0: Erc20,
    l1: Erc20,
    l2: Erc20,
    owner: AccountId,
    spender: AccountId,
    to: AccountId,
    allowance: u128,
    value: u128,
    r: bool,
)
    requires
        approved(l0, l1, owner, spender, allowance),
        spent_from(l1, l2, spender, owner, to, value, r),
        value <= allowance,
        value <= l0.balance(owner),
        owner != to,
    ensures
        r,
        l2.allowed(owner, spender) == allowance - value,
        l2.balance(to) == l0.balance(to) + value,
        l2.balance(owner) == l0.balance(owner) - value,
{
    assert(l2.balance(to) == after_move(l1.balance(to), to, owner, to, value as nat));
    assert(l2.balance(owner) == after_move(l1.balance(owner), owner, owner, to, value as nat));
}

/// A delegated transfer beyond the allowance fails and changes nothing: balances and
/// the allowance stay as they were after the approval.
pub proof fn lemma_delegated_transfer_blocked(
    l0: Erc20,
    l1: Erc20,
    l2: Erc20,
    owner: AccountId,
    spender: AccountId,
    to: AccountId,
    allowance: u128,
    value: u128,
    r: bool,
)
    requires
        approved(l0, l1, owner, spender, allowance),
        spent_from(l1, l2, spender, owner, to, value, r),
        value > allowance,
    ensures
        !r,
        l2.allowed(owner, spender) == allowance,
        forall|a: AccountId| #[trigger] l2.balance(a) == l0.balance(a),
{
    assert(l1.allowed(owner, spender) == allowance);
}

} // verus!
