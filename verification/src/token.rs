//! A bare token ledger.
use vstd::prelude::*;

use crate::address::Address;
use crate::table::AddressTable;

verus! {

/// The storage key of a holder's balance.
#[derive(Clone, Copy, Debug, PartialEq, Eq, Structural)]
pub struct TKey(pub Address);

/// The balance that `balances` records for `holder`; a holder without an entry has none.
pub open spec fn balance_of(balances: Map<Address, i128>, holder: Address) -> int {
    if balances.dom().contains(holder) {
        balances[holder] as int
    } else {
        0
    }
}

/// The balances after `amount` has left `from` and reached `to`. Both balances are read before
/// either is written, and the one of `to` is written last.
pub open spec fn transferred(
    balances: Map<Address, i128>,
    from: Address,
    to: Address,
    amount: int,
) -> Map<Address, i128> {
    balances.insert(from, (balance_of(balances, from) - amount) as i128).insert(
        to,
        (balance_of(balances, to) + amount) as i128,
    )
}

/// The balances after `amount` has been created for `to`.
pub open spec fn minted(balances: Map<Address, i128>, to: Address, amount: int) -> Map<
    Address,
    i128,
> {
    balances.insert(to, (balance_of(balances, to) + amount) as i128)
}

/// A value that a balance can hold.
pub open spec fn fits(value: int) -> bool {
    i128::MIN <= value <= i128::MAX
}

/// A token that keeps one signed balance per holder and checks neither authority nor funds: a
/// balance may fall below zero.
pub struct MockToken {
    balances: AddressTable<i128>,
}

impl View for MockToken {
    type V = Map<Address, i128>;

    closed spec fn view(&self) -> Map<Address, i128> {
        self.balances@
    }
}

impl MockToken {
    /// A token that nobody holds.
    pub fn new() -> (token: MockToken)
        ensures
            token@ == Map::<Address, i128>::empty(),
    {
        MockToken { balances: AddressTable::new() }
    }

    /// Moves `amount` from `from` to `to`.
    ///
    /// Both new balances must fit; they are computed from the balances before the call.
    pub fn transfer(&mut self, from: Address, to: Address, amount: i128)
        requires
            fits(balance_of(old(self)@, from) - amount),
            fits(balance_of(old(self)@, to) + amount),
        ensures
            final(self)@ == transferred(old(self)@, from, to, amount as int),
    {
        let from_balance: i128 = self.balance(&from);
        let to_balance: i128 = self.balance(&to);
        self.store(TKey(from), from_balance - amount);
        self.store(TKey(to), to_balance + amount);
    }

    /// The balance of `holder`, zero if it has none on record.
    pub fn balance(&self, holder: &Address) -> (balance: i128)
        ensures
            balance == balance_of(self@, *holder),
    {
        match self.balances.get(holder) {
            Some(balance) => *balance,
            None => 0,
        }
    }

    /// Creates `amount` for `to`.
    pub fn mint(&mut self, to: Address, amount: i128)
        requires
            fits(balance_of(old(self)@, to) + amount),
        ensures
            final(self)@ == minted(old(self)@, to, amount as int),
    {
        let balance: i128 = self.balance(&to);
        self.store(TKey(to), balance + amount);
    }

    /// Records `balance` under `key`.
    pub fn store(&mut self, key: TKey, balance: i128)
        ensures
            final(self)@ == old(self)@.insert(key.0, balance),
    {
        self.balances.set(key.0, balance);
    }

    /// A token has finitely many holders.
    pub proof fn lemma_finitely_many_holders(self)
        ensures
            self@.dom().finite(),
    {
        self.balances.lemma_finite();
    }
}

/// All that is held: the sum of every recorded balance.
pub open spec fn supply(balances: Map<Address, i128>) -> int
    decreases balances.dom().len(),
    when balances.dom().finite()
{
    if balances.dom().len() == 0 {
        0
    } else {
        let holder = balances.dom().choose();
        balances[holder] + supply(balances.remove(holder))
    }
}

/// The supply is one holder's balance and what the others hold, whichever holder is taken.
proof fn lemma_supply_of_one(balances: Map<Address, i128>, holder: Address)
    requires
        balances.dom().finite(),
        balances.dom().contains(holder),
    ensures
        supply(balances) == balances[holder] + supply(balances.remove(holder)),
    decreases balances.dom().len(),
{
    let first = balances.dom().choose();
    assert(balances.dom().len() > 0);
    assert(balances.dom().contains(first));
    if first != holder {
        let without_first = balances.remove(first);
        let without_holder = balances.remove(holder);
        lemma_supply_of_one(without_first, holder);
        lemma_supply_of_one(without_holder, first);
        assert(without_first.remove(holder) =~= without_holder.remove(first));
    }
}

/// Writing a balance changes the supply by the difference to the balance before.
proof fn lemma_supply_of_insert(balances: Map<Address, i128>, holder: Address, balance: i128)
    requires
        balances.dom().finite(),
    ensures
        supply(balances.insert(holder, balance)) == supply(balances) - balance_of(balances, holder)
            + balance,
{
    let changed = balances.insert(holder, balance);
    lemma_supply_of_one(changed, holder);
    if balances.dom().contains(holder) {
        lemma_supply_of_one(balances, holder);
        assert(changed.remove(holder) =~= balances.remove(holder));
    } else {
        assert(changed.remove(holder) =~= balances);
    }
}

/// A transfer between two different holders takes the amount from the one and gives it to the
/// other; no other balance changes, and neither does the supply.
pub proof fn lemma_transfer_conserves(
    balances: Map<Address, i128>,
    from: Address,
    to: Address,
    amount: i128,
)
    requires
        balances.dom().finite(),
        fits(balance_of(balances, from) - amount),
        fits(balance_of(balances, to) + amount),
        from != to,
    ensures
        ({
            let after = transferred(balances, from, to, amount as int);
            &&& balance_of(after, from) == balance_of(balances, from) - amount
            &&& balance_of(after, to) == balance_of(balances, to) + amount
            &&& forall|other: Address|
                other != from && other != to ==> #[trigger] balance_of(after, other) == balance_of(
                    balances,
                    other,
                )
            &&& supply(after) == supply(balances)
        }),
{
    let left = balances.insert(from, (balance_of(balances, from) - amount) as i128);
    lemma_supply_of_insert(balances, from, (balance_of(balances, from) - amount) as i128);
    lemma_supply_of_insert(left, to, (balance_of(balances, to) + amount) as i128);
}

/// A transfer to oneself does not cancel out: the write for the receiving side comes last, so the
/// holder ends with the amount on top, and the supply grows by it.
pub proof fn lemma_transfer_to_self_adds(
    balances: Map<Address, i128>,
    holder: Address,
    amount: i128,
)
    requires
        balances.dom().finite(),
        fits(balance_of(balances, holder) - amount),
        fits(balance_of(balances, holder) + amount),
    ensures
        transferred(balances, holder, holder, amount as int) == minted(
            balances,
            holder,
            amount as int,
        ),
        supply(transferred(balances, holder, holder, amount as int)) == supply(balances) + amount,
{
    lemma_mint_adds(balances, holder, amount);
    assert(transferred(balances, holder, holder, amount as int) =~= minted(
        balances,
        holder,
        amount as int,
    ));
}

/// Minting gives the amount to its receiver, changes no other balance, and adds the amount to the
/// supply.
pub proof fn lemma_mint_adds(balances: Map<Address, i128>, to: Address, amount: i128)
    requires
        balances.dom().finite(),
        fits(balance_of(balances, to) + amount),
    ensures
        ({
            let after = minted(balances, to, amount as int);
            &&& balance_of(after, to) == balance_of(balances, to) + amount
            &&& forall|other: Address|
                other != to ==> #[trigger] balance_of(after, other) == balance_of(balances, other)
            &&& supply(after) == supply(balances) + amount
        }),
{
    lemma_supply_of_insert(balances, to, (balance_of(balances, to) + amount) as i128);
}

/// A call that can change a token.
pub ghost enum TokenCall {
    Transfer { from: Address, to: Address, amount: i128 },
    Mint { to: Address, amount: i128 },
}

impl TokenCall {
    /// Every balance that the call writes fits.
    pub open spec fn is_possible(self, balances: Map<Address, i128>) -> bool {
        match self {
            TokenCall::Transfer { from, to, amount } => {
                &&& fits(balance_of(balances, from) - amount)
                &&& fits(balance_of(balances, to) + amount)
            },
            TokenCall::Mint { to, amount } => fits(balance_of(balances, to) + amount),
        }
    }

    /// The balances after the call.
    pub open spec fn effect(self, balances: Map<Address, i128>) -> Map<Address, i128> {
        match self {
            TokenCall::Transfer { from, to, amount } => transferred(
                balances,
                from,
                to,
                amount as int,
            ),
            TokenCall::Mint { to, amount } => minted(balances, to, amount as int),
        }
    }

    /// How much the call creates: what it mints, or what a holder sends to itself.
    pub open spec fn created(self) -> int {
        match self {
            TokenCall::Transfer { from, to, amount } => if from == to {
                amount as int
            } else {
                0
            },
            TokenCall::Mint { amount, .. } => amount as int,
        }
    }
}

/// The balances of a new token after a number of calls, one after the other.
pub open spec fn balances_after(calls: Seq<TokenCall>) -> Map<Address, i128>
    decreases calls.len(),
{
    if calls.len() == 0 {
        Map::empty()
    } else {
        calls.last().effect(balances_after(calls.drop_last()))
    }
}

/// How much a number of calls create.
pub open spec fn all_created(calls: Seq<TokenCall>) -> int
    decreases calls.len(),
{
    if calls.len() == 0 {
        0
    } else {
        all_created(calls.drop_last()) + calls.last().created()
    }
}

/// Whatever calls a new token has seen, what is held is what they created: nothing else comes into
/// being, and nothing is lost.
pub proof fn lemma_supply_is_what_was_created(calls: Seq<TokenCall>)
    requires
        forall|i: int|
            0 <= i < calls.len() ==> (#[trigger] calls[i]).is_possible(
                balances_after(calls.take(i)),
            ),
    ensures
        balances_after(calls).dom().finite(),
        supply(balances_after(calls)) == all_created(calls),
    decreases calls.len(),
{
    if calls.len() > 0 {
        let rest = calls.drop_last();
        assert forall|i: int| 0 <= i < rest.len() implies (#[trigger] rest[i]).is_possible(
            balances_after(rest.take(i)),
        ) by {
            assert(rest[i] == calls[i]);
            assert(rest.take(i) =~= calls.take(i));
        }
        lemma_supply_is_what_was_created(rest);
        let before = balances_after(rest);
        assert(calls.take(calls.len() - 1) =~= rest);
        assert(calls[calls.len() - 1].is_possible(before));
        match calls.last() {
            TokenCall::Transfer { from, to, amount } => if from == to {
                lemma_transfer_to_self_adds(before, from, amount);
            } else {
                lemma_transfer_conserves(before, from, to, amount);
            },
            TokenCall::Mint { to, amount } => {
                lemma_mint_adds(before, to, amount);
            },
        }
    }
}

/// Sending an amount to another holder and back leaves every balance as it was.
pub proof fn lemma_transfer_back_restores(
    balances: Map<Address, i128>,
    from: Address,
    to: Address,
    amount: i128,
    holder: Address,
)
    requires
        fits(balance_of(balances, from) - amount),
        fits(balance_of(balances, to) + amount),
        from != to,
    ensures
        ({
            let there = transferred(balances, from, to, amount as int);
            balance_of(transferred(there, to, from, amount as int), holder) == balance_of(
                balances,
                holder,
            )
        }),
{
}

/// A balance that is recorded reads back as it was given, under its own holder and no other; a
/// holder without a record has nothing. Every signed 128-bit value can be recorded.
pub proof fn lemma_balance_reads_back(
    balances: Map<Address, i128>,
    holder: Address,
    balance: i128,
    other: Address,
)
    ensures
        balance_of(balances.insert(holder, balance), holder) == balance,
        other != holder ==> balance_of(balances.insert(holder, balance), other) == balance_of(
            balances,
            other,
        ),
        !balances.dom().contains(other) ==> balance_of(balances, other) == 0,
        fits(balance as int),
{
}

} // verus!
