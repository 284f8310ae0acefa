//! One rune: its supply, its price, the quantities its holders are owed and
//! the payment held for its creator.

use vstd::prelude::*;
use crate::balances::BalanceTable;

verus! {

/// How a rune is sold. Only a fixed price is operable.
#[derive(PartialEq, Eq, Structural, Clone, Copy, Debug)]
pub enum LaunchType {
    FixedPrice,
    BondingCurve,
}

/// Why a call was refused; a refused call changes nothing.
#[derive(PartialEq, Eq, Structural, Clone, Copy, Debug)]
pub enum RuneError {
    /// The caller is not the account that the call demands.
    Unauthorized,
    /// No rune is registered under the ticker.
    UnknownTicker,
    /// A rune is already registered under the ticker.
    DuplicateTicker,
    /// The payment buys no whole unit.
    InsufficientPayment,
    /// The units bought exceed what is left of the supply.
    SupplyExceeded,
    /// A payment-token amount would not fit in 128 bits.
    AmountOverflow,
}

/// A fixed-supply rune and its accounts.
pub struct Rune {
    pub ticker: String,
    pub launch_type: LaunchType,
    /// Maximum supply.
    pub total: u128,
    /// Supply issued so far.
    pub minted: u128,
    /// Payment-token units per rune unit.
    pub price: u128,
    pub balance: BalanceTable,
    /// Payment-token units owed to the creator and not yet withdrawn.
    pub creator_balance: u128,
    pub creator_address: String,
}

/// Public view of a rune.
pub struct RuneOutput {
    pub ticker: String,
    pub total: u128,
    pub minted: u128,
    pub price: u128,
}

impl RuneOutput {
    /// This is the public view of `rune`.
    pub open spec fn describes(&self, rune: Rune) -> bool {
        &&& self.ticker == rune.ticker
        &&& self.total == rune.total
        &&& self.minted == rune.minted
        &&& self.price == rune.price
    }
}

/// Quantity of one rune held by an account.
pub struct RuneBalance {
    pub ticker: String,
    pub balance: u128,
}

impl Rune {
    /// Quantity held by `account`.
    pub open spec fn balance_of(&self, account: Seq<char>) -> u128 {
        self.balance.spec_get(account)
    }

    /// Supply never exceeds the total, nobody holds more than was issued,
    /// and units are priced.
    pub open spec fn wf(&self) -> bool {
        &&& self.minted <= self.total
        &&& self.price > 0
        &&& forall|a: Seq<char>| #[trigger] self.balance_of(a) <= self.minted
    }

    /// Units that `payment` buys.
    pub open spec fn units_for(&self, payment: u128) -> u128 {
        (payment / self.price) as u128
    }

    /// What a mint of `payment` gives: the units bought, or why it is refused.
    pub open spec fn mint_outcome(&self, payment: u128) -> Result<u128, RuneError> {
        if payment < self.price {
            Err(RuneError::InsufficientPayment)
        } else if self.minted + self.units_for(payment) > self.total {
            Err(RuneError::SupplyExceeded)
        } else if self.creator_balance + payment > u128::MAX {
            Err(RuneError::AmountOverflow)
        } else {
            Ok(self.units_for(payment))
        }
    }

    /// `after` is `before` once `units` more were issued to `account`, who
    /// paid `payment` for them.
    pub open spec fn minted_to(
        before: Rune,
        after: Rune,
        account: Seq<char>,
        payment: u128,
        units: u128,
    ) -> bool {
        &&& after.ticker == before.ticker
        &&& after.launch_type == before.launch_type
        &&& after.total == before.total
        &&& after.price == before.price
        &&& after.creator_address == before.creator_address
        &&& after.minted == before.minted + units
        &&& after.minted <= after.total
        &&& after.creator_balance == before.creator_balance + payment
        &&& after.balance_of(account) == before.balance_of(account) + units
        &&& forall|b: Seq<char>|
            b != account ==> #[trigger] after.balance_of(b) == before.balance_of(b)
    }

    /// `after` is `before` with the quantity of `account`, which was
    /// `taken`, set to zero.
    pub open spec fn withdrawn_from(before: Rune, after: Rune, account: Seq<char>, taken: u128) -> bool {
        &&& taken == before.balance_of(account)
        &&& after.ticker == before.ticker
        &&& after.launch_type == before.launch_type
        &&& after.total == before.total
        &&& after.minted == before.minted
        &&& after.price == before.price
        &&& after.creator_balance == before.creator_balance
        &&& after.creator_address == before.creator_address
        &&& after.balance_of(account) == 0
        &&& forall|b: Seq<char>|
            b != account ==> #[trigger] after.balance_of(b) == before.balance_of(b)
    }

    /// The rune is as created from these values: nothing issued, nothing
    /// held and nothing owed.
    pub open spec fn is_fresh(
        &self,
        name: String,
        launch_type: LaunchType,
        total: u128,
        price: u128,
        creator_address: String,
    ) -> bool {
        &&& self.ticker == name
        &&& self.launch_type == launch_type
        &&& self.total == total
        &&& self.price == price
        &&& self.minted == 0
        &&& self.creator_balance == 0
        &&& self.creator_address == creator_address
        &&& forall|a: Seq<char>| #[trigger] self.balance_of(a) == 0
    }

    /// A new rune with nothing issued and nothing owed.
    pub fn new(
        name: String,
        launch_type: LaunchType,
        total: u128,
        price: u128,
        creator_address: String,
    ) -> (r: Self)
        ensures
            r.is_fresh(name, launch_type, total, price, creator_address),
            price > 0 ==> r.wf(),
    {
        Rune {
            ticker: name,
            launch_type,
            total,
            minted: 0,
            price,
            balance: BalanceTable::new(),
            creator_balance: 0,
            creator_address,
        }
    }

    /// Path from which the rune's addresses on other chains are derived:
    /// the ticker itself.
    pub fn get_derivation_path(&self) -> (r: String)
        ensures
            r == self.ticker,
    {
        self.ticker.clone()
    }

    /// Issues to `account` the whole units that `usdt_value` buys, and owes
    /// the whole payment, remainder included, to the creator. Returns the
    /// units issued.
    pub fn mint(&mut self, usdt_value: u128, account_id: &String) -> (r: Result<u128, RuneError>)
        requires
            old(self).wf(),
        ensures
            final(self).wf(),
            r == old(self).mint_outcome(usdt_value),
            match r {
                Ok(units) => Rune::minted_to(*old(self), *final(self), account_id@, usdt_value, units),
                Err(e) => *final(self) == *old(self),
            },
    {
        let amount = usdt_value / self.price;
        if amount == 0 {
            proof {
                assert(usdt_value < self.price) by (nonlinear_arith)
                    requires amount == usdt_value / self.price, amount == 0, self.price > 0;
            }
            return Err(RuneError::InsufficientPayment);
        }
        proof {
            assert(usdt_value >= self.price) by (nonlinear_arith)
                requires amount == usdt_value / self.price, amount > 0, self.price > 0;
        }
        if amount > self.total - self.minted {
            return Err(RuneError::SupplyExceeded);
        }
        if usdt_value > u128::MAX - self.creator_balance {
            return Err(RuneError::AmountOverflow);
        }
        let previous_balance = self.balance.get(account_id);
        assert(self.balance_of(account_id@) <= self.minted);
        self.balance.set(account_id, previous_balance + amount);
        self.minted = self.minted + amount;
        self.creator_balance = self.creator_balance + usdt_value;
        assert forall|a: Seq<char>| #[trigger] self.balance_of(a) <= self.minted by {
            if a != account_id@ {
                assert(old(self).balance_of(a) <= old(self).minted);
            }
        }
        Ok(amount)
    }

    /// Public view of the rune.
    pub fn output(&self) -> (r: RuneOutput)
        ensures
            r.describes(*self),
    {
        RuneOutput {
            ticker: self.ticker.clone(),
            total: self.total,
            minted: self.minted,
            price: self.price,
        }
    }

    /// Quantity held by `account_id`, zero when it holds none.
    pub fn get_balance(&self, account_id: &String) -> (r: u128)
        ensures
            r == self.balance_of(account_id@),
    {
        self.balance.get(account_id)
    }

    /// Sets the quantity of `account_id` to zero and returns what it was.
    pub fn withdraw(&mut self, account_id: &String) -> (r: u128)
        requires
            old(self).wf(),
        ensures
            final(self).wf(),
            Rune::withdrawn_from(*old(self), *final(self), account_id@, r),
    {
        let previous_balance = self.balance.get(account_id);
        self.balance.set(account_id, 0);
        assert forall|a: Seq<char>| #[trigger] self.balance_of(a) <= self.minted by {
            if a != account_id@ {
                assert(old(self).balance_of(a) <= old(self).minted);
            }
        }
        previous_balance
    }

    /// `after` is `before` with the creator's escrow, which was `taken`,
    /// emptied.
    pub open spec fn creator_debited(before: Rune, after: Rune, taken: u128) -> bool {
        &&& taken == before.creator_balance
        &&& after == (Rune { creator_balance: 0, ..before })
    }

    /// `after` is `before` with `amount` credited back to the creator's
    /// escrow.
    pub open spec fn creator_credited(before: Rune, after: Rune, amount: u128) -> bool {
        &&& before.creator_balance + amount <= u128::MAX
        &&& after == (Rune { creator_balance: (before.creator_balance + amount) as u128, ..before })
    }

    /// Sets what is owed to the creator to zero and returns what it was.
    pub fn creator_withdraw(&mut self) -> (r: u128)
        ensures
            Rune::creator_debited(*old(self), *final(self), r),
            old(self).wf() ==> final(self).wf(),
    {
        let creator_balance = self.creator_balance;
        self.creator_balance = 0;
        assert forall|a: Seq<char>| old(self).wf() implies #[trigger] self.balance_of(a) <= self.minted by {
            assert(old(self).balance_of(a) <= old(self).minted);
        }
        creator_balance
    }

    /// Credits back to the creator an amount whose transfer failed.
    pub fn creator_withdraw_failed(&mut self, amount: u128)
        requires
            old(self).creator_balance + amount <= u128::MAX,
        ensures
            Rune::creator_credited(*old(self), *final(self), amount),
            old(self).wf() ==> final(self).wf(),
    {
        self.creator_balance = self.creator_balance + amount;
        assert forall|a: Seq<char>| old(self).wf() implies #[trigger] self.balance_of(a) <= self.minted by {
            assert(old(self).balance_of(a) <= old(self).minted);
        }
    }
}

/// Sum of `units`.
pub open spec fn sum_units(units: Seq<u128>) -> int
    decreases units.len(),
{
    if units.len() == 0 {
        0
    } else {
        sum_units(units.drop_last()) + units.last()
    }
}

proof fn lemma_mint_prefix(
    states: Seq<Rune>,
    accounts: Seq<Seq<char>>,
    payments: Seq<u128>,
    units: Seq<u128>,
    k: int,
)
    requires
        states.len() == units.len() + 1,
        accounts.len() == units.len(),
        payments.len() == units.len(),
        states[0].wf(),
        forall|j: int|
            0 <= j < units.len() ==> Rune::minted_to(
                #[trigger] states[j],
                states[j + 1],
                accounts[j],
                payments[j],
                units[j],
            ),
        0 <= k < states.len(),
    ensures
        states[k].minted <= states[k].total,
        states[k].minted == states[0].minted + sum_units(units.subrange(0, k)),
    decreases k,
{
    if k == 0 {
        assert(units.subrange(0, 0) =~= Seq::<u128>::empty());
    } else {
        lemma_mint_prefix(states, accounts, payments, units, k - 1);
        assert(units.subrange(0, k).drop_last() =~= units.subrange(0, k - 1));
        assert(Rune::minted_to(states[k - 1], states[k], accounts[k - 1], payments[k - 1], units[k - 1]));
    }
}

/// Along any run of successful mints on one rune, the supply issued never
/// exceeds the total, and it grows by exactly the units credited.
pub proof fn lemma_mints_accumulate(
    states: Seq<Rune>,
    accounts: Seq<Seq<char>>,
    payments: Seq<u128>,
    units: Seq<u128>,
)
    requires
        states.len() == units.len() + 1,
        accounts.len() == units.len(),
        payments.len() == units.len(),
        states[0].wf(),
        forall|j: int|
            0 <= j < units.len() ==> Rune::minted_to(
                #[trigger] states[j],
                states[j + 1],
                accounts[j],
                payments[j],
                units[j],
            ),
    ensures
        forall|k: int| 0 <= k < states.len() ==> (#[trigger] states[k]).minted <= states[k].total,
        states.last().minted == states[0].minted + sum_units(units),
{
    assert forall|k: int| 0 <= k < states.len() implies (#[trigger] states[k]).minted <= states[k].total by {
        lemma_mint_prefix(states, accounts, payments, units, k);
    }
    lemma_mint_prefix(states, accounts, payments, units, units.len() as int);
    assert(units.subrange(0, units.len() as int) =~= units);
}

/// Right after a holder's withdrawal the holder's quantity reads zero,
/// whatever it was.
pub proof fn lemma_withdraw_then_balance_is_zero(
    before: Rune,
    after: Rune,
    account: Seq<char>,
    taken: u128,
)
    requires
        Rune::withdrawn_from(before, after, account, taken),
    ensures
        after.balance_of(account) == 0,
{
}

/// Emptying the creator's escrow and then crediting back what was taken
/// gives the rune back as it was.
pub proof fn lemma_compensation_restores(before: Rune, debited: Rune, restored: Rune, taken: u128)
    requires
        Rune::creator_debited(before, debited, taken),
        Rune::creator_credited(debited, restored, taken),
    ensures
        restored == before,
{
}

} // verus!
