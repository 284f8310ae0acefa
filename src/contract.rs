//! The launchpad's whole state: the registry of runes, the holder index and
//! the accounts it trusts. Every entry point takes the calling account as an
//! argument and, where it starts work elsewhere, returns that work as a value.

use vstd::prelude::*;
use crate::holders::{lemma_tickers_in_paired, HolderIndex};
use crate::runes::{LaunchType, Rune, RuneBalance, RuneError, RuneOutput};

verus! {

/// Names under which the state's tables are kept in storage.
pub enum ContractStorageKeys {
    Runes,
    RunesBalance { name: String },
    UserRunes,
}

/// A transfer of payment tokens that the contract asks the token service for.
pub struct TokenTransfer {
    /// Account of the payment-token service.
    pub token: String,
    pub receiver: String,
    pub amount: u128,
}

/// What a creator withdrawal took from the creator's escrow, and the
/// transfer to request for it, if any.
pub struct CreatorPayout {
    pub amount: u128,
    pub transfer: Option<TokenTransfer>,
}

/// A request to the signature service.
pub struct SignRequest {
    /// Account of the signature service.
    pub signer: String,
    pub payload: Vec<u8>,
    /// Derivation path: the ticker.
    pub path: String,
}

/// State as it stood before the holder index was added.
pub struct OldContract {
    pub runes: Vec<Rune>,
    pub mpc_contract: String,
    pub usdt_contract: String,
    pub admin: String,
}

/// The launchpad's state.
pub struct Contract {
    /// Registered runes, one per ticker.
    pub runes: Vec<Rune>,
    /// Account of the signature service.
    pub mpc_contract: String,
    /// Account of the payment-token service.
    pub usdt_contract: String,
    pub admin: String,
    pub user_runes: HolderIndex,
}

/// Every rune is well formed and tickers are unique.
pub open spec fn registry_wf(runes: Seq<Rune>) -> bool {
    &&& forall|i: int| 0 <= i < runes.len() ==> (#[trigger] runes[i]).wf()
    &&& forall|i: int, j: int|
        0 <= i < runes.len() && 0 <= j < runes.len() && (#[trigger] runes[i]).ticker@
            == (#[trigger] runes[j]).ticker@ ==> i == j
}

/// Whether every rune is consistent and no ticker is registered twice: the
/// condition under which a registry can be taken over by `Contract::migrate`.
/// A rune in which some entry exceeds the supply issued is refused even
/// where a later entry for the same account replaces it.
pub fn registry_is_valid(runes: &Vec<Rune>) -> (r: bool)
    ensures
        r ==> registry_wf(runes@),
{
    let mut i: usize = 0;
    while i < runes.len()
        invariant
            i <= runes@.len(),
            forall|k: int| 0 <= k < i ==> (#[trigger] runes@[k]).wf(),
            forall|k: int, j: int|
                0 <= k < i && 0 <= j < i && (#[trigger] runes@[k]).ticker@ == (#[trigger] runes@[j]).ticker@
                    ==> k == j,
        decreases runes@.len() - i,
    {
        let rune = &runes[i];
        if rune.price == 0 || rune.minted > rune.total || !rune.balance.all_at_most(rune.minted) {
            return false;
        }
        let mut j: usize = 0;
        while j < i
            invariant
                i < runes@.len(),
                j <= i,
                forall|k: int| 0 <= k < j ==> (#[trigger] runes@[k]).ticker@ != runes@[i as int].ticker@,
            decreases i - j,
        {
            if runes[j].ticker == runes[i].ticker {
                return false;
            }
            j = j + 1;
        }
        i = i + 1;
    }
    true
}

/// Whether a rune in `runes` is registered under `ticker`.
pub open spec fn registered(runes: Seq<Rune>, ticker: Seq<char>) -> bool {
    exists|i: int| 0 <= i < runes.len() && #[trigger] runes[i].ticker@ == ticker
}

proof fn lemma_replace_rune(before: Seq<Rune>, i: int, rune: Rune)
    requires
        registry_wf(before),
        0 <= i < before.len(),
        rune.wf(),
        rune.ticker@ == before[i].ticker@,
    ensures
        registry_wf(before.update(i, rune)),
        forall|t: Seq<char>| #[trigger] registered(before.update(i, rune), t) == registered(before, t),
{
    let after = before.update(i, rune);
    assert forall|k: int| 0 <= k < after.len() implies (#[trigger] after[k]).wf() by {
        if k != i {
            assert(before[k].wf());
        }
    }
    assert forall|k: int, j: int|
        0 <= k < after.len() && 0 <= j < after.len() && (#[trigger] after[k]).ticker@
            == (#[trigger] after[j]).ticker@ implies k == j by {
        assert(before[k].ticker@ == after[k].ticker@);
        assert(before[j].ticker@ == after[j].ticker@);
    }
    assert forall|t: Seq<char>| #[trigger] registered(after, t) == registered(before, t) by {
        if registered(before, t) {
            let k = choose|k: int| 0 <= k < before.len() && #[trigger] before[k].ticker@ == t;
            assert(after[k].ticker@ == t);
        }
        if registered(after, t) {
            let k = choose|k: int| 0 <= k < after.len() && #[trigger] after[k].ticker@ == t;
            assert(before[k].ticker@ == t);
        }
    }
}

/// Number of entries of a page that skips `from` of `len` entries and keeps
/// at most `limit`.
pub open spec fn page_len(len: int, from: int, limit: int) -> int {
    if from >= len {
        0
    } else if limit < len - from {
        limit
    } else {
        len - from
    }
}

/// Page size used when none is given.
pub const DEFAULT_PAGE_LIMIT: u64 = 10;

/// Page size asked for by `limit`.
pub open spec fn limit_or_default(limit: Option<u64>) -> int {
    match limit {
        Some(l) => l as int,
        None => DEFAULT_PAGE_LIMIT as int,
    }
}

impl Contract {
    /// Whether a rune is registered under `ticker`.
    pub open spec fn has_ticker(&self, ticker: Seq<char>) -> bool {
        registered(self.runes@, ticker)
    }

    /// Position of the rune registered under `ticker`.
    pub open spec fn index_of(&self, ticker: Seq<char>) -> int {
        choose|i: int| 0 <= i < self.runes@.len() && #[trigger] self.runes@[i].ticker@ == ticker
    }

    /// The rune registered under `ticker`.
    pub open spec fn rune(&self, ticker: Seq<char>) -> Rune {
        self.runes@[self.index_of(ticker)]
    }

    /// Quantity of the rune `ticker` held by `account`.
    pub open spec fn balance_of(&self, ticker: Seq<char>, account: Seq<char>) -> u128 {
        self.rune(ticker).balance_of(account)
    }

    /// Runes are well formed, tickers unique, and the holder index names
    /// registered tickers only.
    pub open spec fn wf(&self) -> bool {
        &&& registry_wf(self.runes@)
        &&& forall|a: Seq<char>, t: Seq<char>| #[trigger] self.user_runes.has(a, t) ==> self.has_ticker(t)
    }

    /// `after` is `before` with the rune at `i` replaced by `rune`.
    pub open spec fn replaced(before: Contract, after: Contract, i: int, rune: Rune) -> bool {
        &&& after.runes@ == before.runes@.update(i, rune)
        &&& after.mpc_contract == before.mpc_contract
        &&& after.usdt_contract == before.usdt_contract
        &&& after.admin == before.admin
    }

    /// `after` holds what `before` held.
    pub open spec fn unchanged(before: Contract, after: Contract) -> bool {
        &&& after.runes@ == before.runes@
        &&& after.mpc_contract == before.mpc_contract
        &&& after.usdt_contract == before.usdt_contract
        &&& after.admin == before.admin
        &&& after.user_runes == before.user_runes
    }

    proof fn lemma_index_of(&self, i: int)
        requires
            registry_wf(self.runes@),
            0 <= i < self.runes@.len(),
        ensures
            self.has_ticker(self.runes@[i].ticker@),
            self.index_of(self.runes@[i].ticker@) == i,
    {
        let t = self.runes@[i].ticker@;
        assert(self.runes@[i].ticker@ == t);
        let j = self.index_of(t);
        assert(self.runes@[j].ticker@ == t);
    }

    fn find_rune(&self, ticker: &String) -> (r: Option<usize>)
        requires
            registry_wf(self.runes@),
        ensures
            match r {
                Some(i) => {
                    &&& i < self.runes@.len()
                    &&& self.has_ticker(ticker@)
                    &&& i == self.index_of(ticker@)
                    &&& self.runes@[i as int].ticker@ == ticker@
                },
                None => !self.has_ticker(ticker@),
            },
    {
        let mut i: usize = 0;
        while i < self.runes.len()
            invariant
                i <= self.runes@.len(),
                registry_wf(self.runes@),
                forall|j: int| 0 <= j < i ==> self.runes@[j].ticker@ != ticker@,
            decreases self.runes@.len() - i,
        {
            if self.runes[i].ticker == *ticker {
                proof {
                    self.lemma_index_of(i as int);
                }
                return Some(i);
            }
            i = i + 1;
        }
        None
    }

    /// A launchpad with no runes, trusting the given accounts.
    pub fn new(mpc_contract: String, admin: String, usdt_contract: String) -> (r: Self)
        ensures
            r.wf(),
            r.runes@.len() == 0,
            r.mpc_contract == mpc_contract,
            r.admin == admin,
            r.usdt_contract == usdt_contract,
            forall|a: Seq<char>, t: Seq<char>| !#[trigger] r.user_runes.has(a, t),
    {
        Contract {
            runes: Vec::new(),
            mpc_contract,
            usdt_contract,
            admin,
            user_runes: HolderIndex::new(),
        }
    }

    /// What a payment notification from `caller` gives: the amount to refund
    /// (always none), or why it is refused.
    pub open spec fn payment_outcome(&self, caller: Seq<char>, ticker: Seq<char>, amount: u128) -> Result<u128, RuneError> {
        if caller != self.usdt_contract@ {
            Err(RuneError::Unauthorized)
        } else if !self.has_ticker(ticker) {
            Err(RuneError::UnknownTicker)
        } else {
            match self.rune(ticker).mint_outcome(amount) {
                Ok(_) => Ok(0),
                Err(e) => Err(e),
            }
        }
    }

    /// Takes the notice of the payment-token service that `sender_id` paid
    /// `amount` for the rune named by `msg`: issues the units it buys to the
    /// sender and indexes the rune for them. Returns the amount to refund,
    /// which is none.
    pub fn ft_on_transfer(&mut self, caller: &String, sender_id: String, amount: u128, msg: String) -> (r: Result<u128, RuneError>)
        requires
            old(self).wf(),
        ensures
            final(self).wf(),
            r == old(self).payment_outcome(caller@, msg@, amount),
            r is Err ==> Contract::unchanged(*old(self), *final(self)),
            r is Ok ==> {
                let i = old(self).index_of(msg@);
                &&& Rune::minted_to(old(self).rune(msg@), final(self).runes@[i], sender_id@, amount, old(self).rune(msg@).units_for(amount))
                &&& Contract::replaced(*old(self), *final(self), i, final(self).runes@[i])
                &&& forall|a: Seq<char>, t: Seq<char>| #[trigger] final(self).user_runes.has(a, t) == (old(self).user_runes.has(a, t) || (a == sender_id@ && t == msg@))
            },
    {
        if *caller != self.usdt_contract {
            return Err(RuneError::Unauthorized);
        }
        let ticker = msg;
        let i = match self.find_rune(&ticker) {
            Some(i) => i,
            None => return Err(RuneError::UnknownTicker),
        };
        let ghost before = self.runes@;
        let minted = self.runes[i].mint(amount, &sender_id);
        match minted {
            Ok(_) => {},
            Err(e) => {
                assert(self.runes@ =~= before);
                return Err(e);
            },
        }
        assert(self.runes@ == before.update(i as int, self.runes@[i as int]));
        assert forall|k: int| 0 <= k < self.runes@.len() implies (#[trigger] self.runes@[k]).wf() by {
            if k != i {
                assert(before[k].wf());
            }
        }
        assert forall|k: int, j: int|
            0 <= k < self.runes@.len() && 0 <= j < self.runes@.len() && (#[trigger] self.runes@[k]).ticker@
                == (#[trigger] self.runes@[j]).ticker@ implies k == j by {
            assert(before[k].ticker@ == self.runes@[k].ticker@);
            assert(before[j].ticker@ == self.runes@[j].ticker@);
        }
        self.user_runes.add(&sender_id, &ticker);
        assert forall|a: Seq<char>, t: Seq<char>| #[trigger] self.user_runes.has(a, t) implies self.has_ticker(t) by {
            if t == ticker@ {
                assert(self.runes@[i as int].ticker@ == t);
            } else {
                assert(old(self).user_runes.has(a, t));
                let k = choose|k: int| 0 <= k < before.len() && #[trigger] before[k].ticker@ == t;
                assert(self.runes@[k].ticker@ == t);
            }
        }
        Ok(0)
    }

    /// Registers a rune under `ticker`. Only the admin may; a ticker is
    /// registered once. A launch type other than a fixed price registers
    /// nothing and is no error.
    pub fn new_rune(
        &mut self,
        caller: &String,
        ticker: String,
        launch_type: String,
        total: u128,
        price: u128,
        creator_address: String,
    ) -> (r: Result<(), RuneError>)
        requires
            old(self).wf(),
            price > 0,
        ensures
            final(self).wf(),
            r == Err::<(), RuneError>(RuneError::Unauthorized) <==> caller@ != old(self).admin@,
            r == Err::<(), RuneError>(RuneError::DuplicateTicker) <==> (caller@ == old(self).admin@
                && old(self).has_ticker(ticker@)),
            r is Err ==> Contract::unchanged(*old(self), *final(self)),
            r is Err ==> (r == Err::<(), RuneError>(RuneError::Unauthorized) || r == Err::<
                (),
                RuneError,
            >(RuneError::DuplicateTicker)),
            r is Ok && launch_type@ != "FixedPrice"@ ==> Contract::unchanged(*old(self), *final(self)),
            r is Ok && launch_type@ == "FixedPrice"@ ==> {
                &&& final(self).runes@.drop_last() == old(self).runes@
                &&& final(self).runes@.len() == old(self).runes@.len() + 1
                &&& final(self).runes@.last().is_fresh(ticker, LaunchType::FixedPrice, total, price, creator_address)
                &&& final(self).mpc_contract == old(self).mpc_contract
                &&& final(self).usdt_contract == old(self).usdt_contract
                &&& final(self).admin == old(self).admin
                &&& final(self).user_runes == old(self).user_runes
            },
    {
        if *caller != self.admin {
            return Err(RuneError::Unauthorized);
        }
        if self.find_rune(&ticker).is_some() {
            return Err(RuneError::DuplicateTicker);
        }
        let fixed_price = "FixedPrice".to_owned();
        if launch_type == fixed_price {
            let ghost before = self.runes@;
            let rune = Rune::new(ticker.clone(), LaunchType::FixedPrice, total, price, creator_address);
            self.runes.push(rune);
            assert(self.runes@.drop_last() =~= before);
            assert forall|i: int| 0 <= i < self.runes@.len() implies (#[trigger] self.runes@[i]).wf() by {
                if i < before.len() {
                    assert(before[i].wf());
                }
            }
            assert forall|k: int, j: int|
                0 <= k < self.runes@.len() && 0 <= j < self.runes@.len() && (#[trigger] self.runes@[k]).ticker@
                    == (#[trigger] self.runes@[j]).ticker@ implies k == j by {
                if k < before.len() && j == before.len() {
                    assert(before[k].ticker@ == ticker@);
                }
                if j < before.len() && k == before.len() {
                    assert(before[j].ticker@ == ticker@);
                }
                if k < before.len() && j < before.len() {
                    assert(before[k] == self.runes@[k] && before[j] == self.runes@[j]);
                }
            }
            assert forall|a: Seq<char>, t: Seq<char>| #[trigger] self.user_runes.has(a, t) implies self.has_ticker(t) by {
                assert(old(self).has_ticker(t));
                let k = choose|k: int| 0 <= k < before.len() && #[trigger] before[k].ticker@ == t;
                assert(self.runes@[k].ticker@ == t);
            }
        }
        Ok(())
    }

    /// Sets the quantity of the rune `ticker` held by `account_id` to zero,
    /// for settlement elsewhere, and returns what it was. Only the admin may.
    /// When something was taken, the rune leaves the account's index.
    pub fn withdraw(&mut self, caller: &String, ticker: String, account_id: String) -> (r: Result<u128, RuneError>)
        requires
            old(self).wf(),
        ensures
            final(self).wf(),
            r == Err::<u128, RuneError>(RuneError::Unauthorized) <==> caller@ != old(self).admin@,
            r == Err::<u128, RuneError>(RuneError::UnknownTicker) <==> (caller@ == old(self).admin@
                && !old(self).has_ticker(ticker@)),
            r is Err ==> Contract::unchanged(*old(self), *final(self)),
            r is Err ==> (r == Err::<u128, RuneError>(RuneError::Unauthorized) || r == Err::<
                u128,
                RuneError,
            >(RuneError::UnknownTicker)),
            r matches Ok(taken) ==> {
                let i = old(self).index_of(ticker@);
                &&& Rune::withdrawn_from(old(self).rune(ticker@), final(self).runes@[i], account_id@, taken)
                &&& Contract::replaced(*old(self), *final(self), i, final(self).runes@[i])
                &&& taken == 0 ==> final(self).user_runes == old(self).user_runes
                &&& taken > 0 ==> forall|a: Seq<char>, t: Seq<char>|
                    #[trigger] final(self).user_runes.has(a, t) == (old(self).user_runes.has(a, t)
                        && !(a == account_id@ && t == ticker@))
            },
    {
        if *caller != self.admin {
            return Err(RuneError::Unauthorized);
        }
        let i = match self.find_rune(&ticker) {
            Some(i) => i,
            None => return Err(RuneError::UnknownTicker),
        };
        let ghost before = self.runes@;
        let amount = self.runes[i].withdraw(&account_id);
        proof {
            lemma_replace_rune(before, i as int, self.runes@[i as int]);
            assert(self.runes@ == before.update(i as int, self.runes@[i as int]));
        }
        if amount > 0 {
            self.user_runes.remove(&account_id, &ticker);
        }
        proof {
            assert forall|a: Seq<char>, t: Seq<char>| #[trigger] self.user_runes.has(a, t) implies self.has_ticker(t) by {
                assert(old(self).user_runes.has(a, t));
                assert(registered(before, t));
            }
        }
        Ok(amount)
    }

    /// What a creator withdrawal by `caller` did to the state, and what it
    /// returned.
    pub open spec fn creator_withdrawn(
        before: Contract,
        after: Contract,
        caller: Seq<char>,
        ticker: Seq<char>,
        r: Result<CreatorPayout, RuneError>,
    ) -> bool {
        &&& (r == Err::<CreatorPayout, RuneError>(RuneError::UnknownTicker)) == !before.has_ticker(ticker)
        &&& (r == Err::<CreatorPayout, RuneError>(RuneError::Unauthorized)) == (before.has_ticker(ticker)
            && caller != before.rune(ticker).creator_address@)
        &&& r is Err ==> Contract::unchanged(before, after)
        &&& r is Err ==> (r == Err::<CreatorPayout, RuneError>(RuneError::UnknownTicker) || r
            == Err::<CreatorPayout, RuneError>(RuneError::Unauthorized))
        &&& r matches Ok(p) ==> {
            let i = before.index_of(ticker);
            &&& Rune::creator_debited(before.rune(ticker), after.runes@[i], p.amount)
            &&& Contract::replaced(before, after, i, after.runes@[i])
            &&& after.user_runes == before.user_runes
            &&& p.transfer == if p.amount > 0 {
                Some(
                    TokenTransfer {
                        token: before.usdt_contract,
                        receiver: before.rune(ticker).creator_address,
                        amount: p.amount,
                    },
                )
            } else {
                None
            }
        }
    }

    /// Empties the escrow of the rune `ticker` for its creator, who alone may
    /// call, and returns what it held with the transfer to request for it.
    /// Nothing is to be transferred when the escrow was empty.
    pub fn creator_withdraw(&mut self, caller: &String, ticker: String) -> (r: Result<CreatorPayout, RuneError>)
        requires
            old(self).wf(),
        ensures
            final(self).wf(),
            Contract::creator_withdrawn(*old(self), *final(self), caller@, ticker@, r),
    {
        let i = match self.find_rune(&ticker) {
            Some(i) => i,
            None => return Err(RuneError::UnknownTicker),
        };
        if self.runes[i].creator_address != *caller {
            return Err(RuneError::Unauthorized);
        }
        let ghost before = self.runes@;
        let amount = self.runes[i].creator_withdraw();
        proof {
            assert(before[i as int].wf());
            lemma_replace_rune(before, i as int, self.runes@[i as int]);
            assert(self.runes@ == before.update(i as int, self.runes@[i as int]));
            assert forall|a: Seq<char>, t: Seq<char>| #[trigger] self.user_runes.has(a, t) implies self.has_ticker(t) by {
                assert(registered(before, t));
            }
        }
        let transfer = if amount > 0 {
            Some(
                TokenTransfer {
                    token: self.usdt_contract.clone(),
                    receiver: self.runes[i].creator_address.clone(),
                    amount,
                },
            )
        } else {
            None
        };
        Ok(CreatorPayout { amount, transfer })
    }

    /// What the outcome of a creator's transfer did to the state, and what
    /// was returned.
    pub open spec fn transfer_settled(
        before: Contract,
        after: Contract,
        ticker: Seq<char>,
        amount: u128,
        transfer_succeeded: bool,
        r: Result<(), RuneError>,
    ) -> bool {
        &&& (r == Err::<(), RuneError>(RuneError::UnknownTicker)) == (!transfer_succeeded
            && !before.has_ticker(ticker))
        &&& (r == Err::<(), RuneError>(RuneError::AmountOverflow)) == (!transfer_succeeded
            && before.has_ticker(ticker) && before.rune(ticker).creator_balance + amount > u128::MAX)
        &&& (r is Err || transfer_succeeded) ==> Contract::unchanged(before, after)
        &&& r is Err ==> (r == Err::<(), RuneError>(RuneError::UnknownTicker) || r == Err::<
            (),
            RuneError,
        >(RuneError::AmountOverflow))
        &&& (r is Ok && !transfer_succeeded) ==> {
            let i = before.index_of(ticker);
            &&& Rune::creator_credited(before.rune(ticker), after.runes@[i], amount)
            &&& Contract::replaced(before, after, i, after.runes@[i])
            &&& after.user_runes == before.user_runes
        }
    }

    /// Takes the outcome of the transfer of `amount` to the creator of the
    /// rune `ticker`: a failed transfer is credited back to the escrow.
    pub fn on_creator_withdraw(&mut self, ticker: String, amount: u128, transfer_succeeded: bool) -> (r: Result<(), RuneError>)
        requires
            old(self).wf(),
        ensures
            final(self).wf(),
            Contract::transfer_settled(*old(self), *final(self), ticker@, amount, transfer_succeeded, r),
    {
        if transfer_succeeded {
            return Ok(());
        }
        let i = match self.find_rune(&ticker) {
            Some(i) => i,
            None => return Err(RuneError::UnknownTicker),
        };
        if amount > u128::MAX - self.runes[i].creator_balance {
            return Err(RuneError::AmountOverflow);
        }
        let ghost before = self.runes@;
        self.runes[i].creator_withdraw_failed(amount);
        proof {
            assert(before[i as int].wf());
            lemma_replace_rune(before, i as int, self.runes@[i as int]);
            assert(self.runes@ == before.update(i as int, self.runes@[i as int]));
            assert forall|a: Seq<char>, t: Seq<char>| #[trigger] self.user_runes.has(a, t) implies self.has_ticker(t) by {
                assert(registered(before, t));
            }
        }
        Ok(())
    }

    /// Public view of the rune `ticker`.
    pub fn get_rune(&self, ticker: String) -> (r: Result<RuneOutput, RuneError>)
        requires
            self.wf(),
        ensures
            r is Err <==> !self.has_ticker(ticker@),
            r matches Err(e) ==> e == RuneError::UnknownTicker,
            r matches Ok(o) ==> o.describes(self.rune(ticker@)),
    {
        match self.find_rune(&ticker) {
            Some(i) => Ok(self.runes[i].output()),
            None => Err(RuneError::UnknownTicker),
        }
    }

    /// Public views of the registered runes: `from_index` of them skipped,
    /// then at most `limit` (ten when none is given), in registry order.
    pub fn get_runes(&self, from_index: u64, limit: Option<u64>) -> (r: Vec<RuneOutput>)
        ensures
            r@.len() == page_len(self.runes@.len() as int, from_index as int, limit_or_default(limit)),
            forall|k: int| 0 <= k < r@.len() ==> (#[trigger] r@[k]).describes(self.runes@[from_index + k]),
    {
        let lim: u64 = match limit {
            Some(l) => l,
            None => DEFAULT_PAGE_LIMIT,
        };
        let mut out: Vec<RuneOutput> = Vec::new();
        let mut i: usize = 0;
        while i < self.runes.len()
            invariant
                i <= self.runes@.len(),
                lim == limit_or_default(limit),
                out@.len() == page_len(i as int, from_index as int, lim as int),
                forall|k: int| 0 <= k < out@.len() ==> (#[trigger] out@[k]).describes(self.runes@[from_index + k]),
            decreases self.runes@.len() - i,
        {
            if (i as u128) >= (from_index as u128) && (out.len() as u128) < (lim as u128) {
                out.push(self.runes[i].output());
            }
            i = i + 1;
        }
        out
    }

    /// Quantity of the rune `ticker` held by `account_id`.
    pub fn get_rune_balance(&self, ticker: String, account_id: String) -> (r: Result<u128, RuneError>)
        requires
            self.wf(),
        ensures
            r is Err <==> !self.has_ticker(ticker@),
            r matches Err(e) ==> e == RuneError::UnknownTicker,
            r matches Ok(v) ==> v == self.balance_of(ticker@, account_id@),
    {
        match self.find_rune(&ticker) {
            Some(i) => Ok(self.runes[i].get_balance(&account_id)),
            None => Err(RuneError::UnknownTicker),
        }
    }

    /// Quantities held by `account_id` of the runes indexed for it:
    /// `from_index` of them skipped, then at most `limit` (ten when none is
    /// given), each read from its rune.
    pub fn get_rune_balances(&self, from_index: u64, limit: Option<u64>, account_id: String) -> (r: Vec<RuneBalance>)
        requires
            self.wf(),
        ensures
            ({
                let held = self.user_runes.held(account_id@);
                &&& r@.len() == page_len(held.len() as int, from_index as int, limit_or_default(limit))
                &&& forall|k: int| 0 <= k < r@.len() ==> {
                    &&& (#[trigger] r@[k]).ticker == held[from_index + k]
                    &&& r@[k].balance == self.balance_of(held[from_index + k]@, account_id@)
                }
            }),
    {
        let lim: u64 = match limit {
            Some(l) => l,
            None => DEFAULT_PAGE_LIMIT,
        };
        let tickers = self.user_runes.tickers_of(&account_id);
        proof {
            lemma_tickers_in_paired(self.user_runes.pairs@, account_id@);
        }
        let mut out: Vec<RuneBalance> = Vec::new();
        let mut i: usize = 0;
        while i < tickers.len()
            invariant
                self.wf(),
                i <= tickers@.len(),
                tickers@ == self.user_runes.held(account_id@),
                forall|k: int| 0 <= k < tickers@.len() ==> self.user_runes.has(account_id@, (#[trigger] tickers@[k])@),
                lim == limit_or_default(limit),
                out@.len() == page_len(i as int, from_index as int, lim as int),
                forall|k: int| 0 <= k < out@.len() ==> {
                    &&& (#[trigger] out@[k]).ticker == tickers@[from_index + k]
                    &&& out@[k].balance == self.balance_of(tickers@[from_index + k]@, account_id@)
                },
            decreases tickers@.len() - i,
        {
            if (i as u128) >= (from_index as u128) && (out.len() as u128) < (lim as u128) {
                let ticker = &tickers[i];
                assert(self.user_runes.has(account_id@, tickers@[i as int]@));
                let j = self.find_rune(ticker).unwrap();
                let balance = self.runes[j].get_balance(&account_id);
                out.push(RuneBalance { ticker: ticker.clone(), balance });
            }
            i = i + 1;
        }
        out
    }

    /// A launchpad with no runes, administered by `admin` and trusting the
    /// testnet signature and payment-token services.
    pub fn new_default(admin: String) -> (r: Self)
        ensures
            r.wf(),
            r.runes@.len() == 0,
            r.mpc_contract@ == "signer.canhazgas.testnet"@,
            r.admin == admin,
            r.usdt_contract@ == "wrap.testnet"@,
            forall|a: Seq<char>, t: Seq<char>| !#[trigger] r.user_runes.has(a, t),
    {
        Self::new("signer.canhazgas.testnet".to_owned(), admin, "wrap.testnet".to_owned())
    }

    /// The state as it is after an upgrade from `old_state`: everything
    /// carried over and an empty holder index.
    pub fn migrate(old_state: OldContract) -> (r: Self)
        requires
            registry_wf(old_state.runes@),
        ensures
            r.wf(),
            r.runes == old_state.runes,
            r.mpc_contract == old_state.mpc_contract,
            r.usdt_contract == old_state.usdt_contract,
            r.admin == old_state.admin,
            forall|a: Seq<char>, t: Seq<char>| !#[trigger] r.user_runes.has(a, t),
    {
        Contract {
            runes: old_state.runes,
            mpc_contract: old_state.mpc_contract,
            usdt_contract: old_state.usdt_contract,
            admin: old_state.admin,
            user_runes: HolderIndex::new(),
        }
    }

    /// Replaces the signature service's account. Only the admin may.
    pub fn change_mpc_contract(&mut self, caller: &String, mpc_contract: String) -> (r: Result<(), RuneError>)
        ensures
            r is Err <==> caller@ != old(self).admin@,
            r matches Err(e) ==> e == RuneError::Unauthorized && *final(self) == *old(self),
            r is Ok ==> *final(self) == (Contract { mpc_contract, ..*old(self) }),
    {
        if *caller != self.admin {
            return Err(RuneError::Unauthorized);
        }
        self.mpc_contract = mpc_contract;
        Ok(())
    }

    /// The request to the signature service for `payload`, signed under the
    /// address derived from `ticker`. Only the admin may ask. No state is
    /// read but the service's account.
    pub fn sign(&self, caller: &String, payload: Vec<u8>, ticker: String, key_version: u32) -> (r: Result<SignRequest, RuneError>)
        ensures
            r is Err <==> caller@ != self.admin@,
            r matches Err(e) ==> e == RuneError::Unauthorized,
            r matches Ok(q) ==> q == (SignRequest { signer: self.mpc_contract, payload, path: ticker }),
    {
        if *caller != self.admin {
            return Err(RuneError::Unauthorized);
        }
        Ok(SignRequest { signer: self.mpc_contract.clone(), payload, path: ticker })
    }
}

/// A second creator withdrawal of the same rune, made before any failed
/// transfer is credited back, takes nothing and asks for no transfer.
pub proof fn lemma_second_creator_withdraw_is_empty(
    c0: Contract,
    c1: Contract,
    c2: Contract,
    caller: Seq<char>,
    ticker: Seq<char>,
    first: CreatorPayout,
    second: Result<CreatorPayout, RuneError>,
)
    requires
        c0.wf(),
        c1.wf(),
        Contract::creator_withdrawn(c0, c1, caller, ticker, Ok(first)),
        Contract::creator_withdrawn(c1, c2, caller, ticker, second),
    ensures
        second matches Ok(p) && p.amount == 0 && p.transfer is None,
{
    let i = c0.index_of(ticker);
    c0.lemma_index_of(i);
    assert(c1.runes@[i].ticker == c0.runes@[i].ticker);
    c1.lemma_index_of(i);
}

/// When the transfer asked for by a creator withdrawal fails, crediting it
/// back succeeds and leaves the registry exactly as it was before the
/// withdrawal.
pub proof fn lemma_failed_transfer_is_compensated(
    c0: Contract,
    c1: Contract,
    c2: Contract,
    caller: Seq<char>,
    ticker: Seq<char>,
    payout: CreatorPayout,
    settled: Result<(), RuneError>,
)
    requires
        c0.wf(),
        c1.wf(),
        Contract::creator_withdrawn(c0, c1, caller, ticker, Ok(payout)),
        Contract::transfer_settled(c1, c2, ticker, payout.amount, false, settled),
    ensures
        settled is Ok,
        c2.runes@ == c0.runes@,
        c2.user_runes == c0.user_runes,
{
    let i = c0.index_of(ticker);
    c0.lemma_index_of(i);
    assert(c1.runes@[i].ticker == c0.runes@[i].ticker);
    c1.lemma_index_of(i);
    assert(c2.runes@[i] == c0.runes@[i]);
    assert(c2.runes@ =~= c0.runes@);
}

} // verus!
