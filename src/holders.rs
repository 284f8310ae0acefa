//! Index from accounts to the tickers they hold or have held a claim in,
//! kept so that an account's balances can be listed without walking the
//! whole registry. It carries no quantities.

use vstd::prelude::*;

verus! {

/// Tickers paired with `account` in `pairs`, in the order of the pairs.
pub open spec fn tickers_in(pairs: Seq<(String, String)>, account: Seq<char>) -> Seq<String>
    decreases pairs.len(),
{
    if pairs.len() == 0 {
        Seq::empty()
    } else if pairs.last().0@ == account {
        tickers_in(pairs.drop_last(), account).push(pairs.last().1)
    } else {
        tickers_in(pairs.drop_last(), account)
    }
}

/// Whether `pairs` pairs `account` with `ticker`.
pub open spec fn pair_in(pairs: Seq<(String, String)>, account: Seq<char>, ticker: Seq<char>) -> bool {
    exists|j: int| 0 <= j < pairs.len() && #[trigger] pairs[j].0@ == account && pairs[j].1@ == ticker
}

proof fn lemma_pair_in_push(
    pairs: Seq<(String, String)>,
    p: (String, String),
    account: Seq<char>,
    ticker: Seq<char>,
)
    ensures
        pair_in(pairs.push(p), account, ticker) == (pair_in(pairs, account, ticker) || (p.0@
            == account && p.1@ == ticker)),
{
    let pushed = pairs.push(p);
    if pair_in(pairs, account, ticker) {
        let j = choose|j: int|
            0 <= j < pairs.len() && #[trigger] pairs[j].0@ == account && pairs[j].1@ == ticker;
        assert(pushed[j] == pairs[j]);
    }
    if p.0@ == account && p.1@ == ticker {
        assert(pushed[pairs.len() as int] == p);
    }
    if pair_in(pushed, account, ticker) {
        let j = choose|j: int|
            0 <= j < pushed.len() && #[trigger] pushed[j].0@ == account && pushed[j].1@ == ticker;
        if j < pairs.len() {
            assert(pushed[j] == pairs[j]);
        }
    }
}

/// Every ticker listed for `account` is paired with it.
pub proof fn lemma_tickers_in_paired(pairs: Seq<(String, String)>, account: Seq<char>)
    ensures
        forall|k: int|
            0 <= k < tickers_in(pairs, account).len() ==> pair_in(
                pairs,
                account,
                (#[trigger] tickers_in(pairs, account)[k])@,
            ),
    decreases pairs.len(),
{
    if pairs.len() > 0 {
        let rest = pairs.drop_last();
        lemma_tickers_in_paired(rest, account);
        assert forall|k: int|
            0 <= k < tickers_in(pairs, account).len() implies pair_in(
                pairs,
                account,
                (#[trigger] tickers_in(pairs, account)[k])@,
            ) by {
            let t = tickers_in(pairs, account)[k];
            if k < tickers_in(rest, account).len() {
                assert(t == tickers_in(rest, account)[k]);
                let j = choose|j: int|
                    0 <= j < rest.len() && #[trigger] rest[j].0@ == account && rest[j].1@ == t@;
                assert(pairs[j] == rest[j]);
            } else {
                assert(pairs[pairs.len() - 1].0@ == account);
            }
        }
    }
}

/// Pairs of an account and a ticker it holds a claim in.
pub struct HolderIndex {
    pub pairs: Vec<(String, String)>,
}

impl HolderIndex {
    /// Whether `ticker` is indexed for `account`.
    pub open spec fn has(&self, account: Seq<char>, ticker: Seq<char>) -> bool {
        pair_in(self.pairs@, account, ticker)
    }

    /// Tickers indexed for `account`, in the order in which they were added.
    pub open spec fn held(&self, account: Seq<char>) -> Seq<String> {
        tickers_in(self.pairs@, account)
    }

    /// An index that holds nothing.
    pub fn new() -> (r: Self)
        ensures
            forall|a: Seq<char>, t: Seq<char>| !#[trigger] r.has(a, t),
            forall|a: Seq<char>| #[trigger] r.held(a) == Seq::<String>::empty(),
    {
        HolderIndex { pairs: Vec::new() }
    }

    /// Whether `ticker` is indexed for `account`.
    pub fn contains(&self, account: &String, ticker: &String) -> (r: bool)
        ensures
            r == self.has(account@, ticker@),
    {
        let mut i: usize = 0;
        while i < self.pairs.len()
            invariant
                i <= self.pairs@.len(),
                forall|j: int|
                    0 <= j < i ==> !(self.pairs@[j].0@ == account@ && self.pairs@[j].1@ == ticker@),
            decreases self.pairs@.len() - i,
        {
            if self.pairs[i].0 == *account && self.pairs[i].1 == *ticker {
                assert(self.pairs@[i as int].0@ == account@);
                return true;
            }
            i = i + 1;
        }
        false
    }

    /// Indexes `ticker` for `account`; adding a pair twice keeps one.
    pub fn add(&mut self, account: &String, ticker: &String)
        ensures
            forall|a: Seq<char>, t: Seq<char>|
                #[trigger] final(self).has(a, t) == (old(self).has(a, t) || (a == account@ && t
                    == ticker@)),
            old(self).has(account@, ticker@) ==> *final(self) == *old(self),
    {
        if !self.contains(account, ticker) {
            let pair = (account.clone(), ticker.clone());
            let ghost before = self.pairs@;
            self.pairs.push(pair);
            assert forall|a: Seq<char>, t: Seq<char>|
                #[trigger] self.has(a, t) == (old(self).has(a, t) || (a == account@ && t
                    == ticker@)) by {
                lemma_pair_in_push(before, pair, a, t);
            }
        }
    }

    /// Removes `ticker` from what is indexed for `account`.
    pub fn remove(&mut self, account: &String, ticker: &String)
        ensures
            forall|a: Seq<char>, t: Seq<char>|
                #[trigger] final(self).has(a, t) == (old(self).has(a, t) && !(a == account@ && t
                    == ticker@)),
    {
        let mut kept: Vec<(String, String)> = Vec::new();
        let mut i: usize = 0;
        while i < self.pairs.len()
            invariant
                i <= self.pairs@.len(),
                forall|a: Seq<char>, t: Seq<char>|
                    #[trigger] pair_in(kept@, a, t) == (pair_in(self.pairs@.subrange(0, i as int), a, t)
                        && !(a == account@ && t == ticker@)),
            decreases self.pairs@.len() - i,
        {
            let ghost before = kept@;
            let ghost seen = self.pairs@.subrange(0, i as int);
            assert(self.pairs@.subrange(0, i + 1) =~= seen.push(self.pairs@[i as int]));
            if !(self.pairs[i].0 == *account && self.pairs[i].1 == *ticker) {
                let pair = (self.pairs[i].0.clone(), self.pairs[i].1.clone());
                kept.push(pair);
            }
            assert forall|a: Seq<char>, t: Seq<char>|
                #[trigger] pair_in(kept@, a, t) == (pair_in(self.pairs@.subrange(0, i + 1), a, t)
                    && !(a == account@ && t == ticker@)) by {
                lemma_pair_in_push(seen, self.pairs@[i as int], a, t);
                if kept@.len() > before.len() {
                    assert(kept@ == before.push(kept@.last()));
                    lemma_pair_in_push(before, kept@.last(), a, t);
                }
            }
            i = i + 1;
        }
        assert(self.pairs@.subrange(0, i as int) =~= self.pairs@);
        self.pairs = kept;
    }

    /// Tickers indexed for `account`, in the order in which they were added.
    pub fn tickers_of(&self, account: &String) -> (r: Vec<String>)
        ensures
            r@ == self.held(account@),
    {
        let mut r: Vec<String> = Vec::new();
        let mut i: usize = 0;
        while i < self.pairs.len()
            invariant
                i <= self.pairs@.len(),
                r@ == tickers_in(self.pairs@.subrange(0, i as int), account@),
            decreases self.pairs@.len() - i,
        {
            assert(self.pairs@.subrange(0, i + 1).drop_last() =~= self.pairs@.subrange(0, i as int));
            if self.pairs[i].0 == *account {
                r.push(self.pairs[i].1.clone());
            }
            i = i + 1;
        }
        assert(self.pairs@.subrange(0, i as int) =~= self.pairs@);
        r
    }
}

} // verus!
