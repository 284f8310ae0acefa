//! Per-account rune quantities of one rune, as a list of entries in which the
//! last entry for an account is the one that counts.

use vstd::prelude::*;

verus! {

/// Quantity recorded for `account` in `entries`: the last entry with that
/// key wins, and an account with no entry holds zero.
pub open spec fn amount_in(entries: Seq<(String, u128)>, account: Seq<char>) -> u128
    decreases entries.len(),
{
    if entries.len() == 0 {
        0
    } else if entries.last().0@ == account {
        entries.last().1
    } else {
        amount_in(entries.drop_last(), account)
    }
}

proof fn lemma_amount_absent(entries: Seq<(String, u128)>, account: Seq<char>)
    requires
        forall|j: int| 0 <= j < entries.len() ==> entries[j].0@ != account,
    ensures
        amount_in(entries, account) == 0,
    decreases entries.len(),
{
    if entries.len() > 0 {
        lemma_amount_absent(entries.drop_last(), account);
    }
}

proof fn lemma_amount_at(entries: Seq<(String, u128)>, i: int, account: Seq<char>)
    requires
        0 <= i < entries.len(),
        entries[i].0@ == account,
        forall|j: int| i < j < entries.len() ==> entries[j].0@ != account,
    ensures
        amount_in(entries, account) == entries[i].1,
    decreases entries.len(),
{
    if i < entries.len() - 1 {
        lemma_amount_at(entries.drop_last(), i, account);
    }
}

proof fn lemma_amount_update(
    entries: Seq<(String, u128)>,
    i: int,
    e: (String, u128),
    other: Seq<char>,
)
    requires
        0 <= i < entries.len(),
        entries[i].0@ == e.0@,
        forall|j: int| i < j < entries.len() ==> entries[j].0@ != e.0@,
    ensures
        amount_in(entries.update(i, e), other) == if other == e.0@ {
            e.1
        } else {
            amount_in(entries, other)
        },
    decreases entries.len(),
{
    let updated = entries.update(i, e);
    if other == e.0@ {
        lemma_amount_at(updated, i, other);
    } else if i == entries.len() - 1 {
        assert(updated.drop_last() =~= entries.drop_last());
    } else {
        assert(updated.drop_last() =~= entries.drop_last().update(i, e));
        lemma_amount_update(entries.drop_last(), i, e, other);
    }
}

proof fn lemma_amount_push(entries: Seq<(String, u128)>, e: (String, u128), other: Seq<char>)
    ensures
        amount_in(entries.push(e), other) == if other == e.0@ {
            e.1
        } else {
            amount_in(entries, other)
        },
{
    assert(entries.push(e).drop_last() =~= entries);
}

proof fn lemma_amount_bounded(entries: Seq<(String, u128)>, bound: u128, account: Seq<char>)
    requires
        forall|j: int| 0 <= j < entries.len() ==> #[trigger] entries[j].1 <= bound,
    ensures
        amount_in(entries, account) <= bound,
    decreases entries.len(),
{
    if entries.len() > 0 {
        assert(entries[entries.len() - 1].1 <= bound);
        lemma_amount_bounded(entries.drop_last(), bound, account);
    }
}

/// Rune quantities held by accounts; an account never recorded holds zero.
pub struct BalanceTable {
    pub entries: Vec<(String, u128)>,
}

impl BalanceTable {
    /// Quantity held by `account`.
    pub open spec fn spec_get(&self, account: Seq<char>) -> u128 {
        amount_in(self.entries@, account)
    }

    /// A table in which every account holds zero.
    pub fn new() -> (r: Self)
        ensures
            forall|a: Seq<char>| #[trigger] r.spec_get(a) == 0,
    {
        BalanceTable { entries: Vec::new() }
    }

    fn find(&self, account: &String) -> (r: Option<usize>)
        ensures
            match r {
                Some(i) => {
                    &&& i < self.entries@.len()
                    &&& self.entries@[i as int].0@ == account@
                    &&& forall|j: int|
                        i < j < self.entries@.len() ==> self.entries@[j].0@ != account@
                },
                None => forall|j: int|
                    0 <= j < self.entries@.len() ==> self.entries@[j].0@ != account@,
            },
    {
        let mut i: usize = self.entries.len();
        while i > 0
            invariant
                i <= self.entries@.len(),
                forall|j: int| i <= j < self.entries@.len() ==> self.entries@[j].0@ != account@,
            decreases i,
        {
            i = i - 1;
            if self.entries[i].0 == *account {
                return Some(i);
            }
        }
        None
    }

    /// Whether no entry exceeds `bound`; when none does, no account holds
    /// more than `bound`.
    pub fn all_at_most(&self, bound: u128) -> (r: bool)
        ensures
            r ==> forall|a: Seq<char>| #[trigger] self.spec_get(a) <= bound,
            (forall|j: int| 0 <= j < self.entries@.len() ==> #[trigger] self.entries@[j].1 <= bound) ==> r,
    {
        let mut i: usize = 0;
        while i < self.entries.len()
            invariant
                i <= self.entries@.len(),
                forall|j: int| 0 <= j < i ==> #[trigger] self.entries@[j].1 <= bound,
            decreases self.entries@.len() - i,
        {
            if self.entries[i].1 > bound {
                return false;
            }
            i = i + 1;
        }
        assert forall|a: Seq<char>| #[trigger] self.spec_get(a) <= bound by {
            lemma_amount_bounded(self.entries@, bound, a);
        }
        true
    }

    /// Quantity held by `account`, zero when it was never recorded.
    pub fn get(&self, account: &String) -> (r: u128)
        ensures
            r == self.spec_get(account@),
    {
        match self.find(account) {
            Some(i) => {
                proof {
                    lemma_amount_at(self.entries@, i as int, account@);
                }
                self.entries[i].1
            },
            None => {
                proof {
                    lemma_amount_absent(self.entries@, account@);
                }
                0
            },
        }
    }

    /// Records `value` as the quantity of `account`, leaving every other
    /// account as it was.
    pub fn set(&mut self, account: &String, value: u128)
        ensures
            final(self).spec_get(account@) == value,
            forall|b: Seq<char>|
                b != account@ ==> #[trigger] final(self).spec_get(b) == old(self).spec_get(b),
    {
        let e = (account.clone(), value);
        match self.find(account) {
            Some(i) => {
                proof {
                    assert forall|b: Seq<char>|
                        amount_in(self.entries@.update(i as int, e), b) == if b == e.0@ {
                            e.1
                        } else {
                            amount_in(self.entries@, b)
                        } by {
                        lemma_amount_update(self.entries@, i as int, e, b);
                    }
                }
                self.entries.set(i, e);
            },
            None => {
                proof {
                    assert forall|b: Seq<char>|
                        amount_in(self.entries@.push(e), b) == if b == e.0@ {
                            e.1
                        } else {
                            amount_in(self.entries@, b)
                        } by {
                        lemma_amount_push(self.entries@, e, b);
                    }
                }
                self.entries.push(e);
            },
        }
    }
}

} // verus!
