use vstd::prelude::*;
use vstd::string::StringExecFns;

use crate::error::ContractError;
use crate::order::str_cmp;
use crate::randomness::derive_prize_index;
use crate::randomness::nois_pick;

verus! {

/// A per-account points record: total points ever earned and total points
/// ever spent. Both only grow; the available balance is their difference.
#[derive(Clone, Copy, Debug, PartialEq, Eq, Structural)]
pub struct Points {
    pub lifetime_balance: u64,
    pub spent_balance: u64,
}

impl Points {
    /// A record never spends more than it has earned.
    pub open spec fn wf(self) -> bool {
        self.spent_balance <= self.lifetime_balance
    }

    /// Points still available to spend.
    pub open spec fn available(self) -> int {
        self.lifetime_balance - self.spent_balance
    }
}

/// One row of the ledger: an account identity with its points record.
pub struct BalanceEntry {
    pub account: String,
    pub points: Points,
}

/// No account appears twice in the ledger.
pub open spec fn unique_accounts(s: Seq<BalanceEntry>) -> bool {
    forall|i: int, j: int| 0 <= i < j < s.len() ==> s[i].account@ != s[j].account@
}

/// Every account is listed once and every record is well formed.
pub open spec fn balances_wf(s: Seq<BalanceEntry>) -> bool {
    &&& unique_accounts(s)
    &&& forall|i: int| 0 <= i < s.len() ==> (#[trigger] s[i]).points.wf()
}

/// The ledger holds a record for this account.
pub open spec fn has_account(s: Seq<BalanceEntry>, a: Seq<char>) -> bool {
    exists|i: int| 0 <= i < s.len() && s[i].account@ == a
}

/// The position of this account's record; meaningful when `has_account`.
pub open spec fn account_index(s: Seq<BalanceEntry>, a: Seq<char>) -> int {
    choose|i: int| 0 <= i < s.len() && s[i].account@ == a
}

/// The points record of this account; meaningful when `has_account`.
pub open spec fn balance_of(s: Seq<BalanceEntry>, a: Seq<char>) -> Points {
    s[account_index(s, a)].points
}

/// The account's lifetime balance, or zero if it has no record yet.
pub open spec fn lifetime_or_zero(s: Seq<BalanceEntry>, a: Seq<char>) -> int {
    if has_account(s, a) {
        balance_of(s, a).lifetime_balance as int
    } else {
        0
    }
}

/// The account's spent balance, or zero if it has no record yet.
pub open spec fn spent_or_zero(s: Seq<BalanceEntry>, a: Seq<char>) -> int {
    if has_account(s, a) {
        balance_of(s, a).spent_balance as int
    } else {
        0
    }
}

/// The account's available balance; meaningful when `has_account`.
pub open spec fn available_of(s: Seq<BalanceEntry>, a: Seq<char>) -> int {
    balance_of(s, a).available()
}

/// Account `a` is held identically by the two ledgers: present in one
/// exactly when present in the other, and with the same record.
pub open spec fn same_account(s1: Seq<BalanceEntry>, s2: Seq<BalanceEntry>, a: Seq<char>) -> bool {
    &&& has_account(s2, a) == has_account(s1, a)
    &&& (has_account(s1, a) ==> balance_of(s2, a) == balance_of(s1, a))
}

/// With unique accounts, any row holding the account is the row that
/// `account_index` names.
pub proof fn lemma_balance_at(s: Seq<BalanceEntry>, i: int)
    requires
        unique_accounts(s),
        0 <= i < s.len(),
    ensures
        has_account(s, s[i].account@),
        account_index(s, s[i].account@) == i,
        balance_of(s, s[i].account@) == s[i].points,
{
    let a = s[i].account@;
    assert(has_account(s, a));
    let j = account_index(s, a);
    assert(0 <= j < s.len() && s[j].account@ == a);
    if i < j {
        assert(s[i].account@ != s[j].account@);
    } else if j < i {
        assert(s[j].account@ != s[i].account@);
    }
}

/// Rewriting one row in place, without renaming its account, leaves every
/// other account's record untouched.
pub proof fn lemma_same_after_update(s1: Seq<BalanceEntry>, s2: Seq<BalanceEntry>, i: int)
    requires
        unique_accounts(s1),
        0 <= i < s1.len(),
        s2.len() == s1.len(),
        s2[i].account@ == s1[i].account@,
        forall|j: int| 0 <= j < s1.len() && j != i ==> s2[j] == s1[j],
    ensures
        unique_accounts(s2),
        forall|a: Seq<char>| a != s1[i].account@ ==> #[trigger] same_account(s1, s2, a),
{
    assert forall|p: int, q: int| 0 <= p < q < s2.len() implies s2[p].account@ != s2[q].account@ by {
        assert(s2[p].account@ == s1[p].account@);
        assert(s2[q].account@ == s1[q].account@);
    }
    assert forall|a: Seq<char>| a != s1[i].account@ implies #[trigger] same_account(s1, s2, a) by {
        if has_account(s1, a) {
            let j = account_index(s1, a);
            assert(0 <= j < s1.len() && s1[j].account@ == a);
            assert(j != i);
            assert(s2[j].account@ == a);
            lemma_balance_at(s2, j);
            lemma_balance_at(s1, j);
        } else if has_account(s2, a) {
            let j = account_index(s2, a);
            assert(0 <= j < s2.len() && s2[j].account@ == a);
            assert(j != i);
            assert(s1[j].account@ == a);
            assert(has_account(s1, a));
        }
    }
}

/// Appending a fresh account leaves every existing account's record
/// untouched.
pub proof fn lemma_same_after_push(s1: Seq<BalanceEntry>, e: BalanceEntry)
    requires
        unique_accounts(s1),
        !has_account(s1, e.account@),
    ensures
        unique_accounts(s1.push(e)),
        forall|a: Seq<char>| a != e.account@ ==> #[trigger] same_account(s1, s1.push(e), a),
        has_account(s1.push(e), e.account@),
        balance_of(s1.push(e), e.account@) == e.points,
{
    let s2 = s1.push(e);
    assert forall|p: int, q: int| 0 <= p < q < s2.len() implies s2[p].account@ != s2[q].account@ by {
        if q < s1.len() {
            assert(s1[p].account@ != s1[q].account@);
        } else {
            assert(s2[q] == e);
            assert(s2[p] == s1[p]);
            assert(s1[p].account@ != e.account@) by {
                if s1[p].account@ == e.account@ {
                    assert(has_account(s1, e.account@));
                }
            }
        }
    }
    assert(s2[s1.len() as int] == e);
    lemma_balance_at(s2, s1.len() as int);
    assert forall|a: Seq<char>| a != e.account@ implies #[trigger] same_account(s1, s2, a) by {
        if has_account(s1, a) {
            let j = account_index(s1, a);
            assert(s2[j] == s1[j]);
            lemma_balance_at(s2, j);
            lemma_balance_at(s1, j);
        } else if has_account(s2, a) {
            let j = account_index(s2, a);
            assert(0 <= j < s2.len() && s2[j].account@ == a);
            assert(j < s1.len()) by {
                if j == s1.len() {
                    assert(s2[j] == e);
                }
            }
            assert(has_account(s1, a));
        }
    }
}

/// Finds the row holding this account, if any.
pub fn find_account(balances: &Vec<BalanceEntry>, account: &str) -> (r: Option<usize>)
    ensures
        match r {
            Some(i) => i < balances@.len() && balances@[i as int].account@ == account@,
            None => !has_account(balances@, account@),
        },
{
    let n: usize = balances.len();
    let mut i: usize = 0;
    while i < n
        invariant
            n == balances@.len(),
            i <= n,
            forall|k: int| 0 <= k < i ==> balances@[k].account@ != account@,
        decreases n - i,
    {
        if str_cmp(balances[i].account.as_str(), account) == 0 {
            return Some(i);
        }
        i = i + 1;
    }
    None
}

/// The whole persisted contract state: admin identity, descriptive fields,
/// the points ledger, the prize pool and the prize cost. The `locked` flag
/// and the `whitelist` are held but gate nothing.
pub struct State {
    pub admin: String,
    pub symbol: String,
    pub short_description: String,
    pub balances: Vec<BalanceEntry>,
    pub locked: bool,
    pub prize_pool: Vec<(String, String)>,
    pub prize_cost: u64,
    pub whitelist: Vec<String>,
}

impl State {
    /// The ledger lists each account once, and no account has spent more
    /// than it has earned.
    pub open spec fn wf(self) -> bool {
        balances_wf(self.balances@)
    }

    /// Everything but the ledger is the same in both states.
    pub open spec fn same_but_balances(self, other: State) -> bool {
        &&& other.admin@ == self.admin@
        &&& other.symbol@ == self.symbol@
        &&& other.short_description@ == self.short_description@
        &&& other.locked == self.locked
        &&& other.prize_pool@ == self.prize_pool@
        &&& other.prize_cost == self.prize_cost
        &&& other.whitelist@ == self.whitelist@
    }

    /// Grants `points` to `address`, creating the record on first grant.
    /// The grant is rejected, with nothing changed, exactly when it would
    /// overflow the lifetime balance.
    pub fn add_points(&mut self, address: &str, points: u64) -> (r: Result<(), ContractError>)
        requires
            old(self).wf(),
        ensures
            final(self).wf(),
            r is Ok <==> lifetime_or_zero(old(self).balances@, address@) + points <= u64::MAX,
            r is Err ==> r == Err::<(), ContractError>(ContractError::BalanceOverflow)
                && *final(self) == *old(self),
            r is Ok ==> {
                &&& has_account(final(self).balances@, address@)
                &&& balance_of(final(self).balances@, address@).lifetime_balance
                    == lifetime_or_zero(old(self).balances@, address@) + points
                &&& balance_of(final(self).balances@, address@).spent_balance
                    == spent_or_zero(old(self).balances@, address@)
                &&& forall|a: Seq<char>| a != address@
                    ==> #[trigger] same_account(old(self).balances@, final(self).balances@, a)
                &&& old(self).same_but_balances(*final(self))
            },
    {
        match find_account(&self.balances, address) {
            Some(i) => {
                proof {
                    lemma_balance_at(self.balances@, i as int);
                }
                let cur: Points = self.balances[i].points;
                match cur.lifetime_balance.checked_add(points) {
                    None => Err(ContractError::BalanceOverflow),
                    Some(grown) => {
                        self.balances[i].points.lifetime_balance = grown;
                        proof {
                            lemma_same_after_update(
                                old(self).balances@,
                                self.balances@,
                                i as int,
                            );
                            lemma_balance_at(self.balances@, i as int);
                        }
                        Ok(())
                    },
                }
            },
            None => {
                let entry = BalanceEntry {
                    account: String::from_str(address),
                    points: Points { lifetime_balance: points, spent_balance: 0 },
                };
                proof {
                    lemma_same_after_push(self.balances@, entry);
                }
                self.balances.push(entry);
                Ok(())
            },
        }
    }

    /// Spends `points` from `address`. The spend is rejected, with nothing
    /// changed, exactly when the account is missing or its available
    /// balance is below `points`.
    pub fn spend_points(&mut self, address: &str, points: u64) -> (r: Result<(), ContractError>)
        requires
            old(self).wf(),
        ensures
            final(self).wf(),
            r is Ok <==> has_account(old(self).balances@, address@)
                && available_of(old(self).balances@, address@) >= points,
            r is Err ==> r == Err::<(), ContractError>(ContractError::InsufficientBalance)
                && *final(self) == *old(self),
            r is Ok ==> {
                &&& has_account(final(self).balances@, address@)
                &&& balance_of(final(self).balances@, address@).lifetime_balance
                    == balance_of(old(self).balances@, address@).lifetime_balance
                &&& balance_of(final(self).balances@, address@).spent_balance
                    == balance_of(old(self).balances@, address@).spent_balance + points
                &&& forall|a: Seq<char>| a != address@
                    ==> #[trigger] same_account(old(self).balances@, final(self).balances@, a)
                &&& old(self).same_but_balances(*final(self))
            },
    {
        match find_account(&self.balances, address) {
            None => Err(ContractError::InsufficientBalance),
            Some(i) => {
                proof {
                    lemma_balance_at(self.balances@, i as int);
                    assert(self.balances@[i as int].points.wf());
                }
                let cur: Points = self.balances[i].points;
                if cur.lifetime_balance - cur.spent_balance < points {
                    Err(ContractError::InsufficientBalance)
                } else {
                    self.balances[i].points.spent_balance = cur.spent_balance + points;
                    proof {
                        lemma_same_after_update(old(self).balances@, self.balances@, i as int);
                        lemma_balance_at(self.balances@, i as int);
                    }
                    Ok(())
                }
            },
        }
    }

    /// Spends the prize cost from `address` and removes the prize that the
    /// 32-byte random value selects, returning it. Fails, with nothing
    /// changed, with `Unauthorized` when the account is missing or cannot
    /// afford the cost, and otherwise with `EmptyPrizePool` when the pool
    /// has no entries.
    pub fn claim_prize(&mut self, address: &str, randomness: &Vec<u8>) -> (r: Result<
        (String, String),
        ContractError,
    >)
        requires
            old(self).wf(),
            randomness@.len() == 32,
        ensures
            final(self).wf(),
            r is Ok <==> has_account(old(self).balances@, address@)
                && available_of(old(self).balances@, address@) >= old(self).prize_cost
                && old(self).prize_pool@.len() > 0,
            r == Err::<(String, String), ContractError>(ContractError::Unauthorized)
                <==> !(has_account(old(self).balances@, address@)
                    && available_of(old(self).balances@, address@) >= old(self).prize_cost),
            r == Err::<(String, String), ContractError>(ContractError::EmptyPrizePool)
                <==> has_account(old(self).balances@, address@)
                    && available_of(old(self).balances@, address@) >= old(self).prize_cost
                    && old(self).prize_pool@.len() == 0,
            r is Err ==> *final(self) == *old(self),
            r is Ok ==> {
                let idx = nois_pick(randomness@, 0, (old(self).prize_pool@.len() - 1) as usize);
                &&& 0 <= idx < old(self).prize_pool@.len()
                &&& r == Ok::<(String, String), ContractError>(old(self).prize_pool@[idx as int])
                &&& final(self).prize_pool@ == old(self).prize_pool@.remove(idx as int)
                &&& has_account(final(self).balances@, address@)
                &&& balance_of(final(self).balances@, address@).lifetime_balance
                    == balance_of(old(self).balances@, address@).lifetime_balance
                &&& balance_of(final(self).balances@, address@).spent_balance
                    == balance_of(old(self).balances@, address@).spent_balance
                        + old(self).prize_cost
                &&& available_of(final(self).balances@, address@)
                    == available_of(old(self).balances@, address@) - old(self).prize_cost
                &&& forall|a: Seq<char>| a != address@
                    ==> #[trigger] same_account(old(self).balances@, final(self).balances@, a)
                &&& final(self).admin@ == old(self).admin@
                &&& final(self).symbol@ == old(self).symbol@
                &&& final(self).short_description@ == old(self).short_description@
                &&& final(self).locked == old(self).locked
                &&& final(self).prize_cost == old(self).prize_cost
                &&& final(self).whitelist@ == old(self).whitelist@
            },
    {
        let cost: u64 = self.prize_cost;
        match find_account(&self.balances, address) {
            None => Err(ContractError::Unauthorized),
            Some(i) => {
                proof {
                    lemma_balance_at(self.balances@, i as int);
                    assert(self.balances@[i as int].points.wf());
                }
                let cur: Points = self.balances[i].points;
                if cur.lifetime_balance - cur.spent_balance < cost {
                    Err(ContractError::Unauthorized)
                } else if self.prize_pool.is_empty() {
                    Err(ContractError::EmptyPrizePool)
                } else {
                    let pool_len: usize = self.prize_pool.len();
                    let idx: usize = derive_prize_index(randomness, pool_len);
                    match self.spend_points(address, cost) {
                        Err(_) => Err(ContractError::Unauthorized),
                        Ok(()) => {
                            let prize: (String, String) = self.prize_pool.remove(idx);
                            Ok(prize)
                        },
                    }
                }
            },
        }
    }
}

} // verus!
