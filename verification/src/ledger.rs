//! A reservable-currency ledger.
//!
//! Each account has a free and a reserved balance; an account that was never
//! touched holds zero of both. The registry escrows one deposit per item in
//! the reserved balance of the item's owner and moves it on every ownership
//! change. The four operations mirror the currency interface the registry
//! consumes: reserving free balance, repatriating a reserved amount between
//! accounts, reading a free balance, and a keep-alive transfer that refuses to
//! drop the payer below the ledger's minimum balance.

use vstd::prelude::*;

verus! {

/// One account's row: its identifier, free balance and reserved balance.
#[derive(Clone, Copy, PartialEq, Eq, Debug)]
pub struct AccountData {
    pub id: u64,
    pub free: u64,
    pub reserved: u64,
}

/// A failure the ledger reports; every operation leaves the ledger unchanged
/// when it fails.
#[derive(Clone, Copy, PartialEq, Eq, Structural, Debug)]
pub enum LedgerError {
    /// The payer's free balance is below the requested amount.
    InsufficientBalance,
    /// The source account's reserved balance is below the requested amount.
    InsufficientReserved,
    /// A keep-alive transfer would leave the payer below the minimum balance.
    BelowMinimum,
    /// A balance would exceed the largest representable amount.
    Overflow,
}

/// The free balance of `id` in a row sequence; zero when `id` has no row.
pub open spec fn free_in(s: Seq<AccountData>, id: u64) -> u64
    decreases s.len(),
{
    if s.len() == 0 {
        0
    } else if s[0].id == id {
        s[0].free
    } else {
        free_in(s.drop_first(), id)
    }
}

/// The reserved balance of `id` in a row sequence; zero when `id` has no row.
pub open spec fn reserved_in(s: Seq<AccountData>, id: u64) -> u64
    decreases s.len(),
{
    if s.len() == 0 {
        0
    } else if s[0].id == id {
        s[0].reserved
    } else {
        reserved_in(s.drop_first(), id)
    }
}

/// The sum of all reserved balances in a row sequence.
pub open spec fn sum_reserved(s: Seq<AccountData>) -> int
    decreases s.len(),
{
    if s.len() == 0 {
        0
    } else {
        s[0].reserved + sum_reserved(s.drop_first())
    }
}

/// No two rows share an identifier.
pub open spec fn unique_ids(s: Seq<AccountData>) -> bool {
    forall|i: int, j: int| 0 <= i < j < s.len() ==> s[i].id != s[j].id
}

/// All balances of accounts and the total reserved, kept by rows.
pub struct Ledger {
    /// The free balance a keep-alive transfer must leave its payer.
    pub min_balance: u64,
    pub accounts: Vec<AccountData>,
}

impl Ledger {
    /// Rows are one per account.
    pub open spec fn wf(self) -> bool {
        unique_ids(self.accounts@)
    }

    /// The free balance of `id`; zero for an account never touched.
    pub open spec fn free_of(self, id: u64) -> u64 {
        free_in(self.accounts@, id)
    }

    /// The reserved balance of `id`; zero for an account never touched.
    pub open spec fn reserved_of(self, id: u64) -> u64 {
        reserved_in(self.accounts@, id)
    }

    /// The total reserved balance across all accounts.
    pub open spec fn total_reserved(self) -> int {
        sum_reserved(self.accounts@)
    }
}

/// The effect of reserving `amount` from the free balance of `who`: it moves
/// into `who`'s reserved balance, no other account changes, and the total
/// reserved grows by `amount`.
pub open spec fn reserve_effect(pre: Ledger, post: Ledger, who: u64, amount: u64) -> bool {
    &&& post.wf()
    &&& post.min_balance == pre.min_balance
    &&& post.free_of(who) == pre.free_of(who) - amount
    &&& post.reserved_of(who) == pre.reserved_of(who) + amount
    &&& forall|a: u64|
        a != who ==> post.free_of(a) == pre.free_of(a) && post.reserved_of(a) == pre.reserved_of(a)
    &&& post.total_reserved() == pre.total_reserved() + amount
}

/// The effect of repatriating `amount` of `from`'s reserved balance to `to`
/// (two distinct accounts): it leaves every free balance and every other
/// account unchanged, and the total reserved is conserved when the amount
/// stays reserved at `to`, or shrinks by `amount` when it becomes free there.
pub open spec fn repatriate_effect(
    pre: Ledger,
    post: Ledger,
    from: u64,
    to: u64,
    amount: u64,
    to_reserved: bool,
) -> bool {
    &&& post.wf()
    &&& post.min_balance == pre.min_balance
    &&& post.reserved_of(from) == pre.reserved_of(from) - amount
    &&& post.free_of(from) == pre.free_of(from)
    &&& if to_reserved {
        post.reserved_of(to) == pre.reserved_of(to) + amount && post.free_of(to) == pre.free_of(to)
    } else {
        post.free_of(to) == pre.free_of(to) + amount && post.reserved_of(to) == pre.reserved_of(to)
    }
    &&& forall|a: u64|
        a != from && a != to ==> post.free_of(a) == pre.free_of(a) && post.reserved_of(a)
            == pre.reserved_of(a)
    &&& post.total_reserved() == pre.total_reserved() + (if to_reserved {
        0
    } else {
        -(amount as int)
    })
}

/// The effect of transferring `amount` of free balance from `from` to `to`
/// (two distinct accounts): no reserved balance changes anywhere, and the
/// total reserved is conserved.
pub open spec fn transfer_effect(pre: Ledger, post: Ledger, from: u64, to: u64, amount: u64) -> bool {
    &&& post.wf()
    &&& post.min_balance == pre.min_balance
    &&& post.free_of(from) == pre.free_of(from) - amount
    &&& post.free_of(to) == pre.free_of(to) + amount
    &&& forall|a: u64| a != from && a != to ==> post.free_of(a) == pre.free_of(a)
    &&& forall|a: u64| post.reserved_of(a) == pre.reserved_of(a)
    &&& post.total_reserved() == pre.total_reserved()
}

proof fn lemma_absent_id(s: Seq<AccountData>, id: u64)
    requires
        forall|j: int| 0 <= j < s.len() ==> s[j].id != id,
    ensures
        free_in(s, id) == 0,
        reserved_in(s, id) == 0,
    decreases s.len(),
{
    if s.len() > 0 {
        lemma_absent_id(s.drop_first(), id);
    }
}

proof fn lemma_row_at(s: Seq<AccountData>, i: int)
    requires
        unique_ids(s),
        0 <= i < s.len(),
    ensures
        free_in(s, s[i].id) == s[i].free,
        reserved_in(s, s[i].id) == s[i].reserved,
    decreases s.len(),
{
    if i > 0 {
        lemma_row_at(s.drop_first(), i - 1);
    }
}

proof fn lemma_update_one(s: Seq<AccountData>, i: int, x: AccountData, id: u64)
    requires
        0 <= i < s.len(),
        x.id == s[i].id,
        unique_ids(s),
    ensures
        free_in(s.update(i, x), id) == if id == x.id {
            x.free
        } else {
            free_in(s, id)
        },
        reserved_in(s.update(i, x), id) == if id == x.id {
            x.reserved
        } else {
            reserved_in(s, id)
        },
    decreases s.len(),
{
    if i == 0 {
        assert(s.update(0, x).drop_first() =~= s.drop_first());
    } else {
        assert(s.update(i, x).drop_first() =~= s.drop_first().update(i - 1, x));
        lemma_update_one(s.drop_first(), i - 1, x, id);
    }
}

proof fn lemma_update_sum(s: Seq<AccountData>, i: int, x: AccountData)
    requires
        0 <= i < s.len(),
    ensures
        sum_reserved(s.update(i, x)) == sum_reserved(s) - s[i].reserved + x.reserved,
    decreases s.len(),
{
    if i == 0 {
        assert(s.update(0, x).drop_first() =~= s.drop_first());
    } else {
        assert(s.update(i, x).drop_first() =~= s.drop_first().update(i - 1, x));
        lemma_update_sum(s.drop_first(), i - 1, x);
    }
}

/// Updating row `i` without changing its identifier: the updated account takes
/// the new balances, every other account keeps its own, and the total reserved
/// shifts by the row's difference.
proof fn lemma_update_row(s: Seq<AccountData>, i: int, x: AccountData)
    requires
        0 <= i < s.len(),
        x.id == s[i].id,
        unique_ids(s),
    ensures
        unique_ids(s.update(i, x)),
        free_in(s.update(i, x), x.id) == x.free,
        reserved_in(s.update(i, x), x.id) == x.reserved,
        forall|a: u64|
            a != x.id ==> free_in(s.update(i, x), a) == free_in(s, a) && reserved_in(
                s.update(i, x),
                a,
            ) == reserved_in(s, a),
        sum_reserved(s.update(i, x)) == sum_reserved(s) - s[i].reserved + x.reserved,
{
    lemma_update_one(s, i, x, x.id);
    assert forall|a: u64|
        a != x.id implies free_in(s.update(i, x), a) == free_in(s, a) && reserved_in(
        s.update(i, x),
        a,
    ) == reserved_in(s, a) by {
        lemma_update_one(s, i, x, a);
    }
    lemma_update_sum(s, i, x);
}

proof fn lemma_push_one(s: Seq<AccountData>, x: AccountData, id: u64)
    requires
        forall|j: int| 0 <= j < s.len() ==> s[j].id != x.id,
    ensures
        free_in(s.push(x), id) == if id == x.id {
            x.free
        } else {
            free_in(s, id)
        },
        reserved_in(s.push(x), id) == if id == x.id {
            x.reserved
        } else {
            reserved_in(s, id)
        },
    decreases s.len(),
{
    if s.len() == 0 {
        assert(s.push(x)[0] == x);
        assert(s.push(x).drop_first() =~= Seq::<AccountData>::empty());
        assert(free_in(Seq::<AccountData>::empty(), id) == 0);
        assert(reserved_in(Seq::<AccountData>::empty(), id) == 0);
    } else {
        assert(s.push(x).drop_first() =~= s.drop_first().push(x));
        lemma_push_one(s.drop_first(), x, id);
    }
}

proof fn lemma_push_sum(s: Seq<AccountData>, x: AccountData)
    ensures
        sum_reserved(s.push(x)) == sum_reserved(s) + x.reserved,
    decreases s.len(),
{
    if s.len() == 0 {
        assert(s.push(x)[0] == x);
        assert(s.push(x).drop_first() =~= Seq::<AccountData>::empty());
        assert(sum_reserved(Seq::<AccountData>::empty()) == 0);
    } else {
        assert(s.push(x).drop_first() =~= s.drop_first().push(x));
        lemma_push_sum(s.drop_first(), x);
    }
}

/// Appending a row for an account that has none: the new account takes the
/// row's balances, every other account keeps its own.
proof fn lemma_push_row(s: Seq<AccountData>, x: AccountData)
    requires
        unique_ids(s),
        forall|j: int| 0 <= j < s.len() ==> s[j].id != x.id,
    ensures
        unique_ids(s.push(x)),
        free_in(s.push(x), x.id) == x.free,
        reserved_in(s.push(x), x.id) == x.reserved,
        forall|a: u64|
            a != x.id ==> free_in(s.push(x), a) == free_in(s, a) && reserved_in(s.push(x), a)
                == reserved_in(s, a),
        sum_reserved(s.push(x)) == sum_reserved(s) + x.reserved,
{
    lemma_push_one(s, x, x.id);
    assert forall|a: u64|
        a != x.id implies free_in(s.push(x), a) == free_in(s, a) && reserved_in(s.push(x), a)
        == reserved_in(s, a) by {
        lemma_push_one(s, x, a);
    }
    lemma_push_sum(s, x);
}

impl Ledger {
    /// The error, if any, that reserving `amount` from `who` reports.
    pub open spec fn reserve_outcome(pre: Ledger, who: u64, amount: u64) -> Result<
        (),
        LedgerError,
    > {
        if pre.free_of(who) < amount {
            Err(LedgerError::InsufficientBalance)
        } else if pre.reserved_of(who) + amount > u64::MAX {
            Err(LedgerError::Overflow)
        } else {
            Ok(())
        }
    }

    /// The error, if any, that repatriating `amount` from `from` to `to`
    /// reports.
    pub open spec fn repatriate_outcome(
        pre: Ledger,
        from: u64,
        to: u64,
        amount: u64,
        to_reserved: bool,
    ) -> Result<(), LedgerError> {
        if pre.reserved_of(from) < amount {
            Err(LedgerError::InsufficientReserved)
        } else if from == to && to_reserved {
            Ok(())
        } else if from == to {
            if pre.free_of(from) + amount > u64::MAX {
                Err(LedgerError::Overflow)
            } else {
                Ok(())
            }
        } else if to_reserved {
            if pre.reserved_of(to) + amount > u64::MAX {
                Err(LedgerError::Overflow)
            } else {
                Ok(())
            }
        } else {
            if pre.free_of(to) + amount > u64::MAX {
                Err(LedgerError::Overflow)
            } else {
                Ok(())
            }
        }
    }

    /// The error, if any, that transferring `amount` from `from` to `to`
    /// reports.
    pub open spec fn transfer_outcome(
        pre: Ledger,
        from: u64,
        to: u64,
        amount: u64,
        keep_alive: bool,
    ) -> Result<(), LedgerError> {
        if pre.free_of(from) < amount {
            Err(LedgerError::InsufficientBalance)
        } else if keep_alive && pre.free_of(from) - amount < pre.min_balance {
            Err(LedgerError::BelowMinimum)
        } else if from == to {
            Ok(())
        } else if pre.free_of(to) + amount > u64::MAX {
            Err(LedgerError::Overflow)
        } else {
            Ok(())
        }
    }

    /// A ledger with the given minimum balance and no accounts.
    pub fn new(min_balance: u64) -> (l: Ledger)
        ensures
            l.wf(),
            l.min_balance == min_balance,
            forall|a: u64| l.free_of(a) == 0 && l.reserved_of(a) == 0,
            l.total_reserved() == 0,
    {
        let l = Ledger { min_balance, accounts: Vec::new() };
        proof {
            assert forall|a: u64| l.free_of(a) == 0 && l.reserved_of(a) == 0 by {
                lemma_absent_id(l.accounts@, a);
            }
        }
        l
    }

    /// The row index of `id`, if the account has one.
    fn find(&self, id: u64) -> (r: Option<usize>)
        ensures
            match r {
                Some(i) => i < self.accounts@.len() && self.accounts@[i as int].id == id,
                None => forall|j: int|
                    0 <= j < self.accounts@.len() ==> self.accounts@[j].id != id,
            },
    {
        let mut i: usize = 0;
        while i < self.accounts.len()
            invariant
                i <= self.accounts@.len(),
                forall|j: int| 0 <= j < i ==> self.accounts@[j].id != id,
            decreases self.accounts@.len() - i,
        {
            if self.accounts[i].id == id {
                return Some(i);
            }
            i = i + 1;
        }
        None
    }

    /// The free balance of `who`.
    pub fn free_balance(&self, who: u64) -> (r: u64)
        requires
            self.wf(),
        ensures
            r == self.free_of(who),
    {
        match self.find(who) {
            Some(i) => {
                proof {
                    lemma_row_at(self.accounts@, i as int);
                }
                self.accounts[i].free
            },
            None => {
                proof {
                    lemma_absent_id(self.accounts@, who);
                }
                0
            },
        }
    }

    /// The reserved balance of `who`.
    pub fn reserved_balance(&self, who: u64) -> (r: u64)
        requires
            self.wf(),
        ensures
            r == self.reserved_of(who),
    {
        match self.find(who) {
            Some(i) => {
                proof {
                    lemma_row_at(self.accounts@, i as int);
                }
                self.accounts[i].reserved
            },
            None => {
                proof {
                    lemma_absent_id(self.accounts@, who);
                }
                0
            },
        }
    }

    /// Sets both balances of `who` outright, as a root or genesis endowment
    /// does; no conservation is promised of it.
    pub fn set_balance(&mut self, who: u64, new_free: u64, new_reserved: u64)
        requires
            old(self).wf(),
        ensures
            final(self).wf(),
            final(self).min_balance == old(self).min_balance,
            final(self).free_of(who) == new_free,
            final(self).reserved_of(who) == new_reserved,
            forall|a: u64|
                a != who ==> final(self).free_of(a) == old(self).free_of(a)
                    && final(self).reserved_of(a) == old(self).reserved_of(a),
            final(self).total_reserved() == old(self).total_reserved() - old(self).reserved_of(who)
                + new_reserved,
    {
        let row = AccountData { id: who, free: new_free, reserved: new_reserved };
        let ghost s0 = self.accounts@;
        match self.find(who) {
            Some(i) => {
                proof {
                    lemma_row_at(s0, i as int);
                }
                self.accounts[i] = row;
                proof {
                    lemma_update_row(s0, i as int, row);
                }
            },
            None => {
                proof {
                    lemma_absent_id(s0, who);
                }
                self.accounts.push(row);
                proof {
                    lemma_push_row(s0, row);
                }
            },
        }
    }

    /// Moves `amount` of `who`'s free balance into its reserved balance;
    /// relied on to escrow an item's deposit at minting.
    pub fn reserve(&mut self, who: u64, amount: u64) -> (r: Result<(), LedgerError>)
        requires
            old(self).wf(),
        ensures
            final(self).wf(),
            r == Self::reserve_outcome(*old(self), who, amount),
            r is Err ==> *final(self) == *old(self),
            r is Ok ==> reserve_effect(*old(self), *final(self), who, amount),
    {
        let free = self.free_balance(who);
        if free < amount {
            return Err(LedgerError::InsufficientBalance);
        }
        let reserved = self.reserved_balance(who);
        if reserved > u64::MAX - amount {
            return Err(LedgerError::Overflow);
        }
        let ghost s0 = self.accounts@;
        match self.find(who) {
            Some(i) => {
                proof {
                    lemma_row_at(s0, i as int);
                }
                let mut row = self.accounts[i];
                row.free = row.free - amount;
                row.reserved = row.reserved + amount;
                self.accounts[i] = row;
                proof {
                    lemma_update_row(s0, i as int, row);
                }
            },
            None => {
                proof {
                    lemma_absent_id(s0, who);
                }
            },
        }
        Ok(())
    }

    /// Moves `amount` of `from`'s reserved balance to `to`, kept reserved
    /// there when `to_reserved` holds and made free otherwise; relied on to
    /// move an item's deposit to its new owner.
    pub fn repatriate_reserved(&mut self, from: u64, to: u64, amount: u64, to_reserved: bool) -> (r:
        Result<(), LedgerError>)
        requires
            old(self).wf(),
        ensures
            final(self).wf(),
            r == Self::repatriate_outcome(*old(self), from, to, amount, to_reserved),
            r is Err ==> *final(self) == *old(self),
            r is Ok && from == to && to_reserved ==> *final(self) == *old(self),
            r is Ok && from == to && !to_reserved ==> {
                &&& final(self).min_balance == old(self).min_balance
                &&& final(self).free_of(from) == old(self).free_of(from) + amount
                &&& final(self).reserved_of(from) == old(self).reserved_of(from) - amount
                &&& forall|a: u64|
                    a != from ==> final(self).free_of(a) == old(self).free_of(a)
                        && final(self).reserved_of(a) == old(self).reserved_of(a)
                &&& final(self).total_reserved() == old(self).total_reserved() - amount
            },
            r is Ok && from != to ==> repatriate_effect(
                *old(self),
                *final(self),
                from,
                to,
                amount,
                to_reserved,
            ),
    {
        let from_reserved = self.reserved_balance(from);
        if from_reserved < amount {
            return Err(LedgerError::InsufficientReserved);
        }
        if from == to {
            if to_reserved {
                return Ok(());
            }
            let free = self.free_balance(from);
            if free > u64::MAX - amount {
                return Err(LedgerError::Overflow);
            }
            if amount == 0 {
                return Ok(());
            }
            let ghost s0 = self.accounts@;
            match self.find(from) {
                Some(i) => {
                    proof {
                        lemma_row_at(s0, i as int);
                    }
                    let mut row = self.accounts[i];
                    row.free = row.free + amount;
                    row.reserved = row.reserved - amount;
                    self.accounts[i] = row;
                    proof {
                        lemma_update_row(s0, i as int, row);
                    }
                    return Ok(());
                },
                None => {
                    proof {
                        lemma_absent_id(s0, from);
                    }
                    return Err(LedgerError::Overflow);  // unreachable: from holds at least amount
                },
            }
        }
        let to_balance = if to_reserved {
            self.reserved_balance(to)
        } else {
            self.free_balance(to)
        };
        if to_balance > u64::MAX - amount {
            return Err(LedgerError::Overflow);
        }
        if amount == 0 {
            return Ok(());
        }
        let ghost s0 = self.accounts@;
        match self.find(from) {
            Some(i) => {
                proof {
                    lemma_row_at(s0, i as int);
                }
                let mut row = self.accounts[i];
                row.reserved = row.reserved - amount;
                self.accounts[i] = row;
                proof {
                    lemma_update_row(s0, i as int, row);
                }
            },
            None => {
                proof {
                    lemma_absent_id(s0, from);
                }
                return Err(LedgerError::Overflow);  // unreachable: from holds at least amount
            },
        }
        let ghost s1 = self.accounts@;
        match self.find(to) {
            Some(j) => {
                proof {
                    lemma_row_at(s1, j as int);
                }
                let mut row = self.accounts[j];
                if to_reserved {
                    row.reserved = row.reserved + amount;
                } else {
                    row.free = row.free + amount;
                }
                self.accounts[j] = row;
                proof {
                    lemma_update_row(s1, j as int, row);
                }
            },
            None => {
                proof {
                    lemma_absent_id(s1, to);
                }
                let row = if to_reserved {
                    AccountData { id: to, free: 0, reserved: amount }
                } else {
                    AccountData { id: to, free: amount, reserved: 0 }
                };
                self.accounts.push(row);
                proof {
                    lemma_push_row(s1, row);
                }
            },
        }
        Ok(())
    }

    /// Moves `amount` of free balance from `from` to `to`; with `keep_alive`
    /// it refuses to leave `from` below the minimum balance. Relied on to pay
    /// the seller a buyer's bid.
    pub fn transfer(&mut self, from: u64, to: u64, amount: u64, keep_alive: bool) -> (r: Result<
        (),
        LedgerError,
    >)
        requires
            old(self).wf(),
        ensures
            final(self).wf(),
            r == Self::transfer_outcome(*old(self), from, to, amount, keep_alive),
            r is Err ==> *final(self) == *old(self),
            r is Ok && from == to ==> *final(self) == *old(self),
            r is Ok && from != to ==> transfer_effect(*old(self), *final(self), from, to, amount),
    {
        let free = self.free_balance(from);
        if free < amount {
            return Err(LedgerError::InsufficientBalance);
        }
        if keep_alive && free - amount < self.min_balance {
            return Err(LedgerError::BelowMinimum);
        }
        if from == to {
            return Ok(());
        }
        let to_free = self.free_balance(to);
        if to_free > u64::MAX - amount {
            return Err(LedgerError::Overflow);
        }
        if amount == 0 {
            return Ok(());
        }
        let ghost s0 = self.accounts@;
        match self.find(from) {
            Some(i) => {
                proof {
                    lemma_row_at(s0, i as int);
                }
                let mut row = self.accounts[i];
                row.free = row.free - amount;
                self.accounts[i] = row;
                proof {
                    lemma_update_row(s0, i as int, row);
                }
            },
            None => {
                proof {
                    lemma_absent_id(s0, from);
                }
                return Err(LedgerError::Overflow);  // unreachable: from holds at least amount
            },
        }
        let ghost s1 = self.accounts@;
        match self.find(to) {
            Some(j) => {
                proof {
                    lemma_row_at(s1, j as int);
                }
                let mut row = self.accounts[j];
                row.free = row.free + amount;
                self.accounts[j] = row;
                proof {
                    lemma_update_row(s1, j as int, row);
                }
            },
            None => {
                proof {
                    lemma_absent_id(s1, to);
                }
                let row = AccountData { id: to, free: amount, reserved: 0 };
                self.accounts.push(row);
                proof {
                    lemma_push_row(s1, row);
                }
            },
        }
        Ok(())
    }
}

} // verus!
