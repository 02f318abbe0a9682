//! A balance ledger: per-account, per-asset free and reserved balances, with
//! reserve, unreserve, transfer and repatriate primitives.
//!
//! The mathematical model of a ledger is a total map from `(account, asset)`
//! pairs to a pair of unbounded integers; a pair the ledger has never seen
//! holds zero. Every operation's contract is stated as a transformation of
//! that map, so that callers can compose operations at the level of the
//! model.

use vstd::prelude::*;
use crate::types::{AccountId, Balance, CurrencyId, Error};

verus! {

/// One account's holding in one asset, as unbounded integers.
#[verifier::ext_equal]
pub ghost struct Bal {
    pub free: int,
    pub reserved: int,
}

/// The mathematical value of a ledger: a total map; absent pairs are zero.
pub type LedgerModel = Map<(AccountId, CurrencyId), Bal>;

/// The ledger with no holdings at all.
pub open spec fn empty_ledger() -> LedgerModel {
    Map::total(|k: (AccountId, CurrencyId)| Bal { free: 0, reserved: 0 })
}

/// A deposit succeeds exactly when the credited free balance still fits in
/// the balance representation.
pub open spec fn can_deposit(
    m: LedgerModel,
    asset: CurrencyId,
    who: AccountId,
    amount: Balance,
) -> bool {
    m[(who, asset)].free + amount <= Balance::MAX
}

/// Credit `amount` to `who`'s free balance.
pub open spec fn spec_deposit(
    m: LedgerModel,
    asset: CurrencyId,
    who: AccountId,
    amount: Balance,
) -> LedgerModel {
    let b = m[(who, asset)];
    m.insert((who, asset), Bal { free: b.free + amount, reserved: b.reserved })
}

/// A reservation succeeds exactly when the free balance covers `amount` and
/// the grown reserved balance still fits in the balance representation.
pub open spec fn can_reserve(
    m: LedgerModel,
    asset: CurrencyId,
    who: AccountId,
    amount: Balance,
) -> bool {
    let b = m[(who, asset)];
    b.free >= amount && b.reserved + amount <= Balance::MAX
}

/// Move `amount` from `who`'s free balance into its reserved balance.
pub open spec fn spec_reserve(
    m: LedgerModel,
    asset: CurrencyId,
    who: AccountId,
    amount: Balance,
) -> LedgerModel {
    let b = m[(who, asset)];
    m.insert((who, asset), Bal { free: b.free - amount, reserved: b.reserved + amount })
}

/// How much an unreserve of `amount` actually moves: capped by the reserved
/// balance, and by the room left in the free balance.
pub open spec fn unreserve_moved(
    m: LedgerModel,
    asset: CurrencyId,
    who: AccountId,
    amount: Balance,
) -> int {
    let b = m[(who, asset)];
    vstd::math::min(vstd::math::min(amount as int, b.reserved), Balance::MAX - b.free)
}

/// Move as much as possible of `amount`, up to what is reserved, from `who`'s
/// reserved balance back to its free balance.
pub open spec fn spec_unreserve(
    m: LedgerModel,
    asset: CurrencyId,
    who: AccountId,
    amount: Balance,
) -> LedgerModel {
    let b = m[(who, asset)];
    let moved = unreserve_moved(m, asset, who, amount);
    m.insert((who, asset), Bal { free: b.free + moved, reserved: b.reserved - moved })
}

/// A transfer succeeds exactly when the sender's free balance covers
/// `amount` and the recipient's grown free balance still fits.
pub open spec fn can_transfer(
    m: LedgerModel,
    asset: CurrencyId,
    from: AccountId,
    to: AccountId,
    amount: Balance,
) -> bool {
    m[(from, asset)].free >= amount
        && (from == to || m[(to, asset)].free + amount <= Balance::MAX)
}

/// Move `amount` of free balance from `from` to `to`; a self-transfer
/// changes nothing.
pub open spec fn spec_transfer(
    m: LedgerModel,
    asset: CurrencyId,
    from: AccountId,
    to: AccountId,
    amount: Balance,
) -> LedgerModel {
    let bf = m[(from, asset)];
    let m1 = m.insert((from, asset), Bal { free: bf.free - amount, reserved: bf.reserved });
    let bt = m1[(to, asset)];
    m1.insert((to, asset), Bal { free: bt.free + amount, reserved: bt.reserved })
}

/// How much a repatriation of `amount` actually moves: capped by the
/// reserved balance of the slashed account.
pub open spec fn repatriate_moved(
    m: LedgerModel,
    asset: CurrencyId,
    slashed: AccountId,
    amount: Balance,
) -> int {
    vstd::math::min(amount as int, m[(slashed, asset)].reserved)
}

/// A repatriation succeeds exactly when the beneficiary's grown free balance
/// still fits in the balance representation.
pub open spec fn can_repatriate(
    m: LedgerModel,
    asset: CurrencyId,
    slashed: AccountId,
    beneficiary: AccountId,
    amount: Balance,
) -> bool {
    let moved = repatriate_moved(m, asset, slashed, amount);
    if slashed == beneficiary {
        m[(slashed, asset)].free + moved <= Balance::MAX
    } else {
        m[(beneficiary, asset)].free + moved <= Balance::MAX
    }
}

/// Move what a repatriation of `amount` actually moves from `slashed`'s
/// reserved balance to `beneficiary`'s free balance.
pub open spec fn spec_repatriate(
    m: LedgerModel,
    asset: CurrencyId,
    slashed: AccountId,
    beneficiary: AccountId,
    amount: Balance,
) -> LedgerModel {
    let moved = repatriate_moved(m, asset, slashed, amount);
    let bs = m[(slashed, asset)];
    let m1 = m.insert((slashed, asset), Bal { free: bs.free, reserved: bs.reserved - moved });
    let bb = m1[(beneficiary, asset)];
    m1.insert((beneficiary, asset), Bal { free: bb.free + moved, reserved: bb.reserved })
}

/// One account's total holding (free plus reserved) in one asset.
pub open spec fn total_of(m: LedgerModel, who: AccountId, asset: CurrencyId) -> int {
    m[(who, asset)].free + m[(who, asset)].reserved
}

/// One stored balance row.
#[derive(Clone, Copy)]
pub struct BalanceEntry {
    pub account: AccountId,
    pub asset: CurrencyId,
    pub free: Balance,
    pub reserved: Balance,
}

pub open spec fn entry_matches(e: BalanceEntry, account: AccountId, asset: CurrencyId) -> bool {
    e.account == account && e.asset == asset
}

/// The balance of `(account, asset)` in a row sequence: the first matching
/// row, or zero where none matches.
pub open spec fn lookup(s: Seq<BalanceEntry>, account: AccountId, asset: CurrencyId) -> Bal
    decreases s.len(),
{
    if s.len() == 0 {
        Bal { free: 0, reserved: 0 }
    } else if entry_matches(s[0], account, asset) {
        Bal { free: s[0].free as int, reserved: s[0].reserved as int }
    } else {
        lookup(s.drop_first(), account, asset)
    }
}

/// The earliest matching row decides the balance.
proof fn lemma_lookup_first_match(s: Seq<BalanceEntry>, i: int, account: AccountId, asset: CurrencyId)
    requires
        0 <= i < s.len(),
        entry_matches(s[i], account, asset),
        forall|j: int| 0 <= j < i ==> !entry_matches(s[j], account, asset),
    ensures
        lookup(s, account, asset) == (Bal { free: s[i].free as int, reserved: s[i].reserved as int }),
    decreases i,
{
    if i > 0 {
        lemma_lookup_first_match(s.drop_first(), i - 1, account, asset);
    }
}

/// With no matching row the balance is zero.
proof fn lemma_lookup_no_match(s: Seq<BalanceEntry>, account: AccountId, asset: CurrencyId)
    requires
        forall|j: int| 0 <= j < s.len() ==> !entry_matches(s[j], account, asset),
    ensures
        lookup(s, account, asset) == (Bal { free: 0, reserved: 0 }),
    decreases s.len(),
{
    if s.len() > 0 {
        lemma_lookup_no_match(s.drop_first(), account, asset);
    }
}

/// Overwriting the earliest row of a key changes that key's balance and no
/// other.
proof fn lemma_lookup_update(
    s: Seq<BalanceEntry>,
    i: int,
    e: BalanceEntry,
    account: AccountId,
    asset: CurrencyId,
)
    requires
        0 <= i < s.len(),
        entry_matches(s[i], e.account, e.asset),
        forall|j: int| 0 <= j < i ==> !entry_matches(s[j], e.account, e.asset),
    ensures
        lookup(s.update(i, e), account, asset) == if account == e.account && asset == e.asset {
            Bal { free: e.free as int, reserved: e.reserved as int }
        } else {
            lookup(s, account, asset)
        },
    decreases i,
{
    let t = s.update(i, e);
    if i == 0 {
        assert(t.drop_first() =~= s.drop_first());
    } else {
        assert(t[0] == s[0]);
        if !entry_matches(s[0], account, asset) {
            assert(t.drop_first() =~= s.drop_first().update(i - 1, e));
            lemma_lookup_update(s.drop_first(), i - 1, e, account, asset);
        }
    }
}

/// Appending a row for a key with no earlier row sets that key's balance and
/// no other.
proof fn lemma_lookup_push(
    s: Seq<BalanceEntry>,
    e: BalanceEntry,
    account: AccountId,
    asset: CurrencyId,
)
    requires
        forall|j: int| 0 <= j < s.len() ==> !entry_matches(s[j], e.account, e.asset),
    ensures
        lookup(s.push(e), account, asset) == if account == e.account && asset == e.asset {
            Bal { free: e.free as int, reserved: e.reserved as int }
        } else {
            lookup(s, account, asset)
        },
    decreases s.len(),
{
    let t = s.push(e);
    if s.len() == 0 {
        assert(t.len() == 1 && t[0] == e);
        if account == e.account && asset == e.asset {
            assert(lookup(t, account, asset) == (Bal {
                free: e.free as int,
                reserved: e.reserved as int,
            }));
        } else {
            assert(t.drop_first() =~= Seq::<BalanceEntry>::empty());
            assert(lookup(t.drop_first(), account, asset) == (Bal { free: 0, reserved: 0 }));
            assert(lookup(s, account, asset) == (Bal { free: 0, reserved: 0 }));
        }
    } else {
        assert(t[0] == s[0]);
        if !entry_matches(s[0], account, asset) {
            assert(t.drop_first() =~= s.drop_first().push(e));
            lemma_lookup_push(s.drop_first(), e, account, asset);
        }
    }
}

/// The ledger: a row per `(account, asset)` pair that has ever been touched.
pub struct Ledger {
    entries: Vec<BalanceEntry>,
}

impl View for Ledger {
    type V = LedgerModel;

    closed spec fn view(&self) -> LedgerModel {
        Map::total(|k: (AccountId, CurrencyId)| lookup(self.entries@, k.0, k.1))
    }
}

impl Ledger {
    /// A ledger with no holdings.
    pub fn new() -> (r: Ledger)
        ensures
            r@ == empty_ledger(),
    {
        let r = Ledger { entries: Vec::new() };
        proof {
            assert(r@ =~= empty_ledger());
        }
        r
    }

    /// The index of the earliest row of `(account, asset)`, if any.
    fn find(&self, account: AccountId, asset: CurrencyId) -> (r: Option<usize>)
        ensures
            match r {
                Some(i) => i < self.entries@.len()
                    && entry_matches(self.entries@[i as int], account, asset)
                    && forall|j: int| 0 <= j < i ==> !entry_matches(self.entries@[j], account, asset),
                None => forall|j: int|
                    0 <= j < self.entries@.len() ==> !entry_matches(self.entries@[j], account, asset),
            },
    {
        let n = self.entries.len();
        let mut i: usize = 0;
        while i < n
            invariant
                n == self.entries@.len(),
                i <= n,
                forall|j: int| 0 <= j < i ==> !entry_matches(self.entries@[j], account, asset),
            decreases n - i,
        {
            let e = self.entries[i];
            if e.account == account && e.asset == asset {
                return Some(i);
            }
            i = i + 1;
        }
        None
    }

    /// The stored free and reserved balance of `(account, asset)`.
    fn get_bal(&self, account: AccountId, asset: CurrencyId) -> (r: (Balance, Balance))
        ensures
            self@[(account, asset)] == (Bal { free: r.0 as int, reserved: r.1 as int }),
    {
        match self.find(account, asset) {
            Some(i) => {
                let e = self.entries[i];
                proof {
                    lemma_lookup_first_match(self.entries@, i as int, account, asset);
                }
                (e.free, e.reserved)
            },
            None => {
                proof {
                    lemma_lookup_no_match(self.entries@, account, asset);
                }
                (0, 0)
            },
        }
    }

    /// Overwrite the stored balance of `(account, asset)`.
    fn set_bal(&mut self, account: AccountId, asset: CurrencyId, free: Balance, reserved: Balance)
        ensures
            final(self)@ == old(self)@.insert(
                (account, asset),
                Bal { free: free as int, reserved: reserved as int },
            ),
    {
        let e = BalanceEntry { account, asset, free, reserved };
        match self.find(account, asset) {
            Some(i) => {
                self.entries[i] = e;
                proof {
                    let b = Bal { free: free as int, reserved: reserved as int };
                    assert forall|k: (AccountId, CurrencyId)|
                        self@[k] == old(self)@.insert((account, asset), b)[k] by {
                        lemma_lookup_update(old(self).entries@, i as int, e, k.0, k.1);
                    }
                    assert(self@ =~= old(self)@.insert((account, asset), b));
                }
            },
            None => {
                self.entries.push(e);
                proof {
                    let b = Bal { free: free as int, reserved: reserved as int };
                    assert forall|k: (AccountId, CurrencyId)|
                        self@[k] == old(self)@.insert((account, asset), b)[k] by {
                        lemma_lookup_push(old(self).entries@, e, k.0, k.1);
                    }
                    assert(self@ =~= old(self)@.insert((account, asset), b));
                }
            },
        }
    }

    /// The spendable balance of `who` in `asset`.
    pub fn free_balance(&self, asset: CurrencyId, who: AccountId) -> (r: Balance)
        ensures
            r as int == self@[(who, asset)].free,
    {
        self.get_bal(who, asset).0
    }

    /// The locked balance of `who` in `asset`.
    pub fn reserved_balance(&self, asset: CurrencyId, who: AccountId) -> (r: Balance)
        ensures
            r as int == self@[(who, asset)].reserved,
    {
        self.get_bal(who, asset).1
    }

    /// Credit `amount` to `who`'s free balance.
    pub fn deposit(&mut self, asset: CurrencyId, who: AccountId, amount: Balance) -> (r: Result<
        (),
        Error,
    >)
        ensures
            r.is_ok() <==> can_deposit(old(self)@, asset, who, amount),
            r.is_ok() ==> final(self)@ == spec_deposit(old(self)@, asset, who, amount),
            r.is_err() ==> final(self)@ == old(self)@ && r == Err::<(), Error>(
                Error::InsufficientBalance,
            ),
    {
        let (free, reserved) = self.get_bal(who, asset);
        if amount > Balance::MAX - free {
            return Err(Error::InsufficientBalance);
        }
        self.set_bal(who, asset, free + amount, reserved);
        Ok(())
    }

    /// Lock `amount` of `who`'s free balance; fails, changing nothing, where
    /// the free balance does not cover it.
    pub fn reserve(&mut self, asset: CurrencyId, who: AccountId, amount: Balance) -> (r: Result<
        (),
        Error,
    >)
        ensures
            r.is_ok() <==> can_reserve(old(self)@, asset, who, amount),
            r.is_ok() ==> final(self)@ == spec_reserve(old(self)@, asset, who, amount),
            r.is_err() ==> final(self)@ == old(self)@ && r == Err::<(), Error>(
                Error::InsufficientBalance,
            ),
    {
        let (free, reserved) = self.get_bal(who, asset);
        if free < amount {
            return Err(Error::InsufficientBalance);
        }
        if amount > Balance::MAX - reserved {
            return Err(Error::InsufficientBalance);
        }
        self.set_bal(who, asset, free - amount, reserved + amount);
        Ok(())
    }

    /// Release up to `amount` of `who`'s reserved balance back to its free
    /// balance.
    pub fn unreserve(&mut self, asset: CurrencyId, who: AccountId, amount: Balance)
        ensures
            final(self)@ == spec_unreserve(old(self)@, asset, who, amount),
    {
        let (free, reserved) = self.get_bal(who, asset);
        let mut moved = if amount < reserved { amount } else { reserved };
        if moved > Balance::MAX - free {
            moved = Balance::MAX - free;
        }
        self.set_bal(who, asset, free + moved, reserved - moved);
    }

    /// Move `amount` of free balance from `from` to `to`; fails, changing
    /// nothing, where `from`'s free balance does not cover it.
    pub fn transfer(
        &mut self,
        asset: CurrencyId,
        from: AccountId,
        to: AccountId,
        amount: Balance,
    ) -> (r: Result<(), Error>)
        ensures
            r.is_ok() <==> can_transfer(old(self)@, asset, from, to, amount),
            r.is_ok() ==> final(self)@ == spec_transfer(old(self)@, asset, from, to, amount),
            r.is_err() ==> final(self)@ == old(self)@ && r == Err::<(), Error>(
                Error::InsufficientBalance,
            ),
    {
        let (from_free, from_reserved) = self.get_bal(from, asset);
        if from_free < amount {
            return Err(Error::InsufficientBalance);
        }
        if from == to {
            proof {
                assert(spec_transfer(self@, asset, from, to, amount) =~= self@);
            }
            return Ok(());
        }
        let (to_free, to_reserved) = self.get_bal(to, asset);
        if to_free > Balance::MAX - amount {
            return Err(Error::InsufficientBalance);
        }
        self.set_bal(from, asset, from_free - amount, from_reserved);
        self.set_bal(to, asset, to_free + amount, to_reserved);
        Ok(())
    }

    /// Move up to `amount` of `slashed`'s reserved balance to `beneficiary`'s
    /// free balance; returns the part of `amount` that was not covered by the
    /// reserved balance.
    pub fn repatriate_reserved(
        &mut self,
        asset: CurrencyId,
        slashed: AccountId,
        beneficiary: AccountId,
        amount: Balance,
    ) -> (r: Result<Balance, Error>)
        ensures
            r.is_ok() <==> can_repatriate(old(self)@, asset, slashed, beneficiary, amount),
            r.is_ok() ==> final(self)@ == spec_repatriate(
                old(self)@,
                asset,
                slashed,
                beneficiary,
                amount,
            ) && r == Ok::<Balance, Error>(
                (amount - repatriate_moved(old(self)@, asset, slashed, amount)) as Balance,
            ),
            r.is_err() ==> final(self)@ == old(self)@ && r == Err::<Balance, Error>(
                Error::InsufficientBalance,
            ),
    {
        let (s_free, s_reserved) = self.get_bal(slashed, asset);
        let moved = if amount < s_reserved { amount } else { s_reserved };
        if slashed == beneficiary {
            if moved > Balance::MAX - s_free {
                return Err(Error::InsufficientBalance);
            }
            self.set_bal(slashed, asset, s_free + moved, s_reserved - moved);
            proof {
                assert(self@ =~= spec_repatriate(old(self)@, asset, slashed, beneficiary, amount));
            }
            return Ok(amount - moved);
        }
        let (b_free, b_reserved) = self.get_bal(beneficiary, asset);
        if moved > Balance::MAX - b_free {
            return Err(Error::InsufficientBalance);
        }
        self.set_bal(slashed, asset, s_free, s_reserved - moved);
        self.set_bal(beneficiary, asset, b_free + moved, b_reserved);
        Ok(amount - moved)
    }
}

} // verus!
