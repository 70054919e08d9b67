//! The balance ledger: a total mapping from address to non-negative
//! balance, mutated only by `credit` and `debit`. An address that was
//! never credited has balance 0. A debit that is not covered fails and
//! writes nothing; a credit that would leave the representable range
//! fails and writes nothing; `transfer` is a debit followed by a credit
//! and leaves the ledger untouched whenever either half refuses.

use vstd::prelude::*;

use crate::error::ContractError;

verus! {

/// The balance a sequence of entries gives to `addr`: the value of the
/// first entry keyed by `addr`, or 0 when no entry is (absence of a key
/// means a zero balance).
pub open spec fn entries_balance(entries: Seq<(String, u128)>, addr: Seq<char>) -> u128
    decreases entries.len(),
{
    if entries.len() == 0 {
        0u128
    } else if entries[0].0@ == addr {
        entries[0].1
    } else {
        entries_balance(entries.drop_first(), addr)
    }
}

/// The ledger map after `amount` is credited to `addr`.
pub open spec fn map_credit(m: Map<Seq<char>, u128>, addr: Seq<char>, amount: u128) -> Map<
    Seq<char>,
    u128,
> {
    m.insert(addr, (m[addr] + amount) as u128)
}

/// The ledger map after `amount` is debited from `addr`.
pub open spec fn map_debit(m: Map<Seq<char>, u128>, addr: Seq<char>, amount: u128) -> Map<
    Seq<char>,
    u128,
> {
    m.insert(addr, (m[addr] - amount) as u128)
}

/// The ledger map after `amount` moves from `from` to `to`: the debit,
/// then the credit, in that order (the order matters when `from == to`).
pub open spec fn map_transfer(
    m: Map<Seq<char>, u128>,
    from: Seq<char>,
    to: Seq<char>,
    amount: u128,
) -> Map<Seq<char>, u128> {
    map_credit(map_debit(m, from, amount), to, amount)
}

/// Whether a transfer can be carried out: the debit is covered and the
/// credit stays representable.
pub open spec fn transfer_fits(
    m: Map<Seq<char>, u128>,
    from: Seq<char>,
    to: Seq<char>,
    amount: u128,
) -> bool {
    &&& m[from] >= amount
    &&& map_debit(m, from, amount)[to] + amount <= u128::MAX
}

/// Per-address balances, stored as key-value entries. The abstraction is
/// the total map `self@`; keys never written read as 0.
pub struct Ledger {
    entries: Vec<(String, u128)>,
}

impl View for Ledger {
    type V = Map<Seq<char>, u128>;

    closed spec fn view(&self) -> Map<Seq<char>, u128> {
        Map::total(|addr: Seq<char>| entries_balance(self.entries@, addr))
    }
}

/// The first entry keyed by `addr` decides the balance.
proof fn lemma_balance_first_at(entries: Seq<(String, u128)>, i: int, addr: Seq<char>)
    requires
        0 <= i < entries.len(),
        entries[i].0@ == addr,
        forall|j: int| 0 <= j < i ==> entries[j].0@ != addr,
    ensures
        entries_balance(entries, addr) == entries[i].1,
    decreases i,
{
    if i > 0 {
        lemma_balance_first_at(entries.drop_first(), i - 1, addr);
    }
}

/// A key that no entry carries reads as 0.
proof fn lemma_balance_absent(entries: Seq<(String, u128)>, addr: Seq<char>)
    requires
        forall|j: int| 0 <= j < entries.len() ==> entries[j].0@ != addr,
    ensures
        entries_balance(entries, addr) == 0,
    decreases entries.len(),
{
    if entries.len() > 0 {
        lemma_balance_absent(entries.drop_first(), addr);
    }
}

/// Overwriting the value of the first entry keyed by `addr` moves that
/// key of the abstraction to the new value and no other.
proof fn lemma_balance_update(entries: Seq<(String, u128)>, i: int, v: u128, b: Seq<char>)
    requires
        0 <= i < entries.len(),
        forall|j: int| 0 <= j < i ==> entries[j].0@ != entries[i].0@,
    ensures
        entries_balance(entries.update(i, (entries[i].0, v)), b) == if b == entries[i].0@ {
            v
        } else {
            entries_balance(entries, b)
        },
    decreases i,
{
    let updated = entries.update(i, (entries[i].0, v));
    if i == 0 {
        assert(updated.drop_first() =~= entries.drop_first());
    } else {
        assert(updated.drop_first() =~= entries.drop_first().update(i - 1, (entries[i].0, v)));
        lemma_balance_update(entries.drop_first(), i - 1, v, b);
    }
}

/// Appending an entry under a fresh key moves that key of the
/// abstraction to the new value and no other.
proof fn lemma_balance_push(entries: Seq<(String, u128)>, p: (String, u128), b: Seq<char>)
    requires
        forall|j: int| 0 <= j < entries.len() ==> entries[j].0@ != p.0@,
    ensures
        entries_balance(entries.push(p), b) == if b == p.0@ {
            p.1
        } else {
            entries_balance(entries, b)
        },
    decreases entries.len(),
{
    reveal_with_fuel(entries_balance, 2);
    assert(entries.push(p)[0] == if entries.len() == 0 {
        p
    } else {
        entries[0]
    });
    if entries.len() == 0 {
        assert(entries.push(p).drop_first() =~= Seq::<(String, u128)>::empty());
    } else {
        assert(entries.push(p).drop_first() =~= entries.drop_first().push(p));
        lemma_balance_push(entries.drop_first(), p, b);
    }
}

impl Ledger {
    /// The empty ledger: every address reads as 0.
    pub fn new() -> (r: Ledger)
        ensures
            forall|a: Seq<char>| r@[a] == 0,
    {
        Ledger { entries: Vec::new() }
    }

    /// The index of the first entry keyed by `addr`, if any entry is.
    fn find(&self, addr: &String) -> (r: Option<usize>)
        ensures
            match r {
                Some(i) => i < self.entries@.len() && self.entries@[i as int].0@ == addr@
                    && (forall|j: int| 0 <= j < i ==> self.entries@[j].0@ != addr@),
                None => forall|j: int|
                    0 <= j < self.entries@.len() ==> self.entries@[j].0@ != addr@,
            },
    {
        let mut i: usize = 0;
        while i < self.entries.len()
            invariant
                i <= self.entries@.len(),
                forall|j: int| 0 <= j < i ==> self.entries@[j].0@ != addr@,
            decreases self.entries@.len() - i,
        {
            if self.entries[i].0 == *addr {
                return Some(i);
            }
            i += 1;
        }
        None
    }

    /// The balance of `addr`; 0 when the address was never written.
    /// Never fails.
    pub fn read(&self, addr: &String) -> (r: u128)
        ensures
            r == self@[addr@],
    {
        match self.find(addr) {
            Some(i) => {
                proof {
                    lemma_balance_first_at(self.entries@, i as int, addr@);
                }
                self.entries[i].1
            },
            None => {
                proof {
                    lemma_balance_absent(self.entries@, addr@);
                }
                0
            },
        }
    }

    /// Raises the balance of `addr` by `amount` and returns the new
    /// balance. Refuses only an unrepresentable balance, the fatal
    /// arithmetic fault, and then writes nothing.
    pub fn credit(&mut self, addr: &String, amount: u128) -> (r: Result<u128, ContractError>)
        ensures
            match r {
                Ok(b) => old(self)@[addr@] + amount <= u128::MAX && b == old(self)@[addr@]
                    + amount && final(self)@ == map_credit(old(self)@, addr@, amount),
                Err(e) => e == ContractError::Overflow && old(self)@[addr@] + amount
                    > u128::MAX && final(self)@ == old(self)@,
            },
    {
        match self.find(addr) {
            Some(i) => {
                proof {
                    lemma_balance_first_at(self.entries@, i as int, addr@);
                }
                let cur: u128 = self.entries[i].1;
                match cur.checked_add(amount) {
                    Some(nb) => {
                        let (key, _) = self.entries.remove(i);
                        self.entries.insert(i, (key, nb));
                        proof {
                            assert(self.entries@ =~= old(self).entries@.update(
                                i as int,
                                (old(self).entries@[i as int].0, nb),
                            ));
                            assert forall|b: Seq<char>|
                                self@[b] == map_credit(old(self)@, addr@, amount)[b] by {
                                lemma_balance_update(old(self).entries@, i as int, nb, b);
                            }
                            assert(self@ =~= map_credit(old(self)@, addr@, amount));
                        }
                        Ok(nb)
                    },
                    None => Err(ContractError::Overflow),
                }
            },
            None => {
                proof {
                    lemma_balance_absent(self.entries@, addr@);
                }
                self.entries.push((addr.clone(), amount));
                proof {
                    assert forall|b: Seq<char>|
                        self@[b] == map_credit(old(self)@, addr@, amount)[b] by {
                        lemma_balance_push(old(self).entries@, (*addr, amount), b);
                    }
                    assert(self@ =~= map_credit(old(self)@, addr@, amount));
                }
                Ok(amount)
            },
        }
    }

    /// Lowers the balance of `addr` by `amount` and returns the new
    /// balance. Fails exactly when the balance does not cover `amount`,
    /// reporting what was available and what was asked, and then writes
    /// nothing.
    pub fn debit(&mut self, addr: &String, amount: u128) -> (r: Result<u128, ContractError>)
        ensures
            match r {
                Ok(b) => old(self)@[addr@] >= amount && b == old(self)@[addr@] - amount
                    && final(self)@ == map_debit(old(self)@, addr@, amount),
                Err(e) => e == (ContractError::InsufficientFunds {
                    got: old(self)@[addr@],
                    needed: amount,
                }) && old(self)@[addr@] < amount && final(self)@ == old(self)@,
            },
    {
        match self.find(addr) {
            Some(i) => {
                proof {
                    lemma_balance_first_at(self.entries@, i as int, addr@);
                }
                let cur: u128 = self.entries[i].1;
                if cur < amount {
                    return Err(ContractError::InsufficientFunds { got: cur, needed: amount });
                }
                let nb: u128 = cur - amount;
                let (key, _) = self.entries.remove(i);
                self.entries.insert(i, (key, nb));
                proof {
                    assert(self.entries@ =~= old(self).entries@.update(
                        i as int,
                        (old(self).entries@[i as int].0, nb),
                    ));
                    assert forall|b: Seq<char>|
                        self@[b] == map_debit(old(self)@, addr@, amount)[b] by {
                        lemma_balance_update(old(self).entries@, i as int, nb, b);
                    }
                    assert(self@ =~= map_debit(old(self)@, addr@, amount));
                }
                Ok(nb)
            },
            None => {
                proof {
                    lemma_balance_absent(self.entries@, addr@);
                }
                if amount == 0 {
                    proof {
                        assert(self@ =~= map_debit(old(self)@, addr@, 0));
                    }
                    Ok(0)
                } else {
                    Err(ContractError::InsufficientFunds { got: 0, needed: amount })
                }
            },
        }
    }

    /// Moves `amount` from `from` to `to`: the debit, then the credit.
    /// When either half refuses, the ledger is left exactly as it was
    /// (an interrupted credit is rolled back), and the error says which
    /// half refused and why.
    pub fn transfer(&mut self, from: &String, to: &String, amount: u128) -> (r: Result<
        (),
        ContractError,
    >)
        ensures
            transfer_fits(old(self)@, from@, to@, amount) ==> (r matches Ok(_) && final(self)@
                == map_transfer(old(self)@, from@, to@, amount)),
            old(self)@[from@] < amount ==> r == Err::<(), ContractError>(
                ContractError::InsufficientFunds { got: old(self)@[from@], needed: amount },
            ) && final(self)@ == old(self)@,
            old(self)@[from@] >= amount && map_debit(old(self)@, from@, amount)[to@] + amount
                > u128::MAX ==> r == Err::<(), ContractError>(ContractError::Overflow)
                && final(self)@ == old(self)@,
    {
        let ghost m0 = self@;
        match self.debit(from, amount) {
            Ok(_) => {},
            Err(e) => {
                return Err(e);
            },
        }
        let ghost m1 = self@;
        match self.credit(to, amount) {
            Ok(_) => Ok(()),
            Err(e) => {
                // the credit refused and wrote nothing; undo the debit,
                // which cannot overflow: it restores the balance `from`
                // held a moment ago
                assert(m1[from@] + amount == m0[from@]);
                let undone = self.credit(from, amount);
                proof {
                    assert(map_credit(m1, from@, amount) =~= m0);
                }
                match undone {
                    Ok(_) => Err(e),
                    Err(_) => {
                        proof {
                            assert(false);
                        }
                        Err(e)
                    },
                }
            },
        }
    }
}

/// The abstraction of a ledger is a total map: every address has a
/// balance (0 until first written).
pub proof fn lemma_ledger_dom(l: Ledger)
    ensures
        l@.dom() == Set::<Seq<char>>::full(),
{
    assert(l@.dom() =~= Set::<Seq<char>>::full());
}

/// Law: every balance the ledger reports is non-negative, whatever the
/// history; and a covered debit lowers the balance by exactly the amount,
/// never below zero.
pub proof fn lemma_balances_nonnegative(l: Ledger, a: Seq<char>)
    ensures
        l@[a] >= 0,
{
}

/// Law: a debit the balance covers never drives it below zero.
pub proof fn lemma_debit_nonnegative(m: Map<Seq<char>, u128>, a: Seq<char>, x: u128)
    requires
        m[a] >= x,
    ensures
        map_debit(m, a, x)[a] >= 0,
        map_debit(m, a, x)[a] == m[a] - x,
{
}

/// Law: crediting `x` to `a` and then debiting `x` from `a` is a no-op
/// on every balance — the debit is always covered, and the ledger comes
/// back to where it started — provided the credit itself was
/// representable.
pub proof fn lemma_credit_then_debit(m: Map<Seq<char>, u128>, a: Seq<char>, x: u128)
    requires
        m.dom().contains(a),
        m[a] + x <= u128::MAX,
    ensures
        map_credit(m, a, x)[a] >= x,
        map_debit(map_credit(m, a, x), a, x) == m,
{
    assert(map_debit(map_credit(m, a, x), a, x) =~= m);
}

} // verus!
