use vstd::prelude::*;

use crate::errors::{reports, EngineError, Refusal};

use std::str::FromStr;

verus! {

/// Number of fractional decimal digits that amounts carry.
pub const MAX_DISPLAY_PRECISION: u32 = 4;

/// Largest magnitude, in ten-thousandths, that a balance may reach: a 96-bit
/// mantissa, the range of a decimal with four fractional digits.
pub const MAX_BALANCE_UNITS: i128 = 79228162514264337593543950335;

/// A balance of `x` ten-thousandths can be held by an account.
pub open spec fn within_limit(x: int) -> bool {
    -MAX_BALANCE_UNITS <= x <= MAX_BALANCE_UNITS
}

/// The five kinds of transaction.
#[derive(Debug, Clone, Copy, PartialEq, Eq, Structural, Hash)]
pub enum TransactionType {
    Deposit,
    Withdrawal,
    Dispute,
    Resolve,
    Chargeback,
}

/// The kind that a lower-case name stands for.
pub open spec fn kind_named(name: Seq<char>) -> Option<TransactionType> {
    if name == "deposit"@ {
        Some(TransactionType::Deposit)
    } else if name == "withdrawal"@ {
        Some(TransactionType::Withdrawal)
    } else if name == "dispute"@ {
        Some(TransactionType::Dispute)
    } else if name == "resolve"@ {
        Some(TransactionType::Resolve)
    } else if name == "chargeback"@ {
        Some(TransactionType::Chargeback)
    } else {
        None
    }
}

/// The two strings hold the same characters.
fn same_text(a: &str, b: &str) -> (r: bool)
    ensures
        r == (a@ == b@),
{
    let n = a.unicode_len();
    if n != b.unicode_len() {
        return false;
    }
    let mut i: usize = 0;
    while i < n
        invariant
            i <= n,
            n == a@.len(),
            n == b@.len(),
            forall|j: int| 0 <= j < i ==> a@[j] == b@[j],
        decreases n - i,
    {
        if a.get_char(i) != b.get_char(i) {
            return false;
        }
        i = i + 1;
    }
    assert(a@ =~= b@);
    true
}

impl TransactionType {
    /// The kind named by `name`, which must be written in lower case.
    pub fn from_name(name: &str) -> (r: Option<TransactionType>)
        ensures
            r == kind_named(name@),
    {
        if same_text(name, "deposit") {
            Some(TransactionType::Deposit)
        } else if same_text(name, "withdrawal") {
            Some(TransactionType::Withdrawal)
        } else if same_text(name, "dispute") {
            Some(TransactionType::Dispute)
        } else if same_text(name, "resolve") {
            Some(TransactionType::Resolve)
        } else if same_text(name, "chargeback") {
            Some(TransactionType::Chargeback)
        } else {
            None
        }
    }
}

impl FromStr for TransactionType {
    type Err = EngineError;

    fn from_str(s: &str) -> (r: Result<TransactionType, EngineError>)
        ensures
            match kind_named(s@) {
                Some(k) => r == Ok::<TransactionType, EngineError>(k),
                None => r matches Err(EngineError::TransactionError(_)),
            },
    {
        match TransactionType::from_name(s) {
            Some(kind) => Ok(kind),
            None => Err(EngineError::TransactionError("Invalid transaction type".to_owned())),
        }
    }
}

/// One transaction record. `amount` is present for deposits and withdrawals;
/// `under_dispute` is the log entry's dispute flag.
#[derive(Debug, Clone, Copy)]
pub struct Transaction {
    pub tx_type: TransactionType,
    pub client: u16,
    pub tx_id: u32,
    pub amount: Option<Amount>,
    pub under_dispute: bool,
}

impl Transaction {
    /// Two records are the same transaction: kind, client, id and amount
    /// agree; the dispute flag is not compared.
    pub open spec fn same_record(self, other: Transaction) -> bool {
        &&& self.tx_type == other.tx_type
        &&& self.client == other.client
        &&& self.tx_id == other.tx_id
        &&& self.amount == other.amount
    }
}

impl PartialEq for Transaction {
    fn eq(&self, other: &Transaction) -> (r: bool) {
        let same_amount = match (self.amount, other.amount) {
            (Some(a), Some(b)) => a.units == b.units,
            (None, None) => true,
            _ => false,
        };
        self.tx_type == other.tx_type && self.client == other.client && self.tx_id == other.tx_id
            && same_amount
    }
}

impl vstd::std_specs::cmp::PartialEqSpecImpl for Transaction {
    open spec fn obeys_eq_spec() -> bool {
        true
    }

    open spec fn eq_spec(&self, other: &Transaction) -> bool {
        self.same_record(*other)
    }
}

impl Eq for Transaction {

}

/// A monetary amount, as an exact count of ten-thousandths
/// (`12.5` is `Amount { units: 125000 }`).
#[derive(Debug, Clone, Copy, PartialEq, Eq, Structural, Hash)]
pub struct Amount {
    pub units: i128,
}

impl Amount {
    pub fn zero() -> (r: Amount)
        ensures
            r.units == 0,
    {
        Amount { units: 0 }
    }
}

/// `a + b`, when that sum is a balance an account can hold.
fn add_within_limit(a: i128, b: i128) -> (r: Option<i128>)
    ensures
        r == (if within_limit(a + b) {
            Some((a + b) as i128)
        } else {
            None::<i128>
        }),
{
    match a.checked_add(b) {
        Some(s) => {
            if -MAX_BALANCE_UNITS <= s && s <= MAX_BALANCE_UNITS {
                Some(s)
            } else {
                None
            }
        },
        None => None,
    }
}

/// `a - b`, when that difference is a balance an account can hold.
fn sub_within_limit(a: i128, b: i128) -> (r: Option<i128>)
    ensures
        r == (if within_limit(a - b) {
            Some((a - b) as i128)
        } else {
            None::<i128>
        }),
{
    match a.checked_sub(b) {
        Some(s) => {
            if -MAX_BALANCE_UNITS <= s && s <= MAX_BALANCE_UNITS {
                Some(s)
            } else {
                None
            }
        },
        None => None,
    }
}

/// A client's balances.
#[derive(Debug, Clone, Copy, PartialEq, Eq, Structural)]
pub struct ClientAccount {
    pub available: Amount,
    pub held: Amount,
    pub total: Amount,
    pub locked: bool,
}

/// `r` and `after` are what a call that `outcome` describes returns and
/// leaves: on refusal the matching error and `before` untouched.
pub open spec fn settles(
    r: Result<(), EngineError>,
    before: ClientAccount,
    after: ClientAccount,
    outcome: Result<ClientAccount, Refusal>,
) -> bool {
    match outcome {
        Ok(next) => r is Ok && after == next,
        Err(why) => reports(r, why) && after == before,
    }
}

impl ClientAccount {
    /// The account holds `total == available + held`, each within the limit.
    pub open spec fn wf(self) -> bool {
        &&& self.total.units == self.available.units + self.held.units
        &&& within_limit(self.available.units as int)
        &&& within_limit(self.held.units as int)
        &&& within_limit(self.total.units as int)
    }

    pub open spec fn with_balances(self, available: int, held: int, total: int) -> ClientAccount {
        ClientAccount {
            available: Amount { units: available as i128 },
            held: Amount { units: held as i128 },
            total: Amount { units: total as i128 },
            locked: self.locked,
        }
    }

    pub open spec fn deposit_outcome(self, amount: int) -> Result<ClientAccount, Refusal> {
        let available = self.available.units + amount;
        let total = self.total.units + amount;
        if self.locked {
            Err(Refusal::Locked)
        } else if !within_limit(available) || !within_limit(total) {
            Err(Refusal::OutOfRange)
        } else {
            Ok(self.with_balances(available, self.held.units as int, total))
        }
    }

    pub open spec fn withdraw_outcome(self, amount: int) -> Result<ClientAccount, Refusal> {
        let available = self.available.units - amount;
        let total = self.total.units - amount;
        if self.locked {
            Err(Refusal::Locked)
        } else if self.available.units < amount {
            Err(Refusal::InsufficientFunds)
        } else if !within_limit(available) || !within_limit(total) {
            Err(Refusal::OutOfRange)
        } else {
            Ok(self.with_balances(available, self.held.units as int, total))
        }
    }

    pub open spec fn dispute_outcome(self, amount: int) -> Result<ClientAccount, Refusal> {
        let available = self.available.units - amount;
        let held = self.held.units + amount;
        if self.locked {
            Err(Refusal::Locked)
        } else if !within_limit(available) || !within_limit(held) {
            Err(Refusal::OutOfRange)
        } else {
            Ok(self.with_balances(available, held, self.total.units as int))
        }
    }

    pub open spec fn resolve_outcome(self, amount: int) -> Result<ClientAccount, Refusal> {
        let available = self.available.units + amount;
        let held = self.held.units - amount;
        if self.locked {
            Err(Refusal::Locked)
        } else if !within_limit(available) || !within_limit(held) {
            Err(Refusal::OutOfRange)
        } else {
            Ok(self.with_balances(available, held, self.total.units as int))
        }
    }

    pub open spec fn chargeback_outcome(self, amount: int) -> Result<ClientAccount, Refusal> {
        let held = self.held.units - amount;
        let total = self.total.units - amount;
        if self.locked {
            Err(Refusal::Locked)
        } else if !within_limit(held) || !within_limit(total) {
            Err(Refusal::OutOfRange)
        } else {
            Ok(
                ClientAccount {
                    locked: true,
                    ..self.with_balances(self.available.units as int, held, total)
                },
            )
        }
    }

    /// A fresh account: every balance zero, not locked.
    pub fn new() -> (r: ClientAccount)
        ensures
            r.available.units == 0,
            r.held.units == 0,
            r.total.units == 0,
            !r.locked,
    {
        ClientAccount {
            available: Amount::zero(),
            held: Amount::zero(),
            total: Amount::zero(),
            locked: false,
        }
    }

    /// Adds `amount` to the available funds and the total.
    pub fn deposit(&mut self, amount: Amount) -> (r: Result<(), EngineError>)
        ensures
            settles(r, *old(self), *final(self), old(self).deposit_outcome(amount.units as int)),
    {
        if self.locked {
            return Err(EngineError::InvalidOperation("Attempted to process invalid deposit".to_owned()));
        }
        let available = add_within_limit(self.available.units, amount.units);
        let total = add_within_limit(self.total.units, amount.units);
        match (available, total) {
            (Some(available), Some(total)) => {
                self.available = Amount { units: available };
                self.total = Amount { units: total };
                Ok(())
            },
            _ => Err(EngineError::BalanceOverflow),
        }
    }

    /// Takes `amount` from the available funds and the total; refused when the
    /// available funds fall short.
    pub fn withdraw(&mut self, amount: Amount) -> (r: Result<(), EngineError>)
        ensures
            settles(r, *old(self), *final(self), old(self).withdraw_outcome(amount.units as int)),
    {
        if self.locked {
            return Err(EngineError::InvalidOperation("Attempted to process invalid withdraw".to_owned()));
        }
        if self.available.units < amount.units {
            return Err(EngineError::InsufficientFunds);
        }
        let available = sub_within_limit(self.available.units, amount.units);
        let total = sub_within_limit(self.total.units, amount.units);
        match (available, total) {
            (Some(available), Some(total)) => {
                self.available = Amount { units: available };
                self.total = Amount { units: total };
                Ok(())
            },
            _ => Err(EngineError::BalanceOverflow),
        }
    }

    /// Moves `amount` from the available funds to the held funds.
    pub fn dispute(&mut self, amount: Amount) -> (r: Result<(), EngineError>)
        ensures
            settles(r, *old(self), *final(self), old(self).dispute_outcome(amount.units as int)),
    {
        if self.locked {
            return Err(EngineError::InvalidOperation("Attempted to process invalid dispute".to_owned()));
        }
        let available = sub_within_limit(self.available.units, amount.units);
        let held = add_within_limit(self.held.units, amount.units);
        match (available, held) {
            (Some(available), Some(held)) => {
                self.available = Amount { units: available };
                self.held = Amount { units: held };
                Ok(())
            },
            _ => Err(EngineError::BalanceOverflow),
        }
    }

    /// Moves `amount` from the held funds back to the available funds.
    pub fn resolve(&mut self, amount: Amount) -> (r: Result<(), EngineError>)
        ensures
            settles(r, *old(self), *final(self), old(self).resolve_outcome(amount.units as int)),
    {
        if self.locked {
            return Err(EngineError::InvalidOperation("Attempted to process invalid resolve".to_owned()));
        }
        let available = add_within_limit(self.available.units, amount.units);
        let held = sub_within_limit(self.held.units, amount.units);
        match (available, held) {
            (Some(available), Some(held)) => {
                self.available = Amount { units: available };
                self.held = Amount { units: held };
                Ok(())
            },
            _ => Err(EngineError::BalanceOverflow),
        }
    }

    /// Takes `amount` out of the held funds and the total, and freezes the account.
    pub fn chargeback(&mut self, amount: Amount) -> (r: Result<(), EngineError>)
        ensures
            settles(r, *old(self), *final(self), old(self).chargeback_outcome(amount.units as int)),
    {
        if self.locked {
            return Err(EngineError::InvalidOperation("Attempted to process invalid chargeback.".to_owned()));
        }
        let held = sub_within_limit(self.held.units, amount.units);
        let total = sub_within_limit(self.total.units, amount.units);
        match (held, total) {
            (Some(held), Some(total)) => {
                self.held = Amount { units: held };
                self.total = Amount { units: total };
                self.locked = true;
                Ok(())
            },
            _ => Err(EngineError::BalanceOverflow),
        }
    }
}

} // verus!
