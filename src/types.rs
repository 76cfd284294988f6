use std::collections::HashMap;
use vstd::prelude::*;

verus! {

broadcast use vstd::std_specs::hash::group_hash_axioms;

/// A money amount, counted in ten-thousandths of a currency unit
/// (`1_000_000` is `100.0000`).
pub type ValueAmount = i128;

pub type ClientIdentifier = u16;

pub type TransactionIdentifier = u32;

/// Number of decimal digits that a `ValueAmount` carries after the point.
pub const AMOUNT_SCALE: u32 = 4;

/// Largest magnitude that a balance (`available` or `held`) may reach, so that
/// `available + held` always fits in a `ValueAmount`.
pub const BALANCE_LIMIT: i128 = 10_000_000_000_000_000_000_000_000_000_000_000_000;

#[allow(clippy::upper_case_acronyms)]
#[derive(Clone, Copy, Debug, PartialEq, Eq, Structural)]
pub enum TransactionType {
    DEPOSIT,
    WITHDRAWAL,
    CHARGEBACK,
    DISPUTE,
    RESOLVE,
}

/// One input record. Deposits and withdrawals carry an amount; disputes,
/// resolves and chargebacks refer to an earlier record by its identifier.
#[derive(Clone, Copy, Debug, PartialEq, Eq, Structural)]
pub struct Transaction {
    pub transaction_type: TransactionType,
    pub client_id: ClientIdentifier,
    pub transaction_id: TransactionIdentifier,
    pub transaction_amount: Option<ValueAmount>,
}

#[derive(Debug, PartialEq, Eq)]
pub enum ApplicationError {
    /// The input file cannot be opened or its metadata cannot be read.
    FileAccess(String),
    /// Malformed input: an oversized file, or a record missing its amount.
    InvalidData(String),
    /// The report could not be rendered.
    CSV(String),
    /// Applying the record would take a balance past `BALANCE_LIMIT`.
    OutOfRange(String),
}

/// Why a record is refused by an account.
pub enum Rejection {
    MissingAmount,
    OutOfRange,
}

/// `10^(AMOUNT_SCALE - scale)`: the factor that brings a decimal of the given
/// scale to ten-thousandths.
pub open spec fn scale_factor(scale: nat) -> int
    recommends
        scale <= AMOUNT_SCALE,
{
    if scale == 0 {
        10000
    } else if scale == 1 {
        1000
    } else if scale == 2 {
        100
    } else if scale == 3 {
        10
    } else {
        1
    }
}

/// The amount `mantissa * 10^-scale` in ten-thousandths; `None` when `scale`
/// has more digits than `AMOUNT_SCALE` or the result does not fit.
pub fn value_amount_from_parts(mantissa: i128, scale: u32) -> (r: Option<ValueAmount>)
    ensures
        r is Some <==> (scale <= AMOUNT_SCALE && i128::MIN <= mantissa * scale_factor(
            scale as nat,
        ) <= i128::MAX),
        r matches Some(v) ==> v == mantissa * scale_factor(scale as nat),
{
    if scale > AMOUNT_SCALE {
        return None;
    }
    let factor: i128 = if scale == 0 {
        10000
    } else if scale == 1 {
        1000
    } else if scale == 2 {
        100
    } else if scale == 3 {
        10
    } else {
        1
    };
    mantissa.checked_mul(factor)
}

pub open spec fn in_range(v: int) -> bool {
    -BALANCE_LIMIT <= v <= BALANCE_LIMIT
}

/// What an account is: its balances and the two logs of amount-bearing
/// records, keyed by transaction identifier.
pub ghost struct AccountModel {
    pub client_id: ClientIdentifier,
    pub available: int,
    pub held: int,
    pub locked: bool,
    pub settled: Map<TransactionIdentifier, Transaction>,
    pub disputed: Map<TransactionIdentifier, Transaction>,
}

impl AccountModel {
    pub open spec fn total(self) -> int {
        self.available + self.held
    }
}

pub open spec fn fresh_account(client_id: ClientIdentifier) -> AccountModel {
    AccountModel {
        client_id,
        available: 0,
        held: 0,
        locked: false,
        settled: Map::empty(),
        disputed: Map::empty(),
    }
}

/// The amount of the record logged under `id`, if the log holds one with an
/// amount.
pub open spec fn logged_amount(log: Map<TransactionIdentifier, Transaction>, id: TransactionIdentifier) -> Option<int> {
    if log.contains_key(id) {
        match log[id].transaction_amount {
            Some(a) => Some(a as int),
            None => None,
        }
    } else {
        None
    }
}

/// The effect of one record on one account: the new account, or why the
/// record is refused (the account then stays as it was).
pub open spec fn apply_spec(a: AccountModel, t: Transaction) -> Result<AccountModel, Rejection> {
    let id = t.transaction_id;
    match t.transaction_type {
        TransactionType::DEPOSIT => match t.transaction_amount {
            None => Err(Rejection::MissingAmount),
            Some(amt) => if in_range(a.available + amt) {
                Ok(AccountModel { available: a.available + amt, settled: a.settled.insert(id, t), ..a })
            } else {
                Err(Rejection::OutOfRange)
            },
        },
        TransactionType::WITHDRAWAL => match t.transaction_amount {
            None => Err(Rejection::MissingAmount),
            Some(amt) => if a.available > amt {
                if in_range(a.available - amt) {
                    Ok(AccountModel { available: a.available - amt, settled: a.settled.insert(id, t), ..a })
                } else {
                    Err(Rejection::OutOfRange)
                }
            } else {
                Ok(AccountModel { settled: a.settled.insert(id, t), ..a })
            },
        },
        TransactionType::DISPUTE => match logged_amount(a.settled, id) {
            None => Ok(a),
            Some(amt) => if in_range(a.available - amt) && in_range(a.held + amt) {
                Ok(
                    AccountModel {
                        available: a.available - amt,
                        held: a.held + amt,
                        settled: a.settled.remove(id),
                        disputed: a.disputed.insert(id, a.settled[id]),
                        ..a
                    },
                )
            } else {
                Err(Rejection::OutOfRange)
            },
        },
        TransactionType::RESOLVE => match logged_amount(a.disputed, id) {
            None => Ok(a),
            Some(amt) => if in_range(a.available + amt) && in_range(a.held - amt) {
                Ok(
                    AccountModel {
                        available: a.available + amt,
                        held: a.held - amt,
                        settled: a.settled.insert(id, a.disputed[id]),
                        disputed: a.disputed.remove(id),
                        ..a
                    },
                )
            } else {
                Err(Rejection::OutOfRange)
            },
        },
        TransactionType::CHARGEBACK => match logged_amount(a.disputed, id) {
            None => Ok(a),
            Some(amt) => if in_range(a.held - amt) {
                Ok(AccountModel { held: a.held - amt, disputed: a.disputed.remove(id), ..a })
            } else {
                Err(Rejection::OutOfRange)
            },
        },
    }
}

/// `r` is the outcome that `s` calls for: `Ok` for a new account, and the
/// error variant that belongs to each rejection.
pub open spec fn outcome_agrees(r: Result<(), ApplicationError>, s: Result<AccountModel, Rejection>) -> bool {
    match s {
        Ok(_) => r is Ok,
        Err(Rejection::MissingAmount) => r matches Err(ApplicationError::InvalidData(_)),
        Err(Rejection::OutOfRange) => r matches Err(ApplicationError::OutOfRange(_)),
    }
}

/// The state of one client's account. `total` is not stored: see `AccountView`.
#[derive(Debug)]
pub struct Account {
    pub client_id: ClientIdentifier,
    pub available: ValueAmount,
    pub held: ValueAmount,
    pub locked: bool,
    pub settled_transactions_log: HashMap<TransactionIdentifier, Transaction>,
    pub disputed_transactions_log: HashMap<TransactionIdentifier, Transaction>,
}

impl View for Account {
    type V = AccountModel;

    open spec fn view(&self) -> AccountModel {
        AccountModel {
            client_id: self.client_id,
            available: self.available as int,
            held: self.held as int,
            locked: self.locked,
            settled: self.settled_transactions_log@,
            disputed: self.disputed_transactions_log@,
        }
    }
}

impl Account {
    /// Both balances lie within `BALANCE_LIMIT`.
    pub open spec fn wf(&self) -> bool {
        in_range(self.available as int) && in_range(self.held as int)
    }

    /// A fresh account: no funds, unlocked, empty logs.
    pub fn new(client_id: ClientIdentifier) -> (r: Account)
        ensures
            r@ == fresh_account(client_id),
            r.wf(),
    {
        Account {
            client_id,
            available: 0,
            held: 0,
            locked: false,
            settled_transactions_log: HashMap::new(),
            disputed_transactions_log: HashMap::new(),
        }
    }
}

/// Read-only projection of an account for reporting, with the derived total.
#[derive(Clone, Copy, Debug, PartialEq, Eq, Structural)]
pub struct AccountView {
    pub client_id: ClientIdentifier,
    pub available: ValueAmount,
    pub held: ValueAmount,
    pub locked: bool,
    pub total: ValueAmount,
}

/// `v` shows the account `m`.
pub open spec fn shows(v: AccountView, m: AccountModel) -> bool {
    &&& v.client_id == m.client_id
    &&& v.available == m.available
    &&& v.held == m.held
    &&& v.locked == m.locked
    &&& v.total == m.total()
}

impl AccountView {
    pub fn from_account(account: &Account) -> (r: AccountView)
        requires
            account.wf(),
        ensures
            shows(r, account@),
    {
        AccountView {
            client_id: account.client_id,
            available: account.available,
            held: account.held,
            locked: account.locked,
            total: account.available + account.held,
        }
    }
}

} // verus!
