use crate::types::{
    apply_spec, in_range, outcome_agrees, Account, AccountModel, AccountView, shows, ApplicationError,
    ClientIdentifier, fresh_account, Transaction, TransactionType, ValueAmount, BALANCE_LIMIT,
};
use std::collections::HashMap;
use vstd::prelude::*;

verus! {

broadcast use vstd::std_specs::hash::group_hash_axioms;

fn missing_amount() -> (r: ApplicationError)
    ensures
        r is InvalidData,
{
    ApplicationError::InvalidData("transaction amount missing for an amount-bearing record".to_string())
}

fn out_of_range() -> (r: ApplicationError)
    ensures
        r is OutOfRange,
{
    ApplicationError::OutOfRange("balance would leave the supported range".to_string())
}

/// `v + amt` stays within `BALANCE_LIMIT`.
fn can_add(v: ValueAmount, amt: ValueAmount) -> (r: bool)
    requires
        in_range(v as int),
    ensures
        r == in_range(v + amt),
{
    -BALANCE_LIMIT - v <= amt && amt <= BALANCE_LIMIT - v
}

/// `v - amt` stays within `BALANCE_LIMIT`.
fn can_sub(v: ValueAmount, amt: ValueAmount) -> (r: bool)
    requires
        in_range(v as int),
    ensures
        r == in_range(v - amt),
{
    v - BALANCE_LIMIT <= amt && amt <= v + BALANCE_LIMIT
}

impl Account {
    /// Applies one record to this account. On an error the account is left as
    /// it was.
    pub fn apply(&mut self, t: &Transaction) -> (r: Result<(), ApplicationError>)
        requires
            old(self).wf(),
        ensures
            final(self).wf(),
            outcome_agrees(r, apply_spec(old(self)@, *t)),
            match apply_spec(old(self)@, *t) {
                Ok(m) => final(self)@ == m,
                Err(_) => final(self)@ == old(self)@,
            },
    {
        let id = t.transaction_id;
        match t.transaction_type {
            TransactionType::DEPOSIT => {
                match t.transaction_amount {
                    None => Err(missing_amount()),
                    Some(amt) => {
                        if !can_add(self.available, amt) {
                            return Err(out_of_range());
                        }
                        self.available = self.available + amt;
                        self.settled_transactions_log.insert(id, *t);
                        Ok(())
                    },
                }
            },
            TransactionType::WITHDRAWAL => {
                match t.transaction_amount {
                    None => Err(missing_amount()),
                    Some(amt) => {
                        // Strictly greater: a withdrawal of the whole balance is refused.
                        if self.available > amt {
                            if !can_sub(self.available, amt) {
                                return Err(out_of_range());
                            }
                            self.available = self.available - amt;
                        }
                        self.settled_transactions_log.insert(id, *t);
                        Ok(())
                    },
                }
            },
            TransactionType::DISPUTE => {
                let found: Option<Transaction> = match self.settled_transactions_log.get(&id) {
                    Some(rec) => Some(*rec),
                    None => None,
                };
                match found {
                    Some(rec) => {
                        match rec.transaction_amount {
                            Some(amt) => {
                                if !(can_sub(self.available, amt) && can_add(self.held, amt)) {
                                    return Err(out_of_range());
                                }
                                self.settled_transactions_log.remove(&id);
                                self.disputed_transactions_log.insert(id, rec);
                                self.available = self.available - amt;
                                self.held = self.held + amt;
                            },
                            None => {},
                        }
                    },
                    None => {},
                }
                Ok(())
            },
            TransactionType::RESOLVE => {
                let found: Option<Transaction> = match self.disputed_transactions_log.get(&id) {
                    Some(rec) => Some(*rec),
                    None => None,
                };
                match found {
                    Some(rec) => {
                        match rec.transaction_amount {
                            Some(amt) => {
                                if !(can_add(self.available, amt) && can_sub(self.held, amt)) {
                                    return Err(out_of_range());
                                }
                                self.disputed_transactions_log.remove(&id);
                                self.settled_transactions_log.insert(id, rec);
                                self.available = self.available + amt;
                                self.held = self.held - amt;
                            },
                            None => {},
                        }
                    },
                    None => {},
                }
                Ok(())
            },
            TransactionType::CHARGEBACK => {
                let found: Option<Transaction> = match self.disputed_transactions_log.get(&id) {
                    Some(rec) => Some(*rec),
                    None => None,
                };
                match found {
                    Some(rec) => {
                        match rec.transaction_amount {
                            Some(amt) => {
                                if !can_sub(self.held, amt) {
                                    return Err(out_of_range());
                                }
                                // The funds leave the ledger: nothing is credited back
                                // and the account stays unlocked.
                                self.disputed_transactions_log.remove(&id);
                                self.held = self.held - amt;
                            },
                            None => {},
                        }
                    },
                    None => {},
                }
                Ok(())
            },
        }
    }
}

/// The account that a record for `client_id` meets: the stored one, or a fresh
/// one on first reference.
pub open spec fn account_or_fresh(l: Map<ClientIdentifier, AccountModel>, client_id: ClientIdentifier) -> AccountModel {
    if l.contains_key(client_id) {
        l[client_id]
    } else {
        fresh_account(client_id)
    }
}

/// The ledger after one record. A refused record leaves it as it was, and
/// creates no account.
pub open spec fn ledger_step(l: Map<ClientIdentifier, AccountModel>, t: Transaction) -> Map<ClientIdentifier, AccountModel> {
    match apply_spec(account_or_fresh(l, t.client_id), t) {
        Ok(m) => l.insert(t.client_id, m),
        Err(_) => l,
    }
}

/// The ledger after the records `ts`, applied in order; a refused record does
/// not stop the ones after it.
pub open spec fn ledger_run(l: Map<ClientIdentifier, AccountModel>, ts: Seq<Transaction>) -> Map<ClientIdentifier, AccountModel>
    decreases ts.len(),
{
    if ts.len() == 0 {
        l
    } else {
        ledger_step(ledger_run(l, ts.drop_last()), ts.last())
    }
}

/// The accounts of one run, keyed by client, each created on first reference.
pub struct Ledger {
    accounts: HashMap<ClientIdentifier, Account>,
    /// The clients that hold an account, in order of creation.
    clients: Vec<ClientIdentifier>,
}

impl View for Ledger {
    type V = Map<ClientIdentifier, AccountModel>;

    closed spec fn view(&self) -> Map<ClientIdentifier, AccountModel> {
        Map::new(|k: ClientIdentifier| self.accounts@.contains_key(k), |k: ClientIdentifier| self.accounts@[k]@)
    }
}

impl Ledger {
    /// Each account is well formed and stored under its own client; `clients`
    /// lists each of them once.
    pub closed spec fn wf(&self) -> bool {
        &&& forall|k: ClientIdentifier| #[trigger] self.accounts@.contains_key(k) ==> self.accounts@[k].wf() && self.accounts@[k].client_id == k
        &&& self.clients@.no_duplicates()
        &&& forall|k: ClientIdentifier| #[trigger] self.accounts@.contains_key(k) <==> self.clients@.contains(k)
    }

    pub fn new() -> (r: Ledger)
        ensures
            r.wf(),
            r@ == Map::<ClientIdentifier, AccountModel>::empty(),
    {
        let r = Ledger { accounts: HashMap::new(), clients: Vec::new() };
        assert(r@ =~= Map::<ClientIdentifier, AccountModel>::empty());
        r
    }

    /// Number of accounts.
    pub fn len(&self) -> (r: usize)
        requires
            self.wf(),
        ensures
            r == self@.len(),
    {
        proof {
            assert(self@.dom() =~= self.accounts@.dom());
        }
        self.accounts.len()
    }

    pub fn get(&self, client_id: ClientIdentifier) -> (r: Option<&Account>)
        requires
            self.wf(),
        ensures
            match r {
                Some(a) => self@.contains_key(client_id) && a@ == self@[client_id] && a.wf(),
                None => !self@.contains_key(client_id),
            },
    {
        self.accounts.get(&client_id)
    }

    /// Stores `account` under its client, replacing any account there.
    pub fn upsert(&mut self, account: Account)
        requires
            old(self).wf(),
            account.wf(),
        ensures
            final(self).wf(),
            final(self)@ == old(self)@.insert(account.client_id, account@),
    {
        let id = account.client_id;
        let ghost old_clients = self.clients@;
        if !self.accounts.contains_key(&id) {
            proof {
                assert(!self.clients@.contains(id));
            }
            self.clients.push(id);
            proof {
                assert(self.clients@ == old_clients.push(id));
                assert(self.clients@[old_clients.len() as int] == id);
                assert forall|k: ClientIdentifier| k != id implies #[trigger] self.clients@.contains(k) == old_clients.contains(k) by {
                    if old_clients.contains(k) {
                        let j = choose|j: int| 0 <= j < old_clients.len() && old_clients[j] == k;
                        assert(self.clients@[j] == k);
                    }
                    if self.clients@.contains(k) {
                        let j = choose|j: int| 0 <= j < self.clients@.len() && self.clients@[j] == k;
                        assert(old_clients[j] == k);
                    }
                }
            }
        }
        self.accounts.insert(id, account);
        proof {
            assert forall|k: ClientIdentifier| #[trigger] self.accounts@.contains_key(k) <==> self.clients@.contains(k) by {
                assert(old(self).accounts@.contains_key(k) <==> old_clients.contains(k));
                if k == id {
                    assert(self.clients@.contains(id));
                }
            }
            assert(self@ =~= old(self)@.insert(id, account@));
        }
    }
}

impl Ledger {
    /// One view per account, each client once, in order of account creation.
    pub fn views(&self) -> (r: Vec<AccountView>)
        requires
            self.wf(),
        ensures
            r.len() == self@.len(),
            forall|i: int| 0 <= i < r.len() ==> self@.contains_key(#[trigger] r[i].client_id) && shows(r[i], self@[r[i].client_id]),
            forall|i: int, j: int| 0 <= i < j < r.len() ==> r[i].client_id != r[j].client_id,
            forall|k: ClientIdentifier| #[trigger] self@.contains_key(k) ==> exists|i: int| 0 <= i < r.len() && r[i].client_id == k,
    {
        let mut r: Vec<AccountView> = Vec::new();
        let mut i: usize = 0;
        while i < self.clients.len()
            invariant
                self.wf(),
                i <= self.clients.len(),
                r.len() == i,
                forall|j: int| 0 <= j < i ==> (#[trigger] r[j]).client_id == self.clients@[j] && self@.contains_key(r[j].client_id) && shows(r[j], self@[r[j].client_id]),
            decreases self.clients.len() - i,
        {
            let id = self.clients[i];
            assert(self.clients@.contains(id));
            assert(self.accounts@.contains_key(id));
            match self.accounts.get(&id) {
                Some(account) => {
                    r.push(AccountView::from_account(account));
                },
                None => {},
            }
            i = i + 1;
        }
        proof {
            assert(self.clients@.to_set() =~= self@.dom());
            assert forall|a: int, b: int| 0 <= a < b < r.len() implies r[a].client_id != r[b].client_id by {
                assert(r[a].client_id == self.clients@[a]);
                assert(r[b].client_id == self.clients@[b]);
            }
            self.clients@.unique_seq_to_set();
            assert forall|k: ClientIdentifier| #[trigger] self@.contains_key(k) implies exists|i: int| 0 <= i < r.len() && r[i].client_id == k by {
                assert(self.clients@.contains(k));
                let j = choose|j: int| 0 <= j < self.clients@.len() && self.clients@[j] == k;
                assert(r[j].client_id == k);
            }
        }
        r
    }
}

/// Files above this many mebibytes are refused before any record is read.
pub const MB_THRESHOLD: u64 = 2;

pub const MAX_DATA_FILE_SIZE: u64 = 1024 * 1024 * MB_THRESHOLD;

/// Whether an input file of `size` bytes may be processed.
pub fn input_size_allowed(size: u64) -> (r: bool)
    ensures
        r == (size <= MAX_DATA_FILE_SIZE),
{
    size <= MAX_DATA_FILE_SIZE
}

/// Applies one record to the account of its client, creating that account on
/// first reference. A refused record changes nothing, and creates no account.
pub fn process_transaction(ledger: &mut Ledger, t: &Transaction) -> (r: Result<(), ApplicationError>)
    requires
        old(ledger).wf(),
    ensures
        final(ledger).wf(),
        final(ledger)@ == ledger_step(old(ledger)@, *t),
        outcome_agrees(r, apply_spec(account_or_fresh(old(ledger)@, t.client_id), *t)),
{
    let id = t.client_id;
    let existing = ledger.accounts.remove(&id);
    match existing {
        Some(mut account) => {
            let r = account.apply(t);
            ledger.accounts.insert(id, account);
            proof {
                assert(ledger@ =~= ledger_step(old(ledger)@, *t));
            }
            r
        },
        None => {
            let mut account = Account::new(id);
            let r = account.apply(t);
            proof {
                assert(ledger.accounts@ =~= old(ledger).accounts@);
            }
            if r.is_ok() {
                ledger.upsert(account);
            }
            r
        },
    }
}

/// Applies the records in order to a new ledger, going on past refused ones,
/// and returns the ledger with one outcome per record.
pub fn run_transactions(transactions: &Vec<Transaction>) -> (r: (Ledger, Vec<Result<(), ApplicationError>>))
    ensures
        r.0.wf(),
        r.0@ == ledger_run(Map::empty(), transactions@),
        r.1.len() == transactions.len(),
        forall|i: int|
            0 <= i < transactions.len() ==> #[trigger] outcome_agrees(
                r.1[i],
                apply_spec(
                    account_or_fresh(ledger_run(Map::empty(), transactions@.take(i)), transactions[i].client_id),
                    transactions[i],
                ),
            ),
{
    let mut ledger = Ledger::new();
    let mut outcomes: Vec<Result<(), ApplicationError>> = Vec::new();
    let mut i: usize = 0;
    while i < transactions.len()
        invariant
            i <= transactions.len(),
            ledger.wf(),
            ledger@ == ledger_run(Map::empty(), transactions@.take(i as int)),
            outcomes.len() == i,
            forall|j: int|
                0 <= j < i ==> #[trigger] outcome_agrees(
                    outcomes[j],
                    apply_spec(
                        account_or_fresh(ledger_run(Map::empty(), transactions@.take(j)), transactions[j].client_id),
                        transactions[j],
                    ),
                ),
        decreases transactions.len() - i,
    {
        proof {
            assert(transactions@.take(i as int + 1).drop_last() =~= transactions@.take(i as int));
        }
        let r = process_transaction(&mut ledger, &transactions[i]);
        outcomes.push(r);
        i = i + 1;
    }
    proof {
        assert(transactions@.take(i as int) =~= transactions@);
    }
    (ledger, outcomes)
}

} // verus!
