use crate::types::{apply_spec, in_range, logged_amount, AccountModel, Transaction, TransactionType};
use vstd::prelude::*;

verus! {

/// What a deposit or withdrawal moves: `+amount` for a deposit, `-amount`
/// for a withdrawal, nothing for the other kinds.
pub open spec fn signed_amount(t: Transaction) -> int {
    match (t.transaction_type, t.transaction_amount) {
        (TransactionType::DEPOSIT, Some(amt)) => amt as int,
        (TransactionType::WITHDRAWAL, Some(amt)) => -amt,
        _ => 0,
    }
}

/// Sum of the deposits minus sum of the withdrawals in `ts`.
pub open spec fn net_flow(ts: Seq<Transaction>) -> int
    decreases ts.len(),
{
    if ts.len() == 0 {
        0
    } else {
        net_flow(ts.drop_last()) + signed_amount(ts.last())
    }
}

/// The account after the records `ts`, applied in order; a refused record
/// leaves it as it was.
pub open spec fn account_run(a: AccountModel, ts: Seq<Transaction>) -> AccountModel
    decreases ts.len(),
{
    if ts.len() == 0 {
        a
    } else {
        let prev = account_run(a, ts.drop_last());
        match apply_spec(prev, ts.last()) {
            Ok(m) => m,
            Err(_) => prev,
        }
    }
}

/// A run of deposits and withdrawals in which every withdrawal finds more
/// than its amount available leaves `available` moved by exactly the deposits
/// minus the withdrawals, and `held` untouched. Every record of the run is
/// accepted. (Runs that would take a balance past `BALANCE_LIMIT` are left out.)
pub proof fn lemma_funding_run(a: AccountModel, ts: Seq<Transaction>)
    requires
        in_range(a.available),
        in_range(a.held),
        forall|i: int|
            0 <= i < ts.len() ==> {
                &&& (#[trigger] ts[i]).transaction_amount is Some
                &&& ts[i].transaction_type == TransactionType::DEPOSIT || ts[i].transaction_type
                    == TransactionType::WITHDRAWAL
            },
        forall|i: int|
            0 <= i < ts.len() && (#[trigger] ts[i]).transaction_type == TransactionType::WITHDRAWAL
                ==> ts[i].transaction_amount->Some_0 < a.available + net_flow(ts.take(i)),
        forall|i: int| 0 <= i <= ts.len() ==> in_range(a.available + net_flow(#[trigger] ts.take(i))),
    ensures
        account_run(a, ts).available == a.available + net_flow(ts),
        account_run(a, ts).held == a.held,
        forall|i: int| 0 <= i < ts.len() ==> apply_spec(account_run(a, ts.take(i)), #[trigger] ts[i]) is Ok,
    decreases ts.len(),
{
    if ts.len() > 0 {
        let n = ts.len() - 1;
        let prefix = ts.drop_last();
        assert forall|i: int| 0 <= i <= prefix.len() implies #[trigger] prefix.take(i) == ts.take(i) by {
            assert(prefix.take(i) =~= ts.take(i));
        }
        lemma_funding_run(a, prefix);
        assert(ts.take(n) =~= prefix);
        assert(ts.take(n + 1) =~= ts);
        assert(in_range(a.available + net_flow(ts.take(n + 1))));
        assert(apply_spec(account_run(a, ts.take(n)), ts[n]) is Ok);
        assert forall|i: int| 0 <= i < ts.len() implies apply_spec(account_run(a, ts.take(i)), #[trigger] ts[i]) is Ok by {
            if i < n {
                assert(prefix[i] == ts[i]);
                assert(prefix.take(i) == ts.take(i));
            }
        }
    }
}

/// A dispute of a settled record followed at once by a resolve of the same
/// record gives back the balances from before the dispute, and the record is
/// settled again and no longer disputed.
pub proof fn lemma_dispute_then_resolve(a: AccountModel, dispute: Transaction, resolve: Transaction)
    requires
        in_range(a.available),
        in_range(a.held),
        dispute.transaction_type == TransactionType::DISPUTE,
        resolve.transaction_type == TransactionType::RESOLVE,
        resolve.transaction_id == dispute.transaction_id,
        logged_amount(a.settled, dispute.transaction_id) is Some,
        apply_spec(a, dispute) is Ok,
    ensures
        apply_spec(apply_spec(a, dispute)->Ok_0, resolve) is Ok,
        apply_spec(apply_spec(a, dispute)->Ok_0, resolve)->Ok_0.available == a.available,
        apply_spec(apply_spec(a, dispute)->Ok_0, resolve)->Ok_0.held == a.held,
        apply_spec(apply_spec(a, dispute)->Ok_0, resolve)->Ok_0.settled == a.settled,
        apply_spec(apply_spec(a, dispute)->Ok_0, resolve)->Ok_0.disputed == a.disputed.remove(
            dispute.transaction_id,
        ),
{
    let id = dispute.transaction_id;
    let m = apply_spec(a, dispute)->Ok_0;
    assert(m.disputed.contains_key(id) && m.disputed[id] == a.settled[id]);
    let m2 = apply_spec(m, resolve)->Ok_0;
    assert(m2.settled =~= a.settled);
    assert(m2.disputed =~= a.disputed.remove(id));
}

/// A dispute of a settled record followed by a chargeback of it takes the
/// record's amount out of `held` with nothing given back to `available`: the
/// total falls by exactly that amount, and the record is in neither log.
pub proof fn lemma_dispute_then_chargeback(a: AccountModel, dispute: Transaction, chargeback: Transaction)
    requires
        in_range(a.available),
        in_range(a.held),
        dispute.transaction_type == TransactionType::DISPUTE,
        chargeback.transaction_type == TransactionType::CHARGEBACK,
        chargeback.transaction_id == dispute.transaction_id,
        logged_amount(a.settled, dispute.transaction_id) is Some,
        apply_spec(a, dispute) is Ok,
    ensures
        ({
            let amt = logged_amount(a.settled, dispute.transaction_id)->Some_0;
            let m = apply_spec(a, dispute)->Ok_0;
            let r = apply_spec(m, chargeback);
            &&& r is Ok
            &&& r->Ok_0.held == m.held - amt
            &&& r->Ok_0.available == m.available
            &&& r->Ok_0.total() == a.total() - amt
            &&& (amt > 0 ==> r->Ok_0.total() < a.total())
            &&& !r->Ok_0.settled.contains_key(dispute.transaction_id)
            &&& !r->Ok_0.disputed.contains_key(dispute.transaction_id)
        }),
{
    let id = dispute.transaction_id;
    let m = apply_spec(a, dispute)->Ok_0;
    assert(m.disputed.contains_key(id) && m.disputed[id] == a.settled[id]);
}

/// A withdrawal of exactly the available balance is refused: both balances
/// stay as they were, and only the record is logged.
pub proof fn lemma_withdraw_whole_balance(a: AccountModel, t: Transaction)
    requires
        t.transaction_type == TransactionType::WITHDRAWAL,
        t.transaction_amount is Some,
        t.transaction_amount->Some_0 == a.available,
    ensures
        apply_spec(a, t) == Ok::<AccountModel, crate::types::Rejection>(
            AccountModel { settled: a.settled.insert(t.transaction_id, t), ..a },
        ),
{
}

/// A dispute, resolve or chargeback naming a transaction that the account has
/// not logged leaves the account exactly as it was.
pub proof fn lemma_unknown_reference(a: AccountModel, t: Transaction)
    requires
        t.transaction_type == TransactionType::DISPUTE || t.transaction_type == TransactionType::RESOLVE
            || t.transaction_type == TransactionType::CHARGEBACK,
        !a.settled.contains_key(t.transaction_id),
        !a.disputed.contains_key(t.transaction_id),
    ensures
        apply_spec(a, t) == Ok::<AccountModel, crate::types::Rejection>(a),
{
}

} // verus!
