use transaction_engine::engine::{
    input_size_allowed, process_transaction, run_transactions, Ledger, MAX_DATA_FILE_SIZE,
    MB_THRESHOLD,
};
use transaction_engine::types::{
    value_amount_from_parts, Account, AccountView, ApplicationError, Transaction,
    TransactionType, ValueAmount, BALANCE_LIMIT,
};

fn dec(mantissa: i128, scale: u32) -> ValueAmount {
    value_amount_from_parts(mantissa, scale).unwrap()
}

fn record(
    transaction_type: TransactionType,
    client_id: u16,
    transaction_id: u32,
    transaction_amount: Option<ValueAmount>,
) -> Transaction {
    Transaction {
        transaction_type,
        client_id,
        transaction_id,
        transaction_amount,
    }
}

#[test]
fn test_deposit_withdrawal_transaction_success() {
    let account_data = &mut Ledger::new();
    let transaction_result = process_transaction(
        account_data,
        &Transaction {
            client_id: 1,
            transaction_id: 1,
            transaction_type: TransactionType::DEPOSIT,
            transaction_amount: Some(dec(1000, 1)),
        },
    );
    assert!(transaction_result.is_ok());
    assert_eq!(account_data.len(), 1);
    assert_eq!(account_data.get(1).unwrap().available, dec(1000, 1));

    let transaction_result = process_transaction(
        account_data,
        &Transaction {
            client_id: 1,
            transaction_id: 2,
            transaction_type: TransactionType::WITHDRAWAL,
            transaction_amount: Some(dec(550, 1)),
        },
    );
    assert!(transaction_result.is_ok());
    assert_eq!(account_data.len(), 1);
    assert_eq!(account_data.get(1).unwrap().available, dec(450, 1));
    assert!(!account_data.get(1).unwrap().locked);
    assert_eq!(account_data.get(1).unwrap().client_id, 1);
}

#[test]
fn test_dispute_chargeback_transaction_success() {
    let account_data = &mut Ledger::new();
    let transaction_result = process_transaction(
        account_data,
        &Transaction {
            client_id: 1,
            transaction_id: 1,
            transaction_type: TransactionType::DEPOSIT,
            transaction_amount: Some(dec(1000, 1)),
        },
    );
    assert!(transaction_result.is_ok());
    assert_eq!(account_data.get(1).unwrap().available, dec(1000, 1));

    let transaction_result = process_transaction(
        account_data,
        &Transaction {
            client_id: 1,
            transaction_id: 2,
            transaction_type: TransactionType::DEPOSIT,
            transaction_amount: Some(dec(417, 1)),
        },
    );
    assert!(transaction_result.is_ok());
    assert_eq!(account_data.get(1).unwrap().available, dec(1417, 1));

    // Dispute transaction 2
    let transaction_result = process_transaction(
        account_data,
        &Transaction {
            client_id: 1,
            transaction_id: 2,
            transaction_type: TransactionType::DISPUTE,
            transaction_amount: None,
        },
    );
    assert!(transaction_result.is_ok());
    assert_eq!(account_data.get(1).unwrap().held, dec(417, 1));
    assert_eq!(account_data.get(1).unwrap().available, dec(1000, 1));

    // Charge the disputed transaction back
    let transaction_result = process_transaction(
        account_data,
        &Transaction {
            client_id: 1,
            transaction_id: 2,
            transaction_type: TransactionType::CHARGEBACK,
            transaction_amount: None,
        },
    );
    assert!(transaction_result.is_ok());
    assert_eq!(account_data.get(1).unwrap().held, dec(0, 1));
    assert_eq!(account_data.get(1).unwrap().available, dec(1000, 1));
}

#[test]
fn test_dispute_resolve_transaction_success() {
    let account_data = &mut Ledger::new();
    let transaction_result = process_transaction(
        account_data,
        &Transaction {
            client_id: 1,
            transaction_id: 1,
            transaction_type: TransactionType::DEPOSIT,
            transaction_amount: Some(dec(1000, 1)),
        },
    );
    assert!(transaction_result.is_ok());
    assert_eq!(account_data.get(1).unwrap().available, dec(1000, 1));

    let transaction_result = process_transaction(
        account_data,
        &Transaction {
            client_id: 1,
            transaction_id: 2,
            transaction_type: TransactionType::DEPOSIT,
            transaction_amount: Some(dec(315, 1)),
        },
    );
    assert!(transaction_result.is_ok());
    assert_eq!(account_data.get(1).unwrap().available, dec(1315, 1));

    // Dispute transaction 2
    let transaction_result = process_transaction(
        account_data,
        &Transaction {
            client_id: 1,
            transaction_id: 2,
            transaction_type: TransactionType::DISPUTE,
            transaction_amount: None,
        },
    );
    assert!(transaction_result.is_ok());
    assert_eq!(account_data.get(1).unwrap().held, dec(315, 1));
    assert_eq!(account_data.get(1).unwrap().available, dec(1000, 1));

    // Resolve the dispute
    let transaction_result = process_transaction(
        account_data,
        &Transaction {
            client_id: 1,
            transaction_id: 2,
            transaction_type: TransactionType::RESOLVE,
            transaction_amount: None,
        },
    );
    assert!(transaction_result.is_ok());
    assert_eq!(account_data.get(1).unwrap().held, dec(0, 1));
    assert_eq!(account_data.get(1).unwrap().available, dec(1315, 1));
}

#[test]
fn amounts_are_counted_in_ten_thousandths() {
    assert_eq!(value_amount_from_parts(1000, 1), Some(1_000_000));
    assert_eq!(value_amount_from_parts(4359301231, 4), Some(4359301231));
    assert_eq!(value_amount_from_parts(7, 0), Some(70_000));
    assert_eq!(value_amount_from_parts(-25, 2), Some(-2_500));
    assert_eq!(value_amount_from_parts(1, 5), None);
    assert_eq!(value_amount_from_parts(i128::MAX, 0), None);
    assert_eq!(value_amount_from_parts(i128::MAX, 4), Some(i128::MAX));
}

#[test]
fn deposits_and_sufficient_withdrawals_sum_up() {
    let records = vec![
        record(TransactionType::DEPOSIT, 3, 1, Some(dec(1000, 1))),
        record(TransactionType::WITHDRAWAL, 3, 2, Some(dec(250, 1))),
        record(TransactionType::DEPOSIT, 3, 3, Some(dec(1234, 2))),
        record(TransactionType::WITHDRAWAL, 3, 4, Some(dec(1, 0))),
    ];
    let (ledger, outcomes) = run_transactions(&records);
    assert!(outcomes.iter().all(|r| r.is_ok()));
    let account = ledger.get(3).unwrap();
    assert_eq!(account.available, dec(8634, 2));
    assert_eq!(account.held, 0);
}

#[test]
fn withdrawal_of_whole_balance_is_refused() {
    let mut ledger = Ledger::new();
    assert!(process_transaction(&mut ledger, &record(TransactionType::DEPOSIT, 1, 1, Some(dec(50, 0)))).is_ok());
    let r = process_transaction(&mut ledger, &record(TransactionType::WITHDRAWAL, 1, 2, Some(dec(50, 0))));
    assert!(r.is_ok());
    let account = ledger.get(1).unwrap();
    assert_eq!(account.available, dec(50, 0));
    assert_eq!(account.held, 0);
    assert!(account.settled_transactions_log.contains_key(&2));
}

#[test]
fn withdrawal_beyond_balance_is_ignored() {
    let mut ledger = Ledger::new();
    assert!(process_transaction(&mut ledger, &record(TransactionType::DEPOSIT, 1, 1, Some(dec(50, 0)))).is_ok());
    assert!(process_transaction(&mut ledger, &record(TransactionType::WITHDRAWAL, 1, 2, Some(dec(80, 0)))).is_ok());
    assert_eq!(ledger.get(1).unwrap().available, dec(50, 0));
}

#[test]
fn unknown_references_change_nothing() {
    let mut ledger = Ledger::new();
    assert!(process_transaction(&mut ledger, &record(TransactionType::DEPOSIT, 1, 1, Some(dec(50, 0)))).is_ok());
    for kind in [TransactionType::DISPUTE, TransactionType::RESOLVE, TransactionType::CHARGEBACK] {
        assert!(process_transaction(&mut ledger, &record(kind, 1, 99, None)).is_ok());
        let account = ledger.get(1).unwrap();
        assert_eq!(account.available, dec(50, 0));
        assert_eq!(account.held, 0);
        assert_eq!(account.settled_transactions_log.len(), 1);
        assert!(account.disputed_transactions_log.is_empty());
    }
    // Resolve and chargeback only act on disputed records.
    assert!(process_transaction(&mut ledger, &record(TransactionType::RESOLVE, 1, 1, None)).is_ok());
    assert!(process_transaction(&mut ledger, &record(TransactionType::CHARGEBACK, 1, 1, None)).is_ok());
    assert_eq!(ledger.get(1).unwrap().available, dec(50, 0));
}

#[test]
fn reference_to_unknown_client_creates_empty_account() {
    let mut ledger = Ledger::new();
    assert!(process_transaction(&mut ledger, &record(TransactionType::DISPUTE, 9, 1, None)).is_ok());
    assert_eq!(ledger.len(), 1);
    let account = ledger.get(9).unwrap();
    assert_eq!(account.available, 0);
    assert_eq!(account.held, 0);
    assert!(!account.locked);
}

#[test]
fn missing_amount_is_invalid_data() {
    let mut ledger = Ledger::new();
    let r = process_transaction(&mut ledger, &record(TransactionType::DEPOSIT, 4, 1, None));
    assert!(matches!(r, Err(ApplicationError::InvalidData(_))));
    assert_eq!(ledger.len(), 0);
    assert!(process_transaction(&mut ledger, &record(TransactionType::DEPOSIT, 4, 2, Some(dec(5, 0)))).is_ok());
    let r = process_transaction(&mut ledger, &record(TransactionType::WITHDRAWAL, 4, 3, None));
    assert!(matches!(r, Err(ApplicationError::InvalidData(_))));
    let account = ledger.get(4).unwrap();
    assert_eq!(account.available, dec(5, 0));
    assert_eq!(account.settled_transactions_log.len(), 1);
}

#[test]
fn balance_past_limit_is_out_of_range() {
    let mut ledger = Ledger::new();
    assert!(process_transaction(&mut ledger, &record(TransactionType::DEPOSIT, 2, 1, Some(BALANCE_LIMIT))).is_ok());
    let r = process_transaction(&mut ledger, &record(TransactionType::DEPOSIT, 2, 2, Some(1)));
    assert!(matches!(r, Err(ApplicationError::OutOfRange(_))));
    let account = ledger.get(2).unwrap();
    assert_eq!(account.available, BALANCE_LIMIT);
    assert!(!account.settled_transactions_log.contains_key(&2));
}

#[test]
fn chargeback_reduces_total_by_disputed_amount() {
    let mut ledger = Ledger::new();
    assert!(process_transaction(&mut ledger, &record(TransactionType::DEPOSIT, 1, 1, Some(dec(1000, 1)))).is_ok());
    assert!(process_transaction(&mut ledger, &record(TransactionType::DEPOSIT, 1, 2, Some(dec(417, 1)))).is_ok());
    let before = AccountView::from_account(ledger.get(1).unwrap());
    assert_eq!(before.total, dec(1417, 1));
    assert!(process_transaction(&mut ledger, &record(TransactionType::DISPUTE, 1, 2, None)).is_ok());
    assert!(process_transaction(&mut ledger, &record(TransactionType::CHARGEBACK, 1, 2, None)).is_ok());
    let after = AccountView::from_account(ledger.get(1).unwrap());
    assert_eq!(after.total, dec(1000, 1));
    assert_eq!(after.held, 0);
    assert!(!after.locked);
    let account = ledger.get(1).unwrap();
    assert!(!account.settled_transactions_log.contains_key(&2));
    assert!(!account.disputed_transactions_log.contains_key(&2));
    // A second chargeback finds nothing to act on.
    assert!(process_transaction(&mut ledger, &record(TransactionType::CHARGEBACK, 1, 2, None)).is_ok());
    assert_eq!(ledger.get(1).unwrap().available, dec(1000, 1));
}

#[test]
fn dispute_then_resolve_round_trips() {
    let mut ledger = Ledger::new();
    assert!(process_transaction(&mut ledger, &record(TransactionType::DEPOSIT, 1, 7, Some(dec(2, 0)))).is_ok());
    assert!(process_transaction(&mut ledger, &record(TransactionType::DISPUTE, 1, 7, None)).is_ok());
    assert!(ledger.get(1).unwrap().disputed_transactions_log.contains_key(&7));
    assert!(process_transaction(&mut ledger, &record(TransactionType::RESOLVE, 1, 7, None)).is_ok());
    let account = ledger.get(1).unwrap();
    assert_eq!(account.available, dec(2, 0));
    assert_eq!(account.held, 0);
    assert!(account.settled_transactions_log.contains_key(&7));
    assert!(!account.disputed_transactions_log.contains_key(&7));
}

#[test]
fn repeated_transaction_id_overwrites_settled_entry() {
    let mut ledger = Ledger::new();
    assert!(process_transaction(&mut ledger, &record(TransactionType::DEPOSIT, 1, 1, Some(dec(10, 0)))).is_ok());
    assert!(process_transaction(&mut ledger, &record(TransactionType::DEPOSIT, 1, 1, Some(dec(3, 0)))).is_ok());
    assert!(process_transaction(&mut ledger, &record(TransactionType::DISPUTE, 1, 1, None)).is_ok());
    let account = ledger.get(1).unwrap();
    assert_eq!(account.available, dec(10, 0));
    assert_eq!(account.held, dec(3, 0));
}

#[test]
fn run_reports_each_outcome_and_continues() {
    let records = vec![
        record(TransactionType::DEPOSIT, 1, 1, Some(dec(10, 0))),
        record(TransactionType::DEPOSIT, 2, 2, None),
        record(TransactionType::DEPOSIT, 2, 3, Some(dec(4, 0))),
        record(TransactionType::WITHDRAWAL, 1, 4, Some(dec(3, 0))),
    ];
    let (ledger, outcomes) = run_transactions(&records);
    assert_eq!(outcomes.len(), 4);
    assert!(outcomes[0].is_ok());
    assert!(matches!(outcomes[1], Err(ApplicationError::InvalidData(_))));
    assert!(outcomes[2].is_ok());
    assert!(outcomes[3].is_ok());
    assert_eq!(ledger.len(), 2);
    assert_eq!(ledger.get(1).unwrap().available, dec(7, 0));
    assert_eq!(ledger.get(2).unwrap().available, dec(4, 0));
    let views = ledger.views();
    assert_eq!(views.len(), 2);
    assert_eq!(views[0].client_id, 1);
    assert_eq!(views[0].total, dec(7, 0));
    assert_eq!(views[1].client_id, 2);
}

#[test]
fn upsert_replaces_account() {
    let mut ledger = Ledger::new();
    let mut account = Account::new(5);
    assert!(account.apply(&record(TransactionType::DEPOSIT, 5, 1, Some(dec(1, 0)))).is_ok());
    ledger.upsert(account);
    assert_eq!(ledger.get(5).unwrap().available, dec(1, 0));
    ledger.upsert(Account::new(5));
    assert_eq!(ledger.len(), 1);
    assert_eq!(ledger.get(5).unwrap().available, 0);
}

#[test]
fn file_size_limit_is_two_mebibytes() {
    assert_eq!(MB_THRESHOLD, 2);
    assert_eq!(MAX_DATA_FILE_SIZE, 2 * 1024 * 1024);
    assert!(input_size_allowed(0));
    assert!(input_size_allowed(2 * 1024 * 1024));
    assert!(!input_size_allowed(2 * 1024 * 1024 + 1));
}
