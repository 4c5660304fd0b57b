use lending_nft::{AccountId, LoanLedger, LoanRecord, LoanStatus};

fn record(loan_id: u32, borrower: &str, collateral_id: u32) -> LoanRecord {
    LoanRecord {
        loan_id,
        borrower: AccountId::new(borrower),
        collateral_id,
        principal: 100,
        interest_rate_bps: 10,
        duration_days: 5,
        created_at: 0,
        status: LoanStatus::Active,
        repaid_amount: 0,
    }
}

#[test]
fn ledger_hands_out_identifiers_from_one() {
    let mut ledger = LoanLedger::new();
    assert_eq!(ledger.last_loan_id(), 0);
    assert_eq!(ledger.allocate_loan_id(), 1);
    assert_eq!(ledger.allocate_loan_id(), 2);
    assert_eq!(ledger.allocate_loan_id(), 3);
    assert_eq!(ledger.last_loan_id(), 3);
}

#[test]
fn ledger_keeps_what_was_put() {
    let mut ledger = LoanLedger::new();
    assert_eq!(ledger.get(1), None);
    ledger.put(1, record(1, "bob", 7));
    ledger.put(5, record(5, "carol", 8));
    assert_eq!(ledger.get(1), Some(&record(1, "bob", 7)));
    assert_eq!(ledger.get(5), Some(&record(5, "carol", 8)));
    assert_eq!(ledger.get(2), None);
    ledger.put(1, record(1, "dave", 9));
    assert_eq!(ledger.get(1), Some(&record(1, "dave", 9)));
    assert_eq!(ledger.last_loan_id(), 0);
}

#[test]
fn ledger_locks_and_releases_collateral() {
    let mut ledger = LoanLedger::new();
    assert!(!ledger.is_collateral_locked(7));
    ledger.lock_collateral(7, 1);
    assert!(ledger.is_collateral_locked(7));
    assert!(!ledger.is_collateral_locked(1));
    ledger.lock_collateral(7, 2);
    assert!(ledger.is_collateral_locked(7));
    ledger.release_collateral(8);
    assert!(ledger.is_collateral_locked(7));
    ledger.release_collateral(7);
    assert!(!ledger.is_collateral_locked(7));
    ledger.release_collateral(7);
    assert!(!ledger.is_collateral_locked(7));
}

#[test]
fn ledger_index_keeps_the_order_of_insertion() {
    let mut ledger = LoanLedger::new();
    let bob = AccountId::new("bob");
    let carol = AccountId::new("carol");
    assert_eq!(ledger.loans_of(&bob), Vec::<u32>::new());
    ledger.add_to_borrower_index(&bob, 3);
    ledger.add_to_borrower_index(&carol, 4);
    ledger.add_to_borrower_index(&bob, 1);
    ledger.add_to_borrower_index(&bob, 3);
    assert_eq!(ledger.loans_of(&bob), vec![3, 1, 3]);
    assert_eq!(ledger.loans_of(&carol), vec![4]);
    assert_eq!(ledger.loans_of(&AccountId::new("dave")), Vec::<u32>::new());
}
