use lending_nft::{AccountId, LendingNFT, LoanError, LoanRecord, LoanStatus};

const DAY: u64 = 86400;

fn record(loan_id: u32, borrower: &str, collateral_id: u32, status: LoanStatus) -> LoanRecord {
    LoanRecord {
        loan_id,
        borrower: AccountId::new(borrower),
        collateral_id,
        principal: 100,
        interest_rate_bps: 10,
        duration_days: 5,
        created_at: 0,
        status,
        repaid_amount: if status == LoanStatus::Repaid { 100 } else { 40 },
    }
}

fn busy_engine() -> LendingNFT {
    let bob = AccountId::new("bob");
    let carol = AccountId::new("carol");
    let mut engine = LendingNFT::new(AccountId::new("admin"));
    assert_eq!(engine.create_loan(&bob, 1, 1000, 500, 30, &bob, Some(&bob), false, 10), Ok(1));
    assert_eq!(engine.create_loan(&carol, 2, 70, 5, 1, &carol, Some(&carol), false, 20), Ok(2));
    assert_eq!(engine.create_loan(&bob, 3, 10, 0, 2, &bob, Some(&bob), false, 30), Ok(3));
    assert_eq!(engine.repay_loan(1, 1000, &bob), Ok(()));
    assert!(engine.liquidate_loan(2, &bob, false, 20 + DAY).is_ok());
    assert_eq!(engine.create_loan(&bob, 1, 55, 1, 9, &bob, Some(&bob), false, 40), Ok(4));
    assert_eq!(engine.repay_loan(4, 5, &bob), Ok(()));
    engine
}

#[test]
fn records_come_in_the_order_of_identifiers() {
    let engine = busy_engine();
    let records = engine.records();
    assert_eq!(records.len(), 4);
    let ids: Vec<u32> = records.iter().map(|record| record.loan_id).collect();
    assert_eq!(ids, vec![1, 2, 3, 4]);
    assert_eq!(records[0].status, LoanStatus::Repaid);
    assert_eq!(records[1].status, LoanStatus::Liquidated);
    assert_eq!(records[2].status, LoanStatus::Active);
    assert_eq!(records[3].repaid_amount, 5);
    assert_eq!(LendingNFT::new(AccountId::new("admin")).records(), Vec::<LoanRecord>::new());
}

#[test]
fn restoring_the_records_gives_the_engine_back() {
    let engine = busy_engine();
    let restored = LendingNFT::restore(AccountId::new("admin"), &engine.records()).unwrap();
    assert_eq!(restored.owner(), engine.owner());
    assert_eq!(restored.loan_count(), 4);
    assert_eq!(restored.records(), engine.records());
    let mut id = 0;
    while id <= 5 {
        assert_eq!(restored.get_loan_info(id), engine.get_loan_info(id));
        assert_eq!(restored.is_collateral(id), engine.is_collateral(id));
        id += 1;
    }
    assert!(restored.is_collateral(1));
    assert!(!restored.is_collateral(2));
    assert!(restored.is_collateral(3));
    let bob = AccountId::new("bob");
    let carol = AccountId::new("carol");
    assert_eq!(restored.get_user_loans(&bob), vec![1, 3, 4]);
    assert_eq!(restored.get_user_loans(&carol), vec![2]);
    assert_eq!(restored.get_user_loans(&bob), engine.get_user_loans(&bob));
}

#[test]
fn restored_engine_goes_on_where_the_first_stopped() {
    let bob = AccountId::new("bob");
    let mut restored =
        LendingNFT::restore(AccountId::new("admin"), &busy_engine().records()).unwrap();
    assert_eq!(
        restored.create_loan(&bob, 3, 10, 0, 2, &bob, Some(&bob), false, 50),
        Err(LoanError::CollateralAlreadyLocked)
    );
    assert_eq!(restored.create_loan(&bob, 2, 10, 0, 2, &bob, Some(&bob), false, 50), Ok(5));
    assert_eq!(restored.repay_loan(4, 50, &bob), Ok(()));
    assert!(!restored.is_collateral(1));
    assert_eq!(restored.repay_loan(1, 1, &bob), Err(LoanError::LoanNotActive));
}

#[test]
fn restore_of_nothing_is_the_new_engine() {
    let engine = LendingNFT::restore(AccountId::new("admin"), &Vec::new()).unwrap();
    assert_eq!(engine.loan_count(), 0);
    assert_eq!(engine.owner(), &AccountId::new("admin"));
}

#[test]
fn restore_refuses_records_out_of_place() {
    let admin = AccountId::new("admin");
    let skipped = vec![record(2, "bob", 1, LoanStatus::Active)];
    assert!(LendingNFT::restore(admin.clone(), &skipped).is_none());
    let twice = vec![
        record(1, "bob", 1, LoanStatus::Active),
        record(1, "bob", 2, LoanStatus::Active),
    ];
    assert!(LendingNFT::restore(admin.clone(), &twice).is_none());
    let zero = vec![record(0, "bob", 1, LoanStatus::Active)];
    assert!(LendingNFT::restore(admin, &zero).is_none());
}

#[test]
fn restore_refuses_two_active_loans_on_one_collateral() {
    let admin = AccountId::new("admin");
    let clash = vec![
        record(1, "bob", 1, LoanStatus::Active),
        record(2, "carol", 1, LoanStatus::Active),
    ];
    assert!(LendingNFT::restore(admin.clone(), &clash).is_none());
    let in_turn = vec![
        record(1, "bob", 1, LoanStatus::Liquidated),
        record(2, "carol", 1, LoanStatus::Repaid),
        record(3, "carol", 1, LoanStatus::Active),
    ];
    let engine = LendingNFT::restore(admin.clone(), &in_turn).unwrap();
    assert!(engine.is_collateral(1));
    assert_eq!(engine.get_user_loans(&AccountId::new("carol")), vec![2, 3]);
    let closed_later = vec![
        record(1, "bob", 1, LoanStatus::Active),
        record(2, "carol", 1, LoanStatus::Repaid),
    ];
    let engine = LendingNFT::restore(admin, &closed_later).unwrap();
    assert!(engine.is_collateral(1));
    assert_eq!(engine.get_loan_info(2).unwrap().status, LoanStatus::Repaid);
}

#[test]
fn restore_refuses_inconsistent_records() {
    let admin = AccountId::new("admin");
    let mut overpaid = record(1, "bob", 1, LoanStatus::Active);
    overpaid.repaid_amount = 100;
    assert!(LendingNFT::restore(admin.clone(), &vec![overpaid]).is_none());
    let mut unpaid = record(1, "bob", 1, LoanStatus::Repaid);
    unpaid.repaid_amount = 99;
    assert!(LendingNFT::restore(admin.clone(), &vec![unpaid]).is_none());
    let mut no_term = record(1, "bob", 1, LoanStatus::Active);
    no_term.duration_days = 0;
    assert!(LendingNFT::restore(admin.clone(), &vec![no_term]).is_none());
    let mut no_principal = record(1, "bob", 1, LoanStatus::Liquidated);
    no_principal.principal = 0;
    no_principal.repaid_amount = 0;
    assert!(LendingNFT::restore(admin, &vec![no_principal]).is_none());
}
