use std::collections::HashMap;

use lending_nft::{AccountId, LendingNFT, LoanStatus, MintOrder, TransferOrder};

const DAY: u64 = 24 * 60 * 60;

/// An asset registry kept in memory: which account owns which asset.
struct Registry {
    owners: HashMap<u32, AccountId>,
}

impl Registry {
    fn new() -> Registry {
        Registry { owners: HashMap::new() }
    }

    fn owner_of(&self, asset_id: u32) -> Option<AccountId> {
        self.owners.get(&asset_id).cloned()
    }

    fn mint(&mut self, order: MintOrder) {
        assert!(!self.owners.contains_key(&order.asset_id));
        self.owners.insert(order.asset_id, order.to);
    }

    fn transfer(&mut self, order: TransferOrder) {
        assert_eq!(self.owners.get(&order.asset_id), Some(&order.from));
        self.owners.insert(order.asset_id, order.to);
    }
}

/// The engine with its collaborators: the registry, the pause flag and the
/// ledger time.
struct Contract {
    engine: LendingNFT,
    registry: Registry,
    paused: bool,
    now: u64,
}

impl Contract {
    fn mint(&mut self, to: &AccountId, token_id: u32, caller: &AccountId) {
        match self.engine.mint(to, token_id, caller, self.paused) {
            Ok(order) => self.registry.mint(order),
            Err(error) => panic!("{}", error.message()),
        }
    }

    fn create_loan(
        &mut self,
        borrower: &AccountId,
        token_id: u32,
        amount: i128,
        interest_rate: u32,
        duration_days: u32,
        caller: &AccountId,
    ) -> u32 {
        let owner = self.registry.owner_of(token_id);
        assert!(self.engine.loan_count() < u32::MAX);
        match self.engine.create_loan(
            borrower,
            token_id,
            amount,
            interest_rate,
            duration_days,
            caller,
            owner.as_ref(),
            self.paused,
            self.now,
        ) {
            Ok(loan_id) => loan_id,
            Err(error) => panic!("{}", error.message()),
        }
    }

    fn repay_loan(&mut self, loan_id: u32, amount: i128, caller: &AccountId) {
        if let Err(error) = self.engine.repay_loan(loan_id, amount, caller) {
            panic!("{}", error.message());
        }
    }

    fn liquidate_loan(&mut self, loan_id: u32, caller: &AccountId) {
        match self.engine.liquidate_loan(loan_id, caller, self.paused, self.now) {
            Ok(order) => self.registry.transfer(order),
            Err(error) => panic!("{}", error.message()),
        }
    }
}

fn create_contract() -> (Contract, AccountId, AccountId) {
    let owner = AccountId::new("GOWNER");
    let borrower = AccountId::new("GBORROWER");
    let contract = Contract {
        engine: LendingNFT::new(owner.clone()),
        registry: Registry::new(),
        paused: false,
        now: 0,
    };
    (contract, owner, borrower)
}

#[test]
fn test_constructor() {
    let (contract, owner, _) = create_contract();

    assert!(contract.engine.owner() == &owner);
}

#[test]
fn test_mint_nft() {
    let (mut contract, owner, borrower) = create_contract();
    let token_id = 1u32;

    contract.mint(&borrower, token_id, &owner);

    assert_eq!(contract.registry.owner_of(token_id), Some(borrower));
}

#[test]
fn test_create_loan() {
    let (mut contract, owner, borrower) = create_contract();
    let token_id = 1u32;
    let loan_amount = 1000i128;
    let interest_rate = 500u32;
    let duration_days = 30u32;

    contract.mint(&borrower, token_id, &owner);

    let loan_id = contract.create_loan(
        &borrower,
        token_id,
        loan_amount,
        interest_rate,
        duration_days,
        &borrower,
    );

    assert_eq!(loan_id, 1);

    assert!(contract.engine.is_collateral(token_id));

    let loan_info = contract.engine.get_loan_info(loan_id).unwrap();
    assert_eq!(loan_info.borrower, borrower);
    assert_eq!(loan_info.collateral_id, token_id);
    assert_eq!(loan_info.principal, loan_amount);
    assert_eq!(loan_info.interest_rate_bps, interest_rate);
    assert_eq!(loan_info.duration_days, duration_days);
    assert_eq!(loan_info.status, LoanStatus::Active);
    assert_eq!(loan_info.repaid_amount, 0);
}

#[test]
fn test_repay_loan() {
    let (mut contract, owner, borrower) = create_contract();
    let token_id = 1u32;
    let loan_amount = 1000i128;
    let interest_rate = 500u32;
    let duration_days = 30u32;

    contract.mint(&borrower, token_id, &owner);

    let loan_id = contract.create_loan(
        &borrower,
        token_id,
        loan_amount,
        interest_rate,
        duration_days,
        &borrower,
    );

    let partial_payment = 500i128;
    contract.repay_loan(loan_id, partial_payment, &borrower);

    let loan_info = contract.engine.get_loan_info(loan_id).unwrap();
    assert_eq!(loan_info.repaid_amount, partial_payment);
    assert_eq!(loan_info.status, LoanStatus::Active);

    let remaining = loan_amount - partial_payment;
    contract.repay_loan(loan_id, remaining, &borrower);

    let loan_info = contract.engine.get_loan_info(loan_id).unwrap();
    assert_eq!(loan_info.status, LoanStatus::Repaid);
    assert!(!contract.engine.is_collateral(token_id));
}

#[test]
fn test_liquidate_loan() {
    let (mut contract, owner, borrower) = create_contract();
    let token_id = 1u32;
    let loan_amount = 1000i128;
    let interest_rate = 500u32;
    let duration_days = 1u32;

    contract.mint(&borrower, token_id, &owner);

    let loan_id = contract.create_loan(
        &borrower,
        token_id,
        loan_amount,
        interest_rate,
        duration_days,
        &borrower,
    );

    contract.now = contract.now + (2 * 24 * 60 * 60);

    contract.liquidate_loan(loan_id, &owner);

    let loan_info = contract.engine.get_loan_info(loan_id).unwrap();
    assert_eq!(loan_info.status, LoanStatus::Liquidated);

    assert_eq!(contract.registry.owner_of(token_id), Some(owner));
}

#[test]
fn test_calculate_interest() {
    let (mut contract, owner, borrower) = create_contract();
    let token_id = 1u32;
    let loan_amount = 1000i128;
    let interest_rate = 1000u32;
    let duration_days = 365u32;

    contract.mint(&borrower, token_id, &owner);

    let loan_id = contract.create_loan(
        &borrower,
        token_id,
        loan_amount,
        interest_rate,
        duration_days,
        &borrower,
    );

    contract.now = contract.now + (365 * 24 * 60 * 60);

    let loan_info = contract.engine.get_loan_info(loan_id).unwrap();
    assert!(loan_info.checked_interest(contract.now).is_some());
    let interest = LendingNFT::calculate_interest(&loan_info, contract.now);

    assert_eq!(interest, 100);
}

#[test]
fn test_get_user_loans() {
    let (mut contract, owner, borrower) = create_contract();
    let token_id1 = 1u32;
    let token_id2 = 2u32;

    contract.mint(&borrower, token_id1, &owner);
    contract.mint(&borrower, token_id2, &owner);

    let loan_id1 = contract.create_loan(&borrower, token_id1, 1000i128, 500u32, 30u32, &borrower);

    let loan_id2 = contract.create_loan(&borrower, token_id2, 2000i128, 600u32, 60u32, &borrower);

    let user_loans = contract.engine.get_user_loans(&borrower);
    assert_eq!(user_loans.len(), 2);
    assert!(user_loans.contains(&loan_id1));
    assert!(user_loans.contains(&loan_id2));
}

#[test]
#[should_panic(expected = "Not owner of collateral")]
fn test_create_loan_not_owner() {
    let (mut contract, owner, borrower) = create_contract();
    let token_id = 1u32;
    let other_borrower = AccountId::new("GOTHER");

    contract.mint(&borrower, token_id, &owner);

    contract.create_loan(&other_borrower, token_id, 1000i128, 500u32, 30u32, &other_borrower);
}

#[test]
#[should_panic(expected = "Token already used as collateral")]
fn test_create_loan_already_collateral() {
    let (mut contract, owner, borrower) = create_contract();
    let token_id = 1u32;

    contract.mint(&borrower, token_id, &owner);

    contract.create_loan(&borrower, token_id, 1000i128, 500u32, 30u32, &borrower);

    contract.create_loan(&borrower, token_id, 2000i128, 600u32, 60u32, &borrower);
}

#[test]
#[should_panic(expected = "Not the borrower")]
fn test_repay_loan_not_borrower() {
    let (mut contract, owner, borrower) = create_contract();
    let token_id = 1u32;
    let other_user = AccountId::new("GOTHER");

    contract.mint(&borrower, token_id, &owner);

    let loan_id = contract.create_loan(&borrower, token_id, 1000i128, 500u32, 30u32, &borrower);

    contract.repay_loan(loan_id, 500i128, &other_user);
}

#[test]
#[should_panic(expected = "Loan not yet expired")]
fn test_liquidate_loan_not_expired() {
    let (mut contract, owner, borrower) = create_contract();
    let token_id = 1u32;
    let loan_amount = 1000i128;
    let interest_rate = 500u32;
    let duration_days = 30u32;

    contract.mint(&borrower, token_id, &owner);

    let loan_id = contract.create_loan(
        &borrower,
        token_id,
        loan_amount,
        interest_rate,
        duration_days,
        &borrower,
    );

    contract.liquidate_loan(loan_id, &owner);
}

#[test]
fn scenario_repayment_in_two_halves_frees_the_asset() {
    let (mut contract, admin, borrower) = create_contract();
    contract.mint(&borrower, 1, &admin);

    let loan_id = contract.create_loan(&borrower, 1, 1000, 500, 30, &borrower);
    assert_eq!(loan_id, 1);
    assert!(contract.engine.is_collateral(1));

    contract.repay_loan(1, 500, &borrower);
    let info = contract.engine.get_loan_info(1).unwrap();
    assert_eq!(info.status, LoanStatus::Active);
    assert_eq!(info.repaid_amount, 500);
    assert!(contract.engine.is_collateral(1));

    contract.repay_loan(1, 500, &borrower);
    let info = contract.engine.get_loan_info(1).unwrap();
    assert_eq!(info.status, LoanStatus::Repaid);
    assert_eq!(info.repaid_amount, 1000);
    assert!(!contract.engine.is_collateral(1));
    assert_eq!(contract.registry.owner_of(1), Some(borrower));
}

#[test]
fn scenario_anyone_liquidates_after_thirty_one_days() {
    let (mut contract, admin, borrower) = create_contract();
    let liquidator = AccountId::new("GLIQUIDATOR");
    contract.mint(&borrower, 1, &admin);
    contract.create_loan(&borrower, 1, 1000, 500, 30, &borrower);

    contract.now = 31 * DAY;
    contract.liquidate_loan(1, &liquidator);

    let info = contract.engine.get_loan_info(1).unwrap();
    assert_eq!(info.status, LoanStatus::Liquidated);
    assert_eq!(info.repaid_amount, 0);
    assert!(!contract.engine.is_collateral(1));
    assert_eq!(contract.registry.owner_of(1), Some(liquidator));
}

#[test]
fn scenario_freed_asset_backs_a_new_loan() {
    let (mut contract, admin, borrower) = create_contract();
    contract.mint(&borrower, 7, &admin);
    contract.create_loan(&borrower, 7, 400, 100, 10, &borrower);
    contract.repay_loan(1, 400, &borrower);

    let second = contract.create_loan(&borrower, 7, 900, 100, 10, &borrower);

    assert_eq!(second, 2);
    assert!(contract.engine.is_collateral(7));
    assert_eq!(contract.engine.get_loan_info(1).unwrap().status, LoanStatus::Repaid);
    assert_eq!(contract.engine.get_loan_info(2).unwrap().status, LoanStatus::Active);
    assert_eq!(contract.engine.get_user_loans(&borrower), vec![1, 2]);
}
