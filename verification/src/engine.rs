//! The loan lifecycle engine: creation, repayment, liquidation and the
//! queries, as operations on an explicit state.
//!
//! The engine owns the ledger. What it needs from the asset registry, the
//! access gate and the clock is handed in with each call as plain values;
//! what the registry has to do afterwards comes back as an order.

use vstd::prelude::*;
use crate::account::AccountId;
use crate::consistency::{lemma_index_lists_loans, rising};
use crate::laws::law_collateral_means_active_loan;
use crate::ledger::{LedgerView, LoanLedger};
use crate::loan::{LoanError, LoanRecord, LoanStatus, LoanView};
use crate::preservation::{
    lemma_entering_preserves_inv, lemma_liquidate_preserves_inv, lemma_repay_preserves_inv,
};

verus! {

/// An order to the asset registry: register `asset_id` as owned by `to`.
#[derive(Debug, PartialEq, Eq)]
pub struct MintOrder {
    pub to: AccountId,
    pub asset_id: u32,
}

/// An order to the asset registry: move `asset_id` from `from` to `to`.
#[derive(Debug, PartialEq, Eq)]
pub struct TransferOrder {
    pub from: AccountId,
    pub to: AccountId,
    pub asset_id: u32,
}

/// The mathematical value of a [`MintOrder`].
pub ghost struct MintView {
    pub to: Seq<char>,
    pub asset_id: u32,
}

/// The mathematical value of a [`TransferOrder`].
pub ghost struct TransferView {
    pub from: Seq<char>,
    pub to: Seq<char>,
    pub asset_id: u32,
}

impl View for MintOrder {
    type V = MintView;

    open spec fn view(&self) -> MintView {
        MintView { to: self.to@, asset_id: self.asset_id }
    }
}

impl View for TransferOrder {
    type V = TransferView;

    open spec fn view(&self) -> TransferView {
        TransferView { from: self.from@, to: self.to@, asset_id: self.asset_id }
    }
}

/// The account that `owner` names, if it names one.
pub open spec fn account_view(owner: Option<&AccountId>) -> Option<Seq<char>> {
    match owner {
        Some(account) => Some(account@),
        None => None,
    }
}

/// The lending engine: the administrator's account and the loan ledger.
pub struct LendingNFT {
    owner: AccountId,
    ledger: LoanLedger,
}

/// The mathematical value of a [`LendingNFT`].
pub ghost struct EngineView {
    /// The administrator.
    pub owner: Seq<char>,
    /// The ledger.
    pub ledger: LedgerView,
}

impl View for LendingNFT {
    type V = EngineView;

    closed spec fn view(&self) -> EngineView {
        EngineView { owner: self.owner@, ledger: self.ledger@ }
    }
}

impl EngineView {
    /// The invariant of the engine: that of its ledger.
    pub open spec fn inv(self) -> bool {
        self.ledger.inv()
    }

    /// Whether `collateral_id` currently backs an active loan.
    pub open spec fn is_collateral(self, collateral_id: u32) -> bool {
        self.ledger.is_locked(collateral_id)
    }

    /// The record of loan `loan_id`, or `LoanNotFound`.
    pub open spec fn loan_info(self, loan_id: u32) -> Result<LoanView, LoanError> {
        if self.ledger.loans.contains_key(loan_id) {
            Ok(self.ledger.loans[loan_id])
        } else {
            Err(LoanError::LoanNotFound)
        }
    }

    /// Every loan that `borrower` ever opened, oldest first.
    pub open spec fn user_loans(self, borrower: Seq<char>) -> Seq<u32> {
        self.ledger.loans_of(borrower)
    }

    /// The answer of the engine to a request for a loan: the new loan's
    /// identifier, or the first of the reasons against it.
    pub open spec fn create_outcome(
        self,
        borrower: Seq<char>,
        collateral_id: u32,
        principal: i128,
        duration_days: u32,
        owner: Option<Seq<char>>,
        paused: bool,
    ) -> Result<u32, LoanError> {
        if owner != Some(borrower) {
            Err(LoanError::NotCollateralOwner)
        } else if self.ledger.is_locked(collateral_id) {
            Err(LoanError::CollateralAlreadyLocked)
        } else if principal <= 0 || duration_days == 0 {
            Err(LoanError::InvalidLoanTerms)
        } else if paused {
            Err(LoanError::ContractPaused)
        } else {
            Ok(self.ledger.next_loan_id())
        }
    }

    /// The record with which a loan starts.
    pub open spec fn opening_record(
        self,
        borrower: Seq<char>,
        collateral_id: u32,
        principal: i128,
        interest_rate_bps: u32,
        duration_days: u32,
        now: u64,
    ) -> LoanView {
        LoanView {
            loan_id: self.ledger.next_loan_id(),
            borrower,
            collateral_id,
            principal,
            interest_rate_bps,
            duration_days,
            created_at: now,
            status: LoanStatus::Active,
            repaid_amount: 0,
        }
    }

    /// The engine after a loan was opened: the identifier is used up, the
    /// record stored, the collateral locked and the borrower's index extended.
    pub open spec fn after_create(
        self,
        borrower: Seq<char>,
        collateral_id: u32,
        principal: i128,
        interest_rate_bps: u32,
        duration_days: u32,
        now: u64,
    ) -> EngineView {
        EngineView {
            ledger: self.ledger.entered(
                self.opening_record(
                    borrower,
                    collateral_id,
                    principal,
                    interest_rate_bps,
                    duration_days,
                    now,
                ),
            ),
            ..self
        }
    }

    /// The answer of the engine to a repayment: acceptance, or the first of
    /// the reasons against it.
    pub open spec fn repay_outcome(self, loan_id: u32, amount: i128, caller: Seq<char>) -> Result<
        (),
        LoanError,
    > {
        if !self.ledger.loans.contains_key(loan_id) {
            Err(LoanError::LoanNotFound)
        } else if self.ledger.loans[loan_id].borrower != caller {
            Err(LoanError::NotBorrower)
        } else if self.ledger.loans[loan_id].status != LoanStatus::Active {
            Err(LoanError::LoanNotActive)
        } else if amount <= 0 {
            Err(LoanError::InvalidAmount)
        } else {
            Ok(())
        }
    }

    /// The engine after an accepted repayment of `amount` on loan `loan_id`:
    /// the record updated, and the collateral released where the loan is
    /// settled.
    pub open spec fn after_repay(self, loan_id: u32, amount: i128) -> EngineView {
        let record = self.ledger.loans[loan_id];
        let stored = self.ledger.put(loan_id, record.after_payment(amount));
        EngineView {
            ledger: if record.settled_by(amount) {
                stored.release(record.collateral_id)
            } else {
                stored
            },
            ..self
        }
    }

    /// The answer of the engine to a liquidation: the transfer of the
    /// collateral from the borrower to the caller, or the first of the
    /// reasons against it.
    pub open spec fn liquidate_outcome(
        self,
        loan_id: u32,
        caller: Seq<char>,
        paused: bool,
        now: u64,
    ) -> Result<TransferView, LoanError> {
        if !self.ledger.loans.contains_key(loan_id) {
            Err(LoanError::LoanNotFound)
        } else if self.ledger.loans[loan_id].status != LoanStatus::Active {
            Err(LoanError::LoanNotActive)
        } else if !self.ledger.loans[loan_id].expired_at(now) {
            Err(LoanError::LoanNotExpired)
        } else if paused {
            Err(LoanError::ContractPaused)
        } else {
            Ok(
                TransferView {
                    from: self.ledger.loans[loan_id].borrower,
                    to: caller,
                    asset_id: self.ledger.loans[loan_id].collateral_id,
                },
            )
        }
    }

    /// The engine after loan `loan_id` was liquidated: the record closed
    /// and the collateral released.
    pub open spec fn after_liquidate(self, loan_id: u32) -> EngineView {
        let record = self.ledger.loans[loan_id];
        EngineView {
            ledger: self.ledger.put(loan_id, record.liquidated()).release(record.collateral_id),
            ..self
        }
    }

    /// The answer of the engine to a request to mint `asset_id` to `to`.
    pub open spec fn mint_outcome(
        self,
        to: Seq<char>,
        asset_id: u32,
        caller: Seq<char>,
        paused: bool,
    ) -> Result<MintView, LoanError> {
        if paused {
            Err(LoanError::ContractPaused)
        } else if caller != self.owner {
            Err(LoanError::NotAuthorized)
        } else {
            Ok(MintView { to, asset_id })
        }
    }

    /// The answer of the access gate to `caller` asking for the pause flag
    /// to be set to `paused`.
    pub open spec fn gate_outcome(self, caller: Seq<char>, paused: bool) -> Result<
        bool,
        LoanError,
    > {
        if caller != self.owner {
            Err(LoanError::NotAuthorized)
        } else {
            Ok(paused)
        }
    }
}

impl LendingNFT {
    /// An engine without loans, administered by `owner`.
    pub fn new(owner: AccountId) -> (engine: LendingNFT)
        ensures
            engine@ == (EngineView { owner: owner@, ledger: LedgerView::empty() }),
            engine@.inv(),
    {
        LendingNFT { owner, ledger: LoanLedger::new() }
    }

    /// The administrator.
    pub fn owner(&self) -> (owner: &AccountId)
        ensures
            owner@ == self@.owner,
    {
        &self.owner
    }

    /// Opens a loan of `principal` to `borrower` against `collateral_id`.
    ///
    /// `owner` is what the asset registry reports as the owner of the
    /// collateral, `paused` what the access gate reports, `now` the ledger
    /// time. The loan is refused, and nothing changes, for the first of these
    /// reasons that applies: the registry does not report `borrower` as the
    /// owner; the collateral is locked; the principal or the term is not
    /// positive; the engine is paused. The caller's identity is not looked at.
    ///
    /// A loan can only be granted while an identifier is left: the engine
    /// must have opened fewer than `u32::MAX` loans.
    pub fn create_loan(
        &mut self,
        borrower: &AccountId,
        collateral_id: u32,
        principal: i128,
        interest_rate_bps: u32,
        duration_days: u32,
        _caller: &AccountId,
        owner: Option<&AccountId>,
        paused: bool,
        now: u64,
    ) -> (result: Result<u32, LoanError>)
        requires
            old(self)@.inv(),
            old(self)@.ledger.allocated < u32::MAX || old(self)@.create_outcome(
                borrower@,
                collateral_id,
                principal,
                duration_days,
                account_view(owner),
                paused,
            ) is Err,
        ensures
            result == old(self)@.create_outcome(
                borrower@,
                collateral_id,
                principal,
                duration_days,
                account_view(owner),
                paused,
            ),
            result is Ok ==> final(self)@ == old(self)@.after_create(
                borrower@,
                collateral_id,
                principal,
                interest_rate_bps,
                duration_days,
                now,
            ),
            result is Err ==> final(self)@ == old(self)@,
            final(self)@.inv(),
    {
        let owns = match owner {
            Some(account) => account.same(borrower),
            None => false,
        };
        if !owns {
            return Err(LoanError::NotCollateralOwner);
        }
        if self.ledger.is_collateral_locked(collateral_id) {
            return Err(LoanError::CollateralAlreadyLocked);
        }
        if principal <= 0 || duration_days == 0 {
            return Err(LoanError::InvalidLoanTerms);
        }
        if paused {
            return Err(LoanError::ContractPaused);
        }
        proof {
            lemma_entering_preserves_inv(
                self@.ledger,
                self@.opening_record(
                    borrower@,
                    collateral_id,
                    principal,
                    interest_rate_bps,
                    duration_days,
                    now,
                ),
            );
        }
        let loan_id = self.ledger.last_loan_id() + 1;
        self.enter(
            LoanRecord {
                loan_id,
                borrower: borrower.clone(),
                collateral_id,
                principal,
                interest_rate_bps,
                duration_days,
                created_at: now,
                status: LoanStatus::Active,
                repaid_amount: 0,
            },
        );
        Ok(loan_id)
    }

    /// Enters `record` as the next loan of the ledger, under the next
    /// identifier, and locks its collateral if the loan is active.
    pub(crate) fn enter(&mut self, record: LoanRecord)
        requires
            old(self)@.ledger.allocated < u32::MAX,
        ensures
            final(self)@ == (EngineView {
                ledger: old(self)@.ledger.entered(record@),
                ..old(self)@
            }),
    {
        let loan_id = self.ledger.allocate_loan_id();
        let borrower = record.borrower.clone();
        let collateral_id = record.collateral_id;
        let active = record.status == LoanStatus::Active;
        self.ledger.put(loan_id, record);
        self.ledger.add_to_borrower_index(&borrower, loan_id);
        if active {
            self.ledger.lock_collateral(collateral_id, loan_id);
        }
    }

    /// Books a payment of `amount` by `caller` on loan `loan_id`.
    ///
    /// The payment is refused, and nothing changes, for the first of these
    /// reasons that applies: there is no such loan; the caller is not its
    /// borrower; the loan is not active; the amount is not positive. A
    /// payment that reaches the principal closes the loan as repaid and
    /// releases the collateral; the repaid amount never exceeds the principal.
    pub fn repay_loan(&mut self, loan_id: u32, amount: i128, caller: &AccountId) -> (result: Result<
        (),
        LoanError,
    >)
        requires
            old(self)@.inv(),
        ensures
            result == old(self)@.repay_outcome(loan_id, amount, caller@),
            result is Ok ==> final(self)@ == old(self)@.after_repay(loan_id, amount),
            result is Err ==> final(self)@ == old(self)@,
            final(self)@.inv(),
    {
        let mut record = match self.ledger.get(loan_id) {
            Some(found) => found.clone(),
            None => {
                return Err(LoanError::LoanNotFound);
            },
        };
        if !record.borrower.same(caller) {
            return Err(LoanError::NotBorrower);
        }
        if record.status != LoanStatus::Active {
            return Err(LoanError::LoanNotActive);
        }
        if amount <= 0 {
            return Err(LoanError::InvalidAmount);
        }
        proof {
            lemma_repay_preserves_inv(self@, loan_id, amount, caller@);
        }
        let outstanding: i128 = record.principal - record.repaid_amount;
        if amount >= outstanding {
            let collateral_id = record.collateral_id;
            record.repaid_amount = record.principal;
            record.status = LoanStatus::Repaid;
            self.ledger.put(loan_id, record);
            self.ledger.release_collateral(collateral_id);
        } else {
            record.repaid_amount = record.repaid_amount + amount;
            self.ledger.put(loan_id, record);
        }
        Ok(())
    }

    /// Liquidates loan `loan_id` on behalf of `caller`, who may be anyone.
    ///
    /// `paused` is what the access gate reports, `now` the ledger time. The
    /// liquidation is refused, and nothing changes, for the first of these
    /// reasons that applies: there is no such loan; the loan is not active;
    /// its term has not run out; the engine is paused. Otherwise the loan is
    /// closed as liquidated, the collateral released, and the order to
    /// transfer the collateral from the borrower to the caller returned.
    pub fn liquidate_loan(&mut self, loan_id: u32, caller: &AccountId, paused: bool, now: u64) -> (result:
        Result<TransferOrder, LoanError>)
        requires
            old(self)@.inv(),
        ensures
            match result {
                Ok(order) => old(self)@.liquidate_outcome(loan_id, caller@, paused, now) == Ok::<
                    TransferView,
                    LoanError,
                >(order@),
                Err(error) => old(self)@.liquidate_outcome(loan_id, caller@, paused, now) == Err::<
                    TransferView,
                    LoanError,
                >(error),
            },
            result is Ok ==> final(self)@ == old(self)@.after_liquidate(loan_id),
            result is Err ==> final(self)@ == old(self)@,
            final(self)@.inv(),
    {
        let mut record = match self.ledger.get(loan_id) {
            Some(found) => found.clone(),
            None => {
                return Err(LoanError::LoanNotFound);
            },
        };
        if record.status != LoanStatus::Active {
            return Err(LoanError::LoanNotActive);
        }
        if !record.expired_at(now) {
            return Err(LoanError::LoanNotExpired);
        }
        if paused {
            return Err(LoanError::ContractPaused);
        }
        proof {
            lemma_liquidate_preserves_inv(self@, loan_id, caller@, paused, now);
        }
        let order = TransferOrder {
            from: record.borrower.clone(),
            to: caller.clone(),
            asset_id: record.collateral_id,
        };
        let collateral_id = record.collateral_id;
        record.status = LoanStatus::Liquidated;
        self.ledger.put(loan_id, record);
        self.ledger.release_collateral(collateral_id);
        Ok(order)
    }

    /// The interest accrued on `record` at `at_time`, rounded down. It stops
    /// growing at the end of the term, and is zero before creation.
    pub fn calculate_interest(record: &LoanRecord, at_time: u64) -> (interest: i128)
        requires
            record@.has_valid_terms(),
            record@.interest(at_time) <= i128::MAX,
        ensures
            interest == record@.interest(at_time),
    {
        match record.checked_interest(at_time) {
            Some(interest) => interest,
            None => 0,
        }
    }

    /// The record of loan `loan_id`, or `LoanNotFound`.
    pub fn get_loan_info(&self, loan_id: u32) -> (result: Result<LoanRecord, LoanError>)
        ensures
            match result {
                Ok(record) => self@.loan_info(loan_id) == Ok::<LoanView, LoanError>(record@),
                Err(error) => self@.loan_info(loan_id) == Err::<LoanView, LoanError>(error),
            },
    {
        match self.ledger.get(loan_id) {
            Some(found) => Ok(found.clone()),
            None => Err(LoanError::LoanNotFound),
        }
    }

    /// Whether `collateral_id` currently backs an active loan.
    pub fn is_collateral(&self, collateral_id: u32) -> (locked: bool)
        ensures
            locked == self@.is_collateral(collateral_id),
            self@.inv() ==> (locked <==> exists|loan_id: u32|
                self@.ledger.backs_active_loan(collateral_id, loan_id)),
    {
        proof {
            if self@.inv() {
                law_collateral_means_active_loan(self@, collateral_id);
            }
        }
        self.ledger.is_collateral_locked(collateral_id)
    }

    /// Every loan that `borrower` ever opened, oldest first, whatever its
    /// status.
    pub fn get_user_loans(&self, borrower: &AccountId) -> (loans: Vec<u32>)
        ensures
            loans@ == self@.user_loans(borrower@),
            self@.inv() ==> rising(loans@) && forall|loan_id: u32|
                loans@.contains(loan_id) <==> self@.ledger.loans.contains_key(loan_id)
                    && self@.ledger.loans[loan_id].borrower == borrower@,
    {
        proof {
            if self@.inv() {
                lemma_index_lists_loans(self@.ledger, borrower@);
            }
        }
        self.ledger.loans_of(borrower)
    }

    /// The number of loans opened so far, which is the last identifier
    /// handed out.
    pub fn loan_count(&self) -> (count: u32)
        ensures
            count == self@.ledger.allocated,
    {
        self.ledger.last_loan_id()
    }

    /// Decides on `caller` asking to mint `asset_id` to `to`, where the
    /// access gate reports `paused`: refused while paused, refused to anyone
    /// but the administrator, and otherwise the order for the registry.
    pub fn mint(&self, to: &AccountId, asset_id: u32, caller: &AccountId, paused: bool) -> (result:
        Result<MintOrder, LoanError>)
        ensures
            match result {
                Ok(order) => self@.mint_outcome(to@, asset_id, caller@, paused) == Ok::<
                    MintView,
                    LoanError,
                >(order@),
                Err(error) => self@.mint_outcome(to@, asset_id, caller@, paused) == Err::<
                    MintView,
                    LoanError,
                >(error),
            },
    {
        if paused {
            return Err(LoanError::ContractPaused);
        }
        if !caller.same(&self.owner) {
            return Err(LoanError::NotAuthorized);
        }
        Ok(MintOrder { to: to.clone(), asset_id })
    }

    /// Decides on `caller` asking to pause the engine: the flag that the
    /// access gate has to hold from now on, which is `true`, or
    /// `NotAuthorized` for anyone but the administrator.
    pub fn pause(&self, caller: &AccountId) -> (result: Result<bool, LoanError>)
        ensures
            result == self@.gate_outcome(caller@, true),
    {
        if caller.same(&self.owner) {
            Ok(true)
        } else {
            Err(LoanError::NotAuthorized)
        }
    }

    /// Decides on `caller` asking to resume the engine: the flag that the
    /// access gate has to hold from now on, which is `false`, or
    /// `NotAuthorized` for anyone but the administrator.
    pub fn unpause(&self, caller: &AccountId) -> (result: Result<bool, LoanError>)
        ensures
            result == self@.gate_outcome(caller@, false),
    {
        if caller.same(&self.owner) {
            Ok(false)
        } else {
            Err(LoanError::NotAuthorized)
        }
    }
}

} // verus!
