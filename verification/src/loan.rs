//! Loan records and the errors of the lending engine.

use vstd::prelude::*;
use vstd::arithmetic::div_mod::{lemma_fundamental_div_mod, lemma_hoist_over_denominator};
use crate::account::AccountId;

verus! {

/// The length of a day of ledger time, in seconds.
pub const SECONDS_PER_DAY: u64 = 86400;

/// The number of basis points in the whole: a rate of 10000 is 100%.
pub const BASIS_POINTS: u64 = 10000;

/// The three states of a loan. `Repaid` and `Liquidated` are terminal.
#[derive(Clone, Copy, Debug, PartialEq, Eq, Structural)]
pub enum LoanStatus {
    Active,
    Repaid,
    Liquidated,
}

/// Why an operation was refused. A refused operation changes nothing.
#[derive(Clone, Copy, Debug, PartialEq, Eq, Structural)]
pub enum LoanError {
    /// An administrative action was asked for by an account other than the administrator.
    NotAuthorized,
    /// The asset registry does not report the borrower as owner of the collateral.
    NotCollateralOwner,
    /// The collateral already backs an active loan.
    CollateralAlreadyLocked,
    /// The principal or the term is not positive.
    InvalidLoanTerms,
    /// No loan has this identifier.
    LoanNotFound,
    /// The caller is not the borrower of the loan.
    NotBorrower,
    /// The loan is repaid or liquidated.
    LoanNotActive,
    /// The amount is not positive.
    InvalidAmount,
    /// The term of the loan has not run out yet.
    LoanNotExpired,
    /// The access gate reports the engine as paused.
    ContractPaused,
}

impl LoanError {
    /// The text that [`LoanError::message`] gives for this error.
    pub open spec fn message_text(self) -> Seq<char> {
        match self {
            LoanError::NotAuthorized => "Not authorized"@,
            LoanError::NotCollateralOwner => "Not owner of collateral"@,
            LoanError::CollateralAlreadyLocked => "Token already used as collateral"@,
            LoanError::InvalidLoanTerms => "Invalid loan terms"@,
            LoanError::LoanNotFound => "Loan not found"@,
            LoanError::NotBorrower => "Not the borrower"@,
            LoanError::LoanNotActive => "Loan not active"@,
            LoanError::InvalidAmount => "Invalid amount"@,
            LoanError::LoanNotExpired => "Loan not yet expired"@,
            LoanError::ContractPaused => "Contract paused"@,
        }
    }

    /// A short description of the error, for people.
    pub fn message(&self) -> (text: &'static str)
        ensures
            text@ == self.message_text(),
    {
        match self {
            LoanError::NotAuthorized => "Not authorized",
            LoanError::NotCollateralOwner => "Not owner of collateral",
            LoanError::CollateralAlreadyLocked => "Token already used as collateral",
            LoanError::InvalidLoanTerms => "Invalid loan terms",
            LoanError::LoanNotFound => "Loan not found",
            LoanError::NotBorrower => "Not the borrower",
            LoanError::LoanNotActive => "Loan not active",
            LoanError::InvalidAmount => "Invalid amount",
            LoanError::LoanNotExpired => "Loan not yet expired",
            LoanError::ContractPaused => "Contract paused",
        }
    }
}

/// One loan, as the ledger keeps it.
#[derive(Debug, PartialEq, Eq)]
pub struct LoanRecord {
    pub loan_id: u32,
    pub borrower: AccountId,
    pub collateral_id: u32,
    pub principal: i128,
    pub interest_rate_bps: u32,
    pub duration_days: u32,
    pub created_at: u64,
    pub status: LoanStatus,
    pub repaid_amount: i128,
}

/// The mathematical value of a [`LoanRecord`].
pub ghost struct LoanView {
    pub loan_id: u32,
    pub borrower: Seq<char>,
    pub collateral_id: u32,
    pub principal: i128,
    pub interest_rate_bps: u32,
    pub duration_days: u32,
    pub created_at: u64,
    pub status: LoanStatus,
    pub repaid_amount: i128,
}

impl View for LoanRecord {
    type V = LoanView;

    open spec fn view(&self) -> LoanView {
        LoanView {
            loan_id: self.loan_id,
            borrower: self.borrower@,
            collateral_id: self.collateral_id,
            principal: self.principal,
            interest_rate_bps: self.interest_rate_bps,
            duration_days: self.duration_days,
            created_at: self.created_at,
            status: self.status,
            repaid_amount: self.repaid_amount,
        }
    }
}

impl LoanView {
    /// The terms under which a loan may be opened: a positive principal
    /// and a positive term.
    pub open spec fn has_valid_terms(self) -> bool {
        self.principal > 0 && self.duration_days > 0
    }

    /// What holds of every record that the engine keeps: valid terms, a
    /// repaid amount between zero and the principal, and full settlement
    /// exactly in the state `Repaid`.
    pub open spec fn consistent(self) -> bool {
        &&& self.has_valid_terms()
        &&& 0 <= self.repaid_amount <= self.principal
        &&& (self.status == LoanStatus::Repaid <==> self.repaid_amount == self.principal)
    }

    /// The first second at which the term has run out.
    pub open spec fn expiry(self) -> int {
        self.created_at + self.duration_days * SECONDS_PER_DAY
    }

    /// Whether the term has run out at time `now`.
    pub open spec fn expired_at(self, now: u64) -> bool {
        now >= self.expiry()
    }

    /// The whole days between creation and `at_time` during which interest
    /// accrues: none before creation, and no more than the term.
    pub open spec fn elapsed_days(self, at_time: u64) -> int {
        if at_time <= self.created_at {
            0
        } else {
            let days = (at_time - self.created_at) / (SECONDS_PER_DAY as int);
            if days > self.duration_days {
                self.duration_days as int
            } else {
                days
            }
        }
    }

    /// Simple interest accrued at `at_time`, rounded down:
    /// `principal * rate * elapsed / (10000 * term)`.
    pub open spec fn interest(self, at_time: u64) -> int
        recommends
            self.has_valid_terms(),
    {
        self.principal * self.interest_rate_bps * self.elapsed_days(at_time) / (BASIS_POINTS
            * self.duration_days)
    }

    /// Whether a payment of `amount` settles the loan in full.
    pub open spec fn settled_by(self, amount: i128) -> bool {
        self.repaid_amount + amount >= self.principal
    }

    /// The repaid amount after a payment of `amount`: the sum, but never
    /// more than the principal.
    pub open spec fn repaid_after(self, amount: i128) -> int {
        if self.settled_by(amount) {
            self.principal as int
        } else {
            self.repaid_amount + amount
        }
    }

    /// The record after a payment of `amount`: repaid in full and closed, or
    /// still active with the payment added. What exceeds the principal is
    /// accepted and not credited.
    pub open spec fn after_payment(self, amount: i128) -> LoanView {
        LoanView {
            repaid_amount: self.repaid_after(amount) as i128,
            status: if self.settled_by(amount) {
                LoanStatus::Repaid
            } else {
                LoanStatus::Active
            },
            ..self
        }
    }

    /// The record after liquidation.
    pub open spec fn liquidated(self) -> LoanView {
        LoanView { status: LoanStatus::Liquidated, ..self }
    }
}

impl LoanRecord {
    /// Whether the record is consistent: valid terms, a repaid amount
    /// between zero and the principal, and full settlement exactly in the
    /// state `Repaid`.
    pub fn is_consistent(&self) -> (consistent: bool)
        ensures
            consistent == self@.consistent(),
    {
        let settled = self.repaid_amount == self.principal;
        let repaid = self.status == LoanStatus::Repaid;
        self.principal > 0 && self.duration_days > 0 && 0 <= self.repaid_amount
            && self.repaid_amount <= self.principal && settled == repaid
    }

    /// The whole days of accrual at `at_time`.
    pub fn elapsed_days(&self, at_time: u64) -> (days: u32)
        ensures
            days == self@.elapsed_days(at_time),
    {
        if at_time <= self.created_at {
            0
        } else {
            let days: u64 = (at_time - self.created_at) / SECONDS_PER_DAY;
            if days > self.duration_days as u64 {
                self.duration_days
            } else {
                days as u32
            }
        }
    }

    /// Whether the term has run out at time `now`.
    pub fn expired_at(&self, now: u64) -> (expired: bool)
        ensures
            expired == self@.expired_at(now),
    {
        let term: u64 = self.duration_days as u64 * SECONDS_PER_DAY;
        now >= self.created_at && now - self.created_at >= term
    }

    /// The interest accrued at `at_time`, where the terms are valid and the
    /// amount fits in 128 bits; `None` otherwise.
    ///
    /// The product `principal * rate * elapsed` is never formed: the
    /// principal is split by the divisor, so that every intermediate value
    /// fits whenever the result does.
    pub fn checked_interest(&self, at_time: u64) -> (interest: Option<i128>)
        ensures
            interest is Some <==> self@.has_valid_terms() && self@.interest(at_time) <= i128::MAX,
            interest is Some ==> interest->0 == self@.interest(at_time),
    {
        if self.principal <= 0 || self.duration_days == 0 {
            return None;
        }
        let days: u32 = self.elapsed_days(at_time);
        assert(self.interest_rate_bps * days < 0x1_0000_0000_0000_0000) by (nonlinear_arith)
            requires
                self.interest_rate_bps < 0x1_0000_0000,
                days < 0x1_0000_0000,
        ;
        let weight: u128 = self.interest_rate_bps as u128 * days as u128;
        let divisor: u128 = BASIS_POINTS as u128 * self.duration_days as u128;
        let principal: u128 = self.principal as u128;
        let whole: u128 = principal / divisor;
        let rest: u128 = principal % divisor;
        assert(rest * weight <= 0x4000_0000_0000 * 0x1_0000_0000_0000_0000) by (nonlinear_arith)
            requires
                rest < 0x4000_0000_0000,
                weight < 0x1_0000_0000_0000_0000,
        ;
        let low: u128 = rest * weight / divisor;
        proof {
            let p = principal as int;
            let w = weight as int;
            let d = divisor as int;
            lemma_fundamental_div_mod(p, d);
            lemma_hoist_over_denominator(rest * w, whole * w, d as nat);
            assert(rest * w + (whole * w) * d == p * w) by (nonlinear_arith)
                requires
                    p == d * whole + rest,
            ;
            assert(self.principal * self.interest_rate_bps * days == p * w) by (nonlinear_arith)
                requires
                    p == self.principal,
                    w == self.interest_rate_bps * days,
            ;
            assert(self@.interest(at_time) == whole * w + low);
            assert(whole * w >= 0) by (nonlinear_arith)
                requires
                    whole >= 0,
                    w >= 0,
            ;
        }
        match whole.checked_mul(weight) {
            None => None,
            Some(high) => match high.checked_add(low) {
                None => None,
                Some(total) => if total > i128::MAX as u128 {
                    None
                } else {
                    Some(total as i128)
                },
            },
        }
    }
}

impl Clone for LoanRecord {
    fn clone(&self) -> (copy: LoanRecord)
        ensures
            copy@ == self@,
    {
        LoanRecord {
            loan_id: self.loan_id,
            borrower: self.borrower.clone(),
            collateral_id: self.collateral_id,
            principal: self.principal,
            interest_rate_bps: self.interest_rate_bps,
            duration_days: self.duration_days,
            created_at: self.created_at,
            status: self.status,
            repaid_amount: self.repaid_amount,
        }
    }
}

} // verus!
