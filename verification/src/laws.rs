//! Laws of the engine: what follows from the operations' contracts and the
//! ledger's invariant, stated over the values of the engine before and after.

use vstd::prelude::*;
use vstd::arithmetic::div_mod::{lemma_div_is_ordered, lemma_div_multiples_vanish_quotient};
use crate::engine::{EngineView, LendingNFT, TransferView};
use crate::loan::{LoanError, LoanStatus, LoanView, BASIS_POINTS, SECONDS_PER_DAY};

verus! {

/// Right after a loan was opened, its collateral counts as collateral and
/// its record is there and active, with nothing repaid.
pub proof fn law_new_loan_is_active_and_locks_collateral(
    pre: EngineView,
    borrower: Seq<char>,
    collateral_id: u32,
    principal: i128,
    interest_rate_bps: u32,
    duration_days: u32,
    owner: Option<Seq<char>>,
    paused: bool,
    now: u64,
)
    requires
        pre.create_outcome(borrower, collateral_id, principal, duration_days, owner, paused) is Ok,
    ensures
        ({
            let post = pre.after_create(
                borrower,
                collateral_id,
                principal,
                interest_rate_bps,
                duration_days,
                now,
            );
            let outcome = pre.create_outcome(
                borrower,
                collateral_id,
                principal,
                duration_days,
                owner,
                paused,
            );
            &&& post.is_collateral(collateral_id)
            &&& outcome matches Ok(loan_id) && post.loan_info(loan_id) matches Ok(record)
                && record.status == LoanStatus::Active && record.repaid_amount == 0
                && record.borrower == borrower && record.collateral_id == collateral_id
        }),
{
}

/// The identifier of a new loan was never used before.
pub proof fn law_new_identifier_is_fresh(
    pre: EngineView,
    borrower: Seq<char>,
    collateral_id: u32,
    principal: i128,
    duration_days: u32,
    owner: Option<Seq<char>>,
    paused: bool,
)
    requires
        pre.inv(),
        pre.ledger.allocated < u32::MAX,
    ensures
        pre.create_outcome(borrower, collateral_id, principal, duration_days, owner, paused)
            matches Ok(loan_id) ==> loan_id >= 1 && !pre.ledger.loans.contains_key(loan_id),
{
}

/// While a collateral is locked, every request for a loan on it is refused,
/// whoever asks and whatever the terms.
pub proof fn law_locked_collateral_is_refused(
    pre: EngineView,
    borrower: Seq<char>,
    collateral_id: u32,
    principal: i128,
    duration_days: u32,
    owner: Option<Seq<char>>,
    paused: bool,
)
    requires
        pre.is_collateral(collateral_id),
    ensures
        pre.create_outcome(borrower, collateral_id, principal, duration_days, owner, paused) is Err,
{
}

/// While a collateral is locked, a request for a loan on it by its owner is
/// refused as `CollateralAlreadyLocked`, whatever the terms and the pause
/// flag. (A borrower whom the registry does not report as owner is told so
/// first.)
pub proof fn law_locked_collateral_is_reported(
    pre: EngineView,
    borrower: Seq<char>,
    collateral_id: u32,
    principal: i128,
    duration_days: u32,
    owner: Option<Seq<char>>,
    paused: bool,
)
    requires
        pre.is_collateral(collateral_id),
        owner == Some(borrower),
    ensures
        pre.create_outcome(borrower, collateral_id, principal, duration_days, owner, paused) == Err::<
            u32,
            LoanError,
        >(LoanError::CollateralAlreadyLocked),
{
}

/// A collateral backs at most one active loan.
pub proof fn law_collateral_backs_one_active_loan(
    state: EngineView,
    collateral_id: u32,
    first: u32,
    second: u32,
)
    requires
        state.inv(),
        state.ledger.backs_active_loan(collateral_id, first),
        state.ledger.backs_active_loan(collateral_id, second),
    ensures
        first == second,
{
}

/// A collateral counts as collateral exactly when an active loan is backed
/// by it.
pub proof fn law_collateral_means_active_loan(state: EngineView, collateral_id: u32)
    requires
        state.inv(),
    ensures
        state.is_collateral(collateral_id) <==> exists|loan_id: u32|
            state.ledger.backs_active_loan(collateral_id, loan_id),
{
    if state.is_collateral(collateral_id) {
        assert(state.ledger.locks.contains_key(collateral_id));
        assert(state.ledger.backs_active_loan(collateral_id, state.ledger.locks[collateral_id]));
    }
    if exists|loan_id: u32| state.ledger.backs_active_loan(collateral_id, loan_id) {
        let loan_id = choose|loan_id: u32| state.ledger.backs_active_loan(collateral_id, loan_id);
        assert(state.ledger.loans.contains_key(loan_id));
    }
}

/// An accepted repayment never lowers the repaid amount: the new amount is
/// the smaller of the principal and the old amount plus the payment.
pub proof fn law_repayment_is_monotone(
    pre: EngineView,
    loan_id: u32,
    amount: i128,
    caller: Seq<char>,
)
    requires
        pre.inv(),
        pre.repay_outcome(loan_id, amount, caller) is Ok,
    ensures
        ({
            let before = pre.ledger.loans[loan_id];
            let after = pre.after_repay(loan_id, amount).ledger.loans[loan_id];
            &&& after.repaid_amount >= before.repaid_amount
            &&& after.repaid_amount == vstd::math::min(
                before.principal as int,
                before.repaid_amount + amount,
            )
        }),
{
    assert(pre.ledger.loans[loan_id].consistent());
}

/// The payment that brings the repaid amount up to the principal closes the
/// loan as repaid and frees its collateral; any smaller payment leaves the
/// loan active and the collateral locked.
pub proof fn law_full_repayment_releases_collateral(
    pre: EngineView,
    loan_id: u32,
    amount: i128,
    caller: Seq<char>,
)
    requires
        pre.inv(),
        pre.repay_outcome(loan_id, amount, caller) is Ok,
    ensures
        ({
            let post = pre.after_repay(loan_id, amount);
            let after = post.ledger.loans[loan_id];
            if after.repaid_amount >= after.principal {
                after.status == LoanStatus::Repaid && !post.is_collateral(after.collateral_id)
            } else {
                after.status == LoanStatus::Active && post.is_collateral(after.collateral_id)
            }
        }),
{
    assert(pre.ledger.loans[loan_id].consistent());
}

/// In a consistent engine, a loan whose repaid amount has reached the
/// principal is repaid, and its collateral does not count as collateral
/// unless a later loan has locked it again.
pub proof fn law_settled_loan_is_repaid(state: EngineView, loan_id: u32)
    requires
        state.inv(),
        state.ledger.loans.contains_key(loan_id),
        state.ledger.loans[loan_id].repaid_amount >= state.ledger.loans[loan_id].principal,
        forall|other: u32|
            other != loan_id ==> !state.ledger.backs_active_loan(
                state.ledger.loans[loan_id].collateral_id,
                other,
            ),
    ensures
        state.ledger.loans[loan_id].status == LoanStatus::Repaid,
        !state.is_collateral(state.ledger.loans[loan_id].collateral_id),
{
    let record = state.ledger.loans[loan_id];
    assert(record.consistent());
    if state.is_collateral(record.collateral_id) {
        assert(state.ledger.locks.contains_key(record.collateral_id));
        let holder = state.ledger.locks[record.collateral_id];
        assert(state.ledger.backs_active_loan(record.collateral_id, holder));
    }
}

/// Before the term of an active loan has run out, its liquidation is
/// refused as `LoanNotExpired`, whoever asks and whatever the pause flag.
pub proof fn law_liquidation_before_expiry_is_refused(
    pre: EngineView,
    loan_id: u32,
    caller: Seq<char>,
    paused: bool,
    now: u64,
)
    requires
        pre.ledger.loans.contains_key(loan_id),
        pre.ledger.loans[loan_id].status == LoanStatus::Active,
        now < pre.ledger.loans[loan_id].expiry(),
    ensures
        pre.liquidate_outcome(loan_id, caller, paused, now) == Err::<TransferView, LoanError>(
            LoanError::LoanNotExpired,
        ),
{
}

/// From the second at which the term of an active loan has run out, its
/// liquidation succeeds for any caller, unless the engine is paused: the
/// loan is closed as liquidated, its collateral is released, and the
/// collateral is ordered from the borrower to the caller.
pub proof fn law_liquidation_from_expiry_succeeds(
    pre: EngineView,
    loan_id: u32,
    caller: Seq<char>,
    now: u64,
)
    requires
        pre.ledger.loans.contains_key(loan_id),
        pre.ledger.loans[loan_id].status == LoanStatus::Active,
        now >= pre.ledger.loans[loan_id].expiry(),
    ensures
        ({
            let record = pre.ledger.loans[loan_id];
            let post = pre.after_liquidate(loan_id);
            &&& pre.liquidate_outcome(loan_id, caller, false, now) == Ok::<TransferView, LoanError>(
                TransferView { from: record.borrower, to: caller, asset_id: record.collateral_id },
            )
            &&& post.ledger.loans[loan_id].status == LoanStatus::Liquidated
            &&& !post.is_collateral(record.collateral_id)
        }),
{
}

/// A closed loan stays as it is: repayment and liquidation of it are
/// refused as `LoanNotActive`, unless another reason comes first, and no
/// accepted operation on any loan changes its record.
pub proof fn law_closed_loans_are_frozen(
    pre: EngineView,
    closed: u32,
    loan_id: u32,
    amount: i128,
    caller: Seq<char>,
    paused: bool,
    now: u64,
)
    requires
        pre.inv(),
        pre.ledger.loans.contains_key(closed),
        pre.ledger.loans[closed].status != LoanStatus::Active,
    ensures
        pre.repay_outcome(closed, amount, caller) is Err,
        pre.ledger.loans[closed].borrower == caller ==> pre.repay_outcome(closed, amount, caller)
            == Err::<(), LoanError>(LoanError::LoanNotActive),
        pre.liquidate_outcome(closed, caller, paused, now) == Err::<TransferView, LoanError>(
            LoanError::LoanNotActive,
        ),
        pre.repay_outcome(loan_id, amount, caller) is Ok ==> pre.after_repay(
            loan_id,
            amount,
        ).ledger.loans[closed] == pre.ledger.loans[closed],
        pre.liquidate_outcome(loan_id, caller, paused, now) is Ok ==> pre.after_liquidate(
            loan_id,
        ).ledger.loans[closed] == pre.ledger.loans[closed],
{
}

/// Repayment and liquidation change one record and no other, and of that
/// record only the status and the repaid amount: identifier, borrower,
/// collateral, principal, rate, term and time of creation stay for good.
pub proof fn law_terms_are_immutable(
    pre: EngineView,
    loan_id: u32,
    amount: i128,
    caller: Seq<char>,
    paused: bool,
    now: u64,
    other: u32,
)
    requires
        pre.inv(),
        pre.ledger.loans.contains_key(other),
    ensures
        pre.repay_outcome(loan_id, amount, caller) is Ok ==> {
            let after = pre.after_repay(loan_id, amount).ledger.loans[other];
            &&& pre.after_repay(loan_id, amount).ledger.loans.dom() == pre.ledger.loans.dom()
            &&& other != loan_id ==> after == pre.ledger.loans[other]
            &&& after == (LoanView {
                status: after.status,
                repaid_amount: after.repaid_amount,
                ..pre.ledger.loans[other]
            })
        },
        pre.liquidate_outcome(loan_id, caller, paused, now) is Ok ==> {
            let after = pre.after_liquidate(loan_id).ledger.loans[other];
            &&& pre.after_liquidate(loan_id).ledger.loans.dom() == pre.ledger.loans.dom()
            &&& other != loan_id ==> after == pre.ledger.loans[other]
            &&& after == (LoanView { status: after.status, ..pre.ledger.loans[other] })
        },
{
    if pre.repay_outcome(loan_id, amount, caller) is Ok {
        assert(pre.after_repay(loan_id, amount).ledger.loans.dom() =~= pre.ledger.loans.dom());
    }
    if pre.liquidate_outcome(loan_id, caller, paused, now) is Ok {
        assert(pre.after_liquidate(loan_id).ledger.loans.dom() =~= pre.ledger.loans.dom());
    }
}

/// Opening a loan leaves every earlier record as it was and appends the new
/// loan to the borrower's history, which no operation ever shortens.
pub proof fn law_history_only_grows(
    pre: EngineView,
    borrower: Seq<char>,
    collateral_id: u32,
    principal: i128,
    interest_rate_bps: u32,
    duration_days: u32,
    owner: Option<Seq<char>>,
    paused: bool,
    now: u64,
    loan_id: u32,
    amount: i128,
    caller: Seq<char>,
)
    requires
        pre.inv(),
        pre.ledger.allocated < u32::MAX,
    ensures
        pre.create_outcome(borrower, collateral_id, principal, duration_days, owner, paused)
            matches Ok(new_id) ==> {
            let post = pre.after_create(
                borrower,
                collateral_id,
                principal,
                interest_rate_bps,
                duration_days,
                now,
            );
            &&& post.user_loans(borrower) == pre.user_loans(borrower).push(new_id)
            &&& forall|other: Seq<char>|
                other != borrower ==> post.user_loans(other) == pre.user_loans(other)
            &&& forall|id: u32| #[trigger]
                pre.ledger.loans.contains_key(id) ==> post.ledger.loans.contains_key(id)
                    && post.ledger.loans[id] == pre.ledger.loans[id]
        },
        forall|account: Seq<char>|
            pre.after_repay(loan_id, amount).user_loans(account) == pre.user_loans(account),
        forall|account: Seq<char>|
            pre.after_liquidate(loan_id).user_loans(account) == pre.user_loans(account),
{
}

/// The queries read the engine's value and nothing else: engines of equal
/// value give equal answers. As the queries take the engine by shared
/// reference, asking changes nothing, and asking again gives the same answer.
pub proof fn law_queries_depend_on_value_only(
    first: LendingNFT,
    second: LendingNFT,
    loan_id: u32,
    collateral_id: u32,
    borrower: Seq<char>,
)
    requires
        first@ == second@,
    ensures
        first@.loan_info(loan_id) == second@.loan_info(loan_id),
        first@.is_collateral(collateral_id) == second@.is_collateral(collateral_id),
        first@.user_loans(borrower) == second@.user_loans(borrower),
{
}

/// No interest has accrued at the time of creation, nor before the first
/// whole day has passed.
pub proof fn law_interest_starts_at_zero(record: LoanView, at_time: u64)
    requires
        record.has_valid_terms(),
        at_time < record.created_at + SECONDS_PER_DAY,
    ensures
        record.interest(at_time) == 0,
{
    assert(record.elapsed_days(at_time) == 0);
    assert(record.principal * record.interest_rate_bps * 0 == 0);
}

/// Interest never falls as time goes by.
pub proof fn law_interest_never_falls(record: LoanView, earlier: u64, later: u64)
    requires
        record.has_valid_terms(),
        earlier <= later,
    ensures
        0 <= record.interest(earlier) <= record.interest(later),
{
    let weight = record.principal * record.interest_rate_bps;
    let divisor = BASIS_POINTS * record.duration_days;
    let days_earlier = record.elapsed_days(earlier);
    let days_later = record.elapsed_days(later);
    assert(0 <= days_earlier <= days_later) by {
        if earlier > record.created_at {
            lemma_div_is_ordered(0, earlier - record.created_at, SECONDS_PER_DAY as int);
            lemma_div_is_ordered(
                earlier - record.created_at,
                later - record.created_at,
                SECONDS_PER_DAY as int,
            );
        }
    }
    assert(0 <= weight * days_earlier <= weight * days_later) by (nonlinear_arith)
        requires
            0 <= weight,
            0 <= days_earlier <= days_later,
    ;
    assert(0 <= weight) by (nonlinear_arith)
        requires
            weight == record.principal * record.interest_rate_bps,
            record.principal > 0,
            record.interest_rate_bps >= 0,
    ;
    lemma_div_is_ordered(0, weight * days_earlier, divisor);
    lemma_div_is_ordered(weight * days_earlier, weight * days_later, divisor);
}

/// Interest stops growing at the end of the term: from then on it is the
/// rate applied to the principal, `principal * rate / 10000`, rounded down.
pub proof fn law_interest_stops_at_term_end(record: LoanView, at_time: u64)
    requires
        record.has_valid_terms(),
        record.expired_at(at_time),
    ensures
        record.interest(at_time) == record.principal * record.interest_rate_bps / (
        BASIS_POINTS as int),
{
    let term = record.duration_days as int;
    let weight = record.principal * record.interest_rate_bps;
    assert(record.elapsed_days(at_time) == term) by {
        lemma_div_is_ordered(
            term * SECONDS_PER_DAY,
            at_time - record.created_at,
            SECONDS_PER_DAY as int,
        );
        assert(term * SECONDS_PER_DAY / (SECONDS_PER_DAY as int) == term) by (nonlinear_arith);
    }
    assert(0 <= weight) by (nonlinear_arith)
        requires
            weight == record.principal * record.interest_rate_bps,
            record.principal > 0,
            record.interest_rate_bps >= 0,
    ;
    lemma_div_multiples_vanish_quotient(term, weight, BASIS_POINTS as int);
    assert(weight * term == term * weight) by (nonlinear_arith);
    assert(BASIS_POINTS * term == term * BASIS_POINTS) by (nonlinear_arith);
}

} // verus!
