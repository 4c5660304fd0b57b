//! Each operation of the engine keeps the ledger's invariant.

use vstd::prelude::*;
use crate::engine::EngineView;
use crate::ledger::LedgerView;
use crate::loan::{LoanStatus, LoanView};

verus! {

/// Entering a record as the next loan keeps the invariant, where the
/// ledger has an identifier left, the record carries that identifier and is
/// consistent, and, if it is active, its collateral is free.
pub proof fn lemma_entering_preserves_inv(pre: LedgerView, record: LoanView)
    requires
        pre.inv(),
        pre.allocated < u32::MAX,
        record.loan_id == pre.next_loan_id(),
        record.consistent(),
        record.status == LoanStatus::Active ==> !pre.is_locked(record.collateral_id),
    ensures
        pre.entered(record).inv(),
{
    let old_l = pre;
    let new_l = pre.entered(record);
    let id = pre.next_loan_id();
    let borrower = record.borrower;
    let collateral_id = record.collateral_id;
    assert(!old_l.loans.contains_key(id));
    assert(new_l.loans[id].consistent());
    assert(new_l.identifiers_dense());
    assert(new_l.records_consistent());
    assert(new_l.locks_held_by_active_loans()) by {
        assert forall|c: u32| #[trigger] new_l.locks.contains_key(c) implies new_l.backs_active_loan(
            c,
            new_l.locks[c],
        ) by {
            if old_l.locks.contains_key(c) {
                assert(old_l.backs_active_loan(c, old_l.locks[c]));
            }
        }
    }
    assert(new_l.active_loans_hold_locks()) by {
        assert forall|k: u32| #[trigger]
            new_l.loans.contains_key(k) && new_l.loans[k].status
                == LoanStatus::Active implies new_l.locks.contains_key(
            new_l.loans[k].collateral_id,
        ) && new_l.locks[new_l.loans[k].collateral_id] == k by {
            if k != id {
                assert(old_l.loans.contains_key(k));
                assert(old_l.locks.contains_key(old_l.loans[k].collateral_id));
            }
        }
    }
    assert forall|b: Seq<char>| #[trigger]
        new_l.loans_of(b) == (if b == borrower {
            old_l.loans_of(b).push(id)
        } else {
            old_l.loans_of(b)
        }) by {}
    assert(new_l.index_sound()) by {
        assert forall|b: Seq<char>, i: int| 0 <= i < new_l.loans_of(b).len() implies new_l.loans.contains_key(
         #[trigger] new_l.loans_of(b)[i]) && new_l.loans[new_l.loans_of(b)[i]].borrower == b by {
            if b == borrower && i == old_l.loans_of(b).len() {
            } else {
                assert(new_l.loans_of(b)[i] == old_l.loans_of(b)[i]);
                assert(old_l.loans.contains_key(old_l.loans_of(b)[i]));
            }
        }
    }
    assert(new_l.index_complete()) by {
        assert forall|k: u32| #[trigger] new_l.loans.contains_key(k) implies new_l.loans_of(
            new_l.loans[k].borrower,
        ).contains(k) by {
            let b = new_l.loans[k].borrower;
            if k == id {
                assert(new_l.loans_of(b)[old_l.loans_of(b).len() as int] == id);
            } else {
                assert(old_l.loans.contains_key(k));
                assert(old_l.loans_of(b).contains(k));
                let i = choose|i: int| 0 <= i < old_l.loans_of(b).len() && old_l.loans_of(b)[i] == k;
                assert(new_l.loans_of(b)[i] == k);
            }
        }
    }
    assert(new_l.index_ordered()) by {
        assert forall|b: Seq<char>, i: int, j: int|
            0 <= i < j < new_l.loans_of(b).len() implies #[trigger] new_l.loans_of(b)[i]
            < #[trigger] new_l.loans_of(b)[j] by {
            if b == borrower && j == old_l.loans_of(b).len() {
                assert(new_l.loans_of(b)[i] == old_l.loans_of(b)[i]);
                assert(old_l.loans.contains_key(old_l.loans_of(b)[i]));
            } else {
                assert(new_l.loans_of(b)[i] == old_l.loans_of(b)[i]);
                assert(new_l.loans_of(b)[j] == old_l.loans_of(b)[j]);
            }
        }
    }
    assert(new_l.index_tight());
}

/// Closing a loan keeps the invariant: where an active loan of a consistent
/// ledger is replaced by a closed record that differs from it in status and
/// repaid amount only, and its collateral is released, the ledger stays
/// consistent.
proof fn lemma_closing_preserves_inv(pre: LedgerView, loan_id: u32, closed: LoanView)
    requires
        pre.inv(),
        pre.loans.contains_key(loan_id),
        pre.loans[loan_id].status == LoanStatus::Active,
        closed.status != LoanStatus::Active,
        closed.consistent(),
        closed == (LoanView {
            status: closed.status,
            repaid_amount: closed.repaid_amount,
            ..pre.loans[loan_id]
        }),
    ensures
        pre.put(loan_id, closed).release(closed.collateral_id).inv(),
{
    let post = pre.put(loan_id, closed).release(closed.collateral_id);
    let collateral_id = closed.collateral_id;
    assert(pre.locks.contains_key(collateral_id) && pre.locks[collateral_id] == loan_id);
    assert(post.identifiers_dense()) by {
        assert forall|id: u32| #[trigger] post.loans.contains_key(id) <==> 1 <= id
            <= post.allocated by {
            assert(pre.loans.contains_key(id) <==> 1 <= id <= pre.allocated);
        }
    }
    assert(post.records_consistent()) by {
        assert forall|id: u32| #[trigger] post.loans.contains_key(id) implies post.loans[id].loan_id
            == id && post.loans[id].consistent() by {
            assert(pre.loans.contains_key(id));
        }
    }
    assert(post.locks_held_by_active_loans()) by {
        assert forall|c: u32| #[trigger] post.locks.contains_key(c) implies post.backs_active_loan(
            c,
            post.locks[c],
        ) by {
            assert(pre.locks.contains_key(c));
            assert(pre.backs_active_loan(c, pre.locks[c]));
        }
    }
    assert(post.active_loans_hold_locks()) by {
        assert forall|id: u32| #[trigger]
            post.loans.contains_key(id) && post.loans[id].status
                == LoanStatus::Active implies post.locks.contains_key(post.loans[id].collateral_id)
            && post.locks[post.loans[id].collateral_id] == id by {
            assert(pre.loans.contains_key(id));
            assert(pre.locks[pre.loans[id].collateral_id] == id);
        }
    }
    assert(post.loans.dom() =~= pre.loans.dom());
    lemma_update_preserves_index(pre, post, loan_id);
}

/// Replacing a record by one of the same borrower leaves the index sound,
/// complete and ordered, whatever happens to the locks.
proof fn lemma_update_preserves_index(pre: LedgerView, post: LedgerView, loan_id: u32)
    requires
        pre.inv(),
        pre.loans.contains_key(loan_id),
        post.loans.dom() == pre.loans.dom(),
        forall|id: u32| #[trigger]
            pre.loans.contains_key(id) ==> post.loans[id].borrower == pre.loans[id].borrower,
        post.index == pre.index,
    ensures
        post.index_sound(),
        post.index_complete(),
        post.index_ordered(),
        post.index_tight(),
{
    assert forall|b: Seq<char>| #[trigger] post.loans_of(b) == pre.loans_of(b) by {}
    assert forall|b: Seq<char>, i: int| 0 <= i < post.loans_of(b).len() implies post.loans.contains_key(
     #[trigger] post.loans_of(b)[i]) && post.loans[post.loans_of(b)[i]].borrower == b by {
        assert(pre.loans.contains_key(pre.loans_of(b)[i]));
    }
    assert forall|id: u32| #[trigger] post.loans.contains_key(id) implies post.loans_of(
        post.loans[id].borrower,
    ).contains(id) by {
        assert(pre.loans.contains_key(id));
    }
    assert forall|b: Seq<char>, i: int, j: int|
        0 <= i < j < post.loans_of(b).len() implies #[trigger] post.loans_of(b)[i]
        < #[trigger] post.loans_of(b)[j] by {
        assert(pre.loans_of(b)[i] < pre.loans_of(b)[j]);
    }
}

/// Repayment keeps the invariant.
pub proof fn lemma_repay_preserves_inv(pre: EngineView, loan_id: u32, amount: i128, caller: Seq<char>)
    requires
        pre.inv(),
        pre.repay_outcome(loan_id, amount, caller) is Ok,
    ensures
        pre.after_repay(loan_id, amount).inv(),
{
    let record = pre.ledger.loans[loan_id];
    let paid = record.after_payment(amount);
    assert(record.consistent());
    assert(paid.consistent());
    if record.settled_by(amount) {
        lemma_closing_preserves_inv(pre.ledger, loan_id, paid);
    } else {
        let post = pre.ledger.put(loan_id, paid);
        assert(post.identifiers_dense()) by {
            assert forall|id: u32| #[trigger] post.loans.contains_key(id) <==> 1 <= id
                <= post.allocated by {
                assert(pre.ledger.loans.contains_key(id) <==> 1 <= id <= pre.ledger.allocated);
            }
        }
        assert(post.records_consistent()) by {
            assert forall|id: u32| #[trigger]
                post.loans.contains_key(id) implies post.loans[id].loan_id == id
                && post.loans[id].consistent() by {
                assert(pre.ledger.loans.contains_key(id));
            }
        }
        assert(post.locks_held_by_active_loans()) by {
            assert forall|c: u32| #[trigger]
                post.locks.contains_key(c) implies post.backs_active_loan(c, post.locks[c]) by {
                assert(pre.ledger.locks.contains_key(c));
                assert(pre.ledger.backs_active_loan(c, pre.ledger.locks[c]));
            }
        }
        assert(post.active_loans_hold_locks()) by {
            assert forall|id: u32| #[trigger]
                post.loans.contains_key(id) && post.loans[id].status
                    == LoanStatus::Active implies post.locks.contains_key(
                post.loans[id].collateral_id,
            ) && post.locks[post.loans[id].collateral_id] == id by {
                assert(pre.ledger.loans.contains_key(id));
            }
        }
        assert(post.loans.dom() =~= pre.ledger.loans.dom());
        lemma_update_preserves_index(pre.ledger, post, loan_id);
    }
}

/// Liquidation keeps the invariant.
pub proof fn lemma_liquidate_preserves_inv(
    pre: EngineView,
    loan_id: u32,
    caller: Seq<char>,
    paused: bool,
    now: u64,
)
    requires
        pre.inv(),
        pre.liquidate_outcome(loan_id, caller, paused, now) is Ok,
    ensures
        pre.after_liquidate(loan_id).inv(),
{
    let record = pre.ledger.loans[loan_id];
    assert(record.consistent());
    lemma_closing_preserves_inv(pre.ledger, loan_id, record.liquidated());
}

} // verus!
