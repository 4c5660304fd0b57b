//! What holds of the ledger between any two operations of the engine.

use vstd::prelude::*;
use crate::ledger::LedgerView;
use crate::loan::LoanStatus;

verus! {

/// Whether `ids` lists its entries in rising order, each once.
pub open spec fn rising(ids: Seq<u32>) -> bool {
    forall|i: int, j: int| 0 <= i < j < ids.len() ==> #[trigger] ids[i] < #[trigger] ids[j]
}

impl LedgerView {
    /// Whether loan `loan_id` exists, is active and is backed by `collateral_id`.
    pub open spec fn backs_active_loan(self, collateral_id: u32, loan_id: u32) -> bool {
        &&& self.loans.contains_key(loan_id)
        &&& self.loans[loan_id].status == LoanStatus::Active
        &&& self.loans[loan_id].collateral_id == collateral_id
    }

    /// The identifiers in use are exactly those handed out so far: 1 up to
    /// the last one. None is skipped and none is used twice.
    pub open spec fn identifiers_dense(self) -> bool {
        forall|id: u32| #[trigger] self.loans.contains_key(id) <==> 1 <= id <= self.allocated
    }

    /// Each record is stored under its own identifier and is consistent.
    pub open spec fn records_consistent(self) -> bool {
        forall|id: u32| #[trigger]
            self.loans.contains_key(id) ==> self.loans[id].loan_id == id
                && self.loans[id].consistent()
    }

    /// Every lock is held by an active loan on that collateral.
    pub open spec fn locks_held_by_active_loans(self) -> bool {
        forall|collateral_id: u32| #[trigger]
            self.locks.contains_key(collateral_id) ==> self.backs_active_loan(
                collateral_id,
                self.locks[collateral_id],
            )
    }

    /// Every active loan holds the lock on its collateral.
    pub open spec fn active_loans_hold_locks(self) -> bool {
        forall|id: u32| #[trigger]
            self.loans.contains_key(id) && self.loans[id].status == LoanStatus::Active
                ==> self.locks.contains_key(self.loans[id].collateral_id)
                && self.locks[self.loans[id].collateral_id] == id
    }

    /// Every entry of a borrower's index is a loan of that borrower.
    pub open spec fn index_sound(self) -> bool {
        forall|borrower: Seq<char>, i: int|
            0 <= i < self.loans_of(borrower).len() ==> self.loans.contains_key(
                #[trigger] self.loans_of(borrower)[i],
            ) && self.loans[self.loans_of(borrower)[i]].borrower == borrower
    }

    /// Every loan stands in the index of its borrower, whatever its status.
    pub open spec fn index_complete(self) -> bool {
        forall|id: u32| #[trigger]
            self.loans.contains_key(id) ==> self.loans_of(self.loans[id].borrower).contains(id)
    }

    /// A borrower's index lists each loan once, in the order of creation.
    pub open spec fn index_ordered(self) -> bool {
        forall|borrower: Seq<char>, i: int, j: int|
            0 <= i < j < self.loans_of(borrower).len() ==> #[trigger] self.loans_of(borrower)[i]
                < #[trigger] self.loans_of(borrower)[j]
    }

    /// The index holds no borrower without a loan.
    pub open spec fn index_tight(self) -> bool {
        forall|borrower: Seq<char>| #[trigger]
            self.index.contains_key(borrower) ==> self.index[borrower].len() > 0
    }

    /// The invariant of the ledger under the engine's operations.
    pub open spec fn inv(self) -> bool {
        &&& self.identifiers_dense()
        &&& self.records_consistent()
        &&& self.locks_held_by_active_loans()
        &&& self.active_loans_hold_locks()
        &&& self.index_sound()
        &&& self.index_complete()
        &&& self.index_ordered()
        &&& self.index_tight()
    }
}

/// In a consistent ledger a borrower's index lists, in rising order, exactly
/// the loans whose record names that borrower.
pub proof fn lemma_index_lists_loans(ledger: LedgerView, borrower: Seq<char>)
    requires
        ledger.inv(),
    ensures
        rising(ledger.loans_of(borrower)),
        forall|id: u32|
            ledger.loans_of(borrower).contains(id) <==> ledger.loans.contains_key(id)
                && ledger.loans[id].borrower == borrower,
{
    let listed = ledger.loans_of(borrower);
    assert forall|id: u32| listed.contains(id) implies ledger.loans.contains_key(id)
        && ledger.loans[id].borrower == borrower by {
        let i = choose|i: int| 0 <= i < listed.len() && listed[i] == id;
        assert(ledger.loans.contains_key(ledger.loans_of(borrower)[i]));
    }
    assert forall|id: u32|
        ledger.loans.contains_key(id) && ledger.loans[id].borrower
            == borrower implies listed.contains(id) by {}
}

} // verus!
