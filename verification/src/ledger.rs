//! The loan ledger: the records by identifier, the collateral locks, the
//! borrowers' index and the identifier counter.
//!
//! The ledger is a store and validates nothing: which records may be put,
//! which collateral may be locked and when, is decided by the engine that
//! owns it.

use std::collections::HashMap;
use vstd::prelude::*;
use vstd::std_specs::hash::*;
use crate::account::AccountId;
use crate::loan::{LoanRecord, LoanStatus, LoanView};

verus! {

broadcast use group_hash_axioms;

/// One line of the borrowers' index: `borrower` opened loan `loan_id`.
pub struct IndexEntry {
    borrower: AccountId,
    loan_id: u32,
}

/// The loans that `journal` lists for `borrower`, oldest first.
pub closed spec fn journal_loans(journal: Seq<IndexEntry>, borrower: Seq<char>) -> Seq<u32>
    decreases journal.len(),
{
    if journal.len() == 0 {
        Seq::empty()
    } else {
        let earlier = journal_loans(journal.drop_last(), borrower);
        if journal.last().borrower@ == borrower {
            earlier.push(journal.last().loan_id)
        } else {
            earlier
        }
    }
}

/// The ledger's store.
pub struct LoanLedger {
    loans: HashMap<u32, LoanRecord>,
    locks: HashMap<u32, u32>,
    journal: Vec<IndexEntry>,
    allocated: u32,
}

/// The mathematical value of a [`LoanLedger`].
pub ghost struct LedgerView {
    /// The record of each loan, by its identifier.
    pub loans: Map<u32, LoanView>,
    /// For each locked collateral, the loan that locks it.
    pub locks: Map<u32, u32>,
    /// For each borrower with a loan, the identifiers of their loans in the
    /// order in which they were added.
    pub index: Map<Seq<char>, Seq<u32>>,
    /// The last identifier handed out; zero while none was.
    pub allocated: u32,
}

impl LedgerView {
    /// The ledger in which nothing has happened yet.
    pub open spec fn empty() -> LedgerView {
        LedgerView {
            loans: Map::empty(),
            locks: Map::empty(),
            index: Map::empty(),
            allocated: 0,
        }
    }

    /// Whether `collateral_id` is locked.
    pub open spec fn is_locked(self, collateral_id: u32) -> bool {
        self.locks.contains_key(collateral_id)
    }

    /// The loans indexed under `borrower`, oldest first; none for an
    /// account that the index does not know.
    pub open spec fn loans_of(self, borrower: Seq<char>) -> Seq<u32> {
        if self.index.contains_key(borrower) {
            self.index[borrower]
        } else {
            Seq::empty()
        }
    }

    /// The ledger after `record` was stored under `loan_id`.
    pub open spec fn put(self, loan_id: u32, record: LoanView) -> LedgerView {
        LedgerView { loans: self.loans.insert(loan_id, record), ..self }
    }

    /// The ledger after `collateral_id` was locked by `loan_id`.
    pub open spec fn lock(self, collateral_id: u32, loan_id: u32) -> LedgerView {
        LedgerView { locks: self.locks.insert(collateral_id, loan_id), ..self }
    }

    /// The ledger after the lock on `collateral_id` was lifted.
    pub open spec fn release(self, collateral_id: u32) -> LedgerView {
        LedgerView { locks: self.locks.remove(collateral_id), ..self }
    }

    /// The ledger after `loan_id` was appended to the loans of `borrower`.
    pub open spec fn indexed(self, borrower: Seq<char>, loan_id: u32) -> LedgerView {
        LedgerView {
            index: self.index.insert(borrower, self.loans_of(borrower).push(loan_id)),
            ..self
        }
    }

    /// The identifier that the next loan gets.
    pub open spec fn next_loan_id(self) -> u32 {
        (self.allocated + 1) as u32
    }

    /// The ledger after `record` was entered as the next loan: the next
    /// identifier is used up, the record stored under it and added to its
    /// borrower's index, and its collateral locked if the loan is active.
    pub open spec fn entered(self, record: LoanView) -> LedgerView {
        let id = self.next_loan_id();
        let stored = (LedgerView { allocated: id, ..self }).put(id, record).indexed(
            record.borrower,
            id,
        );
        if record.status == LoanStatus::Active {
            stored.lock(record.collateral_id, id)
        } else {
            stored
        }
    }
}

impl View for LoanLedger {
    type V = LedgerView;

    closed spec fn view(&self) -> LedgerView {
        LedgerView {
            loans: self.loans@.map_values(|record: LoanRecord| record@),
            locks: self.locks@,
            index: Map::new(
                |borrower: Seq<char>| journal_loans(self.journal@, borrower).len() > 0,
                |borrower: Seq<char>| journal_loans(self.journal@, borrower),
            ),
            allocated: self.allocated,
        }
    }
}

impl LoanLedger {
    /// An empty ledger.
    pub fn new() -> (ledger: LoanLedger)
        ensures
            ledger@ == LedgerView::empty(),
    {
        let ledger = LoanLedger {
            loans: HashMap::new(),
            locks: HashMap::new(),
            journal: Vec::new(),
            allocated: 0,
        };
        assert(ledger@.loans =~= Map::empty());
        assert(ledger@.index =~= Map::empty());
        ledger
    }

    /// The last identifier handed out; zero while none was.
    pub fn last_loan_id(&self) -> (id: u32)
        ensures
            id == self@.allocated,
    {
        self.allocated
    }

    /// Hands out the next unused identifier: one more than the last, the
    /// first being 1.
    pub fn allocate_loan_id(&mut self) -> (id: u32)
        requires
            old(self)@.allocated < u32::MAX,
        ensures
            id == old(self)@.allocated + 1,
            final(self)@ == (LedgerView { allocated: id, ..old(self)@ }),
    {
        self.allocated = self.allocated + 1;
        self.allocated
    }

    /// Stores `record` under `loan_id`, in place of any record that was there.
    pub fn put(&mut self, loan_id: u32, record: LoanRecord)
        ensures
            final(self)@ == old(self)@.put(loan_id, record@),
    {
        self.loans.insert(loan_id, record);
        assert(self@.loans =~= old(self)@.loans.insert(loan_id, record@));
    }

    /// The record stored under `loan_id`, if there is one.
    pub fn get(&self, loan_id: u32) -> (found: Option<&LoanRecord>)
        ensures
            found is Some <==> self@.loans.contains_key(loan_id),
            found is Some ==> found->0@ == self@.loans[loan_id],
    {
        self.loans.get(&loan_id)
    }

    /// Whether `collateral_id` is locked.
    pub fn is_collateral_locked(&self, collateral_id: u32) -> (locked: bool)
        ensures
            locked == self@.is_locked(collateral_id),
    {
        self.locks.contains_key(&collateral_id)
    }

    /// Locks `collateral_id` for `loan_id`.
    pub fn lock_collateral(&mut self, collateral_id: u32, loan_id: u32)
        ensures
            final(self)@ == old(self)@.lock(collateral_id, loan_id),
    {
        self.locks.insert(collateral_id, loan_id);
    }

    /// Lifts the lock on `collateral_id`, if there is one.
    pub fn release_collateral(&mut self, collateral_id: u32)
        ensures
            final(self)@ == old(self)@.release(collateral_id),
    {
        self.locks.remove(&collateral_id);
    }

    /// Appends `loan_id` to the loans indexed under `borrower`.
    pub fn add_to_borrower_index(&mut self, borrower: &AccountId, loan_id: u32)
        ensures
            final(self)@ == old(self)@.indexed(borrower@, loan_id),
    {
        let entry = IndexEntry { borrower: borrower.clone(), loan_id };
        self.journal.push(entry);
        proof {
            let before = old(self).journal@;
            let after = self.journal@;
            assert(after.drop_last() =~= before);
            assert(after.last().borrower@ == borrower@ && after.last().loan_id == loan_id);
            assert forall|other: Seq<char>|
                #[trigger] journal_loans(after, other) == (if other == borrower@ {
                    journal_loans(before, other).push(loan_id)
                } else {
                    journal_loans(before, other)
                }) by {}
            let expected = old(self)@.indexed(borrower@, loan_id).index;
            assert forall|other: Seq<char>| #[trigger]
                self@.index.contains_key(other) == expected.contains_key(other) by {
                let _ = journal_loans(after, other);
            }
            assert forall|other: Seq<char>| #[trigger]
                self@.index.contains_key(other) implies self@.index[other] == expected[other] by {
                let _ = journal_loans(after, other);
            }
            assert(self@.index =~= expected);
        }
    }

    /// The loans indexed under `borrower`, oldest first.
    pub fn loans_of(&self, borrower: &AccountId) -> (loans: Vec<u32>)
        ensures
            loans@ == self@.loans_of(borrower@),
    {
        let mut loans: Vec<u32> = Vec::new();
        let mut i: usize = 0;
        while i < self.journal.len()
            invariant
                i <= self.journal.len(),
                loans@ == journal_loans(self.journal@.take(i as int), borrower@),
            decreases self.journal.len() - i,
        {
            proof {
                assert(self.journal@.take(i + 1).drop_last() =~= self.journal@.take(i as int));
            }
            if self.journal[i].borrower.same(borrower) {
                loans.push(self.journal[i].loan_id);
            }
            i = i + 1;
        }
        proof {
            assert(self.journal@.take(i as int) =~= self.journal@);
        }
        loans
    }
}

} // verus!
