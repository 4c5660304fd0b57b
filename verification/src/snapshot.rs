//! Taking the engine apart into its records and putting it together again.
//!
//! A consistent ledger is determined by its records: the locks are those of
//! the active loans, and each borrower's index lists their loans by
//! identifier. So a host that keeps the records, in the order of their
//! identifiers, keeps the whole engine.

use vstd::prelude::*;
use crate::account::AccountId;
use crate::consistency::{lemma_index_lists_loans, rising};
use crate::engine::{EngineView, LendingNFT};
use crate::ledger::LedgerView;
use crate::loan::{LoanRecord, LoanStatus, LoanView};
use crate::preservation::lemma_entering_preserves_inv;

verus! {

/// The mathematical values of `records`, in the same order.
pub open spec fn record_views(records: Seq<LoanRecord>) -> Seq<LoanView> {
    records.map_values(|record: LoanRecord| record@)
}

impl LedgerView {
    /// The records of the ledger in the order of their identifiers.
    pub open spec fn records(self) -> Seq<LoanView> {
        Seq::new(self.allocated as nat, |i: int| self.loans[(i + 1) as u32])
    }

    /// The ledger into which `records` were entered one after the other.
    pub open spec fn rebuilt(records: Seq<LoanView>) -> LedgerView
        decreases records.len(),
    {
        if records.len() == 0 {
            LedgerView::empty()
        } else {
            LedgerView::rebuilt(records.drop_last()).entered(records.last())
        }
    }

    /// Whether `records` can be the records of a consistent ledger: there
    /// are no more of them than identifiers, each carries the identifier of
    /// its place, counted from 1, and is consistent, and no two active ones
    /// share a collateral.
    pub open spec fn restorable(records: Seq<LoanView>) -> bool
        decreases records.len(),
    {
        records.len() == 0 || {
            let earlier = records.drop_last();
            let record = records.last();
            &&& LedgerView::restorable(earlier)
            &&& records.len() <= u32::MAX
            &&& record.loan_id == records.len()
            &&& record.consistent()
            &&& record.status == LoanStatus::Active ==> !LedgerView::rebuilt(earlier).is_locked(
                record.collateral_id,
            )
        }
    }
}

/// What can be restored is restored to a consistent ledger that has handed
/// out as many identifiers as there are records.
pub proof fn lemma_rebuilt_is_consistent(records: Seq<LoanView>)
    requires
        LedgerView::restorable(records),
    ensures
        LedgerView::rebuilt(records).inv(),
        LedgerView::rebuilt(records).allocated == records.len(),
    decreases records.len(),
{
    if records.len() > 0 {
        lemma_rebuilt_is_consistent(records.drop_last());
        lemma_entering_preserves_inv(LedgerView::rebuilt(records.drop_last()), records.last());
    }
}

/// Every beginning of a restorable sequence of records is restorable.
pub proof fn lemma_restorable_prefix(records: Seq<LoanView>, n: int)
    requires
        LedgerView::restorable(records),
        0 <= n <= records.len(),
    ensures
        LedgerView::restorable(records.take(n)),
    decreases records.len(),
{
    if n == records.len() {
        assert(records.take(n) =~= records);
    } else {
        lemma_restorable_prefix(records.drop_last(), n);
        assert(records.drop_last().take(n) =~= records.take(n));
    }
}

/// Two rising sequences with the same entries are the same sequence.
pub proof fn lemma_rising_sequences_agree(first: Seq<u32>, second: Seq<u32>)
    requires
        rising(first),
        rising(second),
        forall|id: u32| first.contains(id) <==> second.contains(id),
    ensures
        first == second,
    decreases first.len(),
{
    if first.len() == 0 {
        if second.len() > 0 {
            assert(second.contains(second[0]));
        }
        assert(first =~= second);
    } else {
        let top = first.last();
        assert(first.contains(top));
        assert(second.contains(top));
        assert(second.contains(second.last()));
        assert(first.contains(second.last()));
        assert(second.last() == top);
        let lower_first = first.drop_last();
        let lower_second = second.drop_last();
        assert forall|id: u32| lower_first.contains(id) <==> lower_second.contains(id) by {
            if lower_first.contains(id) {
                let i = choose|i: int| 0 <= i < lower_first.len() && lower_first[i] == id;
                assert(first[i] == id);
                assert(first.contains(id));
                let j = choose|j: int| 0 <= j < second.len() && second[j] == id;
                assert(lower_second[j] == id);
            }
            if lower_second.contains(id) {
                let j = choose|j: int| 0 <= j < lower_second.len() && lower_second[j] == id;
                assert(second[j] == id);
                assert(second.contains(id));
                let i = choose|i: int| 0 <= i < first.len() && first[i] == id;
                assert(lower_first[i] == id);
            }
        }
        lemma_rising_sequences_agree(lower_first, lower_second);
        assert(first =~= lower_first.push(top));
        assert(second =~= lower_second.push(top));
    }
}

/// A consistent ledger is determined by its records: two consistent
/// ledgers with the same records under the same identifiers, and the same
/// count of identifiers handed out, are one ledger.
pub proof fn law_records_determine_ledger(first: LedgerView, second: LedgerView)
    requires
        first.inv(),
        second.inv(),
        first.loans == second.loans,
        first.allocated == second.allocated,
    ensures
        first == second,
{
    assert forall|c: u32| first.locks.contains_key(c) implies second.locks.contains_key(c)
        && second.locks[c] == first.locks[c] by {
        assert(first.backs_active_loan(c, first.locks[c]));
        assert(second.loans.contains_key(first.locks[c]));
    }
    assert forall|c: u32| second.locks.contains_key(c) implies first.locks.contains_key(c) by {
        assert(second.backs_active_loan(c, second.locks[c]));
        assert(first.loans.contains_key(second.locks[c]));
    }
    assert(first.locks =~= second.locks);
    assert forall|b: Seq<char>| first.loans_of(b) == second.loans_of(b) by {
        lemma_index_lists_loans(first, b);
        lemma_index_lists_loans(second, b);
        lemma_rising_sequences_agree(first.loans_of(b), second.loans_of(b));
    }
    assert forall|b: Seq<char>| first.index.contains_key(b) == second.index.contains_key(b) by {
        assert(first.loans_of(b) == second.loans_of(b));
    }
    assert forall|b: Seq<char>| first.index.contains_key(b) implies first.index[b]
        == second.index[b] by {
        assert(first.loans_of(b) == second.loans_of(b));
        assert(second.index.contains_key(b));
    }
    assert(first.index =~= second.index);
}

/// The records of a consistent ledger, up to the `n`th, are restorable, and
/// restore the ledger's records up to that one.
proof fn lemma_records_rebuild_prefix(ledger: LedgerView, n: int)
    requires
        ledger.inv(),
        0 <= n <= ledger.allocated,
    ensures
        LedgerView::restorable(ledger.records().take(n)),
        LedgerView::rebuilt(ledger.records().take(n)).inv(),
        LedgerView::rebuilt(ledger.records().take(n)).allocated == n,
        forall|id: u32|
            #![trigger LedgerView::rebuilt(ledger.records().take(n)).loans.contains_key(id)]
            LedgerView::rebuilt(ledger.records().take(n)).loans.contains_key(id) <==> 1 <= id <= n,
        forall|id: u32|
            1 <= id <= n ==> #[trigger] LedgerView::rebuilt(ledger.records().take(n)).loans[id]
                == ledger.loans[id],
    decreases n,
{
    let prefix = ledger.records().take(n);
    if n > 0 {
        lemma_records_rebuild_prefix(ledger, n - 1);
        let earlier = ledger.records().take(n - 1);
        assert(prefix.drop_last() =~= earlier);
        let before = LedgerView::rebuilt(earlier);
        let record = prefix.last();
        let id = n as u32;
        assert(record == ledger.loans[id]);
        assert(ledger.loans.contains_key(id));
        assert(record.consistent() && record.loan_id == id);
        if record.status == LoanStatus::Active && before.is_locked(record.collateral_id) {
            let holder = before.locks[record.collateral_id];
            assert(before.backs_active_loan(record.collateral_id, holder));
            assert(before.loans.contains_key(holder));
            assert(1 <= holder <= n - 1);
            assert(before.loans[holder] == ledger.loans[holder]);
            assert(ledger.loans.contains_key(holder));
            assert(ledger.locks[record.collateral_id] == holder);
            assert(ledger.locks[record.collateral_id] == id);
        }
        assert(LedgerView::restorable(prefix));
        lemma_entering_preserves_inv(before, record);
        let after = LedgerView::rebuilt(prefix);
        assert(after == before.entered(record));
        assert forall|k: u32| #[trigger] after.loans.contains_key(k) <==> 1 <= k <= n by {
            assert(before.loans.contains_key(k) <==> 1 <= k <= n - 1);
        }
        assert forall|k: u32| 1 <= k <= n implies #[trigger] after.loans[k] == ledger.loans[k] by {
            if k != id {
                assert(before.loans[k] == ledger.loans[k]);
            }
        }
    } else {
        assert(prefix.len() == 0);
    }
}

/// Keeping the records keeps the ledger: the records of a consistent
/// ledger are restorable, and what they are restored to is that ledger.
pub proof fn law_records_restore_the_ledger(ledger: LedgerView)
    requires
        ledger.inv(),
    ensures
        LedgerView::restorable(ledger.records()),
        LedgerView::rebuilt(ledger.records()) == ledger,
{
    let records = ledger.records();
    lemma_records_rebuild_prefix(ledger, ledger.allocated as int);
    assert(records.take(ledger.allocated as int) =~= records);
    let rebuilt = LedgerView::rebuilt(records);
    assert(rebuilt.loans =~= ledger.loans) by {
        assert forall|id: u32| rebuilt.loans.contains_key(id) == ledger.loans.contains_key(id) by {
            assert(rebuilt.loans.contains_key(id) <==> 1 <= id <= ledger.allocated);
            assert(ledger.loans.contains_key(id) <==> 1 <= id <= ledger.allocated);
        }
        assert forall|id: u32| rebuilt.loans.contains_key(id) implies rebuilt.loans[id]
            == ledger.loans[id] by {
            assert(1 <= id <= ledger.allocated);
        }
    }
    law_records_determine_ledger(rebuilt, ledger);
}

/// What was restored from records has these records.
pub proof fn law_restored_ledger_has_the_records(records: Seq<LoanView>)
    requires
        LedgerView::restorable(records),
    ensures
        LedgerView::rebuilt(records).records() == records,
    decreases records.len(),
{
    lemma_rebuilt_is_consistent(records);
    lemma_rebuilt_holds_records(records);
    assert(LedgerView::rebuilt(records).records() =~= records);
}

/// What was restored from records holds each of them under the identifier
/// of its place.
proof fn lemma_rebuilt_holds_records(records: Seq<LoanView>)
    requires
        LedgerView::restorable(records),
    ensures
        forall|i: int|
            0 <= i < records.len() ==> #[trigger] LedgerView::rebuilt(records).loans[(i
                + 1) as u32] == records[i],
    decreases records.len(),
{
    if records.len() > 0 {
        let earlier = records.drop_last();
        lemma_rebuilt_holds_records(earlier);
        lemma_rebuilt_is_consistent(earlier);
        let before = LedgerView::rebuilt(earlier);
        let after = LedgerView::rebuilt(records);
        assert forall|i: int| 0 <= i < records.len() implies #[trigger] after.loans[(i + 1) as u32]
            == records[i] by {
            if i < records.len() - 1 {
                assert(before.loans[(i + 1) as u32] == earlier[i]);
            }
        }
    }
}

impl LendingNFT {
    /// The records of all loans, in the order of their identifiers.
    pub fn records(&self) -> (records: Vec<LoanRecord>)
        requires
            self@.inv(),
        ensures
            record_views(records@) == self@.ledger.records(),
    {
        let count = self.loan_count();
        let mut records: Vec<LoanRecord> = Vec::new();
        let mut id: u32 = 0;
        while id < count
            invariant
                self@.inv(),
                count == self@.ledger.allocated,
                id <= count,
                records@.len() == id,
                forall|i: int|
                    0 <= i < id ==> (#[trigger] records@[i])@ == self@.ledger.loans[(i + 1) as u32],
            decreases count - id,
        {
            id = id + 1;
            assert(self@.ledger.loans.contains_key(id));
            match self.get_loan_info(id) {
                Ok(record) => {
                    records.push(record);
                },
                Err(_) => {},
            }
        }
        assert(record_views(records@) =~= self@.ledger.records());
        records
    }

    /// The engine administered by `owner` whose loans are `records`, given
    /// in the order of their identifiers; `None` where no consistent engine
    /// has these records.
    pub fn restore(owner: AccountId, records: &Vec<LoanRecord>) -> (engine: Option<LendingNFT>)
        ensures
            engine is Some <==> LedgerView::restorable(record_views(records@)),
            engine matches Some(restored) ==> restored@.inv() && restored@ == (EngineView {
                owner: owner@,
                ledger: LedgerView::rebuilt(record_views(records@)),
            }),
    {
        let ghost all = record_views(records@);
        let mut engine = LendingNFT::new(owner);
        let mut i: usize = 0;
        while i < records.len()
            invariant
                i <= records.len(),
                all == record_views(records@),
                LedgerView::restorable(all.take(i as int)),
                engine@.owner == owner@,
                engine@.ledger == LedgerView::rebuilt(all.take(i as int)),
                engine@.inv(),
                engine@.ledger.allocated == i,
            decreases records.len() - i,
        {
            let record = &records[i];
            proof {
                assert(all.take(i + 1).drop_last() =~= all.take(i as int));
                assert(all.take(i + 1).last() == record@);
                if LedgerView::restorable(all) {
                    lemma_restorable_prefix(all, i + 1);
                }
            }
            let free = record.status != LoanStatus::Active || !engine.is_collateral(
                record.collateral_id,
            );
            let count = engine.loan_count();
            if count == u32::MAX || record.loan_id != count + 1 || !record.is_consistent() || !free {
                return None;
            }
            proof {
                lemma_entering_preserves_inv(engine@.ledger, record@);
            }
            engine.enter(record.clone());
            i = i + 1;
        }
        proof {
            assert(all.take(i as int) =~= all);
        }
        Some(engine)
    }
}

} // verus!
