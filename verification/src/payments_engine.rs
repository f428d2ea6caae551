//! The ledger: every client's account, the index of accepted deposits and
//! withdrawals, and the index of open disputes.

use vstd::prelude::*;
use vstd::std_specs::hash::spec_hash_map_iter;
use vstd::std_specs::iter::IteratorSpec;
use std::collections::HashMap;
use crate::account::account_step;
use crate::account::keeps_within_total;
use crate::account::decide;
use crate::account::numbers_agree;
use crate::account::output_line;
use crate::account::Effect;
use crate::account::result_view;
use crate::account::Account;
use crate::account::AccountView;
use crate::account::Decision;
use crate::amount::Amount;
use crate::disputes::Dispute;
use crate::shared::ClientID;
use crate::shared::TransactionID;
use crate::transaction::index_non_negative;
use crate::transaction::index_view;
use crate::transaction::index_wf;
use crate::transaction::ProcessingErrorView;
use crate::transaction::Transaction;
use crate::transaction::TransactionProcessingError;
use crate::transaction::TransactionView;

verus! {

broadcast use vstd::std_specs::hash::group_hash_axioms;

/// The state of one run.
pub struct PaymentsEngine {
    pub accounts: HashMap<ClientID, Account>,
    pub transactions: HashMap<TransactionID, Transaction>,
    pub disputes: HashMap<TransactionID, Dispute>,
}

/// The ledger as the contracts see it.
pub struct LedgerView {
    pub accounts: Map<ClientID, AccountView>,
    pub transactions: Map<TransactionID, TransactionView>,
    pub disputes: Map<TransactionID, Dispute>,
}

/// The accounts as the contracts see them: each by its view.
pub open spec fn accounts_view(accounts: Map<ClientID, Account>) -> Map<ClientID, AccountView> {
    accounts.map_values(|a: Account| a@)
}

impl View for PaymentsEngine {
    type V = LedgerView;

    open spec fn view(&self) -> LedgerView {
        LedgerView {
            accounts: accounts_view(self.accounts@),
            transactions: index_view(self.transactions@),
            disputes: self.disputes@,
        }
    }
}

impl LedgerView {
    /// The ledger before any record.
    pub open spec fn empty() -> LedgerView {
        LedgerView { accounts: Map::empty(), transactions: Map::empty(), disputes: Map::empty() }
    }

    /// Every account is filed under its own client id, and every balance and
    /// recorded amount has a non-zero denominator.
    pub open spec fn wf(self) -> bool {
        &&& forall|c: ClientID|
            self.accounts.contains_key(c) ==> (#[trigger] self.accounts[c]).wf()
                && self.accounts[c].client_id == c
        &&& index_wf(self.transactions)
    }

    /// In every account `held <= total`, and no recorded amount is below zero.
    pub open spec fn sound(self) -> bool {
        &&& forall|c: ClientID|
            self.accounts.contains_key(c) ==> (#[trigger] self.accounts[c]).within_total()
        &&& index_non_negative(self.transactions)
    }

    /// What is decided on a transaction: the decision of the account of the
    /// client it names.
    pub open spec fn decision(self, tx: TransactionView) -> Decision {
        decide(self.account_for(tx.client_id), tx, self.transactions, self.disputes)
    }

    /// The transaction carries no amount below zero, and if it opens a
    /// dispute, the disputed amount is still in the account unheld.
    pub open spec fn admits(self, tx: TransactionView) -> bool {
        let account = self.account_for(tx.client_id);
        &&& tx.tx_type.non_negative()
        &&& self.decision(tx).effect matches Effect::Hold(a) ==> account.held.value().plus(
            a.value(),
        ).le(account.total.value())
    }

    /// The account that a record for `client_id` is applied to: the client's
    /// own, or a fresh one if the client was never named before.
    pub open spec fn account_for(self, client_id: ClientID) -> AccountView {
        if self.accounts.contains_key(client_id) {
            self.accounts[client_id]
        } else {
            AccountView::fresh(client_id)
        }
    }
}

/// A ledger and what the last transaction reported.
pub struct LedgerOutcome {
    pub state: LedgerView,
    pub result: Result<(), ProcessingErrorView>,
}

/// What one transaction does to the ledger: it is applied to the account of
/// the client it names, which is created first if need be. The balances are
/// given digit for digit; [`PaymentsEngine::process`] gives them as numbers
/// too.
pub open spec fn ledger_step(state: LedgerView, tx: TransactionView) -> LedgerOutcome {
    let outcome = account_step(
        state.account_for(tx.client_id),
        tx,
        state.transactions,
        state.disputes,
    );
    LedgerOutcome {
        state: LedgerView {
            accounts: state.accounts.insert(tx.client_id, outcome.account),
            transactions: outcome.transactions,
            disputes: outcome.disputes,
        },
        result: outcome.result,
    }
}

/// One item of the input as the contracts see it: a transaction, or why
/// there is none.
pub open spec fn record_view(record: Result<Transaction, TransactionProcessingError>) -> Result<
    TransactionView,
    ProcessingErrorView,
> {
    match record {
        Ok(tx) => Ok(tx@),
        Err(e) => Err(e@),
    }
}

/// The input as the contracts see it.
pub open spec fn records_view(
    records: Seq<Result<Transaction, TransactionProcessingError>>,
) -> Seq<Result<TransactionView, ProcessingErrorView>> {
    records.map_values(|r: Result<Transaction, TransactionProcessingError>| record_view(r))
}

/// The input is lost: nothing more can be read.
pub open spec fn is_fatal(record: Result<TransactionView, ProcessingErrorView>) -> bool {
    record == Err::<TransactionView, ProcessingErrorView>(ProcessingErrorView::InputError)
}

/// The ledger after one item of the input. A transaction is applied, whatever
/// it reports; an item that is no transaction changes nothing.
pub open spec fn record_step(
    state: LedgerView,
    record: Result<TransactionView, ProcessingErrorView>,
) -> LedgerView {
    match record {
        Ok(tx) => ledger_step(state, tx).state,
        Err(_) => state,
    }
}

/// The ledger after the input, item by item in order, up to the first item
/// that reports the input lost; and whether there was such an item.
pub open spec fn run(
    state: LedgerView,
    records: Seq<Result<TransactionView, ProcessingErrorView>>,
) -> LedgerOutcome
    decreases records.len(),
{
    if records.len() == 0 {
        LedgerOutcome { state, result: Ok(()) }
    } else if is_fatal(records[0]) {
        LedgerOutcome { state, result: Err(ProcessingErrorView::InputError) }
    } else {
        run(record_step(state, records[0]), records.drop_first())
    }
}

/// Every transaction of the input, up to the first item that reports the
/// input lost, is one that the ledger it meets admits: see
/// [`LedgerView::admits`].
pub open spec fn run_admitted(
    state: LedgerView,
    records: Seq<Result<TransactionView, ProcessingErrorView>>,
) -> bool
    decreases records.len(),
{
    if records.len() == 0 || is_fatal(records[0]) {
        true
    } else {
        &&& records[0] matches Ok(tx) ==> state.admits(tx)
        &&& run_admitted(record_step(state, records[0]), records.drop_first())
    }
}

/// How many items of the input are taken: all that come before the first
/// that reports the input lost.
pub open spec fn items_taken(records: Seq<Result<TransactionView, ProcessingErrorView>>) -> int
    decreases records.len(),
{
    if records.len() == 0 || is_fatal(records[0]) {
        0
    } else {
        1 + items_taken(records.drop_first())
    }
}

/// The ledger after the first `n` items of the input.
pub open spec fn state_after(
    start: LedgerView,
    records: Seq<Result<TransactionView, ProcessingErrorView>>,
    n: int,
) -> LedgerView
    decreases n,
{
    if n <= 0 {
        start
    } else {
        record_step(state_after(start, records, n - 1), records[n - 1])
    }
}

/// If item `i` of the input is a transaction, the balances of the account it
/// names are afterwards, as numbers, what the decision on it gives from the
/// balances before.
pub open spec fn step_is_exact(
    start: LedgerView,
    records: Seq<Result<TransactionView, ProcessingErrorView>>,
    i: int,
) -> bool {
    records[i] matches Ok(tx) ==> numbers_agree(
        state_after(start, records, i + 1).accounts[tx.client_id],
        state_after(start, records, i).account_for(tx.client_id),
        state_after(start, records, i).decision(tx).effect,
    )
}

/// The first item of the input that reports the input lost, if there is one.
pub open spec fn first_fatal(
    records: Seq<Result<Transaction, TransactionProcessingError>>,
) -> Option<TransactionProcessingError>
    decreases records.len(),
{
    if records.len() == 0 {
        None
    } else {
        match records[0] {
            Err(TransactionProcessingError::InputError(e)) => Some(
                TransactionProcessingError::InputError(e),
            ),
            _ => first_fatal(records.drop_first()),
        }
    }
}

/// Every transaction in the input has amounts with a non-zero denominator.
pub open spec fn records_wf(records: Seq<Result<Transaction, TransactionProcessingError>>) -> bool {
    forall|i: int|
        0 <= i < records.len() ==> ((#[trigger] records[i]) matches Ok(tx) ==> tx.wf())
}

impl Default for PaymentsEngine {
    fn default() -> (r: PaymentsEngine)
        ensures
            r@ == LedgerView::empty(),
            r.wf(),
    {
        let r = PaymentsEngine {
            accounts: HashMap::new(),
            transactions: HashMap::new(),
            disputes: HashMap::new(),
        };
        assert(r@.accounts =~= Map::empty());
        assert(r@.transactions =~= Map::empty());
        r
    }
}

impl PaymentsEngine {
    /// The ledger is well formed: see [`LedgerView::wf`].
    pub open spec fn wf(&self) -> bool {
        self@.wf()
    }

    /// Applies one transaction to the account of the client it names.
    pub fn process(&mut self, transaction: Transaction) -> (r: Result<
        (),
        TransactionProcessingError,
    >)
        requires
            old(self).wf(),
            transaction.wf(),
        ensures
            final(self)@ == ledger_step(old(self)@, transaction@).state,
            result_view(r) == ledger_step(old(self)@, transaction@).result,
            numbers_agree(
                final(self)@.accounts[transaction.client_id],
                old(self)@.account_for(transaction.client_id),
                old(self)@.decision(transaction@).effect,
            ),
            final(self).wf(),
            old(self)@.sound() && old(self)@.admits(transaction@) ==> final(self)@.sound(),
    {
        let client_id = transaction.client_id;
        let ghost before = self.accounts@;
        let mut account = match self.accounts.remove(&client_id) {
            Some(a) => a,
            None => Account::new(client_id),
        };
        assert(account@ == old(self)@.account_for(client_id));
        proof {
            Amount::lemma_zero_view();
            if old(self)@.sound() && old(self)@.admits(transaction@) {
                assert(keeps_within_total(
                    account@,
                    transaction@,
                    old(self)@.transactions,
                    old(self)@.disputes,
                ));
            }
        }
        let r = account.process(transaction, &mut self.transactions, &mut self.disputes);
        self.accounts.insert(client_id, account);
        proof {
            assert(accounts_view(self.accounts@) =~= accounts_view(before).insert(
                client_id,
                account@,
            ));
        }
        r
    }

    /// The first line of the output, which names the columns.
    pub fn output_header() -> (r: &'static str)
        ensures
            r@ == "client, available, held, total, locked"@,
    {
        "client, available, held, total, locked"
    }

    /// The output: for every account its client and its line, each client
    /// once, in the order in which the accounts happen to be walked.
    pub fn render_output(&self) -> (r: Vec<(ClientID, String)>)
        requires
            self.wf(),
        ensures
            forall|i: int|
                0 <= i < r@.len() ==> self@.accounts.contains_key((#[trigger] r@[i]).0)
                    && r@[i].1@ == output_line(self@.accounts[r@[i].0]),
            forall|i: int, j: int|
                0 <= i < j < r@.len() ==> (#[trigger] r@[i]).0 != (#[trigger] r@[j]).0,
            forall|c: ClientID|
                self@.accounts.contains_key(c) ==> exists|i: int|
                    0 <= i < r@.len() && (#[trigger] r@[i]).0 == c,
    {
        let mut lines: Vec<(ClientID, String)> = Vec::new();
        let ghost walk = spec_hash_map_iter(&self.accounts).remaining();
        for pair in iter: self.accounts.iter()
            invariant
                self.wf(),
                iter.seq() == walk,
                walk == spec_hash_map_iter(&self.accounts).remaining(),
                walk.no_duplicates(),
                lines@.len() == iter.index(),
                forall|i: int|
                    0 <= i < lines@.len() ==> (#[trigger] lines@[i]).0 == *walk[i].0
                        && lines@[i].1@ == output_line((*walk[i].1)@),
        {
            let (client_id, account) = pair;
            assert(walk[iter.index()] == pair);
            assert(self.accounts@.contains_key(*client_id) && self.accounts@[*client_id]
                == *account);
            assert(self@.accounts[*client_id] == account@);
            lines.push((*client_id, account.render_as_output_line()));
        }
        proof {
            assert forall|i: int| 0 <= i < lines@.len() implies self@.accounts.contains_key(
                (#[trigger] lines@[i]).0,
            ) && lines@[i].1@ == output_line(self@.accounts[lines@[i].0]) by {
                assert(self.accounts@.contains_key(*walk[i].0) && self.accounts@[*walk[i].0]
                    == *walk[i].1);
            }
            assert forall|i: int, j: int| 0 <= i < j < lines@.len() implies (
            #[trigger] lines@[i]).0 != (#[trigger] lines@[j]).0 by {
                assert(self.accounts@[*walk[i].0] == *walk[i].1);
                assert(self.accounts@[*walk[j].0] == *walk[j].1);
                if *walk[i].0 == *walk[j].0 {
                    assert(walk[i] == walk[j]);
                }
            }
            assert forall|c: ClientID| self@.accounts.contains_key(c) implies exists|i: int|
                0 <= i < lines@.len() && (#[trigger] lines@[i]).0 == c by {
                assert(self.accounts@.contains_key(c));
                assert(walk.contains((&c, &self.accounts@[c])));
                let i = choose|i: int| 0 <= i < walk.len() && walk[i] == (&c, &self.accounts@[c]);
                assert(lines@[i].0 == c);
            }
        }
        lines
    }

    /// Takes one item of a stream of input: a transaction is applied and what
    /// it reports is dropped; an item that is no transaction is dropped too,
    /// unless it reports the input lost, which is handed back for the caller
    /// to stop on.
    pub fn process_transactions_streaming_input(
        &mut self,
        record: Result<Transaction, TransactionProcessingError>,
    ) -> (r: Result<(), TransactionProcessingError>)
        requires
            old(self).wf(),
            record matches Ok(tx) ==> tx.wf(),
        ensures
            final(self)@ == record_step(old(self)@, record_view(record)),
            record matches Ok(tx) ==> numbers_agree(
                final(self)@.accounts[tx.client_id],
                old(self)@.account_for(tx.client_id),
                old(self)@.decision(tx@).effect,
            ),
            final(self).wf(),
            old(self)@.sound() && (record matches Ok(tx) ==> old(self)@.admits(tx@))
                ==> final(self)@.sound(),
            match record {
                Err(TransactionProcessingError::InputError(e)) => r == Err::<
                    (),
                    TransactionProcessingError,
                >(TransactionProcessingError::InputError(e)),
                _ => r is Ok,
            },
    {
        match record {
            Ok(tx) => {
                let _ = self.process(tx);
                Ok(())
            },
            Err(TransactionProcessingError::InputError(e)) => Err(
                TransactionProcessingError::InputError(e),
            ),
            Err(_) => Ok(()),
        }
    }

    /// Takes the whole input in order, and stops at the first item that
    /// reports the input lost.
    pub fn process_transactions_from(
        &mut self,
        records: Vec<Result<Transaction, TransactionProcessingError>>,
    ) -> (r: Result<(), TransactionProcessingError>)
        requires
            old(self).wf(),
            records_wf(records@),
        ensures
            final(self)@ == run(old(self)@, records_view(records@)).state,
            result_view(r) == run(old(self)@, records_view(records@)).result,
            final(self)@ == state_after(
                old(self)@,
                records_view(records@),
                items_taken(records_view(records@)),
            ),
            forall|i: int|
                0 <= i < items_taken(records_view(records@)) ==> #[trigger] step_is_exact(
                    old(self)@,
                    records_view(records@),
                    i,
                ),
            match first_fatal(records@) {
                Some(e) => r == Err::<(), TransactionProcessingError>(e),
                None => r is Ok,
            },
            final(self).wf(),
            old(self)@.sound() && run_admitted(old(self)@, records_view(records@))
                ==> final(self)@.sound(),
    {
        let ghost all = records_view(records@);
        let ghost start = self@;
        assert(all.subrange(0, all.len() as int) =~= all);
        assert(records@.subrange(0, records@.len() as int) =~= records@);
        for record in iter: records
            invariant
                self.wf(),
                start == old(self)@,
                records_wf(records@),
                all == records_view(records@),
                iter.seq() == records@,
                self@ == state_after(start, all, iter.index()),
                items_taken(all) == iter.index() + items_taken(
                    all.subrange(iter.index() as int, all.len() as int),
                ),
                forall|j: int| 0 <= j < iter.index() ==> #[trigger] step_is_exact(start, all, j),
                first_fatal(records@) == first_fatal(
                    records@.subrange(iter.index() as int, records@.len() as int),
                ),
                run(start, all) == run(self@, all.subrange(iter.index() as int, all.len() as int)),
                start.sound() && run_admitted(start, all) ==> self@.sound() && run_admitted(
                    self@,
                    all.subrange(iter.index() as int, all.len() as int),
                ),
        {
            let ghost before = self@;
            let ghost rest = all.subrange(iter.index() as int, all.len() as int);
            let ghost left = records@.subrange(iter.index() as int, records@.len() as int);
            assert(left[0] == record);
            assert(left.drop_first() =~= records@.subrange(
                iter.index() + 1,
                records@.len() as int,
            ));
            assert(rest[0] == record_view(record));
            assert(rest.drop_first() =~= all.subrange(iter.index() + 1, all.len() as int));
            assert(run(before, rest) == if is_fatal(rest[0]) {
                LedgerOutcome { state: before, result: Err(ProcessingErrorView::InputError) }
            } else {
                run(record_step(before, rest[0]), rest.drop_first())
            });
            assert(run_admitted(before, rest) == (is_fatal(rest[0]) || {
                &&& rest[0] matches Ok(tx) ==> before.admits(tx)
                &&& run_admitted(record_step(before, rest[0]), rest.drop_first())
            }));
            assert(items_taken(rest) == if is_fatal(rest[0]) {
                0
            } else {
                1 + items_taken(rest.drop_first())
            });
            assert(all[iter.index()] == rest[0]);
            let step = self.process_transactions_streaming_input(record);
            if step.is_err() {
                return step;
            }
            assert(self@ == state_after(start, all, iter.index() + 1));
            assert(step_is_exact(start, all, iter.index()));
        }
        Ok(())
    }
}

/// Runs the whole input on an empty ledger and hands the ledger back, or the
/// report that the input was lost.
pub fn process_input(records: Vec<Result<Transaction, TransactionProcessingError>>) -> (r: Result<
    PaymentsEngine,
    TransactionProcessingError,
>)
    requires
        records_wf(records@),
    ensures
        match r {
            Ok(engine) => engine@ == run(LedgerView::empty(), records_view(records@)).state
                && first_fatal(records@) is None && engine.wf() && (run_admitted(
                LedgerView::empty(),
                records_view(records@),
            ) ==> engine@.sound()),
            Err(e) => first_fatal(records@) == Some(e),
        },
        r is Ok ==> forall|i: int|
            0 <= i < items_taken(records_view(records@)) ==> #[trigger] step_is_exact(
                LedgerView::empty(),
                records_view(records@),
                i,
            ),
{
    let mut engine = PaymentsEngine::default();
    match engine.process_transactions_from(records) {
        Ok(()) => Ok(engine),
        Err(e) => Err(e),
    }
}

} // verus!
