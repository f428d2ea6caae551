//! What holds of the ledger's rules whatever the input: no more is held than
//! an account has while disputes are covered, a locked account is final, a
//! replayed id changes nothing, disputes open and close once, and no dispute
//! reaches across clients.

use vstd::prelude::*;
use crate::account::account_step;
use crate::account::AccountView;
use crate::account::decide;
use crate::account::Effect;
use crate::account::keeps_within_total;
use crate::account::numbers_agree;
use crate::account::Outcome;
use crate::amount::AmountView;
use crate::disputes::Dispute;
use crate::payments_engine::is_fatal;
use crate::payments_engine::ledger_step;
use crate::payments_engine::LedgerView;
use crate::payments_engine::record_step;
use crate::payments_engine::run;
use crate::rational::lemma_eqv_transitive;
use crate::rational::lemma_le_congruent;
use crate::rational::lemma_le_shift;
use crate::rational::lemma_le_transitive;
use crate::rational::lemma_non_negative_step;
use crate::rational::lemma_sum_congruent;
use crate::rational::lemma_sum_undone;
use crate::rational::lemma_swap_sides;
use crate::rational::lemma_wf_closed;
use crate::shared::ClientID;
use crate::shared::TransactionID;
use crate::transaction::index_wf;
use crate::transaction::ProcessingErrorView;
use crate::transaction::TransactionView;

verus! {

/// If `held <= total` before a transaction that meets the conditions of
/// [`keeps_within_total`], then `held <= total` after it, for any balances
/// that are the numbers the transaction's effect gives.
pub proof fn lemma_held_stays_within_total(
    account: AccountView,
    tx: TransactionView,
    transactions: Map<TransactionID, TransactionView>,
    disputes: Map<TransactionID, Dispute>,
    after: AccountView,
)
    requires
        account.wf(),
        after.wf(),
        tx.tx_type.wf(),
        index_wf(transactions),
        keeps_within_total(account, tx, transactions, disputes),
        numbers_agree(after, account, decide(account, tx, transactions, disputes).effect),
    ensures
        after.within_total(),
{
    let t = account.total.value();
    let h = account.held.value();
    let t2 = after.total.value();
    let h2 = after.held.value();
    match decide(account, tx, transactions, disputes).effect {
        Effect::Nothing => {
            lemma_le_congruent(h, t, h2, t2);
        },
        Effect::Deposit(amount) => {
            let a = amount.value();
            lemma_non_negative_step(t, a);
            lemma_wf_closed(t, a);
            lemma_le_transitive(h, t, t.plus(a));
            lemma_le_congruent(h, t.plus(a), h2, t2);
        },
        Effect::Withdrawal(amount) => {
            let a = amount.value();
            lemma_wf_closed(t, h);
            lemma_wf_closed(t, a);
            lemma_swap_sides(t, h, a);
            lemma_le_congruent(h, t.minus(a), h2, t2);
        },
        Effect::Hold(amount) => {
            let a = amount.value();
            lemma_wf_closed(h, a);
            lemma_le_congruent(h.plus(a), t, h2, t2);
        },
        Effect::Release(amount) => {
            let a = amount.value();
            lemma_non_negative_step(h, a);
            lemma_wf_closed(h, a);
            lemma_le_transitive(h.minus(a), h, t);
            lemma_le_congruent(h.minus(a), t, h2, t2);
        },
        Effect::ChargebackDeposit(amount) => {
            let a = amount.value();
            lemma_le_shift(h, t, a);
            lemma_wf_closed(h, a);
            lemma_wf_closed(t, a);
            lemma_le_congruent(h.minus(a), t.minus(a), h2, t2);
        },
        Effect::ChargebackWithdrawal(amount) => {
            let a = amount.value();
            lemma_non_negative_step(h, a);
            lemma_non_negative_step(t, a);
            lemma_wf_closed(h, a);
            lemma_wf_closed(t, a);
            lemma_le_transitive(h.minus(a), h, t);
            lemma_le_transitive(h.minus(a), t, t.plus(a));
            lemma_le_congruent(h.minus(a), t.plus(a), h2, t2);
        },
    }
}

/// A locked account refuses every transaction, of whatever kind, with
/// `TargetAccountLocked`, and neither it nor the indices change.
pub proof fn lemma_locked_account_refuses(
    account: AccountView,
    tx: TransactionView,
    transactions: Map<TransactionID, TransactionView>,
    disputes: Map<TransactionID, Dispute>,
)
    requires
        account.locked,
    ensures
        account_step(account, tx, transactions, disputes) == (Outcome {
            result: Err(ProcessingErrorView::TargetAccountLocked(tx.tx_id)),
            account,
            transactions,
            disputes,
        }),
{
}

/// No transaction unlocks an account.
pub proof fn lemma_lock_is_kept(
    account: AccountView,
    tx: TransactionView,
    transactions: Map<TransactionID, TransactionView>,
    disputes: Map<TransactionID, Dispute>,
)
    requires
        account.locked,
    ensures
        account_step(account, tx, transactions, disputes).account.locked,
{
}

/// A transaction leaves the accounts of all other clients as they are.
pub proof fn lemma_other_accounts_untouched(state: LedgerView, tx: TransactionView, c: ClientID)
    requires
        state.accounts.contains_key(c),
        c != tx.client_id,
    ensures
        ledger_step(state, tx).state.accounts.contains_key(c),
        ledger_step(state, tx).state.accounts[c] == state.accounts[c],
{
}

/// Once a client's account is locked, no input, however long, changes its
/// total or what is held, or unlocks it.
pub proof fn lemma_locked_account_is_final(
    state: LedgerView,
    records: Seq<Result<TransactionView, ProcessingErrorView>>,
    c: ClientID,
)
    requires
        state.accounts.contains_key(c),
        state.accounts[c].locked,
    ensures
        run(state, records).state.accounts.contains_key(c),
        run(state, records).state.accounts[c] == state.accounts[c],
    decreases records.len(),
{
    if records.len() > 0 && !is_fatal(records[0]) {
        let next = record_step(state, records[0]);
        lemma_locked_account_is_final(next, records.drop_first(), c);
    }
}

/// A deposit or a withdrawal whose id is already recorded changes neither the
/// account nor the indices.
pub proof fn lemma_replayed_id_changes_nothing(
    account: AccountView,
    tx: TransactionView,
    transactions: Map<TransactionID, TransactionView>,
    disputes: Map<TransactionID, Dispute>,
)
    requires
        tx.tx_type is Deposit || tx.tx_type is Withdrawal,
        transactions.contains_key(tx.tx_id),
    ensures
        account_step(account, tx, transactions, disputes).account == account,
        account_step(account, tx, transactions, disputes).transactions == transactions,
        account_step(account, tx, transactions, disputes).disputes == disputes,
{
}

/// A deposit or a withdrawal that was accepted, sent again, is accepted again
/// and changes nothing.
pub proof fn lemma_accepted_twice(
    account: AccountView,
    tx: TransactionView,
    transactions: Map<TransactionID, TransactionView>,
    disputes: Map<TransactionID, Dispute>,
)
    requires
        tx.tx_type is Deposit || tx.tx_type is Withdrawal,
        account_step(account, tx, transactions, disputes).result is Ok,
    ensures
        ({
            let first = account_step(account, tx, transactions, disputes);
            account_step(first.account, tx, first.transactions, first.disputes) == first
        }),
{
}

/// On the ledger, a deposit or a withdrawal whose id is already recorded
/// leaves the indices and every account as they are; at most the client it
/// names, if new, gets its empty account.
pub proof fn lemma_replayed_id_on_ledger(state: LedgerView, tx: TransactionView)
    requires
        tx.tx_type is Deposit || tx.tx_type is Withdrawal,
        state.transactions.contains_key(tx.tx_id),
    ensures
        ledger_step(state, tx).state == (LedgerView {
            accounts: state.accounts.insert(tx.client_id, state.account_for(tx.client_id)),
            ..state
        }),
        state.accounts.contains_key(tx.client_id) ==> ledger_step(state, tx).state == state,
{
    if state.accounts.contains_key(tx.client_id) {
        assert(state.accounts.insert(tx.client_id, state.accounts[tx.client_id])
            =~= state.accounts);
    }
}

/// A dispute on an id whose dispute is already open changes nothing.
pub proof fn lemma_second_dispute_changes_nothing(
    account: AccountView,
    tx: TransactionView,
    transactions: Map<TransactionID, TransactionView>,
    disputes: Map<TransactionID, Dispute>,
)
    requires
        tx.tx_type is Dispute,
        disputes.contains_key(tx.tx_id),
    ensures
        account_step(account, tx, transactions, disputes).account == account,
        account_step(account, tx, transactions, disputes).transactions == transactions,
        account_step(account, tx, transactions, disputes).disputes == disputes,
        !account.locked ==> account_step(account, tx, transactions, disputes).result is Ok,
{
}

/// A dispute that was accepted, sent again, is accepted again and changes
/// nothing.
pub proof fn lemma_dispute_twice(
    account: AccountView,
    tx: TransactionView,
    transactions: Map<TransactionID, TransactionView>,
    disputes: Map<TransactionID, Dispute>,
)
    requires
        tx.tx_type is Dispute,
        account_step(account, tx, transactions, disputes).result is Ok,
    ensures
        ({
            let first = account_step(account, tx, transactions, disputes);
            account_step(first.account, tx, first.transactions, first.disputes) == first
        }),
{
}

/// A resolve or a chargeback on an id with no open dispute changes nothing.
pub proof fn lemma_without_dispute_nothing_closes(
    account: AccountView,
    tx: TransactionView,
    transactions: Map<TransactionID, TransactionView>,
    disputes: Map<TransactionID, Dispute>,
)
    requires
        tx.tx_type is Resolve || tx.tx_type is Chargeback,
        !disputes.contains_key(tx.tx_id),
    ensures
        account_step(account, tx, transactions, disputes).account == account,
        account_step(account, tx, transactions, disputes).transactions == transactions,
        account_step(account, tx, transactions, disputes).disputes == disputes,
        !account.locked ==> account_step(account, tx, transactions, disputes).result is Ok,
{
}

/// On the ledger, a dispute on an id whose dispute is open, and a resolve or
/// a chargeback on an id with no open dispute, leave the indices and every
/// account as they are; at most the client that is named, if new, gets its
/// empty account.
pub proof fn lemma_idle_dispute_on_ledger(state: LedgerView, tx: TransactionView)
    requires
        (tx.tx_type is Dispute && state.disputes.contains_key(tx.tx_id)) || ((tx.tx_type is Resolve
            || tx.tx_type is Chargeback) && !state.disputes.contains_key(tx.tx_id)),
    ensures
        ledger_step(state, tx).state == (LedgerView {
            accounts: state.accounts.insert(tx.client_id, state.account_for(tx.client_id)),
            ..state
        }),
        state.accounts.contains_key(tx.client_id) ==> ledger_step(state, tx).state == state,
{
    if state.accounts.contains_key(tx.client_id) {
        assert(state.accounts.insert(tx.client_id, state.accounts[tx.client_id])
            =~= state.accounts);
    }
}

/// A dispute or a chargeback that names a transaction of another client
/// changes neither the account it is applied to nor the indices.
pub proof fn lemma_cross_account_rejected(
    account: AccountView,
    tx: TransactionView,
    transactions: Map<TransactionID, TransactionView>,
    disputes: Map<TransactionID, Dispute>,
)
    requires
        tx.tx_type is Dispute || tx.tx_type is Chargeback,
        account.client_id == tx.client_id,
        transactions.contains_key(tx.tx_id),
        transactions[tx.tx_id].client_id != tx.client_id,
    ensures
        account_step(account, tx, transactions, disputes).account == account,
        account_step(account, tx, transactions, disputes).transactions == transactions,
        account_step(account, tx, transactions, disputes).disputes == disputes,
        !account.locked && tx.tx_type is Dispute && !disputes.contains_key(tx.tx_id)
            ==> account_step(account, tx, transactions, disputes).result == Err::<
            (),
            ProcessingErrorView,
        >(ProcessingErrorView::InconsistentOperation),
        !account.locked && tx.tx_type is Chargeback && disputes.contains_key(tx.tx_id)
            ==> account_step(account, tx, transactions, disputes).result == Err::<
            (),
            ProcessingErrorView,
        >(ProcessingErrorView::InconsistentOperation),
{
}

/// On the ledger, a dispute or a chargeback that names a transaction of
/// another client changes no account, neither that client's nor the one it
/// is addressed to, and neither index.
pub proof fn lemma_cross_account_on_ledger(state: LedgerView, tx: TransactionView, c: ClientID)
    requires
        state.wf(),
        tx.tx_type is Dispute || tx.tx_type is Chargeback,
        state.transactions.contains_key(tx.tx_id),
        state.transactions[tx.tx_id].client_id != tx.client_id,
        state.accounts.contains_key(c),
    ensures
        ledger_step(state, tx).state.transactions == state.transactions,
        ledger_step(state, tx).state.disputes == state.disputes,
        ledger_step(state, tx).state.accounts.contains_key(c),
        ledger_step(state, tx).state.accounts[c] == state.accounts[c],
{
    lemma_cross_account_rejected(
        state.account_for(tx.client_id),
        tx,
        state.transactions,
        state.disputes,
    );
}

/// A dispute that is resolved leaves the balances, as numbers, where they
/// were before the dispute.
pub proof fn lemma_resolve_undoes_dispute(
    before: AccountView,
    amount: AmountView,
    disputed: AccountView,
    resolved: AccountView,
)
    requires
        before.wf(),
        amount.wf(),
        disputed.wf(),
        numbers_agree(disputed, before, Effect::Hold(amount)),
        numbers_agree(resolved, disputed, Effect::Release(amount)),
    ensures
        resolved.total.value().eqv(before.total.value()),
        resolved.held.value().eqv(before.held.value()),
{
    let a = amount.value();
    let h = before.held.value();
    lemma_eqv_transitive(resolved.total.value(), disputed.total.value(), before.total.value());
    lemma_sum_congruent(disputed.held.value(), a, h.plus(a), a);
    lemma_sum_undone(h, a);
    lemma_wf_closed(disputed.held.value(), a);
    lemma_wf_closed(h, a);
    lemma_wf_closed(h.plus(a), a);
    lemma_eqv_transitive(
        resolved.held.value(),
        disputed.held.value().minus(a),
        h.plus(a).minus(a),
    );
    lemma_eqv_transitive(resolved.held.value(), h.plus(a).minus(a), h);
}

/// A deposit that is disputed and charged back leaves the balances, as
/// numbers, where they were before the deposit.
pub proof fn lemma_chargeback_undoes_deposit(
    before: AccountView,
    amount: AmountView,
    deposited: AccountView,
    disputed: AccountView,
    reversed: AccountView,
)
    requires
        before.wf(),
        amount.wf(),
        deposited.wf(),
        disputed.wf(),
        numbers_agree(deposited, before, Effect::Deposit(amount)),
        numbers_agree(disputed, deposited, Effect::Hold(amount)),
        numbers_agree(reversed, disputed, Effect::ChargebackDeposit(amount)),
    ensures
        reversed.total.value().eqv(before.total.value()),
        reversed.held.value().eqv(before.held.value()),
{
    let a = amount.value();
    let t = before.total.value();
    let h = before.held.value();
    lemma_wf_closed(t, a);
    lemma_wf_closed(h, a);
    lemma_wf_closed(t.plus(a), a);
    lemma_wf_closed(h.plus(a), a);
    lemma_wf_closed(disputed.total.value(), a);
    lemma_wf_closed(disputed.held.value(), a);
    lemma_sum_undone(t, a);
    lemma_sum_undone(h, a);
    lemma_eqv_transitive(disputed.total.value(), deposited.total.value(), t.plus(a));
    lemma_sum_congruent(disputed.total.value(), a, t.plus(a), a);
    lemma_eqv_transitive(
        reversed.total.value(),
        disputed.total.value().minus(a),
        t.plus(a).minus(a),
    );
    lemma_eqv_transitive(reversed.total.value(), t.plus(a).minus(a), t);
    lemma_wf_closed(deposited.held.value(), a);
    lemma_sum_congruent(deposited.held.value(), a, h, a);
    lemma_eqv_transitive(disputed.held.value(), deposited.held.value().plus(a), h.plus(a));
    lemma_sum_congruent(disputed.held.value(), a, h.plus(a), a);
    lemma_eqv_transitive(
        reversed.held.value(),
        disputed.held.value().minus(a),
        h.plus(a).minus(a),
    );
    lemma_eqv_transitive(reversed.held.value(), h.plus(a).minus(a), h);
}

} // verus!
