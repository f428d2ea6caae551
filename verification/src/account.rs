//! One client's account and the rules by which each kind of transaction
//! changes it.

use vstd::prelude::*;
use vstd::string::StringExecFns;
use std::collections::HashMap;
use crate::amount::Amount;
use crate::amount::AmountView;
use crate::amount::fraction_difference;
use crate::amount::fraction_sum;
use crate::amount::fraction_text_padded;
use crate::shared::decimal_text;
use crate::shared::id_text;
use crate::disputes::Dispute;
use crate::laws::lemma_held_stays_within_total;
use crate::rational::lemma_le_congruent;
use crate::rational::lemma_wf_closed;
use crate::rational::Rational;
use crate::shared::ClientID;
use crate::shared::TransactionID;
use crate::transaction::index_non_negative;
use crate::transaction::index_view;
use crate::transaction::index_wf;
use crate::transaction::lemma_index_view_insert;
use crate::transaction::ProcessingErrorView;
use crate::transaction::Transaction;
use crate::transaction::TransactionProcessingError;
use crate::transaction::TransactionType;
use crate::transaction::TransactionTypeView;
use crate::transaction::TransactionView;

verus! {

broadcast use vstd::std_specs::hash::group_hash_axioms;

/// A client's balances. What the client may withdraw is `total - held`; it is
/// never stored.
#[derive(Debug)]
pub struct Account {
    pub client_id: ClientID,
    pub total: Amount,
    pub held: Amount,
    pub locked: bool,
}

pub struct AccountView {
    pub client_id: ClientID,
    pub total: AmountView,
    pub held: AmountView,
    pub locked: bool,
}

impl View for Account {
    type V = AccountView;

    open spec fn view(&self) -> AccountView {
        AccountView {
            client_id: self.client_id,
            total: self.total@,
            held: self.held@,
            locked: self.locked,
        }
    }
}

impl AccountView {
    /// Both balances have a non-zero denominator.
    pub open spec fn wf(self) -> bool {
        self.total.wf() && self.held.wf()
    }

    /// The account of a client that no transaction has named yet.
    pub open spec fn fresh(client_id: ClientID) -> AccountView {
        AccountView {
            client_id,
            total: Amount::zero_view(),
            held: Amount::zero_view(),
            locked: false,
        }
    }

    /// What the client may withdraw, digit for digit.
    pub open spec fn available(self) -> AmountView {
        fraction_difference(self.total, self.held)
    }

    /// What the client may withdraw, as a number: `total - held`.
    pub open spec fn available_value(self) -> Rational {
        self.total.value().minus(self.held.value())
    }

    /// No more is held than the account has: `held <= total`.
    pub open spec fn within_total(self) -> bool {
        self.held.value().le(self.total.value())
    }
}

/// One line of the output: the client, then what is available, held and the
/// total with four decimal places each, then whether the account is locked.
pub open spec fn output_line(account: AccountView) -> Seq<char> {
    decimal_text(account.client_id as nat) + ", "@ + fraction_text_padded(account.available())
        + ", "@ + fraction_text_padded(account.held) + ", "@ + fraction_text_padded(
        account.total,
    ) + ", "@ + (if account.locked {
        "true"@
    } else {
        "false"@
    })
}

/// What a transaction, once decided on, does to the balances.
pub enum Effect {
    /// Nothing: the transaction is refused or ignored.
    Nothing,
    /// A deposit is accepted: its amount is added to the total.
    Deposit(AmountView),
    /// A withdrawal is accepted: its amount is taken from the total.
    Withdrawal(AmountView),
    /// A dispute opens: the amount of the disputed transaction becomes held.
    Hold(AmountView),
    /// A dispute is resolved: the amount is held no longer.
    Release(AmountView),
    /// A disputed deposit is charged back: its amount leaves the total and
    /// what is held, and the account is locked.
    ChargebackDeposit(AmountView),
    /// A disputed withdrawal is charged back: its amount returns to the
    /// total and leaves what is held, and the account is locked.
    ChargebackWithdrawal(AmountView),
}

/// What is decided on a transaction: its effect and what it reports.
pub struct Decision {
    pub effect: Effect,
    pub result: Result<(), ProcessingErrorView>,
}

/// The transaction changes nothing and reports success.
pub open spec fn ignored() -> Decision {
    Decision { effect: Effect::Nothing, result: Ok(()) }
}

/// The transaction changes nothing and reports an error.
pub open spec fn refused(error: ProcessingErrorView) -> Decision {
    Decision { effect: Effect::Nothing, result: Err(error) }
}

/// The transaction takes effect.
pub open spec fn accepted(effect: Effect) -> Decision {
    Decision { effect, result: Ok(()) }
}

/// A deposit is ignored if its id is already recorded; else it is accepted.
pub open spec fn decide_deposit(
    tx: TransactionView,
    amount: AmountView,
    transactions: Map<TransactionID, TransactionView>,
) -> Decision {
    if transactions.contains_key(tx.tx_id) {
        ignored()
    } else {
        accepted(Effect::Deposit(amount))
    }
}

/// A withdrawal is ignored if its id is already recorded, refused if it is
/// more than what is available, else accepted.
pub open spec fn decide_withdrawal(
    account: AccountView,
    tx: TransactionView,
    amount: AmountView,
    transactions: Map<TransactionID, TransactionView>,
) -> Decision {
    if transactions.contains_key(tx.tx_id) {
        ignored()
    } else if account.available_value().lt(amount.value()) {
        refused(ProcessingErrorView::InsufficientAvailableFunds(tx.tx_id, amount))
    } else {
        accepted(Effect::Withdrawal(amount))
    }
}

/// A dispute is ignored if one is already open for the id; refused if the
/// record or the transaction it names belongs to another client, if no such
/// transaction is recorded, or if what is recorded is no deposit or
/// withdrawal; else the transaction's amount becomes held.
pub open spec fn decide_dispute(
    account: AccountView,
    tx: TransactionView,
    transactions: Map<TransactionID, TransactionView>,
    disputes: Map<TransactionID, Dispute>,
) -> Decision {
    if disputes.contains_key(tx.tx_id) {
        ignored()
    } else if tx.client_id != account.client_id {
        refused(ProcessingErrorView::InconsistentOperation)
    } else if !transactions.contains_key(tx.tx_id) {
        refused(ProcessingErrorView::NotFound(tx.tx_id))
    } else if transactions[tx.tx_id].client_id != account.client_id {
        refused(ProcessingErrorView::InconsistentOperation)
    } else {
        match transactions[tx.tx_id].tx_type.amount() {
            None => refused(ProcessingErrorView::InconsistentOperation),
            Some(amount) => accepted(Effect::Hold(amount)),
        }
    }
}

/// A resolve is ignored if no dispute is open for the id; refused if the
/// disputed transaction is not recorded or is no deposit or withdrawal; else
/// its amount is held no longer.
pub open spec fn decide_resolve(
    tx: TransactionView,
    transactions: Map<TransactionID, TransactionView>,
    disputes: Map<TransactionID, Dispute>,
) -> Decision {
    if !disputes.contains_key(tx.tx_id) {
        ignored()
    } else if !transactions.contains_key(tx.tx_id) {
        refused(ProcessingErrorView::NotFound(tx.tx_id))
    } else {
        match transactions[tx.tx_id].tx_type.amount() {
            None => refused(ProcessingErrorView::InconsistentOperation),
            Some(amount) => accepted(Effect::Release(amount)),
        }
    }
}

/// A chargeback is ignored if no dispute is open for the id; refused if the
/// disputed transaction is not recorded, belongs to another client or is no
/// deposit or withdrawal; else the disputed transaction is reversed.
pub open spec fn decide_chargeback(
    account: AccountView,
    tx: TransactionView,
    transactions: Map<TransactionID, TransactionView>,
    disputes: Map<TransactionID, Dispute>,
) -> Decision {
    if !disputes.contains_key(tx.tx_id) {
        ignored()
    } else if !transactions.contains_key(tx.tx_id) {
        refused(ProcessingErrorView::NotFound(tx.tx_id))
    } else if transactions[tx.tx_id].client_id != account.client_id {
        refused(ProcessingErrorView::InconsistentOperation)
    } else {
        match transactions[tx.tx_id].tx_type {
            TransactionTypeView::Deposit(amount) => accepted(Effect::ChargebackDeposit(amount)),
            TransactionTypeView::Withdrawal(amount) => accepted(
                Effect::ChargebackWithdrawal(amount),
            ),
            _ => refused(ProcessingErrorView::InconsistentOperation),
        }
    }
}

/// What is decided on a transaction. A locked account refuses everything.
pub open spec fn decide(
    account: AccountView,
    tx: TransactionView,
    transactions: Map<TransactionID, TransactionView>,
    disputes: Map<TransactionID, Dispute>,
) -> Decision {
    if account.locked {
        refused(ProcessingErrorView::TargetAccountLocked(tx.tx_id))
    } else {
        match tx.tx_type {
            TransactionTypeView::Deposit(amount) => decide_deposit(tx, amount, transactions),
            TransactionTypeView::Withdrawal(amount) => decide_withdrawal(
                account,
                tx,
                amount,
                transactions,
            ),
            TransactionTypeView::Dispute => decide_dispute(account, tx, transactions, disputes),
            TransactionTypeView::Resolve => decide_resolve(tx, transactions, disputes),
            TransactionTypeView::Chargeback => decide_chargeback(
                account,
                tx,
                transactions,
                disputes,
            ),
        }
    }
}

impl Effect {
    /// The total after the effect, as a number.
    pub open spec fn total_after(self, account: AccountView) -> Rational {
        match self {
            Effect::Deposit(a) => account.total.value().plus(a.value()),
            Effect::Withdrawal(a) => account.total.value().minus(a.value()),
            Effect::ChargebackDeposit(a) => account.total.value().minus(a.value()),
            Effect::ChargebackWithdrawal(a) => account.total.value().plus(a.value()),
            _ => account.total.value(),
        }
    }

    /// What is held after the effect, as a number.
    pub open spec fn held_after(self, account: AccountView) -> Rational {
        match self {
            Effect::Hold(a) => account.held.value().plus(a.value()),
            Effect::Release(a) => account.held.value().minus(a.value()),
            Effect::ChargebackDeposit(a) => account.held.value().minus(a.value()),
            Effect::ChargebackWithdrawal(a) => account.held.value().minus(a.value()),
            _ => account.held.value(),
        }
    }

    /// The account after the effect, digit for digit.
    pub open spec fn account_after(self, account: AccountView) -> AccountView {
        match self {
            Effect::Nothing => account,
            Effect::Deposit(a) => AccountView { total: fraction_sum(account.total, a), ..account },
            Effect::Withdrawal(a) => AccountView {
                total: fraction_difference(account.total, a),
                ..account
            },
            Effect::Hold(a) => AccountView { held: fraction_sum(account.held, a), ..account },
            Effect::Release(a) => AccountView {
                held: fraction_difference(account.held, a),
                ..account
            },
            Effect::ChargebackDeposit(a) => AccountView {
                total: fraction_difference(account.total, a),
                held: fraction_difference(account.held, a),
                locked: true,
                ..account
            },
            Effect::ChargebackWithdrawal(a) => AccountView {
                total: fraction_sum(account.total, a),
                held: fraction_difference(account.held, a),
                locked: true,
                ..account
            },
        }
    }

    /// The transaction index after the effect: an accepted deposit or
    /// withdrawal is recorded under its id.
    pub open spec fn transactions_after(
        self,
        tx: TransactionView,
        transactions: Map<TransactionID, TransactionView>,
    ) -> Map<TransactionID, TransactionView> {
        match self {
            Effect::Deposit(_) => transactions.insert(tx.tx_id, tx),
            Effect::Withdrawal(_) => transactions.insert(tx.tx_id, tx),
            _ => transactions,
        }
    }

    /// The open disputes after the effect: a dispute that opens is entered
    /// under the id it names, one that is resolved or charged back leaves.
    pub open spec fn disputes_after(
        self,
        tx: TransactionView,
        disputes: Map<TransactionID, Dispute>,
    ) -> Map<TransactionID, Dispute> {
        match self {
            Effect::Hold(_) => disputes.insert(
                tx.tx_id,
                Dispute { client_id: tx.client_id, tx_id: tx.tx_id },
            ),
            Effect::Release(_) => disputes.remove(tx.tx_id),
            Effect::ChargebackDeposit(_) => disputes.remove(tx.tx_id),
            Effect::ChargebackWithdrawal(_) => disputes.remove(tx.tx_id),
            _ => disputes,
        }
    }
}

/// The three things a transaction can change, and what it reports.
pub struct Outcome {
    pub result: Result<(), ProcessingErrorView>,
    pub account: AccountView,
    pub transactions: Map<TransactionID, TransactionView>,
    pub disputes: Map<TransactionID, Dispute>,
}

/// What one transaction does to an account and the two indices.
pub open spec fn account_step(
    account: AccountView,
    tx: TransactionView,
    transactions: Map<TransactionID, TransactionView>,
    disputes: Map<TransactionID, Dispute>,
) -> Outcome {
    let decision = decide(account, tx, transactions, disputes);
    Outcome {
        result: decision.result,
        account: decision.effect.account_after(account),
        transactions: decision.effect.transactions_after(tx, transactions),
        disputes: decision.effect.disputes_after(tx, disputes),
    }
}

/// The balances of `after` are, as numbers, those that the effect gives from
/// the balances of `before`.
pub open spec fn numbers_agree(after: AccountView, before: AccountView, effect: Effect) -> bool {
    &&& after.total.value().eqv(effect.total_after(before))
    &&& after.held.value().eqv(effect.held_after(before))
}

/// The conditions under which a transaction keeps `held <= total`: it holds
/// before; no amount, carried or recorded, is below zero; and if the
/// transaction opens a dispute, the disputed amount is still in the account
/// unheld, so that `held + amount <= total`. (A dispute on a deposit that has
/// been withdrawn since is accepted all the same, and holds more than the
/// account has.)
pub open spec fn keeps_within_total(
    account: AccountView,
    tx: TransactionView,
    transactions: Map<TransactionID, TransactionView>,
    disputes: Map<TransactionID, Dispute>,
) -> bool {
    &&& account.within_total()
    &&& tx.tx_type.non_negative()
    &&& index_non_negative(transactions)
    &&& decide(account, tx, transactions, disputes).effect matches Effect::Hold(a)
        ==> account.held.value().plus(a.value()).le(account.total.value())
}

/// A result of processing without the texts that an error may carry.
pub open spec fn result_view(result: Result<(), TransactionProcessingError>) -> Result<
    (),
    ProcessingErrorView,
> {
    match result {
        Ok(()) => Ok(()),
        Err(e) => Err(e@),
    }
}

/// Whether an account, the indices and a result are those of an outcome.
pub open spec fn is_outcome(
    outcome: Outcome,
    account: Account,
    transactions: Map<TransactionID, Transaction>,
    disputes: Map<TransactionID, Dispute>,
    result: Result<(), TransactionProcessingError>,
) -> bool {
    &&& account@ == outcome.account
    &&& index_view(transactions) == outcome.transactions
    &&& disputes == outcome.disputes
    &&& result_view(result) == outcome.result
}

impl Account {
    /// Both balances have a non-zero denominator.
    pub open spec fn wf(&self) -> bool {
        self@.wf()
    }

    /// The account of a client that no transaction has named yet: nothing in
    /// it, nothing held, not locked.
    pub fn new(client_id: ClientID) -> (r: Account)
        ensures
            r@ == AccountView::fresh(client_id),
            r.wf(),
    {
        Account { client_id, total: Amount::zero(), held: Amount::zero(), locked: false }
    }

    /// What the client may withdraw: the total less what is held.
    pub fn get_available(&self) -> (r: Amount)
        requires
            self.wf(),
        ensures
            r@ == self@.available(),
            r.wf(),
            r.value().eqv(self@.available_value()),
    {
        self.total.difference(&self.held)
    }

    /// The account as one line of the output: see [`output_line`].
    pub fn render_as_output_line(&self) -> (r: String)
        requires
            self.wf(),
        ensures
            r@ == output_line(self@),
    {
        let mut line = id_text(self.client_id as u32);
        line.append(", ");
        line.append(self.get_available().to_padded_text().as_str());
        line.append(", ");
        line.append(self.held.to_padded_text().as_str());
        line.append(", ");
        line.append(self.total.to_padded_text().as_str());
        line.append(", ");
        if self.locked {
            line.append("true");
        } else {
            line.append("false");
        }
        line
    }

    /// Applies one transaction to the account and the two indices: what
    /// [`decide`] decides on it is carried out. The new balances are given
    /// digit for digit, as the fractions that the arithmetic returns, and as
    /// numbers.
    pub fn process(
        &mut self,
        tx: Transaction,
        transactions: &mut HashMap<TransactionID, Transaction>,
        disputes: &mut HashMap<TransactionID, Dispute>,
    ) -> (r: Result<(), TransactionProcessingError>)
        requires
            old(self).wf(),
            tx.wf(),
            index_wf(index_view(old(transactions)@)),
        ensures
            is_outcome(
                account_step(
                    old(self)@,
                    tx@,
                    index_view(old(transactions)@),
                    old(disputes)@,
                ),
                *final(self),
                final(transactions)@,
                final(disputes)@,
                r,
            ),
            numbers_agree(
                final(self)@,
                old(self)@,
                decide(old(self)@, tx@, index_view(old(transactions)@), old(disputes)@).effect,
            ),
            final(self).wf(),
            index_wf(index_view(final(transactions)@)),
            keeps_within_total(
                old(self)@,
                tx@,
                index_view(old(transactions)@),
                old(disputes)@,
            ) ==> final(self)@.within_total() && index_non_negative(
                index_view(final(transactions)@),
            ),
    {
        let ghost txv = tx@;
        let r = if self.locked {
            Err(TransactionProcessingError::TargetAccountLocked(tx.tx_id))
        } else {
            match tx.tx_type {
                TransactionType::Deposit(_) => self.process_deposit(tx, transactions),
                TransactionType::Withdrawal(_) => self.process_withdrawal(tx, transactions),
                TransactionType::Dispute => self.process_dispute(tx, transactions, disputes),
                TransactionType::Resolve => self.process_resolve(tx, transactions, disputes),
                TransactionType::Chargeback => self.process_chargeback(tx, transactions, disputes),
            }
        };
        proof {
            let index = index_view(old(transactions)@);
            if keeps_within_total(old(self)@, txv, index, old(disputes)@) {
                lemma_held_stays_within_total(old(self)@, txv, index, old(disputes)@, self@);
            }
        }
        r
    }

    fn process_deposit(
        &mut self,
        tx: Transaction,
        transactions: &mut HashMap<TransactionID, Transaction>,
    ) -> (r: Result<(), TransactionProcessingError>)
        requires
            old(self).wf(),
            tx.wf(),
            tx.tx_type is Deposit,
            index_wf(index_view(old(transactions)@)),
        ensures
            ({
                let decision = decide_deposit(
                    tx@,
                    tx@.tx_type.amount().unwrap(),
                    index_view(old(transactions)@),
                );
                &&& result_view(r) == decision.result
                &&& final(self)@ == decision.effect.account_after(old(self)@)
                &&& index_view(final(transactions)@) == decision.effect.transactions_after(
                    tx@,
                    index_view(old(transactions)@),
                )
                &&& numbers_agree(final(self)@, old(self)@, decision.effect)
            }),
            final(self).wf(),
            index_wf(index_view(final(transactions)@)),
            tx@.tx_type.non_negative() && index_non_negative(index_view(old(transactions)@))
                ==> index_non_negative(index_view(final(transactions)@)),
    {
        if transactions.contains_key(&tx.tx_id) {
            return Ok(());
        }
        match &tx.tx_type {
            TransactionType::Deposit(amount) => {
                self.total = self.total.sum(amount);
            },
            _ => {},
        }
        proof {
            lemma_index_view_insert(old(transactions)@, tx.tx_id, tx);
        }
        transactions.insert(tx.tx_id, tx);
        Ok(())
    }

    fn process_withdrawal(
        &mut self,
        tx: Transaction,
        transactions: &mut HashMap<TransactionID, Transaction>,
    ) -> (r: Result<(), TransactionProcessingError>)
        requires
            old(self).wf(),
            tx.wf(),
            tx.tx_type is Withdrawal,
            index_wf(index_view(old(transactions)@)),
        ensures
            ({
                let decision = decide_withdrawal(
                    old(self)@,
                    tx@,
                    tx@.tx_type.amount().unwrap(),
                    index_view(old(transactions)@),
                );
                &&& result_view(r) == decision.result
                &&& final(self)@ == decision.effect.account_after(old(self)@)
                &&& index_view(final(transactions)@) == decision.effect.transactions_after(
                    tx@,
                    index_view(old(transactions)@),
                )
                &&& numbers_agree(final(self)@, old(self)@, decision.effect)
            }),
            final(self).wf(),
            index_wf(index_view(final(transactions)@)),
            tx@.tx_type.non_negative() && index_non_negative(index_view(old(transactions)@))
                ==> index_non_negative(index_view(final(transactions)@)),
    {
        if transactions.contains_key(&tx.tx_id) {
            return Ok(());
        }
        let available = self.get_available();
        match tx.tx_type {
            TransactionType::Withdrawal(amount) => {
                proof {
                    let a = amount.value();
                    let exact = self@.available_value();
                    lemma_wf_closed(self.total.value(), self.held.value());
                    if a.le(available.value()) {
                        lemma_le_congruent(a, available.value(), a, exact);
                    }
                    if a.le(exact) {
                        lemma_le_congruent(a, exact, a, available.value());
                    }
                }
                if available.less_than(&amount) {
                    return Err(
                        TransactionProcessingError::InsufficientAvailableFunds(tx.tx_id, amount),
                    );
                }
                self.total = self.total.difference(&amount);
                let recorded = Transaction {
                    tx_type: TransactionType::Withdrawal(amount),
                    client_id: tx.client_id,
                    tx_id: tx.tx_id,
                };
                proof {
                    lemma_index_view_insert(old(transactions)@, recorded.tx_id, recorded);
                }
                transactions.insert(recorded.tx_id, recorded);
                Ok(())
            },
            _ => Ok(()),
        }
    }

    fn process_dispute(
        &mut self,
        tx: Transaction,
        transactions: &mut HashMap<TransactionID, Transaction>,
        disputes: &mut HashMap<TransactionID, Dispute>,
    ) -> (r: Result<(), TransactionProcessingError>)
        requires
            old(self).wf(),
            index_wf(index_view(old(transactions)@)),
        ensures
            ({
                let decision = decide_dispute(
                    old(self)@,
                    tx@,
                    index_view(old(transactions)@),
                    old(disputes)@,
                );
                &&& result_view(r) == decision.result
                &&& final(self)@ == decision.effect.account_after(old(self)@)
                &&& final(disputes)@ == decision.effect.disputes_after(tx@, old(disputes)@)
                &&& numbers_agree(final(self)@, old(self)@, decision.effect)
            }),
            final(self).wf(),
            final(transactions)@ == old(transactions)@,
    {
        if disputes.contains_key(&tx.tx_id) {
            return Ok(());
        }
        if tx.client_id != self.client_id {
            return Err(TransactionProcessingError::InconsistentOperation);
        }
        match transactions.get(&tx.tx_id) {
            None => Err(TransactionProcessingError::NotFound(tx.tx_id)),
            Some(t) => {
                if t.client_id != self.client_id {
                    return Err(TransactionProcessingError::InconsistentOperation);
                }
                assert(index_view(transactions@)[tx.tx_id] == t@);
                match &t.tx_type {
                    TransactionType::Deposit(amount) => {
                        self.held = self.held.sum(amount);
                    },
                    TransactionType::Withdrawal(amount) => {
                        self.held = self.held.sum(amount);
                    },
                    _ => {
                        return Err(TransactionProcessingError::InconsistentOperation);
                    },
                }
                disputes.insert(tx.tx_id, Dispute::from(tx));
                Ok(())
            },
        }
    }

    fn process_resolve(
        &mut self,
        tx: Transaction,
        transactions: &mut HashMap<TransactionID, Transaction>,
        disputes: &mut HashMap<TransactionID, Dispute>,
    ) -> (r: Result<(), TransactionProcessingError>)
        requires
            old(self).wf(),
            index_wf(index_view(old(transactions)@)),
        ensures
            ({
                let decision = decide_resolve(
                    tx@,
                    index_view(old(transactions)@),
                    old(disputes)@,
                );
                &&& result_view(r) == decision.result
                &&& final(self)@ == decision.effect.account_after(old(self)@)
                &&& final(disputes)@ == decision.effect.disputes_after(tx@, old(disputes)@)
                &&& numbers_agree(final(self)@, old(self)@, decision.effect)
            }),
            final(self).wf(),
            final(transactions)@ == old(transactions)@,
    {
        if !disputes.contains_key(&tx.tx_id) {
            return Ok(());
        }
        match transactions.get(&tx.tx_id) {
            None => Err(TransactionProcessingError::NotFound(tx.tx_id)),
            Some(t) => {
                assert(index_view(transactions@)[tx.tx_id] == t@);
                match &t.tx_type {
                    TransactionType::Deposit(amount) => {
                        self.held = self.held.difference(amount);
                    },
                    TransactionType::Withdrawal(amount) => {
                        self.held = self.held.difference(amount);
                    },
                    _ => {
                        return Err(TransactionProcessingError::InconsistentOperation);
                    },
                }
                disputes.remove(&tx.tx_id);
                Ok(())
            },
        }
    }

    fn process_chargeback(
        &mut self,
        tx: Transaction,
        transactions: &mut HashMap<TransactionID, Transaction>,
        disputes: &mut HashMap<TransactionID, Dispute>,
    ) -> (r: Result<(), TransactionProcessingError>)
        requires
            old(self).wf(),
            index_wf(index_view(old(transactions)@)),
        ensures
            ({
                let decision = decide_chargeback(
                    old(self)@,
                    tx@,
                    index_view(old(transactions)@),
                    old(disputes)@,
                );
                &&& result_view(r) == decision.result
                &&& final(self)@ == decision.effect.account_after(old(self)@)
                &&& final(disputes)@ == decision.effect.disputes_after(tx@, old(disputes)@)
                &&& numbers_agree(final(self)@, old(self)@, decision.effect)
            }),
            final(self).wf(),
            final(transactions)@ == old(transactions)@,
    {
        if !disputes.contains_key(&tx.tx_id) {
            return Ok(());
        }
        match transactions.get(&tx.tx_id) {
            None => Err(TransactionProcessingError::NotFound(tx.tx_id)),
            Some(t) => {
                if t.client_id != self.client_id {
                    return Err(TransactionProcessingError::InconsistentOperation);
                }
                assert(index_view(transactions@)[tx.tx_id] == t@);
                match &t.tx_type {
                    TransactionType::Deposit(amount) => {
                        self.total = self.total.difference(amount);
                        self.held = self.held.difference(amount);
                    },
                    TransactionType::Withdrawal(amount) => {
                        self.total = self.total.sum(amount);
                        self.held = self.held.difference(amount);
                    },
                    _ => {
                        return Err(TransactionProcessingError::InconsistentOperation);
                    },
                }
                self.locked = true;
                disputes.remove(&tx.tx_id);
                Ok(())
            },
        }
    }
}

} // verus!
