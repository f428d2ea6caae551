//! Transaction records, the errors of reading and of processing them, and the
//! check of an amount's text.

use vstd::prelude::*;
use vstd::string::StrSliceExecFns;
use vstd::string::StringExecFns;
use crate::amount::Amount;
use crate::amount::AmountView;
use crate::amount::decimal_parse;
use crate::amount::fraction_text_short;
use crate::shared::decimal_text;
use crate::shared::id_text;
use crate::input_ingestion::InputAccessError;
use crate::rational::Rational;
use crate::shared::ClientID;
use crate::shared::TransactionID;

verus! {

/// What a transaction does. A deposit and a withdrawal carry their amount;
/// the other three name a recorded transaction by its id and take its amount.
#[derive(Debug)]
pub enum TransactionType {
    Deposit(Amount),
    Withdrawal(Amount),
    Dispute,
    Resolve,
    Chargeback,
}

pub enum TransactionTypeView {
    Deposit(AmountView),
    Withdrawal(AmountView),
    Dispute,
    Resolve,
    Chargeback,
}

impl View for TransactionType {
    type V = TransactionTypeView;

    open spec fn view(&self) -> TransactionTypeView {
        match *self {
            TransactionType::Deposit(a) => TransactionTypeView::Deposit(a@),
            TransactionType::Withdrawal(a) => TransactionTypeView::Withdrawal(a@),
            TransactionType::Dispute => TransactionTypeView::Dispute,
            TransactionType::Resolve => TransactionTypeView::Resolve,
            TransactionType::Chargeback => TransactionTypeView::Chargeback,
        }
    }
}

impl TransactionTypeView {
    /// The amount that a deposit or a withdrawal carries.
    pub open spec fn amount(self) -> Option<AmountView> {
        match self {
            TransactionTypeView::Deposit(a) => Some(a),
            TransactionTypeView::Withdrawal(a) => Some(a),
            _ => None,
        }
    }

    /// A carried amount has a non-zero denominator.
    pub open spec fn wf(self) -> bool {
        match self.amount() {
            Some(a) => a.wf(),
            None => true,
        }
    }

    /// A carried amount is not below zero.
    pub open spec fn non_negative(self) -> bool {
        match self.amount() {
            Some(a) => !a.value().lt(Rational::zero()),
            None => true,
        }
    }
}

/// One input record: the kind, the client it is addressed to, and its id.
#[derive(Debug)]
pub struct Transaction {
    pub tx_type: TransactionType,
    pub client_id: ClientID,
    pub tx_id: TransactionID,
}

pub struct TransactionView {
    pub tx_type: TransactionTypeView,
    pub client_id: ClientID,
    pub tx_id: TransactionID,
}

impl View for Transaction {
    type V = TransactionView;

    open spec fn view(&self) -> TransactionView {
        TransactionView { tx_type: self.tx_type@, client_id: self.client_id, tx_id: self.tx_id }
    }
}

impl Transaction {
    /// A carried amount has a non-zero denominator.
    pub open spec fn wf(&self) -> bool {
        self@.tx_type.wf()
    }
}

/// Whether two texts are the same.
pub fn same_text(a: &str, b: &str) -> (r: bool)
    ensures
        r == (a@ == b@),
{
    let n = a.unicode_len();
    if n != b.unicode_len() {
        return false;
    }
    let mut i: usize = 0;
    while i < n
        invariant
            n == a@.len(),
            n == b@.len(),
            i <= n,
            forall|j: int| 0 <= j < i ==> a@[j] == b@[j],
        decreases n - i,
    {
        if a.get_char(i) != b.get_char(i) {
            return false;
        }
        i += 1;
    }
    assert(a@ =~= b@);
    true
}

/// The kind of transaction that a record's `type` column and amount make:
/// the five names are lower case; a deposit and a withdrawal need an amount,
/// the other three carry none and an amount given with them is dropped.
pub open spec fn record_kind(tag: Seq<char>, amount: Option<AmountView>) -> Option<
    TransactionTypeView,
> {
    if tag == "deposit"@ {
        match amount {
            Some(a) => Some(TransactionTypeView::Deposit(a)),
            None => None,
        }
    } else if tag == "withdrawal"@ {
        match amount {
            Some(a) => Some(TransactionTypeView::Withdrawal(a)),
            None => None,
        }
    } else if tag == "dispute"@ {
        Some(TransactionTypeView::Dispute)
    } else if tag == "resolve"@ {
        Some(TransactionTypeView::Resolve)
    } else if tag == "chargeback"@ {
        Some(TransactionTypeView::Chargeback)
    } else {
        None
    }
}

impl Transaction {
    /// Makes a transaction of the columns of one record, or `None` where the
    /// `type` column names no kind or a deposit or withdrawal has no amount.
    pub fn from_record(
        tag: &str,
        client_id: ClientID,
        tx_id: TransactionID,
        amount: Option<Amount>,
    ) -> (r: Option<Transaction>)
        ensures
            match record_kind(
                tag@,
                match amount {
                    Some(a) => Some(a@),
                    None => None,
                },
            ) {
                Some(kind) => r matches Some(tx) && tx@ == (TransactionView {
                    tx_type: kind,
                    client_id,
                    tx_id,
                }),
                None => r is None,
            },
    {
        let tx_type = if same_text(tag, "deposit") {
            match amount {
                Some(a) => TransactionType::Deposit(a),
                None => {
                    return None;
                },
            }
        } else if same_text(tag, "withdrawal") {
            match amount {
                Some(a) => TransactionType::Withdrawal(a),
                None => {
                    return None;
                },
            }
        } else if same_text(tag, "dispute") {
            TransactionType::Dispute
        } else if same_text(tag, "resolve") {
            TransactionType::Resolve
        } else if same_text(tag, "chargeback") {
            TransactionType::Chargeback
        } else {
            return None;
        };
        Some(Transaction { tx_type, client_id, tx_id })
    }
}

/// The transaction index as the contracts see it: each record by its view.
pub open spec fn index_view(index: Map<TransactionID, Transaction>) -> Map<
    TransactionID,
    TransactionView,
> {
    index.map_values(|t: Transaction| t@)
}

/// Every amount held in the index has a non-zero denominator.
pub open spec fn index_wf(index: Map<TransactionID, TransactionView>) -> bool {
    forall|id: TransactionID| index.contains_key(id) ==> (#[trigger] index[id]).tx_type.wf()
}

/// Every amount held in the index is not below zero.
pub open spec fn index_non_negative(index: Map<TransactionID, TransactionView>) -> bool {
    forall|id: TransactionID|
        index.contains_key(id) ==> (#[trigger] index[id]).tx_type.non_negative()
}

/// Recording a transaction and then viewing the index is viewing it and then
/// recording the transaction's view.
pub proof fn lemma_index_view_insert(
    index: Map<TransactionID, Transaction>,
    id: TransactionID,
    tx: Transaction,
)
    ensures
        index_view(index.insert(id, tx)) == index_view(index).insert(id, tx@),
{
    assert(index_view(index.insert(id, tx)) =~= index_view(index).insert(id, tx@));
}

/// Why the text of an amount was refused.
#[derive(Debug)]
pub enum TransactionDeserializingError {
    UnableToParseAmount(String),
    NegativeAmount(String),
}

impl TransactionDeserializingError {
    /// The message that goes with the error.
    pub fn message(&self) -> (r: &'static str)
        ensures
            r@ == "amount must be a positive float"@,
    {
        "amount must be a positive float"
    }
}

/// Why a record had no effect on the ledger.
#[derive(Debug)]
pub enum TransactionProcessingError {
    InsufficientAvailableFunds(TransactionID, Amount),
    TargetAccountLocked(TransactionID),
    NotFound(TransactionID),
    InconsistentOperation,
    DeserializationError(TransactionDeserializingError),
    InputError(InputAccessError),
}

/// A processing error without the texts it carries.
pub enum ProcessingErrorView {
    InsufficientAvailableFunds(TransactionID, AmountView),
    TargetAccountLocked(TransactionID),
    NotFound(TransactionID),
    InconsistentOperation,
    DeserializationError,
    InputError,
}

impl View for TransactionProcessingError {
    type V = ProcessingErrorView;

    open spec fn view(&self) -> ProcessingErrorView {
        match *self {
            TransactionProcessingError::InsufficientAvailableFunds(id, a) =>
                ProcessingErrorView::InsufficientAvailableFunds(id, a@),
            TransactionProcessingError::TargetAccountLocked(id) =>
                ProcessingErrorView::TargetAccountLocked(id),
            TransactionProcessingError::NotFound(id) => ProcessingErrorView::NotFound(id),
            TransactionProcessingError::InconsistentOperation =>
                ProcessingErrorView::InconsistentOperation,
            TransactionProcessingError::DeserializationError(_) =>
                ProcessingErrorView::DeserializationError,
            TransactionProcessingError::InputError(_) => ProcessingErrorView::InputError,
        }
    }
}

impl ProcessingErrorView {
    /// The amount that the error carries, if any, has a non-zero denominator.
    pub open spec fn wf(self) -> bool {
        match self {
            ProcessingErrorView::InsufficientAvailableFunds(_, a) => a.wf(),
            _ => true,
        }
    }
}

impl TransactionProcessingError {
    /// The text of the message that goes with the error.
    pub open spec fn message_text(&self) -> Seq<char> {
        match *self {
            TransactionProcessingError::NotFound(id) => "Unable to process "@ + decimal_text(
                id as nat,
            ) + ", transaction not found. Assuming partner's data inconsistency."@,
            TransactionProcessingError::TargetAccountLocked(id) => "Unable to process "@
                + decimal_text(id as nat) + ", target account is locked"@,
            TransactionProcessingError::InsufficientAvailableFunds(id, amount) =>
                "Insufficient available funds to process "@ + fraction_text_short(amount@)
                    + " in transaction "@ + decimal_text(id as nat),
            TransactionProcessingError::InconsistentOperation =>
                "The targeted account doesn't match the account of the referred transaction"@,
            TransactionProcessingError::DeserializationError(_) =>
                "amount must be a positive float"@,
            TransactionProcessingError::InputError(e) => e.message_text(),
        }
    }

    /// The message that goes with the error.
    pub fn message(&self) -> (r: String)
        requires
            self@.wf(),
        ensures
            r@ == self.message_text(),
    {
        match self {
            TransactionProcessingError::NotFound(id) => {
                let mut text = String::from_str("Unable to process ");
                text.append(id_text(*id).as_str());
                text.append(", transaction not found. Assuming partner's data inconsistency.");
                text
            },
            TransactionProcessingError::TargetAccountLocked(id) => {
                let mut text = String::from_str("Unable to process ");
                text.append(id_text(*id).as_str());
                text.append(", target account is locked");
                text
            },
            TransactionProcessingError::InsufficientAvailableFunds(id, amount) => {
                let mut text = String::from_str("Insufficient available funds to process ");
                text.append(amount.to_short_text().as_str());
                text.append(" in transaction ");
                text.append(id_text(*id).as_str());
                text
            },
            TransactionProcessingError::InconsistentOperation => String::from_str(
                "The targeted account doesn't match the account of the referred transaction",
            ),
            TransactionProcessingError::DeserializationError(e) => String::from_str(e.message()),
            TransactionProcessingError::InputError(e) => e.message(),
        }
    }
}

/// What becomes of an amount's text, given what the parser made of it.
pub enum AmountReading {
    /// The text is empty: the record carries no amount.
    Absent,
    /// The text is no decimal number.
    Unreadable,
    /// The text is a number below zero.
    Negative,
    /// The text is this amount.
    Accepted(AmountView),
}

/// The reading of `text`, where `parsed` is what the parser gave for it.
pub open spec fn amount_reading(text: Seq<char>, parsed: Option<AmountView>) -> AmountReading {
    if text.len() == 0 {
        AmountReading::Absent
    } else {
        match parsed {
            None => AmountReading::Unreadable,
            Some(a) => if a.value().lt(Rational::zero()) {
                AmountReading::Negative
            } else {
                AmountReading::Accepted(a)
            },
        }
    }
}

/// Whether `result` is the outcome that goes with the reading of `text`.
pub open spec fn reading_matches(
    result: Result<Option<Amount>, TransactionDeserializingError>,
    text: Seq<char>,
    reading: AmountReading,
) -> bool {
    match reading {
        AmountReading::Absent => result == Ok::<Option<Amount>, TransactionDeserializingError>(None),
        AmountReading::Unreadable => result matches Err(
            TransactionDeserializingError::UnableToParseAmount(t),
        ) && t@ == text,
        AmountReading::Negative => result matches Err(
            TransactionDeserializingError::NegativeAmount(t),
        ) && t@ == text,
        AmountReading::Accepted(a) => result matches Ok(Some(v)) && v@ == a && v.wf()
            && !v.value().lt(Rational::zero()),
    }
}

/// Decides on an amount's text once the parser has been asked: an empty text
/// is no amount, a text that did not parse is unreadable, a number below zero
/// is refused, anything else is the amount.
pub fn accept_parsed_amount(text: &str, parsed: Option<Amount>) -> (r: Result<
    Option<Amount>,
    TransactionDeserializingError,
>)
    requires
        parsed matches Some(a) ==> a.wf(),
    ensures
        reading_matches(
            r,
            text@,
            amount_reading(
                text@,
                match parsed {
                    Some(a) => Some(a@),
                    None => None,
                },
            ),
        ),
{
    if text.unicode_len() == 0 {
        return Ok(None);
    }
    match parsed {
        None => Err(TransactionDeserializingError::UnableToParseAmount(text.to_owned())),
        Some(v) => {
            if v.is_negative() {
                Err(TransactionDeserializingError::NegativeAmount(text.to_owned()))
            } else {
                Ok(Some(v))
            }
        },
    }
}

/// Reads the amount column of a record. The other three kinds of record leave
/// it empty, which gives `None`; a deposit or a withdrawal must hold a decimal
/// number that is not below zero.
pub fn decimal_from_string(text: &str) -> (r: Result<Option<Amount>, TransactionDeserializingError>)
    ensures
        reading_matches(r, text@, amount_reading(text@, decimal_parse(text@))),
{
    let parsed = Amount::parse(text);
    accept_parsed_amount(text, parsed)
}

} // verus!
