use csv::{ReaderBuilder, StringRecord, Trim};
use fraction::BigFraction;
use tpe::amount::{has_slash, Amount};
use tpe::input_ingestion::{InputAccessError, InvalidInput};
use tpe::payments_engine::{process_input, PaymentsEngine};
use tpe::transaction::{
    accept_parsed_amount, decimal_from_string, same_text, Transaction,
    TransactionDeserializingError, TransactionProcessingError, TransactionType,
};

fn decimal(value: f64) -> Amount {
    let f = BigFraction::from(value);
    Amount {
        sign: f.sign().unwrap(),
        numer: f.numer().unwrap().to_u32_digits(),
        denom: f.denom().unwrap().to_u32_digits(),
    }
}

fn read_record(record: &StringRecord) -> Result<Transaction, TransactionProcessingError> {
    let unreadable = |text: &str| {
        TransactionProcessingError::DeserializationError(
            TransactionDeserializingError::UnableToParseAmount(text.to_string()),
        )
    };
    let tag = record.get(0).unwrap_or("");
    let client = record.get(1).unwrap_or("");
    let tx = record.get(2).unwrap_or("");
    let client_id = client.parse::<u16>().map_err(|_| unreadable(client))?;
    let tx_id = tx.parse::<u32>().map_err(|_| unreadable(tx))?;
    let amount = decimal_from_string(record.get(3).unwrap_or(""))
        .map_err(TransactionProcessingError::DeserializationError)?;
    Transaction::from_record(tag, client_id, tx_id, amount).ok_or_else(|| unreadable(tag))
}

fn read_all(data: &str, has_headers: bool) -> Vec<Result<Transaction, TransactionProcessingError>> {
    let mut reader = ReaderBuilder::new()
        .has_headers(has_headers)
        .trim(Trim::All)
        .delimiter(b',')
        .from_reader(data.as_bytes());
    let mut out = Vec::new();
    for row in reader.records() {
        out.push(read_record(&row.unwrap()));
    }
    out
}

fn amount_of(tx: &Transaction) -> Option<&Amount> {
    match &tx.tx_type {
        TransactionType::Deposit(a) => Some(a),
        TransactionType::Withdrawal(a) => Some(a),
        _ => None,
    }
}

#[test]
fn ignore_repeated_deposit() {
    let data =
        "type, client, tx, amount\ndeposit, 328, 56, 1.3\ndeposit, 328, 56, 2.6\n".to_string();
    let mut records = read_all(&data, true);
    let deposit = records.remove(0).unwrap();

    assert_eq!(deposit.client_id, 328);
    assert_eq!(deposit.tx_id, 56);
    assert!(!amount_of(&deposit).unwrap().same_value(&decimal(2.6)));
    assert!(amount_of(&deposit).unwrap().same_value(&decimal(1.3)));
}

#[test]
fn can_parse_one_deposit() {
    let data = "type, client, tx, amount\ndeposit, 1, 1, 1.0\n".to_string();
    let mut records = read_all(&data, true);
    let deposit = records.remove(0).unwrap();
    assert!(matches!(deposit.tx_type, TransactionType::Deposit(_)));
    assert_eq!(deposit.client_id, 1);
    assert_eq!(deposit.tx_id, 1);
    assert!(amount_of(&deposit).unwrap().same_value(&decimal(1.0)));
}

#[test]
fn can_parse_one_deposit_and_one_withdrawal() {
    let data = "type, client, tx, amount\ndeposit, 1, 1, 1.0\nwithdrawal, 1, 4, 1.5\n".to_string();
    let mut records = read_all(&data, true);
    let deposit = records.remove(0).unwrap();

    assert_eq!(deposit.client_id, 1);
    assert_eq!(deposit.tx_id, 1);
    assert!(amount_of(&deposit).unwrap().same_value(&decimal(1.0)));

    let withdrawal = records.remove(0).unwrap();
    assert!(matches!(withdrawal.tx_type, TransactionType::Withdrawal(_)));
    assert_eq!(withdrawal.client_id, 1);
    assert_eq!(withdrawal.tx_id, 4);
    assert!(amount_of(&withdrawal).unwrap().same_value(&decimal(1.5)));
}

#[test]
fn can_parse_one_deposit_with_negative_ammount() {
    let data = "type, client, tx, amount\ndeposit, 1, 1, -1.0\n".to_string();
    let mut records = read_all(&data, true);
    assert!(records.remove(0).is_err())
}

#[test]
fn can_parse_one_deposit_and_one_dispute_on_it() {
    let data = "type, client, tx, amount\ndeposit, 1, 1, 1.0\ndispute, 1, 1, \n".to_string();
    let mut records = read_all(&data, true);
    let deposit = records.remove(0).unwrap();
    assert!(matches!(deposit.tx_type, TransactionType::Deposit(_)));
    assert_eq!(deposit.client_id, 1);
    assert_eq!(deposit.tx_id, 1);
    assert!(amount_of(&deposit).unwrap().same_value(&decimal(1.0)));

    let dispute = records.remove(0).unwrap();
    assert!(matches!(dispute.tx_type, TransactionType::Dispute));
    assert_eq!(dispute.client_id, 1);
    assert_eq!(dispute.tx_id, 1);
    assert!(amount_of(&dispute).is_none());
}

#[test]
fn can_parse_one_deposit_and_one_dispute_and_one_resolve_on_it() {
    let data = "type, client, tx, amount\ndeposit, 1, 1, 1.0\ndispute, 1, 1, \nresolve, 1, 1, \n"
        .to_string();
    let mut records = read_all(&data, true);

    let deposit = records.remove(0).unwrap();
    assert!(matches!(deposit.tx_type, TransactionType::Deposit(_)));
    assert_eq!(deposit.client_id, 1);
    assert_eq!(deposit.tx_id, 1);
    assert!(amount_of(&deposit).unwrap().same_value(&decimal(1.0)));

    let dispute = records.remove(0).unwrap();
    assert!(matches!(dispute.tx_type, TransactionType::Dispute));
    assert_eq!(dispute.client_id, 1);
    assert_eq!(dispute.tx_id, 1);
    assert!(amount_of(&dispute).is_none());

    let resolve = records.remove(0).unwrap();
    assert!(matches!(resolve.tx_type, TransactionType::Resolve));
    assert_eq!(resolve.client_id, 1);
    assert_eq!(resolve.tx_id, 1);
    assert!(amount_of(&resolve).is_none());
}

#[test]
fn can_parse_one_deposit_and_one_dispute_then_a_chargeback() {
    let data = "type, client, tx, amount\ndeposit, 1, 1, 1.0\ndispute, 1, 1, \nchargeback, 1, 1, \n"
        .to_string();
    let mut records = read_all(&data, true);
    let deposit = records.remove(0).unwrap();
    assert!(matches!(deposit.tx_type, TransactionType::Deposit(_)));
    assert_eq!(deposit.client_id, 1);
    assert_eq!(deposit.tx_id, 1);
    assert!(amount_of(&deposit).unwrap().same_value(&decimal(1.0)));

    let dispute = records.remove(0).unwrap();
    assert!(matches!(dispute.tx_type, TransactionType::Dispute));
    assert_eq!(dispute.client_id, 1);
    assert_eq!(dispute.tx_id, 1);
    assert!(amount_of(&dispute).is_none());

    let chargeback = records.remove(0).unwrap();
    assert!(matches!(chargeback.tx_type, TransactionType::Chargeback));
    assert_eq!(chargeback.client_id, 1);
    assert_eq!(chargeback.tx_id, 1);
    assert!(amount_of(&chargeback).is_none());
}

#[test]
fn can_process_input_as_stream_of_bytes() {
    let data = "deposit, 1, 1, 1.0\ndeposit, 2, 2, 2.0";
    let mut pe = PaymentsEngine::default();
    for record in read_all(data, false) {
        pe.process_transactions_streaming_input(record).unwrap();
    }
    let account = pe.accounts.get(&1).unwrap();
    assert!(account.get_available().same_value(&decimal(1.0)));
    let account = pe.accounts.get(&2).unwrap();
    assert!(account.get_available().same_value(&decimal(2.0)))
}

#[test]
fn a_header_row_and_malformed_rows_are_dropped() {
    let data = "type, client, tx, amount\ndeposit, 1, 1, 1.0\nDeposit, 1, 2, 1.0\n\
                deposit, 1, 3, abc\ndeposit, 1, 4, -2\ndeposit, 1, 5,\ndeposit, 70000, 6, 1\n\
                refund, 1, 7, 1\ndeposit, 1, 8, 1/2\ndeposit, 1, 9, 2.25\n";
    let records = read_all(data, false);
    assert_eq!(records.len(), 10);
    assert_eq!(records.iter().filter(|r| r.is_ok()).count(), 2);
    let pe = process_input(records).unwrap();
    let account = pe.accounts.get(&1).unwrap();
    assert!(account.total.same_value(&decimal(3.25)));
    assert_eq!(pe.transactions.len(), 2);
}

#[test]
fn the_run_stops_when_the_input_is_lost() {
    let mut records = read_all("deposit, 1, 1, 1.0\ndeposit, 1, 2, 2.0\n", false);
    records.insert(
        1,
        Err(TransactionProcessingError::InputError(InputAccessError::FileNotFound(
            "gone.csv".to_string(),
        ))),
    );
    let mut pe = PaymentsEngine::default();
    let r = pe.process_transactions_from(records);
    match r {
        Err(TransactionProcessingError::InputError(InputAccessError::FileNotFound(name))) => {
            assert_eq!(name, "gone.csv")
        }
        _ => panic!("the run reports the lost input"),
    }
    assert!(pe.accounts.get(&1).unwrap().total.same_value(&decimal(1.0)));
    assert!(!pe.transactions.contains_key(&2));

    let lost = Err(TransactionProcessingError::InputError(InputAccessError::MissingInputFilename));
    assert!(pe.process_transactions_streaming_input(lost).is_err());
    let dropped = Err(TransactionProcessingError::InconsistentOperation);
    assert!(pe.process_transactions_streaming_input(dropped).is_ok());
    let dropped = Err(TransactionProcessingError::DeserializationError(
        TransactionDeserializingError::NegativeAmount("-1".to_string()),
    ));
    assert!(pe.process_transactions_streaming_input(dropped).is_ok());
    assert!(process_input(vec![Err(TransactionProcessingError::InputError(
        InputAccessError::MissingInputFilename
    ))])
    .is_err());
}

#[test]
fn the_text_of_an_amount_is_read_or_refused() {
    assert!(matches!(decimal_from_string(""), Ok(None)));
    assert!(decimal_from_string("1.0").unwrap().unwrap().same_value(&decimal(1.0)));
    assert!(decimal_from_string("0").unwrap().unwrap().same_value(&Amount::zero()));
    assert!(decimal_from_string("-0.0").unwrap().unwrap().same_value(&Amount::zero()));
    match decimal_from_string("-1.0") {
        Err(TransactionDeserializingError::NegativeAmount(t)) => assert_eq!(t, "-1.0"),
        _ => panic!("a number below zero is refused"),
    }
    match decimal_from_string("abc") {
        Err(TransactionDeserializingError::UnableToParseAmount(t)) => assert_eq!(t, "abc"),
        _ => panic!("no number"),
    }
    match decimal_from_string("1/0") {
        Err(TransactionDeserializingError::UnableToParseAmount(t)) => assert_eq!(t, "1/0"),
        _ => panic!("no decimal number"),
    }
    assert!(matches!(
        decimal_from_string("1/2"),
        Err(TransactionDeserializingError::UnableToParseAmount(_))
    ));
    assert!(matches!(
        decimal_from_string("1.2.3"),
        Err(TransactionDeserializingError::UnableToParseAmount(_))
    ));
    assert!(matches!(
        decimal_from_string("NaN"),
        Err(TransactionDeserializingError::UnableToParseAmount(_))
    ));
    assert!(matches!(
        decimal_from_string("inf"),
        Err(TransactionDeserializingError::UnableToParseAmount(_))
    ));
    assert!(matches!(accept_parsed_amount("", Some(decimal(1.0))), Ok(None)));
    assert!(matches!(
        accept_parsed_amount("x", None),
        Err(TransactionDeserializingError::UnableToParseAmount(_))
    ));
    assert!(matches!(
        accept_parsed_amount("x", Some(decimal(-1.0))),
        Err(TransactionDeserializingError::NegativeAmount(_))
    ));
    assert!(accept_parsed_amount("x", Some(decimal(2.0))).unwrap().unwrap().same_value(&decimal(2.0)));
    assert!(Amount::parse("12.5").unwrap().same_value(&decimal(12.5)));
    assert!(Amount::parse("twelve").is_none());
    assert!(Amount::parse("1/2").is_none());
    assert!(Amount::parse("1/0").is_none());
    assert!(Amount::parse("-3").unwrap().is_negative());
}

#[test]
fn texts_are_compared_and_searched() {
    assert!(has_slash("1/2"));
    assert!(has_slash("/"));
    assert!(!has_slash("1.2"));
    assert!(!has_slash(""));
    assert!(same_text("deposit", "deposit"));
    assert!(!same_text("deposit", "Deposit"));
    assert!(!same_text("deposit", "deposits"));
    assert!(same_text("", ""));
}

#[test]
fn a_record_needs_a_known_kind_and_its_amount() {
    let tx = Transaction::from_record("deposit", 3, 9, Some(decimal(1.5))).unwrap();
    assert!(matches!(tx.tx_type, TransactionType::Deposit(_)));
    assert_eq!((tx.client_id, tx.tx_id), (3, 9));
    assert!(amount_of(&tx).unwrap().same_value(&decimal(1.5)));
    let tx = Transaction::from_record("withdrawal", 3, 9, Some(decimal(1.5))).unwrap();
    assert!(matches!(tx.tx_type, TransactionType::Withdrawal(_)));
    assert!(Transaction::from_record("deposit", 3, 9, None).is_none());
    assert!(Transaction::from_record("withdrawal", 3, 9, None).is_none());
    assert!(Transaction::from_record("DEPOSIT", 3, 9, Some(decimal(1.5))).is_none());
    assert!(Transaction::from_record("", 3, 9, None).is_none());
    let tx = Transaction::from_record("dispute", 3, 9, Some(decimal(1.5))).unwrap();
    assert!(matches!(tx.tx_type, TransactionType::Dispute));
    let tx = Transaction::from_record("resolve", 3, 9, None).unwrap();
    assert!(matches!(tx.tx_type, TransactionType::Resolve));
    let tx = Transaction::from_record("chargeback", 3, 9, None).unwrap();
    assert!(matches!(tx.tx_type, TransactionType::Chargeback));
}

#[test]
fn every_error_has_its_message() {
    assert_eq!(
        TransactionProcessingError::NotFound(7).message(),
        "Unable to process 7, transaction not found. Assuming partner's data inconsistency."
    );
    assert_eq!(
        TransactionProcessingError::TargetAccountLocked(4294967295).message(),
        "Unable to process 4294967295, target account is locked"
    );
    assert_eq!(
        TransactionProcessingError::InsufficientAvailableFunds(12, decimal(2.5)).message(),
        "Insufficient available funds to process 2.5 in transaction 12"
    );
    assert_eq!(
        TransactionProcessingError::InconsistentOperation.message(),
        "The targeted account doesn't match the account of the referred transaction"
    );
    assert_eq!(
        TransactionProcessingError::DeserializationError(
            TransactionDeserializingError::UnableToParseAmount("x".to_string())
        )
        .message(),
        "amount must be a positive float"
    );
    assert_eq!(
        TransactionProcessingError::InputError(InputAccessError::FileNotFound("a.csv".to_string()))
            .message(),
        "file `a.csv` was not found"
    );
    assert_eq!(
        InputAccessError::MissingInputFilename.message(),
        "argument with the CSV input filename was not found"
    );
    assert_eq!(
        InputAccessError::UnableToCreateReader("denied".to_string()).message(),
        "failed to create deserializer: denied"
    );
    assert_eq!(InvalidInput::MissingInputFilename.message(), "Invalid input");
    assert_eq!(InvalidInput::FileNotFound("a".to_string()).message(), "Invalid input");
    assert_eq!(InvalidInput::FormatError("a".to_string()).message(), "Invalid input");
    assert_eq!(
        TransactionDeserializingError::NegativeAmount("-1".to_string()).message(),
        "amount must be a positive float"
    );
}
